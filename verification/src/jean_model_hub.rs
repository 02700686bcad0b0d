//! The assistant model hub: its vocabulary and service handle.

use vstd::prelude::*;

use crate::commands::DatabasePool;

verus! {

/// Where a hub-managed model runs.
#[derive(Debug, Clone, Copy, PartialEq, Eq, Structural)]
pub enum ModelBackend {
    Local,
    Cloud,
    Colab,
    Api,
    Hybrid,
}

/// What kind of work a hub-managed model performs.
#[derive(Debug, Clone, Copy, PartialEq, Eq, Structural)]
pub enum ModelType {
    LLM,
    TTS,
    STT,
    Vision,
    Embedding,
    Translation,
}

/// Operational state of a hub-managed model.
#[derive(Debug, Clone, Copy, PartialEq, Eq, Structural)]
pub enum ModelStatus {
    Active,
    Inactive,
    Loading,
    Error,
    Updating,
}

/// The model hub service: holds the database it reads and writes.
#[derive(Debug)]
pub struct JeanModelHub {
    pub db: DatabasePool,
}

impl JeanModelHub {
    /// A model hub over this database.
    pub fn new(db: DatabasePool) -> (r: Self)
        ensures
            r.db == db,
    {
        JeanModelHub { db }
    }
}

} // verus!
