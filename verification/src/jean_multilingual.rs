//! The assistant language service: its vocabulary and service handle.

use vstd::prelude::*;

use crate::commands::DatabasePool;

verus! {

/// A language the assistant can answer in.
#[derive(Debug, Clone, Copy, PartialEq, Eq, Structural)]
pub enum JeanLanguage {
    English,
    Arabic,
    Spanish,
    Chinese,
    French,
    German,
    Japanese,
    Korean,
    Portuguese,
    Russian,
}

/// The language service: holds the database it reads and writes.
#[derive(Debug)]
pub struct JeanMultilingual {
    pub db: DatabasePool,
}

impl JeanMultilingual {
    /// A language service over this database.
    pub fn new(db: DatabasePool) -> (r: Self)
        ensures
            r.db == db,
    {
        JeanMultilingual { db }
    }
}

} // verus!
