//! The assistant memory service handle.

use vstd::prelude::*;

use crate::commands::DatabasePool;

verus! {

/// The memory service: holds the database it reads and writes.
#[derive(Debug)]
pub struct JeanMemory {
    pub db: DatabasePool,
}

impl JeanMemory {
    /// A memory service over this database.
    pub fn new(db: DatabasePool) -> (r: Self)
        ensures
            r.db == db,
    {
        JeanMemory { db }
    }
}

} // verus!
