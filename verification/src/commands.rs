//! Shared shapes for filesystem listings and database access.

use vstd::prelude::*;

verus! {

/// One directory listing entry.
#[derive(Debug)]
pub struct FileEntry {
    pub name: String,
    pub path: String,
    pub is_directory: bool,
    pub size: Option<u64>,
    pub modified: Option<String>,
}

/// A database connection descriptor: the hubs hold one and hand it to
/// whatever performs the actual queries.
#[derive(Debug, PartialEq, Eq)]
pub struct DatabasePool {
    pub url: String,
}

impl Clone for DatabasePool {
    fn clone(&self) -> (res: Self)
        ensures
            res == *self,
    {
        DatabasePool { url: self.url.clone() }
    }
}

} // verus!
