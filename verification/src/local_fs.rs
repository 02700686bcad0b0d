//! Filesystem operation records.

use vstd::prelude::*;

verus! {

/// One recorded filesystem operation and its outcome.
#[derive(Debug)]
pub struct FileSystemOperation {
    pub operation: String,
    pub path: String,
    pub result: Option<String>,
    pub error: Option<String>,
}

} // verus!
