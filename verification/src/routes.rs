//! Assistant route request shapes.

use vstd::prelude::*;

verus! {

/// A memory search request: a query with optional filters and paging.
#[derive(Debug)]
pub struct SearchMemoryRequest {
    pub query: String,
    pub memory_type: Option<String>,
    pub category: Option<String>,
    pub tags: Option<Vec<String>>,
    pub limit: Option<i32>,
    pub offset: Option<i32>,
}

} // verus!
