//! Proxy node administration shapes.

use vstd::prelude::*;

verus! {

/// A request to register a proxy node.
#[derive(Debug)]
pub struct CreateNodeRequest {
    pub host: String,
    pub port: u16,
    pub protocol: String,
}

} // verus!
