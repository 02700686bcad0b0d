//! The assistant request shape the AI endpoint accepts.

use vstd::prelude::*;

verus! {

/// One assistant prompt, with optional serialized context and an
/// optional model override.
#[derive(Debug)]
pub struct AIRequest {
    pub prompt: String,
    pub context_json: Option<String>,
    pub model: Option<String>,
}

} // verus!
