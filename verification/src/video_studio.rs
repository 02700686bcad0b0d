//! Video project lifecycle.

use vstd::prelude::*;

verus! {

/// Stage of a video project.
#[derive(Debug, Clone, Copy, PartialEq, Eq, Structural)]
pub enum VideoProjectStatus {
    Draft,
    Processing,
    Completed,
    Failed,
}

} // verus!
