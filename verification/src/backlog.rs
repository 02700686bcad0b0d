//! Backlog item classification.

use vstd::prelude::*;

verus! {

/// Urgency of a backlog item.
#[derive(Debug, Clone, Copy, PartialEq, Eq, Structural)]
pub enum Priority {
    Low,
    Medium,
    High,
    Critical,
}

/// Lifecycle stage of a backlog item.
#[derive(Debug, Clone, Copy, PartialEq, Eq, Structural)]
pub enum Status {
    Idea,
    Planned,
    InProgress,
    Completed,
    Archived,
}

} // verus!
