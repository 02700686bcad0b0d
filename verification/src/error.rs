//! Error taxonomy of the gateway.
//!
//! Submission-time validation errors are returned synchronously; every
//! post-submission failure is recorded into the job store and observed
//! through the job's status instead.

use vstd::prelude::*;

verus! {

/// Errors surfaced by the gateway's synchronous operations.
#[derive(Debug, Clone, PartialEq, Eq, Structural)]
pub enum GatewayError {
    /// The requested model name or version is not registered.
    ModelNotFound,
    /// The job queue is at capacity; the caller should retry later.
    QueueFull,
    /// The request payload is malformed.
    InvalidRequest,
    /// A transition was attempted that the job state machine forbids.
    InvalidStateTransition,
    /// The referenced job does not exist.
    NotFound,
}

/// Why a job ended in the `Failed` state. A timed-out backend call is
/// distinguished from an error the backend itself reported.
#[derive(Debug, PartialEq, Eq)]
pub enum JobError {
    /// The backend call exceeded its deadline.
    Timeout,
    /// The backend returned a failure; the original message is kept.
    Backend(String),
    /// The resolved model's type has no dispatch path.
    UnsupportedModel,
    /// The job's model could no longer be resolved at dispatch time.
    ModelUnavailable,
}

impl Clone for JobError {
    fn clone(&self) -> (res: Self)
        ensures
            res == *self,
    {
        match self {
            JobError::Timeout => JobError::Timeout,
            JobError::Backend(msg) => JobError::Backend(msg.clone()),
            JobError::UnsupportedModel => JobError::UnsupportedModel,
            JobError::ModelUnavailable => JobError::ModelUnavailable,
        }
    }
}

} // verus!
