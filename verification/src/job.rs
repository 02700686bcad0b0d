//! Jobs and their lifecycle state machine.
//!
//! A job is one accepted request to run a model against an input, tracked
//! until it reaches a terminal state. The machine is:
//! `Pending -> Processing -> Completed | Failed`, with `Cancelled`
//! reachable from `Pending` (clean) and from `Processing` (best effort).
//! No transition leaves a terminal state.

use vstd::prelude::*;

use crate::error::JobError;

verus! {

/// Lifecycle state of a job.
#[derive(Debug, Clone, Copy, PartialEq, Eq, Structural)]
pub enum JobStatus {
    Pending,
    Processing,
    Completed,
    Failed,
    Cancelled,
}

/// Queue admission priority of a job.
#[derive(Debug, Clone, Copy, PartialEq, Eq, Structural)]
pub enum JobPriority {
    Low,
    Normal,
    High,
    Critical,
}

impl JobPriority {
    /// Numeric rank: a higher rank dequeues first.
    pub open spec fn spec_rank(self) -> u8 {
        match self {
            JobPriority::Low => 0u8,
            JobPriority::Normal => 1u8,
            JobPriority::High => 2u8,
            JobPriority::Critical => 3u8,
        }
    }

    /// Numeric rank: a higher rank dequeues first.
    #[verifier::when_used_as_spec(spec_rank)]
    pub fn rank(self) -> (r: u8)
        ensures
            r == self.spec_rank(),
    {
        match self {
            JobPriority::Low => 0,
            JobPriority::Normal => 1,
            JobPriority::High => 2,
            JobPriority::Critical => 3,
        }
    }
}

/// The payload a text-generation job carries to its backend. One
/// optional stop sequence is carried through to the backend.
#[derive(Debug, PartialEq, Eq)]
pub struct TextInput {
    pub prompt: String,
    pub max_tokens: Option<u32>,
    pub top_k: Option<u32>,
    pub stop: Option<String>,
}

/// The payload an image-generation job carries to its backend.
#[derive(Debug, PartialEq, Eq)]
pub struct ImageInput {
    pub prompt: String,
    pub negative_prompt: Option<String>,
    pub width: u32,
    pub height: u32,
    pub num_inference_steps: u32,
}

/// A job's input payload, opaque to everything but the estimator and the
/// backend adapter.
#[derive(Debug, PartialEq, Eq)]
pub enum JobInput {
    Text(TextInput),
    Image(ImageInput),
}

/// What a successful backend call produced. `tokens_generated` is the
/// metadata used to reconcile the actual cost of token-billed models.
#[derive(Debug, PartialEq, Eq)]
pub struct JobOutput {
    pub response: String,
    pub tokens_generated: Option<u64>,
}

/// One accepted request, tracked through its lifecycle. Timestamps are
/// unix milliseconds.
#[derive(Debug)]
pub struct AiJob {
    pub id: u64,
    pub user_id: String,
    pub model_name: String,
    pub model_version: String,
    pub input: JobInput,
    pub status: JobStatus,
    pub priority: JobPriority,
    pub created_at: i64,
    pub started_at: Option<i64>,
    pub completed_at: Option<i64>,
    pub estimated_cost_cents: u32,
    pub actual_cost_cents: Option<u32>,
    pub result: Option<JobOutput>,
    pub error: Option<JobError>,
}

impl JobStatus {
    /// Terminal states admit no further transition.
    pub open spec fn spec_is_terminal(self) -> bool {
        match self {
            JobStatus::Completed => true,
            JobStatus::Failed => true,
            JobStatus::Cancelled => true,
            JobStatus::Pending => false,
            JobStatus::Processing => false,
        }
    }

    /// Terminal states admit no further transition.
    #[verifier::when_used_as_spec(spec_is_terminal)]
    pub fn is_terminal(self) -> (r: bool)
        ensures
            r == self.spec_is_terminal(),
    {
        match self {
            JobStatus::Completed => true,
            JobStatus::Failed => true,
            JobStatus::Cancelled => true,
            JobStatus::Pending => false,
            JobStatus::Processing => false,
        }
    }

    /// The transition relation of the job state machine.
    pub open spec fn spec_can_transition(self, to: JobStatus) -> bool {
        match (self, to) {
            (JobStatus::Pending, JobStatus::Processing) => true,
            (JobStatus::Pending, JobStatus::Cancelled) => true,
            (JobStatus::Processing, JobStatus::Completed) => true,
            (JobStatus::Processing, JobStatus::Failed) => true,
            (JobStatus::Processing, JobStatus::Cancelled) => true,
            _ => false,
        }
    }
}

impl Clone for TextInput {
    fn clone(&self) -> (res: Self)
        ensures
            res == *self,
    {
        TextInput {
            prompt: self.prompt.clone(),
            max_tokens: self.max_tokens,
            top_k: self.top_k,
            stop: match &self.stop {
                Some(s) => Some(s.clone()),
                None => None,
            },
        }
    }
}

impl Clone for ImageInput {
    fn clone(&self) -> (res: Self)
        ensures
            res == *self,
    {
        ImageInput {
            prompt: self.prompt.clone(),
            negative_prompt: match &self.negative_prompt {
                Some(p) => Some(p.clone()),
                None => None,
            },
            width: self.width,
            height: self.height,
            num_inference_steps: self.num_inference_steps,
        }
    }
}

impl Clone for JobInput {
    fn clone(&self) -> (res: Self)
        ensures
            res == *self,
    {
        match self {
            JobInput::Text(t) => JobInput::Text(t.clone()),
            JobInput::Image(im) => JobInput::Image(im.clone()),
        }
    }
}

impl Clone for JobOutput {
    fn clone(&self) -> (res: Self)
        ensures
            res == *self,
    {
        JobOutput {
            response: self.response.clone(),
            tokens_generated: self.tokens_generated,
        }
    }
}

impl Clone for AiJob {
    fn clone(&self) -> (res: Self)
        ensures
            res == *self,
    {
        AiJob {
            id: self.id,
            user_id: self.user_id.clone(),
            model_name: self.model_name.clone(),
            model_version: self.model_version.clone(),
            input: self.input.clone(),
            status: self.status,
            priority: self.priority,
            created_at: self.created_at,
            started_at: self.started_at,
            completed_at: self.completed_at,
            estimated_cost_cents: self.estimated_cost_cents,
            actual_cost_cents: self.actual_cost_cents,
            result: match &self.result {
                Some(r) => Some(r.clone()),
                None => None,
            },
            error: match &self.error {
                Some(e) => Some(e.clone()),
                None => None,
            },
        }
    }
}

impl AiJob {
    /// The record invariant: `result` and `actual_cost_cents` are set if
    /// and only if the job completed; `error` is set if and only if it
    /// failed.
    pub open spec fn wf(self) -> bool {
        &&& self.result is Some <==> self.status == JobStatus::Completed
        &&& self.actual_cost_cents is Some <==> self.status == JobStatus::Completed
        &&& self.error is Some <==> self.status == JobStatus::Failed
    }
}

/// No state is reachable from a terminal state: part of the
/// state-machine guarantee that a job, once observed terminal, is never
/// observed in another state afterwards.
pub proof fn lemma_terminal_states_are_final(from: JobStatus, to: JobStatus)
    requires
        from.spec_is_terminal(),
    ensures
        !from.spec_can_transition(to),
{
}

/// The two terminal outcomes exclude each other's evidence: a
/// well-formed job that completed carries a result and an actual cost
/// and no error; one that failed carries an error and neither a result
/// nor a cost. In particular no job ever satisfies both terminal
/// states' obligations at once.
pub proof fn lemma_terminal_evidence(job: AiJob)
    requires
        job.wf(),
    ensures
        job.status == JobStatus::Completed ==> job.result is Some && job.actual_cost_cents is Some
            && job.error is None,
        job.status == JobStatus::Failed ==> job.error is Some && job.result is None
            && job.actual_cost_cents is None,
        !(job.status == JobStatus::Completed && job.status == JobStatus::Failed),
{
}

} // verus!
