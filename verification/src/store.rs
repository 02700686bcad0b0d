//! The job store: the single source of truth for every accepted job.
//!
//! The store assigns each job a fresh numeric id and is the only place a
//! job's status ever changes. Each mutating operation enforces the
//! lifecycle state machine: a transition attempted from a state that does
//! not admit it fails with `InvalidStateTransition` and leaves the store
//! untouched, so a terminal job is never overwritten.

use vstd::prelude::*;

use crate::error::{GatewayError, JobError};
use crate::job::{AiJob, JobInput, JobOutput, JobPriority, JobStatus};

verus! {

/// Index of the first job with this id, if any.
pub open spec fn spec_find(s: Seq<AiJob>, id: u64) -> Option<int>
    decreases s.len(),
{
    if s.len() == 0 {
        None
    } else if s[0].id == id {
        Some(0)
    } else {
        match spec_find(s.skip(1), id) {
            Some(i) => Some(i + 1),
            None => None,
        }
    }
}

/// A found index really carries the id it was found under.
pub proof fn lemma_find_some(s: Seq<AiJob>, id: u64)
    ensures
        match spec_find(s, id) {
            Some(i) => 0 <= i < s.len() && s[i].id == id,
            None => true,
        },
    decreases s.len(),
{
    if s.len() > 0 && s[0].id != id {
        lemma_find_some(s.skip(1), id);
    }
}

/// A job id no record carries is never found.
pub proof fn lemma_find_absent(s: Seq<AiJob>, id: u64)
    requires
        forall|i: int| 0 <= i < s.len() ==> (#[trigger] s[i]).id != id,
    ensures
        spec_find(s, id) is None,
    decreases s.len(),
{
    if s.len() > 0 {
        assert(forall|i: int| 0 <= i < s.skip(1).len() ==> (#[trigger] s.skip(1)[i]).id != id);
        lemma_find_absent(s.skip(1), id);
    }
}

/// Appending a record changes no existing lookup: an id found before is
/// found at the same place, and the new record is found only under its
/// own id, at the end.
pub proof fn lemma_find_push(s: Seq<AiJob>, x: AiJob, id: u64)
    ensures
        spec_find(s.push(x), id) == match spec_find(s, id) {
            Some(i) => Some(i),
            None => if x.id == id {
                Some(s.len() as int)
            } else {
                None
            },
        },
    decreases s.len(),
{
    if s.len() == 0 {
        assert(s.push(x)[0] == x);
        assert(s.push(x).skip(1) =~= Seq::<AiJob>::empty());
        assert(spec_find(s, id) is None);
        if x.id == id {
            assert(spec_find(s.push(x), id) == Some(0int));
        } else {
            assert(spec_find(Seq::<AiJob>::empty(), id) is None);
            assert(spec_find(s.push(x), id) is None);
        }
    } else {
        assert(s.push(x)[0] == s[0]);
        assert(s.push(x).skip(1) =~= s.skip(1).push(x));
        lemma_find_push(s.skip(1), x, id);
        if s[0].id == id {
            assert(spec_find(s.push(x), id) == Some(0int));
            assert(spec_find(s, id) == Some(0int));
        } else {
            assert(s.skip(1).len() == s.len() - 1);
            assert(spec_find(s.push(x), id) == match spec_find(s.skip(1).push(x), id) {
                Some(i) => Some(i + 1),
                None => None::<int>,
            });
            assert(spec_find(s, id) == match spec_find(s.skip(1), id) {
                Some(i) => Some(i + 1),
                None => None::<int>,
            });
        }
    }
}

/// Replacing a record with one carrying the same id changes no lookup.
pub proof fn lemma_find_update(s: Seq<AiJob>, i: int, x: AiJob, id: u64)
    requires
        0 <= i < s.len(),
        x.id == s[i].id,
    ensures
        spec_find(s.update(i, x), id) == spec_find(s, id),
    decreases s.len(),
{
    if i == 0 {
        assert(s.update(i, x)[0] == x);
        if s[0].id != id {
            assert(s.update(i, x).skip(1) =~= s.skip(1));
        }
    } else {
        assert(s.update(i, x)[0] == s[0]);
        if s[0].id != id {
            assert(s.update(i, x).skip(1) =~= s.skip(1).update(i - 1, x));
            lemma_find_update(s.skip(1), i - 1, x, id);
        }
    }
}

/// The record `create` appends: a fresh `Pending` job with the estimate
/// recorded and no outcome fields set.
pub open spec fn spec_new_job(
    id: u64,
    user_id: String,
    model_name: String,
    model_version: String,
    input: JobInput,
    estimated_cost_cents: u32,
    priority: JobPriority,
    now_ms: i64,
) -> AiJob {
    AiJob {
        id,
        user_id: user_id,
        model_name: model_name,
        model_version: model_version,
        input,
        status: JobStatus::Pending,
        priority,
        created_at: now_ms,
        started_at: None,
        completed_at: None,
        estimated_cost_cents,
        actual_cost_cents: None,
        result: None,
        error: None,
    }
}

/// Whether a job passes a status filter: no filter admits everything.
pub open spec fn spec_status_matches(j: AiJob, filter: Option<JobStatus>) -> bool {
    match filter {
        None => true,
        Some(st) => j.status == st,
    }
}

/// The jobs of `s` passing a status filter, in order.
pub open spec fn spec_filtered_jobs(s: Seq<AiJob>, filter: Option<JobStatus>) -> Seq<AiJob> {
    s.filter(|j: AiJob| spec_status_matches(j, filter))
}

/// One step of scanning the store: extending the scanned prefix by one
/// job keeps it exactly when it passes the filter.
proof fn lemma_filtered_jobs_step(s: Seq<AiJob>, filter: Option<JobStatus>, i: int)
    requires
        0 <= i < s.len(),
    ensures
        spec_filtered_jobs(s.subrange(0, i + 1), filter) == if spec_status_matches(s[i], filter) {
            spec_filtered_jobs(s.subrange(0, i), filter).push(s[i])
        } else {
            spec_filtered_jobs(s.subrange(0, i), filter)
        },
{
    reveal_with_fuel(Seq::filter, 2);
    assert(s.subrange(0, i + 1).drop_last() =~= s.subrange(0, i));
    assert(s.subrange(0, i + 1).last() == s[i]);
}

/// Durable record of submitted jobs. Ids are assigned by the store
/// itself, strictly increasing, so they are unique by construction.
#[derive(Debug)]
pub struct JobStore {
    jobs: Vec<AiJob>,
    next_id: u64,
}

impl JobStore {
    /// All jobs, in creation order.
    pub closed spec fn view(self) -> Seq<AiJob> {
        self.jobs@
    }

    /// The id the next created job will get.
    pub closed spec fn spec_next_id(self) -> u64 {
        self.next_id
    }

    /// Store invariant: every id is below the allocation counter and
    /// unique, and every record satisfies the job invariant.
    pub open spec fn wf(self) -> bool {
        &&& forall|i: int| 0 <= i < self@.len() ==> (#[trigger] self@[i]).id < self.spec_next_id()
        &&& forall|i: int, j: int|
            0 <= i < j < self@.len() ==> self@[i].id != self@[j].id
        &&& forall|i: int| 0 <= i < self@.len() ==> (#[trigger] self@[i]).wf()
    }

    /// An empty store.
    pub fn new() -> (r: JobStore)
        ensures
            r@ == Seq::<AiJob>::empty(),
            r.wf(),
            r.spec_next_id() == 0,
    {
        JobStore { jobs: Vec::new(), next_id: 0 }
    }

    /// Number of jobs ever created and still recorded.
    pub fn len(&self) -> (r: usize)
        ensures
            r == self@.len(),
    {
        self.jobs.len()
    }

    /// Borrows the job at position `i`, in creation order.
    pub fn at(&self, i: usize) -> (r: &AiJob)
        requires
            i < self@.len(),
        ensures
            *r == self@[i as int],
    {
        &self.jobs[i]
    }

    /// Persists a new job in state `Pending` and returns its fresh id.
    pub fn create(
        &mut self,
        user_id: String,
        model_name: String,
        model_version: String,
        input: JobInput,
        estimated_cost_cents: u32,
        priority: JobPriority,
        now_ms: i64,
    ) -> (id: u64)
        requires
            old(self).wf(),
            old(self).spec_next_id() < u64::MAX,
        ensures
            final(self).wf(),
            id == old(self).spec_next_id(),
            final(self).spec_next_id() == old(self).spec_next_id() + 1,
            final(self)@ == old(self)@.push(
                spec_new_job(
                    id,
                    user_id,
                    model_name,
                    model_version,
                    input,
                    estimated_cost_cents,
                    priority,
                    now_ms,
                ),
            ),
    {
        let id = self.next_id;
        let job = AiJob {
            id,
            user_id,
            model_name,
            model_version,
            input,
            status: JobStatus::Pending,
            priority,
            created_at: now_ms,
            started_at: None,
            completed_at: None,
            estimated_cost_cents,
            actual_cost_cents: None,
            result: None,
            error: None,
        };
        self.jobs.push(job);
        self.next_id = self.next_id + 1;
        id
    }

    /// Index of the job with this id, scanning in creation order.
    fn find_index(&self, id: u64) -> (r: Option<usize>)
        ensures
            match r {
                Some(i) => spec_find(self@, id) == Some(i as int) && i < self@.len()
                    && self@[i as int].id == id,
                None => spec_find(self@, id) is None,
            },
    {
        let n = self.jobs.len();
        let mut i: usize = 0;
        proof {
            assert(self@.skip(0) =~= self@);
        }
        while i < n
            invariant
                n == self@.len(),
                i <= n,
                spec_find(self@, id) == match spec_find(self@.skip(i as int), id) {
                    Some(k) => Some(k + i),
                    None => None::<int>,
                },
            decreases n - i,
        {
            proof {
                assert(self@.skip(i as int)[0] == self@[i as int]);
                assert(self@.skip(i as int).skip(1) =~= self@.skip(i as int + 1));
            }
            if self.jobs[i].id == id {
                return Some(i);
            }
            i = i + 1;
        }
        proof {
            assert(self@.skip(n as int) =~= Seq::<AiJob>::empty());
        }
        None
    }

    /// Looks a job up by id.
    pub fn get(&self, id: u64) -> (r: Option<&AiJob>)
        ensures
            match r {
                Some(job) => spec_find(self@, id) matches Some(i) && *job == self@[i],
                None => spec_find(self@, id) is None,
            },
    {
        match self.find_index(id) {
            Some(i) => Some(&self.jobs[i]),
            None => None,
        }
    }

    /// Administrative listing: every job, or every job in one status,
    /// in creation order.
    pub fn list(&self, filter: Option<JobStatus>) -> (r: Vec<AiJob>)
        ensures
            r@ == spec_filtered_jobs(self@, filter),
    {
        let n = self.jobs.len();
        let mut out: Vec<AiJob> = Vec::new();
        let mut i: usize = 0;
        proof {
            assert(spec_filtered_jobs(self@.subrange(0, 0), filter) =~= Seq::<AiJob>::empty());
        }
        while i < n
            invariant
                n == self@.len(),
                i <= n,
                out@ == spec_filtered_jobs(self@.subrange(0, i as int), filter),
            decreases n - i,
        {
            proof {
                lemma_filtered_jobs_step(self@, filter, i as int);
            }
            let keep = match filter {
                None => true,
                Some(st) => self.jobs[i].status == st,
            };
            if keep {
                out.push(self.jobs[i].clone());
            }
            i = i + 1;
        }
        proof {
            assert(self@.subrange(0, n as int) =~= self@);
        }
        out
    }

    /// Moves a `Pending` job to `Processing`, recording when it started.
    /// Fails with `NotFound` for an unknown id and with
    /// `InvalidStateTransition` for any job no longer `Pending`; on
    /// failure nothing changes.
    pub fn start_job(&mut self, id: u64, now_ms: i64) -> (r: Result<(), GatewayError>)
        requires
            old(self).wf(),
        ensures
            final(self).wf(),
            final(self).spec_next_id() == old(self).spec_next_id(),
            match spec_find(old(self)@, id) {
                None => r == Err::<(), GatewayError>(GatewayError::NotFound) && *final(self)
                    == *old(self),
                Some(i) => {
                    if old(self)@[i].status == JobStatus::Pending {
                        r == Ok::<(), GatewayError>(()) && final(self)@ == old(self)@.update(
                            i,
                            AiJob {
                                status: JobStatus::Processing,
                                started_at: Some(now_ms),
                                ..old(self)@[i]
                            },
                        )
                    } else {
                        r == Err::<(), GatewayError>(GatewayError::InvalidStateTransition)
                            && *final(self) == *old(self)
                    }
                },
            },
    {
        match self.find_index(id) {
            None => Err(GatewayError::NotFound),
            Some(i) => {
                if matches!(self.jobs[i].status, JobStatus::Pending) {
                    let updated = AiJob {
                        status: JobStatus::Processing,
                        started_at: Some(now_ms),
                        ..self.jobs[i].clone()
                    };
                    self.jobs.set(i, updated);
                    Ok(())
                } else {
                    Err(GatewayError::InvalidStateTransition)
                }
            },
        }
    }

    /// Moves a `Processing` job to `Completed`, recording the result,
    /// the reconciled cost and the completion time. Fails with
    /// `NotFound` for an unknown id and with `InvalidStateTransition`
    /// for any job not `Processing` — in particular for every terminal
    /// job — changing nothing on failure.
    pub fn complete_job(
        &mut self,
        id: u64,
        result: JobOutput,
        actual_cost_cents: u32,
        now_ms: i64,
    ) -> (r: Result<(), GatewayError>)
        requires
            old(self).wf(),
        ensures
            final(self).wf(),
            final(self).spec_next_id() == old(self).spec_next_id(),
            match spec_find(old(self)@, id) {
                None => r == Err::<(), GatewayError>(GatewayError::NotFound) && *final(self)
                    == *old(self),
                Some(i) => {
                    if old(self)@[i].status == JobStatus::Processing {
                        r == Ok::<(), GatewayError>(()) && final(self)@ == old(self)@.update(
                            i,
                            AiJob {
                                status: JobStatus::Completed,
                                completed_at: Some(now_ms),
                                actual_cost_cents: Some(actual_cost_cents),
                                result: Some(result),
                                ..old(self)@[i]
                            },
                        )
                    } else {
                        r == Err::<(), GatewayError>(GatewayError::InvalidStateTransition)
                            && *final(self) == *old(self)
                    }
                },
            },
    {
        match self.find_index(id) {
            None => Err(GatewayError::NotFound),
            Some(i) => {
                if matches!(self.jobs[i].status, JobStatus::Processing) {
                    let updated = AiJob {
                        status: JobStatus::Completed,
                        completed_at: Some(now_ms),
                        actual_cost_cents: Some(actual_cost_cents),
                        result: Some(result),
                        ..self.jobs[i].clone()
                    };
                    self.jobs.set(i, updated);
                    Ok(())
                } else {
                    Err(GatewayError::InvalidStateTransition)
                }
            },
        }
    }

    /// Moves a `Processing` job to `Failed`, recording why and when.
    /// Fails with `NotFound` for an unknown id and with
    /// `InvalidStateTransition` for any job not `Processing` — never
    /// overwriting a completed job's result — changing nothing on
    /// failure.
    pub fn fail_job(&mut self, id: u64, error: JobError, now_ms: i64) -> (r: Result<
        (),
        GatewayError,
    >)
        requires
            old(self).wf(),
        ensures
            final(self).wf(),
            final(self).spec_next_id() == old(self).spec_next_id(),
            match spec_find(old(self)@, id) {
                None => r == Err::<(), GatewayError>(GatewayError::NotFound) && *final(self)
                    == *old(self),
                Some(i) => {
                    if old(self)@[i].status == JobStatus::Processing {
                        r == Ok::<(), GatewayError>(()) && final(self)@ == old(self)@.update(
                            i,
                            AiJob {
                                status: JobStatus::Failed,
                                completed_at: Some(now_ms),
                                error: Some(error),
                                ..old(self)@[i]
                            },
                        )
                    } else {
                        r == Err::<(), GatewayError>(GatewayError::InvalidStateTransition)
                            && *final(self) == *old(self)
                    }
                },
            },
    {
        match self.find_index(id) {
            None => Err(GatewayError::NotFound),
            Some(i) => {
                if matches!(self.jobs[i].status, JobStatus::Processing) {
                    let updated = AiJob {
                        status: JobStatus::Failed,
                        completed_at: Some(now_ms),
                        error: Some(error),
                        ..self.jobs[i].clone()
                    };
                    self.jobs.set(i, updated);
                    Ok(())
                } else {
                    Err(GatewayError::InvalidStateTransition)
                }
            },
        }
    }

    /// Cancels a job: clean from `Pending`, best effort from
    /// `Processing`. Fails with `NotFound` for an unknown id and with
    /// `InvalidStateTransition` for a terminal job, changing nothing on
    /// failure.
    pub fn cancel_job(&mut self, id: u64, now_ms: i64) -> (r: Result<(), GatewayError>)
        requires
            old(self).wf(),
        ensures
            final(self).wf(),
            final(self).spec_next_id() == old(self).spec_next_id(),
            match spec_find(old(self)@, id) {
                None => r == Err::<(), GatewayError>(GatewayError::NotFound) && *final(self)
                    == *old(self),
                Some(i) => {
                    if !old(self)@[i].status.spec_is_terminal() {
                        r == Ok::<(), GatewayError>(()) && final(self)@ == old(self)@.update(
                            i,
                            AiJob {
                                status: JobStatus::Cancelled,
                                completed_at: Some(now_ms),
                                ..old(self)@[i]
                            },
                        )
                    } else {
                        r == Err::<(), GatewayError>(GatewayError::InvalidStateTransition)
                            && *final(self) == *old(self)
                    }
                },
            },
    {
        match self.find_index(id) {
            None => Err(GatewayError::NotFound),
            Some(i) => {
                if !self.jobs[i].status.is_terminal() {
                    let updated = AiJob {
                        status: JobStatus::Cancelled,
                        completed_at: Some(now_ms),
                        ..self.jobs[i].clone()
                    };
                    self.jobs.set(i, updated);
                    Ok(())
                } else {
                    Err(GatewayError::InvalidStateTransition)
                }
            },
        }
    }
}

} // verus!
