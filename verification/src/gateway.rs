//! The gateway: request orchestration over the registry, the estimator,
//! the store and the queue.
//!
//! Submission validates the request, resolves a model, quotes an
//! estimate, records the job as `Pending` and enqueues it — nothing
//! else. A single dispatcher is the only consumer of the queue: it pops
//! the highest-priority admission, moves the job to `Processing` and
//! hands its caller the backend call to perform; the caller reports the
//! outcome back and the job reaches `Completed` or `Failed` with its
//! reconciled cost. All state lives in one value constructed at process
//! start and threaded through explicitly.

use vstd::prelude::*;

use crate::cost::{estimate_cost_cents, actual_cost_cents, spec_actual_cents, spec_estimate_cents};
use crate::error::{GatewayError, JobError};
use crate::job::{AiJob, JobInput, JobOutput, JobPriority, JobStatus, TextInput, ImageInput};
use crate::queue::{lemma_find_entry_absent, lemma_find_entry_some, spec_find_entry, spec_precedes, JobQueue, QueueEntry};
use crate::registry::{spec_resolve, HealthStatus, ModelInfo, ModelRegistry, ModelType, UnitType};
use crate::store::{lemma_find_absent, lemma_find_push, lemma_find_some, lemma_find_update};
use crate::store::{spec_find, JobStore};
use crate::text::{spec_dec_digits, u64_to_dec_string};

verus! {

/// A text-generation submission. Sampling knobs the gateway itself
/// never reads are carried as given; one optional stop sequence is
/// supported.
#[derive(Debug)]
pub struct GenerateRequest {
    pub prompt: String,
    pub model: Option<String>,
    pub version: Option<String>,
    pub stream: Option<bool>,
    pub user_id: String,
    pub max_tokens: Option<u32>,
    pub top_k: Option<u32>,
    pub stop: Option<String>,
    pub priority: Option<JobPriority>,
}

/// An image-generation submission.
#[derive(Debug)]
pub struct ImageGenerateRequest {
    pub prompt: String,
    pub negative_prompt: Option<String>,
    pub model: Option<String>,
    pub user_id: String,
    pub width: Option<u32>,
    pub height: Option<u32>,
    pub num_inference_steps: Option<u32>,
}

/// What a submission returns immediately: the job id, its initial
/// status, the quoted estimate and, when streaming was requested, the
/// path a status stream is served under.
#[derive(Debug)]
pub struct GenerateResponse {
    pub job_id: u64,
    pub status: String,
    pub estimated_cost_cents: u32,
    pub stream_url: Option<String>,
}

/// Which backend protocol a dispatched job needs.
#[derive(Debug, Clone, Copy, PartialEq, Eq, Structural)]
pub enum BackendKind {
    ChatCompletion,
    ImageGeneration,
}

/// The one backend call a started job requires its caller to perform.
/// The billing fields come from the model resolved at dispatch time and
/// are handed back to `finish_job` for cost reconciliation.
#[derive(Debug)]
pub struct BackendRequest {
    pub job_id: u64,
    pub endpoint: String,
    pub kind: BackendKind,
    pub input: JobInput,
    pub unit_type: UnitType,
    pub cost_per_unit_millicents: u32,
}

/// What `begin_job` did.
#[derive(Debug)]
pub enum BeginOutcome {
    /// The job moved to `Processing`; perform this call and report the
    /// outcome to `finish_job`.
    Started(BackendRequest),
    /// Unknown job id; nothing changed.
    NotFound,
    /// The job was no longer `Pending`; nothing changed.
    NotPending,
    /// The job moved to `Processing` and immediately to `Failed`: its
    /// model could not be resolved, or its type has no dispatch path.
    Rejected(JobError),
}

/// How the backend call a job was dispatched for ended.
#[derive(Debug)]
pub enum BackendOutcome {
    /// The backend answered; its payload.
    Success(JobOutput),
    /// The backend reported a failure; its message.
    Failure(String),
    /// The call exceeded its deadline.
    TimedOut,
}

/// One event of a status stream: a snapshot of the observed job, with
/// `done` set once the job is terminal and the stream should close, or
/// `Gone` when the job does not exist (the stream closes after emitting
/// it).
#[derive(Debug)]
pub enum StreamEvent {
    Snapshot {
        status: JobStatus,
        result: Option<JobOutput>,
        error: Option<JobError>,
        actual_cost_cents: Option<u32>,
        done: bool,
    },
    Gone,
}

/// Aggregate health: model counts and the current queue depth.
#[derive(Debug, Clone, Copy, PartialEq, Eq, Structural)]
pub struct HealthSummary {
    pub total_models: usize,
    pub healthy_models: usize,
    pub unhealthy_models: usize,
    pub queue_depth: usize,
}

/// Healthy entries in a registry listing.
pub open spec fn spec_count_healthy(s: Seq<ModelInfo>) -> nat
    decreases s.len(),
{
    if s.len() == 0 {
        0
    } else {
        spec_count_healthy(s.drop_last()) + if s.last().health_status == HealthStatus::Healthy {
            1nat
        } else {
            0nat
        }
    }
}

/// The model name a text submission asks for, defaulting to the
/// gateway's standard text model.
pub open spec fn spec_name_or_text_default(model: Option<String>) -> Seq<char> {
    match model {
        Some(m) => m@,
        None => "qwen-3-72b"@,
    }
}

/// The model name an image submission asks for, defaulting to the
/// gateway's standard image model.
pub open spec fn spec_name_or_image_default(model: Option<String>) -> Seq<char> {
    match model {
        Some(m) => m@,
        None => "sdxl"@,
    }
}

/// The version a submission asks for, defaulting to `"latest"`.
pub open spec fn spec_version_or_default(version: Option<String>) -> Seq<char> {
    match version {
        Some(v) => v@,
        None => "latest"@,
    }
}

/// The priority a submission asks for, defaulting to `Normal`.
pub open spec fn spec_priority_or_default(priority: Option<JobPriority>) -> JobPriority {
    match priority {
        Some(p) => p,
        None => JobPriority::Normal,
    }
}

/// The gateway's whole state: constructed once at process start and
/// threaded through as an explicit dependency, never rebuilt per
/// request.
#[derive(Debug)]
pub struct AiGatewayState {
    pub registry: ModelRegistry,
    pub store: JobStore,
    pub queue: JobQueue,
}

impl AiGatewayState {
    /// Cross-component invariant: store and queue are well formed, each
    /// queued admission names a distinct existing job, and a queued job
    /// is still `Pending` — the dispatcher is the only path out of the
    /// queue, so nothing runs twice.
    pub open spec fn wf(self) -> bool {
        &&& self.store.wf()
        &&& self.queue.wf()
        &&& forall|i: int|
            0 <= i < self.queue@.len() ==> match spec_find(
                self.store@,
                (#[trigger] self.queue@[i]).job_id,
            ) {
                Some(k) => self.store@[k].status == JobStatus::Pending,
                None => false,
            }
        &&& forall|i: int, j: int|
            0 <= i < j < self.queue@.len() ==> self.queue@[i].job_id != self.queue@[j].job_id
    }

    /// A fresh gateway with an empty registry, an empty store, and a
    /// queue bounded at `queue_capacity`.
    pub fn new(queue_capacity: usize) -> (r: AiGatewayState)
        ensures
            r.wf(),
            r.registry@ == Seq::<ModelInfo>::empty(),
            r.store@ == Seq::<AiJob>::empty(),
            r.queue@ == Seq::<QueueEntry>::empty(),
            r.queue.spec_capacity() == queue_capacity,
            r.store.spec_next_id() == 0,
            r.queue.spec_next_sequence() == 0,
    {
        AiGatewayState {
            registry: ModelRegistry::new(),
            store: JobStore::new(),
            queue: JobQueue::new(queue_capacity),
        }
    }

    /// Registers a model; job state is untouched.
    pub fn register_model(&mut self, model: ModelInfo)
        requires
            old(self).wf(),
        ensures
            final(self).wf(),
            final(self).registry@ == old(self).registry@.insert(0, model),
            final(self).store == old(self).store,
            final(self).queue == old(self).queue,
    {
        self.registry.register(model);
    }

    /// Registers the two models the gateway ships with: a token-billed
    /// text model at 100 millicents ($0.001) per token, and a flat-rate
    /// image model at 5000 millicents ($0.05) per image.
    pub fn register_default_models(&mut self, qwen_endpoint: String, sdxl_endpoint: String, now_ms: i64)
        requires
            old(self).wf(),
        ensures
            final(self).wf(),
            final(self).store == old(self).store,
            final(self).queue == old(self).queue,
            final(self).registry@.len() == old(self).registry@.len() + 2,
            final(self).registry@.skip(2) =~= old(self).registry@,
            ({
                let qwen = final(self).registry@[1];
                let sdxl = final(self).registry@[0];
                &&& qwen.name@ == "qwen-3-72b"@
                &&& qwen.version@ == "v2.0.0"@
                &&& qwen.endpoint == qwen_endpoint
                &&& qwen.model_type == ModelType::Text
                &&& qwen.unit_type == UnitType::Token
                &&& qwen.cost_per_unit_millicents == 100
                &&& qwen.max_tokens == Some(32768u32)
                &&& qwen.gpu_required
                &&& qwen.health_status == HealthStatus::Unknown
                &&& qwen.last_health_check == now_ms
                &&& sdxl.name@ == "sdxl"@
                &&& sdxl.version@ == "v1.0"@
                &&& sdxl.endpoint == sdxl_endpoint
                &&& sdxl.model_type == ModelType::Image
                &&& sdxl.unit_type == UnitType::Image
                &&& sdxl.cost_per_unit_millicents == 5000
                &&& sdxl.max_tokens is None
                &&& sdxl.gpu_required
                &&& sdxl.health_status == HealthStatus::Unknown
                &&& sdxl.last_health_check == now_ms
            }),
    {
        self.registry.register(
            ModelInfo {
                name: "qwen-3-72b".to_owned(),
                version: "v2.0.0".to_owned(),
                endpoint: qwen_endpoint,
                model_type: ModelType::Text,
                unit_type: UnitType::Token,
                cost_per_unit_millicents: 100,
                max_tokens: Some(32768),
                gpu_required: true,
                health_status: HealthStatus::Unknown,
                last_health_check: now_ms,
            },
        );
        self.registry.register(
            ModelInfo {
                name: "sdxl".to_owned(),
                version: "v1.0".to_owned(),
                endpoint: sdxl_endpoint,
                model_type: ModelType::Image,
                unit_type: UnitType::Image,
                cost_per_unit_millicents: 5000,
                max_tokens: None,
                gpu_required: true,
                health_status: HealthStatus::Unknown,
                last_health_check: now_ms,
            },
        );
    }

    /// Submits a text-generation request: validates it, resolves the
    /// model, quotes an estimate, records the job `Pending` and admits
    /// it to the queue, answering immediately — the backend call
    /// happens later, on the dispatcher's side. Fails fast with
    /// `InvalidRequest` for an empty prompt or user id, with
    /// `ModelNotFound` for an unresolvable model and with `QueueFull`
    /// at capacity, recording nothing in any of these cases.
    pub fn submit(&mut self, req: GenerateRequest, now_ms: i64) -> (r: Result<
        GenerateResponse,
        GatewayError,
    >)
        requires
            old(self).wf(),
            old(self).store.spec_next_id() < u64::MAX,
            old(self).queue.spec_next_sequence() < u64::MAX,
        ensures
            final(self).wf(),
            final(self).registry == old(self).registry,
            ({
                let name = spec_name_or_text_default(req.model);
                let version = spec_version_or_default(req.version);
                let priority = spec_priority_or_default(req.priority);
                let input = JobInput::Text(
                    TextInput {
                        prompt: req.prompt,
                        max_tokens: req.max_tokens,
                        top_k: req.top_k,
                        stop: req.stop,
                    },
                );
                if req.prompt@.len() == 0 || req.user_id@.len() == 0 {
                    r == Err::<GenerateResponse, GatewayError>(GatewayError::InvalidRequest)
                        && final(self).store == old(self).store && final(self).queue == old(
                        self,
                    ).queue
                } else {
                match spec_resolve(old(self).registry@, name, version) {
                    None => r == Err::<GenerateResponse, GatewayError>(GatewayError::ModelNotFound)
                        && final(self).store == old(self).store && final(self).queue == old(
                        self,
                    ).queue,
                    Some(model) => {
                        if old(self).queue@.len() >= old(self).queue.spec_capacity() {
                            r == Err::<GenerateResponse, GatewayError>(GatewayError::QueueFull)
                                && final(self).store == old(self).store && final(self).queue == old(
                                self,
                            ).queue
                        } else {
                            let est = spec_estimate_cents(
                                model.unit_type,
                                model.cost_per_unit_millicents as nat,
                                req.prompt@.len(),
                            );
                            let id = old(self).store.spec_next_id();
                            &&& r matches Ok(resp)
                            &&& (r matches Ok(resp) ==> {
                                &&& resp.job_id == id
                                &&& resp.status@ == "pending"@
                                &&& resp.estimated_cost_cents as nat == est
                                &&& (if req.stream == Some(true) {
                                    resp.stream_url matches Some(u) && u@ == "/stream/"@
                                        + spec_dec_digits(id as nat)
                                } else {
                                    resp.stream_url is None
                                })
                                &&& final(self).store@.len() == old(self).store@.len() + 1
                                &&& ({
                                    let job = final(self).store@.last();
                                    &&& final(self).store@ == old(self).store@.push(job)
                                    &&& job.id == id
                                    &&& job.user_id == req.user_id
                                    &&& job.model_name@ == name
                                    &&& job.model_version@ == version
                                    &&& job.input == input
                                    &&& job.status == JobStatus::Pending
                                    &&& job.priority == priority
                                    &&& job.created_at == now_ms
                                    &&& job.started_at is None
                                    &&& job.completed_at is None
                                    &&& job.estimated_cost_cents as nat == est
                                    &&& job.actual_cost_cents is None
                                    &&& job.result is None
                                    &&& job.error is None
                                })
                                &&& final(self).queue@ == old(self).queue@.push(
                                    QueueEntry {
                                        priority,
                                        sequence: old(self).queue.spec_next_sequence(),
                                        job_id: id,
                                    },
                                )
                                &&& final(self).store.spec_next_id() == id + 1
                                &&& final(self).queue.spec_next_sequence() == old(
                                    self,
                                ).queue.spec_next_sequence() + 1
                                &&& final(self).queue.spec_capacity() == old(
                                    self,
                                ).queue.spec_capacity()
                            })
                        }
                    },
                }
                }
            }),
    {
        if req.prompt.as_str().is_empty() || req.user_id.as_str().is_empty() {
            return Err(GatewayError::InvalidRequest);
        }
        let model_name: String = match req.model {
            Some(m) => m,
            None => "qwen-3-72b".to_owned(),
        };
        let version: String = match req.version {
            Some(v) => v,
            None => "latest".to_owned(),
        };
        let priority = match req.priority {
            Some(p) => p,
            None => JobPriority::Normal,
        };
        let model = match self.registry.resolve(model_name.as_str(), version.as_str()) {
            Some(m) => m,
            None => {
                return Err(GatewayError::ModelNotFound);
            },
        };
        let input = JobInput::Text(
            TextInput {
                prompt: req.prompt,
                max_tokens: req.max_tokens,
                top_k: req.top_k,
                stop: req.stop,
            },
        );
        let est = estimate_cost_cents(&model, &input);
        if self.queue.is_full() {
            return Err(GatewayError::QueueFull);
        }
        let id = self.store.create(
            req.user_id,
            model_name,
            version,
            input,
            est,
            priority,
            now_ms,
        );
        proof {
            assert forall|i: int| 0 <= i < old(self).store@.len() implies (#[trigger] old(
                self,
            ).store@[i]).id != id by {}
            lemma_find_absent(old(self).store@, id);
            assert forall|i: int| 0 <= i < self.queue@.len() implies spec_find(
                self.store@,
                (#[trigger] self.queue@[i]).job_id,
            ) == spec_find(old(self).store@, self.queue@[i].job_id) by {
                lemma_find_push(old(self).store@, self.store@.last(), self.queue@[i].job_id);
            }
            lemma_find_push(old(self).store@, self.store@.last(), id);
        }
        let want_stream = match req.stream {
            Some(true) => true,
            _ => false,
        };
        let stream_url = if want_stream {
            let mut url = "/stream/".to_owned();
            let digits = u64_to_dec_string(id);
            url.append(digits.as_str());
            Some(url)
        } else {
            None
        };
        match self.queue.enqueue(priority, id) {
            Ok(()) => {},
            Err(e) => {
                proof {
                    assert(false);
                }
                return Err(e);
            },
        }
        proof {
            assert forall|i: int| 0 <= i < self.queue@.len() implies match spec_find(
                self.store@,
                (#[trigger] self.queue@[i]).job_id,
            ) {
                Some(k) => self.store@[k].status == JobStatus::Pending,
                None => false,
            } by {
                if i < self.queue@.len() - 1 {
                    lemma_find_some(self.store@, self.queue@[i].job_id);
                }
            }
            assert forall|i: int, j: int|
                0 <= i < j < self.queue@.len() implies self.queue@[i].job_id
                != self.queue@[j].job_id by {
                if j < self.queue@.len() - 1 {
                } else {
                    lemma_find_some(old(self).store@, self.queue@[i].job_id);
                }
            }
        }
        Ok(
            GenerateResponse {
                job_id: id,
                status: "pending".to_owned(),
                estimated_cost_cents: est,
                stream_url,
            },
        )
    }

    /// Submits an image-generation request: like `submit`, but against
    /// the image default model, always at version `"latest"`, at
    /// `Normal` priority, with the image dimensions defaulted and no
    /// stream offered. The same validation applies.
    pub fn submit_image(&mut self, req: ImageGenerateRequest, now_ms: i64) -> (r: Result<
        GenerateResponse,
        GatewayError,
    >)
        requires
            old(self).wf(),
            old(self).store.spec_next_id() < u64::MAX,
            old(self).queue.spec_next_sequence() < u64::MAX,
        ensures
            final(self).wf(),
            final(self).registry == old(self).registry,
            ({
                let name = spec_name_or_image_default(req.model);
                let input = JobInput::Image(
                    ImageInput {
                        prompt: req.prompt,
                        negative_prompt: req.negative_prompt,
                        width: spec_u32_or(req.width, 1024),
                        height: spec_u32_or(req.height, 1024),
                        num_inference_steps: spec_u32_or(req.num_inference_steps, 20),
                    },
                );
                if req.prompt@.len() == 0 || req.user_id@.len() == 0 {
                    r == Err::<GenerateResponse, GatewayError>(GatewayError::InvalidRequest)
                        && final(self).store == old(self).store && final(self).queue == old(
                        self,
                    ).queue
                } else {
                match spec_resolve(old(self).registry@, name, "latest"@) {
                    None => r == Err::<GenerateResponse, GatewayError>(GatewayError::ModelNotFound)
                        && final(self).store == old(self).store && final(self).queue == old(
                        self,
                    ).queue,
                    Some(model) => {
                        if old(self).queue@.len() >= old(self).queue.spec_capacity() {
                            r == Err::<GenerateResponse, GatewayError>(GatewayError::QueueFull)
                                && final(self).store == old(self).store && final(self).queue == old(
                                self,
                            ).queue
                        } else {
                            let est = spec_estimate_cents(
                                model.unit_type,
                                model.cost_per_unit_millicents as nat,
                                req.prompt@.len(),
                            );
                            let id = old(self).store.spec_next_id();
                            &&& r matches Ok(resp)
                            &&& (r matches Ok(resp) ==> {
                                &&& resp.job_id == id
                                &&& resp.status@ == "pending"@
                                &&& resp.estimated_cost_cents as nat == est
                                &&& resp.stream_url is None
                                &&& final(self).store@.len() == old(self).store@.len() + 1
                                &&& ({
                                    let job = final(self).store@.last();
                                    &&& final(self).store@ == old(self).store@.push(job)
                                    &&& job.id == id
                                    &&& job.user_id == req.user_id
                                    &&& job.model_name@ == name
                                    &&& job.model_version@ == "latest"@
                                    &&& job.input == input
                                    &&& job.status == JobStatus::Pending
                                    &&& job.priority == JobPriority::Normal
                                    &&& job.created_at == now_ms
                                    &&& job.estimated_cost_cents as nat == est
                                })
                                &&& final(self).queue@ == old(self).queue@.push(
                                    QueueEntry {
                                        priority: JobPriority::Normal,
                                        sequence: old(self).queue.spec_next_sequence(),
                                        job_id: id,
                                    },
                                )
                                &&& final(self).store.spec_next_id() == id + 1
                                &&& final(self).queue.spec_next_sequence() == old(
                                    self,
                                ).queue.spec_next_sequence() + 1
                                &&& final(self).queue.spec_capacity() == old(
                                    self,
                                ).queue.spec_capacity()
                            })
                        }
                    },
                }
                }
            }),
    {
        if req.prompt.as_str().is_empty() || req.user_id.as_str().is_empty() {
            return Err(GatewayError::InvalidRequest);
        }
        let model_name: String = match req.model {
            Some(m) => m,
            None => "sdxl".to_owned(),
        };
        let version: String = "latest".to_owned();
        let model = match self.registry.resolve(model_name.as_str(), version.as_str()) {
            Some(m) => m,
            None => {
                return Err(GatewayError::ModelNotFound);
            },
        };
        let input = JobInput::Image(
            ImageInput {
                prompt: req.prompt,
                negative_prompt: req.negative_prompt,
                width: u32_or(req.width, 1024),
                height: u32_or(req.height, 1024),
                num_inference_steps: u32_or(req.num_inference_steps, 20),
            },
        );
        let est = estimate_cost_cents(&model, &input);
        if self.queue.is_full() {
            return Err(GatewayError::QueueFull);
        }
        let id = self.store.create(
            req.user_id,
            model_name,
            version,
            input,
            est,
            JobPriority::Normal,
            now_ms,
        );
        proof {
            assert forall|i: int| 0 <= i < old(self).store@.len() implies (#[trigger] old(
                self,
            ).store@[i]).id != id by {}
            lemma_find_absent(old(self).store@, id);
            assert forall|i: int| 0 <= i < self.queue@.len() implies spec_find(
                self.store@,
                (#[trigger] self.queue@[i]).job_id,
            ) == spec_find(old(self).store@, self.queue@[i].job_id) by {
                lemma_find_push(old(self).store@, self.store@.last(), self.queue@[i].job_id);
            }
            lemma_find_push(old(self).store@, self.store@.last(), id);
        }
        match self.queue.enqueue(JobPriority::Normal, id) {
            Ok(()) => {},
            Err(e) => {
                proof {
                    assert(false);
                }
                return Err(e);
            },
        }
        proof {
            assert forall|i: int| 0 <= i < self.queue@.len() implies match spec_find(
                self.store@,
                (#[trigger] self.queue@[i]).job_id,
            ) {
                Some(k) => self.store@[k].status == JobStatus::Pending,
                None => false,
            } by {
                if i < self.queue@.len() - 1 {
                    lemma_find_some(self.store@, self.queue@[i].job_id);
                }
            }
            assert forall|i: int, j: int|
                0 <= i < j < self.queue@.len() implies self.queue@[i].job_id
                != self.queue@[j].job_id by {
                if j < self.queue@.len() - 1 {
                } else {
                    lemma_find_some(old(self).store@, self.queue@[i].job_id);
                }
            }
        }
        Ok(
            GenerateResponse {
                job_id: id,
                status: "pending".to_owned(),
                estimated_cost_cents: est,
                stream_url: None,
            },
        )
    }

    /// The dispatcher's pop: removes and returns the admission that
    /// dequeues first — strictly by priority, FIFO within one priority.
    /// The returned admission names a job that is still `Pending` and,
    /// once popped, no longer queued, so exactly one dispatch path
    /// exists per job.
    pub fn take_next(&mut self) -> (r: Option<QueueEntry>)
        requires
            old(self).wf(),
        ensures
            final(self).wf(),
            final(self).registry == old(self).registry,
            final(self).store == old(self).store,
            final(self).queue.spec_capacity() == old(self).queue.spec_capacity(),
            final(self).queue.spec_next_sequence() == old(self).queue.spec_next_sequence(),
            match r {
                None => old(self).queue@.len() == 0 && final(self).queue == old(self).queue,
                Some(e) => {
                    &&& exists|i: int|
                        {
                            &&& 0 <= i < old(self).queue@.len()
                            &&& old(self).queue@[i] == e
                            &&& final(self).queue@ == old(self).queue@.remove(i)
                            &&& forall|j: int|
                                0 <= j < old(self).queue@.len() && j != i ==> spec_precedes(
                                    e,
                                    #[trigger] old(self).queue@[j],
                                )
                        }
                    &&& match spec_find(final(self).store@, e.job_id) {
                        Some(k) => final(self).store@[k].status == JobStatus::Pending,
                        None => false,
                    }
                    &&& spec_find_entry(final(self).queue@, e.job_id) is None
                },
            },
    {
        let r = self.queue.dequeue();
        proof {
            if r is Some {
                let e = r->Some_0;
                let i = choose|i: int|
                    {
                        &&& 0 <= i < old(self).queue@.len()
                        &&& old(self).queue@[i] == e
                        &&& self.queue@ == old(self).queue@.remove(i)
                        &&& forall|j: int|
                            0 <= j < old(self).queue@.len() && j != i ==> spec_precedes(
                                e,
                                #[trigger] old(self).queue@[j],
                            )
                    };
                assert forall|k: int| 0 <= k < self.queue@.len() implies (#[trigger] self.queue@[k]).job_id
                    != e.job_id by {
                    if k < i {
                        assert(self.queue@[k] == old(self).queue@[k]);
                    } else {
                        assert(self.queue@[k] == old(self).queue@[k + 1]);
                    }
                }
                lemma_find_entry_absent(self.queue@, e.job_id);
                assert forall|k: int| 0 <= k < self.queue@.len() implies match spec_find(
                    self.store@,
                    (#[trigger] self.queue@[k]).job_id,
                ) {
                    Some(m) => self.store@[m].status == JobStatus::Pending,
                    None => false,
                } by {
                    if k < i {
                        assert(self.queue@[k] == old(self).queue@[k]);
                    } else {
                        assert(self.queue@[k] == old(self).queue@[k + 1]);
                    }
                }
                assert forall|a: int, b: int|
                    0 <= a < b < self.queue@.len() implies self.queue@[a].job_id
                    != self.queue@[b].job_id by {
                    let a0 = if a < i {
                        a
                    } else {
                        a + 1
                    };
                    let b0 = if b < i {
                        b
                    } else {
                        b + 1
                    };
                    assert(self.queue@[a] == old(self).queue@[a0]);
                    assert(self.queue@[b] == old(self).queue@[b0]);
                }
            }
        }
        r
    }

    /// Starts a dispatched job: moves it from `Pending` to
    /// `Processing`, resolves its model, and hands back the backend
    /// call to perform. A job whose model is gone, or whose model's
    /// type has no dispatch path, instead moves on to `Failed` at once,
    /// with the reason recorded. The job must already have left the
    /// queue — `take_next` is the only intended source of job ids here.
    pub fn begin_job(&mut self, job_id: u64, now_ms: i64) -> (r: BeginOutcome)
        requires
            old(self).wf(),
            spec_find_entry(old(self).queue@, job_id) is None,
        ensures
            final(self).wf(),
            final(self).registry == old(self).registry,
            final(self).queue == old(self).queue,
            final(self).store.spec_next_id() == old(self).store.spec_next_id(),
            match spec_find(old(self).store@, job_id) {
                None => r matches BeginOutcome::NotFound && final(self).store == old(self).store,
                Some(i) => {
                    let job = old(self).store@[i];
                    if job.status != JobStatus::Pending {
                        r matches BeginOutcome::NotPending && final(self).store == old(self).store
                    } else {
                        let started = AiJob {
                            status: JobStatus::Processing,
                            started_at: Some(now_ms),
                            ..job
                        };
                        match spec_resolve(
                            old(self).registry@,
                            job.model_name@,
                            job.model_version@,
                        ) {
                            None => r matches BeginOutcome::Rejected(why)
                                && why == JobError::ModelUnavailable && final(self).store@ == old(
                                self,
                            ).store@.update(
                                i,
                                AiJob {
                                    status: JobStatus::Failed,
                                    completed_at: Some(now_ms),
                                    error: Some(JobError::ModelUnavailable),
                                    ..started
                                },
                            ),
                            Some(model) => {
                                if model.model_type == ModelType::Text || model.model_type
                                    == ModelType::Image {
                                    &&& r matches BeginOutcome::Started(call)
                                    &&& (r matches BeginOutcome::Started(call) ==> {
                                        &&& call.job_id == job_id
                                        &&& call.endpoint == model.endpoint
                                        &&& call.kind == (if model.model_type == ModelType::Text {
                                            BackendKind::ChatCompletion
                                        } else {
                                            BackendKind::ImageGeneration
                                        })
                                        &&& call.input == job.input
                                        &&& call.unit_type == model.unit_type
                                        &&& call.cost_per_unit_millicents
                                            == model.cost_per_unit_millicents
                                    })
                                    &&& final(self).store@ == old(self).store@.update(i, started)
                                } else {
                                    r matches BeginOutcome::Rejected(why) && why
                                        == JobError::UnsupportedModel && final(self).store@ == old(
                                        self,
                                    ).store@.update(
                                        i,
                                        AiJob {
                                            status: JobStatus::Failed,
                                            completed_at: Some(now_ms),
                                            error: Some(JobError::UnsupportedModel),
                                            ..started
                                        },
                                    )
                                }
                            },
                        }
                    }
                },
            },
    {
        match self.store.start_job(job_id, now_ms) {
            Err(e) => {
                if matches!(e, GatewayError::NotFound) {
                    return BeginOutcome::NotFound;
                } else {
                    return BeginOutcome::NotPending;
                }
            },
            Ok(()) => {},
        }
        proof {
            lemma_find_some(old(self).store@, job_id);
            let i = spec_find(old(self).store@, job_id)->Some_0;
            lemma_find_update(old(self).store@, i, self.store@[i], job_id);
            self.lemma_linkage_after_update(*old(self), i, job_id);
        }
        let (model_name, model_version, input) = match self.store.get(job_id) {
            Some(job) => (job.model_name.clone(), job.model_version.clone(), job.input.clone()),
            None => {
                proof {
                    assert(false);
                }
                return BeginOutcome::NotFound;
            },
        };
        let model = match self.registry.resolve(model_name.as_str(), model_version.as_str()) {
            Some(m) => m,
            None => {
                let ghost mid = *self;
                match self.store.fail_job(job_id, JobError::ModelUnavailable, now_ms) {
                    Ok(()) => {},
                    Err(_) => {
                        proof {
                            assert(false);
                        }
                        return BeginOutcome::NotFound;
                    },
                }
                proof {
                    let i = spec_find(old(self).store@, job_id)->Some_0;
                    lemma_find_update(mid.store@, i, self.store@[i], job_id);
                    self.lemma_linkage_after_update(mid, i, job_id);
                    assert(self.store@ =~= old(self).store@.update(
                        i,
                        AiJob {
                            status: JobStatus::Failed,
                            completed_at: Some(now_ms),
                            error: Some(JobError::ModelUnavailable),
                            ..AiJob {
                                status: JobStatus::Processing,
                                started_at: Some(now_ms),
                                ..old(self).store@[i]
                            }
                        },
                    ));
                }
                return BeginOutcome::Rejected(JobError::ModelUnavailable);
            },
        };
        let kind = match model.model_type {
            ModelType::Text => BackendKind::ChatCompletion,
            ModelType::Image => BackendKind::ImageGeneration,
            _ => {
                let ghost mid = *self;
                match self.store.fail_job(job_id, JobError::UnsupportedModel, now_ms) {
                    Ok(()) => {},
                    Err(_) => {
                        proof {
                            assert(false);
                        }
                        return BeginOutcome::NotFound;
                    },
                }
                proof {
                    let i = spec_find(old(self).store@, job_id)->Some_0;
                    lemma_find_update(mid.store@, i, self.store@[i], job_id);
                    self.lemma_linkage_after_update(mid, i, job_id);
                    assert(self.store@ =~= old(self).store@.update(
                        i,
                        AiJob {
                            status: JobStatus::Failed,
                            completed_at: Some(now_ms),
                            error: Some(JobError::UnsupportedModel),
                            ..AiJob {
                                status: JobStatus::Processing,
                                started_at: Some(now_ms),
                                ..old(self).store@[i]
                            }
                        },
                    ));
                }
                return BeginOutcome::Rejected(JobError::UnsupportedModel);
            },
        };
        BeginOutcome::Started(
            BackendRequest {
                job_id,
                endpoint: model.endpoint,
                kind,
                input,
                unit_type: model.unit_type,
                cost_per_unit_millicents: model.cost_per_unit_millicents,
            },
        )
    }

    /// After one store record changes without changing its id, and that
    /// record is not queued, every queued admission still names a
    /// distinct `Pending` job.
    proof fn lemma_linkage_after_update(self, pre: AiGatewayState, i: int, job_id: u64)
        requires
            pre.wf(),
            0 <= i < pre.store@.len(),
            pre.store@[i].id == job_id,
            spec_find_entry(pre.queue@, job_id) is None,
            self.queue == pre.queue,
            self.store@ == pre.store@.update(i, self.store@[i]),
            self.store@[i].id == job_id,
        ensures
            forall|k: int|
                0 <= k < self.queue@.len() ==> match spec_find(
                    self.store@,
                    (#[trigger] self.queue@[k]).job_id,
                ) {
                    Some(m) => self.store@[m].status == JobStatus::Pending,
                    None => false,
                },
    {
        lemma_find_entry_absent(pre.queue@, job_id);
        assert forall|k: int| 0 <= k < self.queue@.len() implies match spec_find(
            self.store@,
            (#[trigger] self.queue@[k]).job_id,
        ) {
            Some(m) => self.store@[m].status == JobStatus::Pending,
            None => false,
        } by {
            let eid = self.queue@[k].job_id;
            lemma_find_update(pre.store@, i, self.store@[i], eid);
            lemma_find_some(pre.store@, eid);
            assert(eid != job_id);
        }
    }

    /// Records the outcome of a job's backend call: `Success` completes
    /// the job with its result and the cost reconciled from the given
    /// billing parameters and measured duration; `Failure` and
    /// `TimedOut` fail it with a backend or timeout error respectively.
    /// Fails with `NotFound` for an unknown id and with
    /// `InvalidStateTransition` for any job not `Processing` — a
    /// completed job is never overwritten — changing nothing on
    /// failure.
    pub fn finish_job(
        &mut self,
        job_id: u64,
        outcome: BackendOutcome,
        duration_ms: u64,
        unit_type: UnitType,
        cost_per_unit_millicents: u32,
        now_ms: i64,
    ) -> (r: Result<(), GatewayError>)
        requires
            old(self).wf(),
        ensures
            final(self).wf(),
            final(self).registry == old(self).registry,
            final(self).queue == old(self).queue,
            final(self).store.spec_next_id() == old(self).store.spec_next_id(),
            match spec_find(old(self).store@, job_id) {
                None => r == Err::<(), GatewayError>(GatewayError::NotFound) && final(self).store
                    == old(self).store,
                Some(i) => {
                    let job = old(self).store@[i];
                    if job.status != JobStatus::Processing {
                        r == Err::<(), GatewayError>(GatewayError::InvalidStateTransition)
                            && final(self).store == old(self).store
                    } else {
                        r == Ok::<(), GatewayError>(()) && final(self).store@ == old(
                            self,
                        ).store@.update(
                            i,
                            match outcome {
                                BackendOutcome::Success(output) => AiJob {
                                    status: JobStatus::Completed,
                                    completed_at: Some(now_ms),
                                    actual_cost_cents: Some(
                                        (spec_actual_cents(
                                            unit_type,
                                            cost_per_unit_millicents as nat,
                                            match output.tokens_generated {
                                                Some(t) => t as nat,
                                                None => 0,
                                            },
                                            duration_ms as nat,
                                        ) as u32),
                                    ),
                                    result: Some(output),
                                    ..job
                                },
                                BackendOutcome::Failure(msg) => AiJob {
                                    status: JobStatus::Failed,
                                    completed_at: Some(now_ms),
                                    error: Some(JobError::Backend(msg)),
                                    ..job
                                },
                                BackendOutcome::TimedOut => AiJob {
                                    status: JobStatus::Failed,
                                    completed_at: Some(now_ms),
                                    error: Some(JobError::Timeout),
                                    ..job
                                },
                            },
                        )
                    }
                },
            },
    {
        let ghost pre = *self;
        let r = match outcome {
            BackendOutcome::Success(output) => {
                let cents = actual_cost_cents(
                    unit_type,
                    cost_per_unit_millicents,
                    &output,
                    duration_ms,
                );
                self.store.complete_job(job_id, output, cents, now_ms)
            },
            BackendOutcome::Failure(msg) => self.store.fail_job(
                job_id,
                JobError::Backend(msg),
                now_ms,
            ),
            BackendOutcome::TimedOut => self.store.fail_job(job_id, JobError::Timeout, now_ms),
        };
        proof {
            if r is Ok {
                let i = spec_find(old(self).store@, job_id)->Some_0;
                lemma_find_some(old(self).store@, job_id);
                self.lemma_linkage_processing_update(pre, i, job_id);
            }
        }
        r
    }

    /// After a `Processing` record changes without changing its id,
    /// every queued admission still names a distinct `Pending` job: a
    /// `Processing` job cannot be queued, so no queued lookup moves.
    proof fn lemma_linkage_processing_update(self, pre: AiGatewayState, i: int, job_id: u64)
        requires
            pre.wf(),
            0 <= i < pre.store@.len(),
            pre.store@[i].id == job_id,
            pre.store@[i].status != JobStatus::Pending,
            self.queue == pre.queue,
            self.store@ == pre.store@.update(i, self.store@[i]),
            self.store@[i].id == job_id,
        ensures
            forall|k: int|
                0 <= k < self.queue@.len() ==> match spec_find(
                    self.store@,
                    (#[trigger] self.queue@[k]).job_id,
                ) {
                    Some(m) => self.store@[m].status == JobStatus::Pending,
                    None => false,
                },
    {
        assert forall|k: int| 0 <= k < self.queue@.len() implies match spec_find(
            self.store@,
            (#[trigger] self.queue@[k]).job_id,
        ) {
            Some(m) => self.store@[m].status == JobStatus::Pending,
            None => false,
        } by {
            let eid = self.queue@[k].job_id;
            lemma_find_update(pre.store@, i, self.store@[i], eid);
            lemma_find_some(pre.store@, eid);
        }
    }

    /// Cancels a job: its queued admission, if any, is withdrawn, and
    /// the job moves to `Cancelled` — cleanly from `Pending`, best
    /// effort from `Processing`. Fails with `NotFound` for an unknown
    /// id and with `InvalidStateTransition` for a terminal job, whose
    /// record keeps its outcome untouched.
    pub fn cancel_job(&mut self, job_id: u64, now_ms: i64) -> (r: Result<(), GatewayError>)
        requires
            old(self).wf(),
        ensures
            final(self).wf(),
            final(self).registry == old(self).registry,
            final(self).queue@ == match spec_find_entry(old(self).queue@, job_id) {
                Some(i) => old(self).queue@.remove(i),
                None => old(self).queue@,
            },
            final(self).store.spec_next_id() == old(self).store.spec_next_id(),
            match spec_find(old(self).store@, job_id) {
                None => r == Err::<(), GatewayError>(GatewayError::NotFound) && final(self).store
                    == old(self).store,
                Some(i) => {
                    if !old(self).store@[i].status.spec_is_terminal() {
                        r == Ok::<(), GatewayError>(()) && final(self).store@ == old(
                            self,
                        ).store@.update(
                            i,
                            AiJob {
                                status: JobStatus::Cancelled,
                                completed_at: Some(now_ms),
                                ..old(self).store@[i]
                            },
                        )
                    } else {
                        r == Err::<(), GatewayError>(GatewayError::InvalidStateTransition)
                            && final(self).store == old(self).store
                    }
                },
            },
    {
        self.queue.remove_job(job_id);
        proof {
            if spec_find_entry(old(self).queue@, job_id) is Some {
                let qi = spec_find_entry(old(self).queue@, job_id)->Some_0;
                lemma_find_entry_some(old(self).queue@, job_id);
                assert forall|k: int| 0 <= k < self.queue@.len() implies (#[trigger] self.queue@[k]).job_id
                    != job_id by {
                    if k < qi {
                        assert(self.queue@[k] == old(self).queue@[k]);
                    } else {
                        assert(self.queue@[k] == old(self).queue@[k + 1]);
                    }
                }
                assert forall|a: int, b: int|
                    0 <= a < b < self.queue@.len() implies self.queue@[a].job_id
                    != self.queue@[b].job_id by {
                    let a0 = if a < qi {
                        a
                    } else {
                        a + 1
                    };
                    let b0 = if b < qi {
                        b
                    } else {
                        b + 1
                    };
                    assert(self.queue@[a] == old(self).queue@[a0]);
                    assert(self.queue@[b] == old(self).queue@[b0]);
                }
                assert forall|k: int| 0 <= k < self.queue@.len() implies match spec_find(
                    self.store@,
                    (#[trigger] self.queue@[k]).job_id,
                ) {
                    Some(m) => self.store@[m].status == JobStatus::Pending,
                    None => false,
                } by {
                    if k < qi {
                        assert(self.queue@[k] == old(self).queue@[k]);
                    } else {
                        assert(self.queue@[k] == old(self).queue@[k + 1]);
                    }
                }
            }
            lemma_find_entry_absent(self.queue@, job_id);
            assert(self.wf());
        }
        let ghost mid = *self;
        let r = self.store.cancel_job(job_id, now_ms);
        proof {
            if r is Ok {
                let i = spec_find(old(self).store@, job_id)->Some_0;
                lemma_find_some(old(self).store@, job_id);
                self.lemma_linkage_after_update(mid, i, job_id);
            }
        }
        r
    }

    /// A read-only snapshot of one job.
    pub fn job_snapshot(&self, job_id: u64) -> (r: Option<AiJob>)
        ensures
            match spec_find(self.store@, job_id) {
                Some(i) => r == Some(self.store@[i]),
                None => r is None,
            },
    {
        match self.store.get(job_id) {
            Some(job) => Some(job.clone()),
            None => None,
        }
    }

    /// One tick of a status stream: the observed job's snapshot, with
    /// `done` set exactly when the job is terminal — the stream closes
    /// after a `done` event — or `Gone` for an unknown id, after which
    /// the stream closes too.
    pub fn stream_snapshot(&self, job_id: u64) -> (r: StreamEvent)
        ensures
            match spec_find(self.store@, job_id) {
                None => r matches StreamEvent::Gone,
                Some(i) => {
                    let job = self.store@[i];
                    r matches StreamEvent::Snapshot {
                        status,
                        result,
                        error,
                        actual_cost_cents,
                        done,
                    } && status == job.status && result == job.result && error == job.error
                        && actual_cost_cents == job.actual_cost_cents && done
                        == job.status.spec_is_terminal()
                },
            },
    {
        match self.store.get(job_id) {
            None => StreamEvent::Gone,
            Some(job) => {
                let snapshot = job.clone();
                let done = snapshot.status.is_terminal();
                StreamEvent::Snapshot {
                    status: snapshot.status,
                    result: snapshot.result,
                    error: snapshot.error,
                    actual_cost_cents: snapshot.actual_cost_cents,
                    done,
                }
            },
        }
    }

    /// Flattens the registry into a client-facing list, newest
    /// registration first.
    pub fn list_models(&self) -> (r: Vec<ModelInfo>)
        ensures
            r@ == self.registry@,
    {
        let n = self.registry.len();
        let mut models: Vec<ModelInfo> = Vec::new();
        let mut i: usize = 0;
        while i < n
            invariant
                n == self.registry@.len(),
                i <= n,
                models@ =~= self.registry@.subrange(0, i as int),
            decreases n - i,
        {
            models.push(self.registry.get(i).clone());
            proof {
                assert(models@ =~= self.registry@.subrange(0, i as int + 1));
            }
            i = i + 1;
        }
        proof {
            assert(self.registry@.subrange(0, n as int) =~= self.registry@);
        }
        models
    }

    /// Aggregate health: how many model entries are registered, how
    /// many of them probe healthy, and the current queue depth.
    pub fn health_summary(&self) -> (r: HealthSummary)
        ensures
            r.total_models == self.registry@.len(),
            r.healthy_models as nat == spec_count_healthy(self.registry@),
            r.unhealthy_models == r.total_models - r.healthy_models,
            r.queue_depth == self.queue@.len(),
    {
        let n = self.registry.len();
        let mut healthy: usize = 0;
        let mut i: usize = 0;
        while i < n
            invariant
                n == self.registry@.len(),
                i <= n,
                healthy <= i,
                healthy as nat == spec_count_healthy(self.registry@.subrange(0, i as int)),
            decreases n - i,
        {
            proof {
                assert(self.registry@.subrange(0, i as int + 1).drop_last() =~= self.registry@.subrange(
                    0,
                    i as int,
                ));
                assert(self.registry@.subrange(0, i as int + 1).last() == self.registry@[i as int]);
            }
            let is_healthy = matches!(self.registry.get(i).health_status, HealthStatus::Healthy);
            if is_healthy {
                healthy = healthy + 1;
            }
            i = i + 1;
        }
        proof {
            assert(self.registry@.subrange(0, n as int) =~= self.registry@);
        }
        HealthSummary {
            total_models: n,
            healthy_models: healthy,
            unhealthy_models: n - healthy,
            queue_depth: self.queue.len(),
        }
    }
}

/// `v`, defaulted.
pub open spec fn spec_u32_or(v: Option<u32>, d: u32) -> u32 {
    match v {
        Some(x) => x,
        None => d,
    }
}

/// `v`, defaulted.
fn u32_or(v: Option<u32>, d: u32) -> (r: u32)
    ensures
        r == spec_u32_or(v, d),
{
    match v {
        Some(x) => x,
        None => d,
    }
}

} // verus!
