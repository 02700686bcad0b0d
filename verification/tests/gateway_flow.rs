use ai_gateway::error::{GatewayError, JobError};
use ai_gateway::gateway::{
    AiGatewayState, BackendKind, BackendOutcome, BeginOutcome, GenerateRequest,
    ImageGenerateRequest, StreamEvent,
};
use ai_gateway::job::{JobPriority, JobStatus};
use ai_gateway::registry::{HealthStatus, ModelInfo, ModelType, UnitType};

fn test_model(name: &str, version: &str, model_type: ModelType, unit: UnitType, mc: u32) -> ModelInfo {
    ModelInfo {
        name: name.to_string(),
        version: version.to_string(),
        endpoint: format!("http://{}:8000", name),
        model_type,
        unit_type: unit,
        cost_per_unit_millicents: mc,
        max_tokens: Some(4096),
        gpu_required: true,
        health_status: HealthStatus::Unknown,
        last_health_check: 0,
    }
}

fn text_request(prompt: &str, user: &str, model: Option<&str>, priority: Option<JobPriority>) -> GenerateRequest {
    GenerateRequest {
        prompt: prompt.to_string(),
        model: model.map(|m| m.to_string()),
        version: None,
        stream: None,
        user_id: user.to_string(),
        max_tokens: None,
        top_k: None,
        stop: None,
        priority,
    }
}

#[test]
fn end_to_end_text_job_completes_with_reconciled_cost() {
    let mut gw = AiGatewayState::new(16);
    gw.register_default_models(
        "http://qwen-3-72b:8000".to_string(),
        "http://sdxl:8000".to_string(),
        1_000,
    );

    let resp = gw
        .submit(text_request("hi", "u1", Some("qwen-3-72b"), None), 2_000)
        .expect("submission must be accepted");
    assert!(resp.estimated_cost_cents > 0);
    assert_eq!(resp.status, "pending");
    let job = gw.job_snapshot(resp.job_id).expect("job must exist");
    assert_eq!(job.status, JobStatus::Pending);

    let entry = gw.take_next().expect("one job is queued");
    assert_eq!(entry.job_id, resp.job_id);
    let call = match gw.begin_job(entry.job_id, 3_000) {
        BeginOutcome::Started(call) => call,
        other => panic!("expected a started job, got {:?}", other),
    };
    assert_eq!(call.kind, BackendKind::ChatCompletion);
    assert_eq!(call.endpoint, "http://qwen-3-72b:8000");

    let output = ai_gateway::job::JobOutput {
        response: "hello".to_string(),
        tokens_generated: Some(5),
    };
    gw.finish_job(
        entry.job_id,
        BackendOutcome::Success(output),
        1_500,
        call.unit_type,
        call.cost_per_unit_millicents,
        4_000,
    )
    .expect("the processing job completes");

    let done = gw.job_snapshot(resp.job_id).expect("job must exist");
    assert_eq!(done.status, JobStatus::Completed);
    assert_eq!(done.result.as_ref().expect("completed implies result").response, "hello");
    // 5 tokens at 100 millicents each round up to one whole cent.
    assert_eq!(done.actual_cost_cents, Some(1));
    assert_eq!(done.started_at, Some(3_000));
    assert_eq!(done.completed_at, Some(4_000));
}

#[test]
fn dispatch_order_is_priority_then_fifo() {
    let mut gw = AiGatewayState::new(16);
    gw.register_model(test_model("m", "v1", ModelType::Text, UnitType::Token, 100));
    let a = gw
        .submit(text_request("a", "u", Some("m"), Some(JobPriority::Low)), 1)
        .unwrap();
    let b = gw
        .submit(text_request("b", "u", Some("m"), Some(JobPriority::Critical)), 2)
        .unwrap();
    let c = gw
        .submit(text_request("c", "u", Some("m"), Some(JobPriority::Critical)), 3)
        .unwrap();
    assert_eq!(gw.take_next().unwrap().job_id, b.job_id);
    assert_eq!(gw.take_next().unwrap().job_id, c.job_id);
    assert_eq!(gw.take_next().unwrap().job_id, a.job_id);
    assert!(gw.take_next().is_none());
}

#[test]
fn queue_backpressure_rejects_and_preserves_order() {
    let mut gw = AiGatewayState::new(2);
    gw.register_model(test_model("m", "v1", ModelType::Text, UnitType::Token, 100));
    let first = gw.submit(text_request("a", "u", Some("m"), Some(JobPriority::Normal)), 1).unwrap();
    let second = gw.submit(text_request("b", "u", Some("m"), Some(JobPriority::Normal)), 2).unwrap();
    let refused = gw.submit(text_request("c", "u", Some("m"), Some(JobPriority::Critical)), 3);
    assert_eq!(refused.unwrap_err(), GatewayError::QueueFull);
    // The refused submission left no job behind and the queue intact.
    assert_eq!(gw.store.len(), 2);
    assert_eq!(gw.take_next().unwrap().job_id, first.job_id);
    assert_eq!(gw.take_next().unwrap().job_id, second.job_id);
}

#[test]
fn completed_job_is_never_overwritten() {
    let mut gw = AiGatewayState::new(4);
    gw.register_model(test_model("m", "v1", ModelType::Text, UnitType::Token, 100));
    let resp = gw.submit(text_request("p", "u", Some("m"), None), 1).unwrap();
    let entry = gw.take_next().unwrap();
    let call = match gw.begin_job(entry.job_id, 2) {
        BeginOutcome::Started(call) => call,
        other => panic!("expected a started job, got {:?}", other),
    };
    let output = ai_gateway::job::JobOutput { response: "ok".to_string(), tokens_generated: Some(1) };
    gw.finish_job(resp.job_id, BackendOutcome::Success(output), 10, call.unit_type, call.cost_per_unit_millicents, 3)
        .unwrap();

    let again = gw.finish_job(
        resp.job_id,
        BackendOutcome::Failure("late error".to_string()),
        10,
        call.unit_type,
        call.cost_per_unit_millicents,
        4,
    );
    assert_eq!(again.unwrap_err(), GatewayError::InvalidStateTransition);
    let job = gw.job_snapshot(resp.job_id).unwrap();
    assert_eq!(job.status, JobStatus::Completed);
    assert_eq!(job.result.as_ref().unwrap().response, "ok");
    assert!(job.error.is_none());
}

#[test]
fn terminal_states_carry_their_evidence() {
    let mut gw = AiGatewayState::new(4);
    gw.register_model(test_model("m", "v1", ModelType::Text, UnitType::Token, 100));
    let ok = gw.submit(text_request("p", "u", Some("m"), None), 1).unwrap();
    let bad = gw.submit(text_request("q", "u", Some("m"), None), 2).unwrap();

    let e1 = gw.take_next().unwrap();
    let c1 = match gw.begin_job(e1.job_id, 3) {
        BeginOutcome::Started(c) => c,
        other => panic!("expected a started job, got {:?}", other),
    };
    let output = ai_gateway::job::JobOutput { response: "r".to_string(), tokens_generated: None };
    gw.finish_job(e1.job_id, BackendOutcome::Success(output), 5, c1.unit_type, c1.cost_per_unit_millicents, 4).unwrap();

    let e2 = gw.take_next().unwrap();
    let c2 = match gw.begin_job(e2.job_id, 5) {
        BeginOutcome::Started(c) => c,
        other => panic!("expected a started job, got {:?}", other),
    };
    gw.finish_job(e2.job_id, BackendOutcome::TimedOut, 5, c2.unit_type, c2.cost_per_unit_millicents, 6).unwrap();

    let done = gw.job_snapshot(ok.job_id).unwrap();
    assert_eq!(done.status, JobStatus::Completed);
    assert!(done.result.is_some() && done.actual_cost_cents.is_some() && done.error.is_none());

    let failed = gw.job_snapshot(bad.job_id).unwrap();
    assert_eq!(failed.status, JobStatus::Failed);
    assert!(failed.error.is_some() && failed.result.is_none() && failed.actual_cost_cents.is_none());
    assert_eq!(failed.error, Some(JobError::Timeout));
}

#[test]
fn unknown_model_fails_fast() {
    let mut gw = AiGatewayState::new(4);
    let r = gw.submit(text_request("p", "u", Some("nope"), None), 1);
    assert_eq!(r.unwrap_err(), GatewayError::ModelNotFound);
    assert_eq!(gw.store.len(), 0);
}

#[test]
fn unsupported_model_type_fails_the_job_at_dispatch() {
    let mut gw = AiGatewayState::new(4);
    gw.register_model(test_model("vid", "v1", ModelType::Video, UnitType::VideoSecond, 100));
    let resp = gw.submit(text_request("p", "u", Some("vid"), None), 1).unwrap();
    let entry = gw.take_next().unwrap();
    match gw.begin_job(entry.job_id, 2) {
        BeginOutcome::Rejected(JobError::UnsupportedModel) => {}
        other => panic!("expected an unsupported-model rejection, got {:?}", other),
    }
    let job = gw.job_snapshot(resp.job_id).unwrap();
    assert_eq!(job.status, JobStatus::Failed);
    assert_eq!(job.error, Some(JobError::UnsupportedModel));
}

#[test]
fn cancelling_a_pending_job_withdraws_it_from_the_queue() {
    let mut gw = AiGatewayState::new(4);
    gw.register_model(test_model("m", "v1", ModelType::Text, UnitType::Token, 100));
    let first = gw.submit(text_request("a", "u", Some("m"), None), 1).unwrap();
    let second = gw.submit(text_request("b", "u", Some("m"), None), 2).unwrap();
    gw.cancel_job(first.job_id, 3).unwrap();
    assert_eq!(gw.job_snapshot(first.job_id).unwrap().status, JobStatus::Cancelled);
    assert_eq!(gw.take_next().unwrap().job_id, second.job_id);
    assert!(gw.take_next().is_none());

    let again = gw.cancel_job(first.job_id, 4);
    assert_eq!(again.unwrap_err(), GatewayError::InvalidStateTransition);
    assert_eq!(gw.cancel_job(9999, 5).unwrap_err(), GatewayError::NotFound);
}

#[test]
fn stream_snapshots_follow_the_job_to_a_terminal_state() {
    let mut gw = AiGatewayState::new(4);
    gw.register_model(test_model("m", "v1", ModelType::Text, UnitType::Token, 100));
    let resp = gw.submit(text_request("p", "u", Some("m"), None), 1).unwrap();

    match gw.stream_snapshot(resp.job_id) {
        StreamEvent::Snapshot { status, done, .. } => {
            assert_eq!(status, JobStatus::Pending);
            assert!(!done);
        }
        StreamEvent::Gone => panic!("job exists"),
    }

    let entry = gw.take_next().unwrap();
    let call = match gw.begin_job(entry.job_id, 2) {
        BeginOutcome::Started(c) => c,
        other => panic!("expected a started job, got {:?}", other),
    };
    let output = ai_gateway::job::JobOutput { response: "r".to_string(), tokens_generated: Some(2) };
    gw.finish_job(resp.job_id, BackendOutcome::Success(output), 7, call.unit_type, call.cost_per_unit_millicents, 3).unwrap();

    match gw.stream_snapshot(resp.job_id) {
        StreamEvent::Snapshot { status, done, result, actual_cost_cents, .. } => {
            assert_eq!(status, JobStatus::Completed);
            assert!(done);
            assert_eq!(result.unwrap().response, "r");
            assert!(actual_cost_cents.is_some());
        }
        StreamEvent::Gone => panic!("job exists"),
    }

    match gw.stream_snapshot(424242) {
        StreamEvent::Gone => {}
        StreamEvent::Snapshot { .. } => panic!("unknown job must read as gone"),
    }
}

#[test]
fn stream_url_is_offered_only_on_request() {
    let mut gw = AiGatewayState::new(4);
    gw.register_model(test_model("m", "v1", ModelType::Text, UnitType::Token, 100));
    let mut req = text_request("p", "u", Some("m"), None);
    req.stream = Some(true);
    let with = gw.submit(req, 1).unwrap();
    assert_eq!(with.stream_url.as_deref(), Some(format!("/stream/{}", with.job_id).as_str()));
    let without = gw.submit(text_request("q", "u", Some("m"), None), 2).unwrap();
    assert!(without.stream_url.is_none());
}

#[test]
fn image_submission_uses_the_image_defaults() {
    let mut gw = AiGatewayState::new(4);
    gw.register_default_models(
        "http://qwen-3-72b:8000".to_string(),
        "http://sdxl:8000".to_string(),
        0,
    );
    let resp = gw
        .submit_image(
            ImageGenerateRequest {
                prompt: "a sunrise".to_string(),
                negative_prompt: None,
                model: None,
                user_id: "u1".to_string(),
                width: None,
                height: None,
                num_inference_steps: None,
            },
            1,
        )
        .unwrap();
    // A flat-rate image at 5000 millicents is five whole cents.
    assert_eq!(resp.estimated_cost_cents, 5);
    let entry = gw.take_next().unwrap();
    let call = match gw.begin_job(entry.job_id, 2) {
        BeginOutcome::Started(c) => c,
        other => panic!("expected a started job, got {:?}", other),
    };
    assert_eq!(call.kind, BackendKind::ImageGeneration);
    assert_eq!(call.endpoint, "http://sdxl:8000");
}

#[test]
fn health_summary_counts_models_and_queue_depth() {
    let mut gw = AiGatewayState::new(8);
    let mut healthy = test_model("m", "v1", ModelType::Text, UnitType::Token, 100);
    healthy.health_status = HealthStatus::Healthy;
    gw.register_model(healthy);
    gw.register_model(test_model("m", "v2", ModelType::Text, UnitType::Token, 100));
    gw.submit(text_request("p", "u", Some("m"), None), 1).unwrap();
    let summary = gw.health_summary();
    assert_eq!(summary.total_models, 2);
    assert_eq!(summary.healthy_models, 1);
    assert_eq!(summary.unhealthy_models, 1);
    assert_eq!(summary.queue_depth, 1);
}

#[test]
fn malformed_submissions_are_rejected_outright() {
    let mut gw = AiGatewayState::new(4);
    gw.register_model(test_model("m", "v1", ModelType::Text, UnitType::Token, 100));
    let no_prompt = gw.submit(text_request("", "u", Some("m"), None), 1);
    assert_eq!(no_prompt.unwrap_err(), GatewayError::InvalidRequest);
    let no_user = gw.submit(text_request("p", "", Some("m"), None), 2);
    assert_eq!(no_user.unwrap_err(), GatewayError::InvalidRequest);
    assert_eq!(gw.store.len(), 0);
}

#[test]
fn listing_filters_jobs_by_status() {
    let mut gw = AiGatewayState::new(8);
    gw.register_model(test_model("m", "v1", ModelType::Text, UnitType::Token, 100));
    let a = gw.submit(text_request("a", "u", Some("m"), None), 1).unwrap();
    let b = gw.submit(text_request("b", "u", Some("m"), None), 2).unwrap();
    gw.cancel_job(b.job_id, 3).unwrap();

    let all = gw.store.list(None);
    assert_eq!(all.len(), 2);
    assert_eq!(all[0].id, a.job_id);
    assert_eq!(all[1].id, b.job_id);

    let pending = gw.store.list(Some(JobStatus::Pending));
    assert_eq!(pending.len(), 1);
    assert_eq!(pending[0].id, a.job_id);

    let cancelled = gw.store.list(Some(JobStatus::Cancelled));
    assert_eq!(cancelled.len(), 1);
    assert_eq!(cancelled[0].id, b.job_id);

    assert!(gw.store.list(Some(JobStatus::Completed)).is_empty());
}
