use ai_gateway::cost::{
    actual_cost_cents, duration_cost_cents, estimate_cost_cents, estimated_tokens,
    unit_cost_cents, SECOND_ESTIMATE_CENTS, VIDEO_SECOND_ESTIMATE_CENTS,
};
use ai_gateway::job::{JobInput, JobOutput, TextInput};
use ai_gateway::registry::{HealthStatus, ModelInfo, ModelType, UnitType};

fn model(unit: UnitType, mc: u32) -> ModelInfo {
    ModelInfo {
        name: "m".to_string(),
        version: "v1".to_string(),
        endpoint: "http://m:8000".to_string(),
        model_type: ModelType::Text,
        unit_type: unit,
        cost_per_unit_millicents: mc,
        max_tokens: None,
        gpu_required: false,
        health_status: HealthStatus::Unknown,
        last_health_check: 0,
    }
}

fn text_input(prompt: &str) -> JobInput {
    JobInput::Text(TextInput {
        prompt: prompt.to_string(),
        max_tokens: None,
        top_k: None,
        stop: None,
    })
}

#[test]
fn token_counts_round_up_by_four_characters() {
    assert_eq!(estimated_tokens(""), 0);
    assert_eq!(estimated_tokens("hi"), 1);
    assert_eq!(estimated_tokens("abcd"), 1);
    assert_eq!(estimated_tokens("abcde"), 2);
    assert_eq!(estimated_tokens("12345678"), 2);
}

#[test]
fn unit_costs_round_up_to_whole_cents() {
    // 5 tokens at 100 millicents: half a cent rounds up to one.
    assert_eq!(unit_cost_cents(5, 100), 1);
    // 20 tokens at 100 millicents: exactly two cents.
    assert_eq!(unit_cost_cents(20, 100), 2);
    assert_eq!(unit_cost_cents(0, 100), 0);
    // Saturation instead of overflow.
    assert_eq!(unit_cost_cents(u64::MAX, u32::MAX), u32::MAX);
}

#[test]
fn duration_costs_price_measured_milliseconds() {
    // 1500 ms at 1000 millicents per second: 1.5 millicents rounds up
    // to one cent... priced as (1500 * 1000 + 999999) / 1000000 = 2.
    assert_eq!(duration_cost_cents(1500, 1000), 2);
    assert_eq!(duration_cost_cents(0, 1000), 0);
    assert_eq!(duration_cost_cents(60_000, 5000), 300);
}

#[test]
fn estimates_follow_the_billing_unit() {
    assert_eq!(estimate_cost_cents(&model(UnitType::Token, 1000), &text_input("hi")), 1);
    assert_eq!(estimate_cost_cents(&model(UnitType::Image, 5000), &text_input("x")), 5);
    assert_eq!(
        estimate_cost_cents(&model(UnitType::Second, 7), &text_input("x")),
        SECOND_ESTIMATE_CENTS
    );
    assert_eq!(
        estimate_cost_cents(&model(UnitType::VideoSecond, 7), &text_input("x")),
        VIDEO_SECOND_ESTIMATE_CENTS
    );
}

#[test]
fn doubling_the_prompt_never_lowers_a_token_estimate() {
    let m = model(UnitType::Token, 250);
    let short = "abcdefgh";
    let long = "abcdefghabcdefgh";
    let once = estimate_cost_cents(&m, &text_input(short));
    let twice = estimate_cost_cents(&m, &text_input(long));
    assert!(twice >= once);
}

#[test]
fn actual_cost_reads_tokens_or_duration() {
    let out = JobOutput { response: "r".to_string(), tokens_generated: Some(5) };
    assert_eq!(actual_cost_cents(UnitType::Token, 100, &out, 999), 1);
    let silent = JobOutput { response: "r".to_string(), tokens_generated: None };
    assert_eq!(actual_cost_cents(UnitType::Token, 100, &silent, 999), 0);
    assert_eq!(actual_cost_cents(UnitType::Image, 5000, &silent, 999), 5);
    assert_eq!(actual_cost_cents(UnitType::Second, 1000, &silent, 1500), 2);
}
