use ai_gateway::registry::{
    classify_probe, HealthStatus, ModelInfo, ModelRegistry, ModelType, UnitType,
};

fn model(name: &str, version: &str) -> ModelInfo {
    ModelInfo {
        name: name.to_string(),
        version: version.to_string(),
        endpoint: format!("http://{}-{}:8000", name, version),
        model_type: ModelType::Text,
        unit_type: UnitType::Token,
        cost_per_unit_millicents: 100,
        max_tokens: None,
        gpu_required: false,
        health_status: HealthStatus::Unknown,
        last_health_check: 0,
    }
}

#[test]
fn latest_resolves_to_the_most_recent_registration() {
    let mut reg = ModelRegistry::new();
    reg.register(model("m", "v1.0"));
    reg.register(model("m", "v2.0"));
    let latest = reg.resolve("m", "latest").expect("name is registered");
    let exact = reg.resolve("m", "v2.0").expect("version is registered");
    assert_eq!(latest.version, "v2.0");
    assert_eq!(latest.version, exact.version);
    assert_eq!(latest.endpoint, exact.endpoint);
}

#[test]
fn resolve_matches_exact_versions_and_rejects_strangers() {
    let mut reg = ModelRegistry::new();
    reg.register(model("m", "v1.0"));
    reg.register(model("other", "v9"));
    assert_eq!(reg.resolve("m", "v1.0").unwrap().version, "v1.0");
    assert!(reg.resolve("m", "v2.0").is_none());
    assert!(reg.resolve("absent", "latest").is_none());
}

#[test]
fn health_probes_classify_by_status_code() {
    assert_eq!(classify_probe(Some(200)), HealthStatus::Healthy);
    assert_eq!(classify_probe(Some(204)), HealthStatus::Healthy);
    assert_eq!(classify_probe(Some(299)), HealthStatus::Healthy);
    assert_eq!(classify_probe(Some(301)), HealthStatus::Degraded);
    assert_eq!(classify_probe(Some(500)), HealthStatus::Degraded);
    assert_eq!(classify_probe(None), HealthStatus::Unhealthy);
}

#[test]
fn recorded_health_lands_on_the_matching_version() {
    let mut reg = ModelRegistry::new();
    reg.register(model("m", "v1"));
    reg.register(model("m", "v2"));
    reg.record_health("m", "v1", HealthStatus::Degraded, 77);
    let v1 = reg.resolve("m", "v1").unwrap();
    let v2 = reg.resolve("m", "v2").unwrap();
    assert_eq!(v1.health_status, HealthStatus::Degraded);
    assert_eq!(v1.last_health_check, 77);
    assert_eq!(v2.health_status, HealthStatus::Unknown);
}
