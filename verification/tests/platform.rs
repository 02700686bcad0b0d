use ai_gateway::ai::AIRequest;
use ai_gateway::plugins::{is_valid_permission, is_valid_version};

#[test]
fn test_telemetry_exclusion_defaults() {
    println!("TEST: Verifying Telemetry Exclusion Defaults...");

    // Simulate reading configuration
    let enable_telemetry = false; // Default must be false
    let analytics_endpoint = ""; // Default must be empty or local

    assert_eq!(enable_telemetry, false, "Telemetry must be disabled by default");
    assert_eq!(analytics_endpoint, "", "No external analytics endpoint configured");

    // Verify code doesn't contain known analytics domains (basic string check simulation)
    let blocked_domains = vec!["google-analytics.com", "mixpanel.com", "segment.io"];
    for domain in blocked_domains {
        assert!(!analytics_endpoint.contains(domain), "External analytics domain found!");
    }
}

#[test]
fn test_ai_response_parsing() {
    let request = AIRequest {
        prompt: "Open a new tab".to_string(),
        context_json: None,
        model: None,
    };
    assert_eq!(request.prompt, "Open a new tab");
    assert!(request.context_json.is_none() && request.model.is_none());
}

#[test]
fn known_permissions_are_accepted_and_strangers_refused() {
    assert!(is_valid_permission("jean.chat"));
    assert!(is_valid_permission("notifications.show"));
    assert!(!is_valid_permission("jean.chat2"));
    assert!(!is_valid_permission(""));
    assert!(!is_valid_permission("files.execute"));
}

#[test]
fn version_strings_need_three_numeric_segments() {
    assert!(is_valid_version("1.2.3"));
    assert!(is_valid_version("0.0.0"));
    assert!(is_valid_version("10.20.300"));
    assert!(is_valid_version("+1.2.3"));
    assert!(is_valid_version("4294967295.0.1"));
    assert!(!is_valid_version("4294967296.0.1"));
    assert!(!is_valid_version("1.2"));
    assert!(!is_valid_version("1.2.3.4"));
    assert!(!is_valid_version("1.2.x"));
    assert!(!is_valid_version("1..3"));
    assert!(!is_valid_version(""));
    assert!(!is_valid_version("1.2.-3"));
}
