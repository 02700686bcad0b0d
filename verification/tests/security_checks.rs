use ai_gateway::security::{
    extract_resource_id, extract_resource_type, extract_setting_category, generate_secure_token,
    hash_sensitive_data, validate_api_key, RateLimiter,
};

#[test]
fn api_keys_need_length_and_a_safe_alphabet() {
    assert!(validate_api_key("abcdefghijklmnopqrstuvwxyz012345"));
    assert!(validate_api_key("abcdefghijklmnop-qrstuvwxyz_0123"));
    assert!(!validate_api_key("short"));
    assert!(!validate_api_key("abcdefghijklmnop qrstuvwxyz01234"));
    assert!(!validate_api_key(""));
}

#[test]
fn hashing_is_stable_and_does_not_echo_its_input() {
    let input = "a sensitive value well over sixteen characters";
    let digest = hash_sensitive_data(input);
    assert_eq!(digest, hash_sensitive_data(input));
    assert!(digest.len() >= 1 && digest.len() <= 16);
    assert_ne!(digest, input);
    assert_ne!(digest, hash_sensitive_data("another value"));
}

#[test]
fn secure_tokens_have_the_canonical_shape() {
    let token = generate_secure_token();
    assert_eq!(token.len(), 36);
    assert_ne!(token, generate_secure_token());
}

#[test]
fn rate_limiter_admits_up_to_the_bound_per_window() {
    let mut limiter = RateLimiter::new(2, 60);
    assert!(limiter.is_allowed_at("client", 1_000));
    assert!(limiter.is_allowed_at("client", 1_010));
    assert!(!limiter.is_allowed_at("client", 1_020));
    // Another key has its own budget.
    assert!(limiter.is_allowed_at("other", 1_020));
    // Once the window slides past the old requests, the key recovers.
    assert!(limiter.is_allowed_at("client", 1_071));
}

#[test]
fn setting_categories_follow_the_key_prefix() {
    assert_eq!(extract_setting_category("sharing.profile_visibility").as_deref(), Some("sharing"));
    assert_eq!(extract_setting_category("data_collection.analytics").as_deref(), Some("data_collection"));
    assert_eq!(extract_setting_category("analytics.enabled").as_deref(), Some("analytics"));
    assert_eq!(extract_setting_category("security.mfa").as_deref(), Some("security"));
    assert_eq!(extract_setting_category("misc.flag"), None);
    assert_eq!(extract_setting_category("sharing"), None);
}

#[test]
fn resource_types_follow_the_api_prefix() {
    assert_eq!(extract_resource_type("/api/ai/generate").as_deref(), Some("ai_request"));
    assert_eq!(extract_resource_type("/api/proxy/nodes").as_deref(), Some("proxy_request"));
    assert_eq!(extract_resource_type("/api/files/read").as_deref(), Some("file_operation"));
    assert_eq!(extract_resource_type("/api/plugins/install").as_deref(), Some("plugin_operation"));
    assert_eq!(extract_resource_type("/api/users/1"), None);
    assert_eq!(extract_resource_type(""), None);
}

#[test]
fn resource_ids_are_the_first_canonical_segment() {
    let id = "0198ad72-9d3a-7cc8-bd57-184ec087e022";
    assert_eq!(extract_resource_id(&format!("/api/jobs/{}/status", id)).as_deref(), Some(id));
    assert_eq!(extract_resource_id("/api/jobs/plain/status"), None);
    assert_eq!(extract_resource_id("no-slashes-here"), None);
    // 36 characters without a hyphen is not an id.
    assert_eq!(extract_resource_id("/x/abcdefghijklmnopqrstuvwxyz0123456789"), None);
}
