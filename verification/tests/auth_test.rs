use oak_website_backend::auth::{admin_authorized, bearer_matches};

#[test]
fn valid_bearer_token_matches() {
    assert!(bearer_matches(Some("Bearer secret-token"), "secret-token"));
}

#[test]
fn missing_header_fails() {
    assert!(!bearer_matches(None, "token"));
}

#[test]
fn wrong_scheme_fails() {
    assert!(!bearer_matches(Some("Basic dXNlcjpwYXNz"), "token"));
}

#[test]
fn wrong_token_fails() {
    assert!(!bearer_matches(Some("Bearer wrong"), "token"));
}

#[test]
fn empty_token_after_bearer_fails() {
    assert!(!bearer_matches(Some("Bearer "), "token"));
}

#[test]
fn bearer_scheme_is_case_sensitive() {
    assert!(!bearer_matches(Some("bearer token"), "token"));
}

#[test]
fn bearer_token_with_trailing_text_fails() {
    assert!(!bearer_matches(Some("Bearer token extra"), "token"));
}

#[test]
fn bearer_with_empty_expected_matches_bare_prefix() {
    assert!(bearer_matches(Some("Bearer "), ""));
}

#[test]
fn admin_requires_configured_token() {
    assert!(!admin_authorized("", Some("Bearer ")));
    assert!(!admin_authorized("", None));
}

#[test]
fn admin_accepts_matching_header() {
    assert!(admin_authorized("test-token", Some("Bearer test-token")));
    assert!(!admin_authorized("test-token", Some("Bearer other")));
    assert!(!admin_authorized("test-token", None));
}
