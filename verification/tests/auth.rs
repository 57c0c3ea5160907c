use startsmall::auth::{sync_request_authorized, token_matches, RequestHeader};

fn header(field: &str, value: &str) -> RequestHeader {
    RequestHeader { field: field.to_string(), value: value.to_string() }
}

fn remote(token: Option<&str>, headers: Vec<RequestHeader>) -> bool {
    sync_request_authorized(false, token, &headers)
}

#[test]
fn tokens_match_only_when_equal() {
    assert!(token_matches("secret", "secret"));
    assert!(!token_matches("secret", "Secret"));
    assert!(!token_matches("secre", "secret"));
    assert!(!token_matches("", "secret"));
    assert!(token_matches("sécret", "sécret"));
}

#[test]
fn local_requests_need_no_token() {
    assert!(sync_request_authorized(true, None, &vec![]));
    assert!(sync_request_authorized(true, Some("secret"), &vec![]));
}

#[test]
fn remote_requests_without_a_token_set_are_refused() {
    assert!(!remote(None, vec![header("X-Sync-Token", "")]));
    assert!(!remote(Some(""), vec![header("X-Sync-Token", "")]));
    assert!(!remote(Some("  "), vec![header("X-Sync-Token", "  ")]));
}

#[test]
fn the_token_field_authorizes() {
    assert!(remote(Some("secret"), vec![header("X-Sync-Token", "secret")]));
    assert!(remote(Some("secret"), vec![header("x-sync-token", " secret ")]));
    assert!(!remote(Some("secret"), vec![header("X-Sync-Token", "other")]));
    assert!(!remote(Some("secret"), vec![header("X-Sync-Token", "Bearer secret")]));
    assert!(!remote(Some("secret"), vec![header("X-Token", "secret")]));
}

#[test]
fn the_credentials_field_authorizes() {
    assert!(remote(Some("secret"), vec![header("Authorization", "Bearer secret")]));
    assert!(remote(Some("secret"), vec![header("AUTHORIZATION", "  Bearer   secret ")]));
    assert!(!remote(Some("secret"), vec![header("Authorization", "secret")]));
    assert!(!remote(Some("secret"), vec![header("Authorization", "bearer secret")]));
    assert!(!remote(Some("secret"), vec![header("Authorization", "Bearer secrets")]));
}

#[test]
fn any_header_may_present_the_token() {
    assert!(remote(
        Some("secret"),
        vec![
            header("Host", "example.com"),
            header("X-Sync-Token", "wrong"),
            header("Authorization", "Bearer secret"),
        ]
    ));
    assert!(!remote(Some("secret"), vec![]));
}

#[test]
fn a_token_with_white_space_at_its_ends_cannot_be_presented() {
    assert!(!remote(Some(" secret"), vec![header("X-Sync-Token", " secret")]));
}
