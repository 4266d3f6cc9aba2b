use authcore::config::{get_config, reload_config, Config, ConfigStore};
use authcore::auth::{
    fixed_time_eq, rejection, AuthDecision, Authentication, RejectReason, HEALTH_CHECK_PATH,
    UNAUTHORIZED_BODY, UNAUTHORIZED_STATUS,
};

fn settings_with_token(token: &str) -> Config {
    Config::from_settings(None, None, None, None, None, Some(token.to_string()), None, None, None)
}

#[test]
fn health_check_without_header_is_forwarded() {
    let guard = Authentication::new();
    assert_eq!(guard.health_path, HEALTH_CHECK_PATH);
    assert_eq!(guard.decide("/api/health", None, "secret"), AuthDecision::Forward);
}

#[test]
fn other_path_without_header_is_rejected() {
    let guard = Authentication::new();
    assert_eq!(
        guard.decide("/api/users", None, "secret"),
        AuthDecision::Reject(RejectReason::MissingCredential)
    );
    let response = rejection();
    assert_eq!(response.status, 401);
    assert_eq!(response.status, UNAUTHORIZED_STATUS);
    assert_eq!(
        response.body,
        "{\"error\":\"Unauthorized\",\"message\":\"Invalid or missing API token\"}"
    );
    assert_eq!(response.body, UNAUTHORIZED_BODY);
}

#[test]
fn expected_bearer_token_is_forwarded() {
    let guard = Authentication::new();
    assert_eq!(
        guard.decide("/api/items", Some(b"Bearer secret"), "secret"),
        AuthDecision::Forward
    );
}

#[test]
fn lowercase_scheme_is_rejected() {
    let guard = Authentication::new();
    assert_eq!(
        guard.decide("/api/items", Some(b"bearer secret"), "secret"),
        AuthDecision::Reject(RejectReason::MalformedCredential)
    );
}

#[test]
fn wrong_token_is_rejected() {
    let guard = Authentication::new();
    assert_eq!(
        guard.decide("/api/items", Some(b"Bearer wrong"), "secret"),
        AuthDecision::Reject(RejectReason::InvalidCredential)
    );
}

#[test]
fn token_is_trimmed() {
    let guard = Authentication::new();
    assert_eq!(
        guard.decide("/api/items", Some(b"Bearer   secret \t"), "secret"),
        AuthDecision::Forward
    );
}

#[test]
fn only_one_prefix_is_removed() {
    let guard = Authentication::new();
    assert_eq!(
        guard.decide("/api/items", Some(b"Bearer Bearer secret"), "secret"),
        AuthDecision::Reject(RejectReason::InvalidCredential)
    );
}

#[test]
fn non_text_header_is_malformed() {
    let guard = Authentication::new();
    assert_eq!(
        guard.decide("/api/items", Some(b"Bearer secr\xffet"), "secret"),
        AuthDecision::Reject(RejectReason::MalformedCredential)
    );
}

#[test]
fn scheme_without_space_is_malformed() {
    let guard = Authentication::new();
    assert_eq!(
        guard.decide("/api/items", Some(b"Bearer"), "secret"),
        AuthDecision::Reject(RejectReason::MalformedCredential)
    );
}

#[test]
fn health_path_must_match_exactly() {
    let guard = Authentication::new();
    assert_eq!(
        guard.decide("/api/health/", None, "secret"),
        AuthDecision::Reject(RejectReason::MissingCredential)
    );
}

#[test]
fn fixed_time_comparison() {
    assert!(fixed_time_eq(b"abc", b"abc"));
    assert!(!fixed_time_eq(b"abc", b"abd"));
    assert!(!fixed_time_eq(b"abc", b"ab"));
    assert!(fixed_time_eq(b"", b""));
}

#[test]
fn middleware_reads_the_current_token() {
    let mut store = ConfigStore::new(settings_with_token("first"));
    let middleware = Authentication::new().new_transform();
    assert_eq!(middleware.call(&store, "/api/users", Some(b"Bearer first")), AuthDecision::Forward);
    reload_config(&mut store, settings_with_token("second"));
    assert_eq!(
        middleware.call(&store, "/api/users", Some(b"Bearer first")),
        AuthDecision::Reject(RejectReason::InvalidCredential)
    );
    assert_eq!(
        middleware.call(&store, "/api/users", Some(b"Bearer second")),
        AuthDecision::Forward
    );
    assert_eq!(get_config(&store).api_token, "second");
}
