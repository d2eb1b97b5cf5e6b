use actix_web::http::header::{HeaderMap, HeaderName, HeaderValue};
use monitoring_api::guard::{
    decide_request, Authentification, AuthentificationMiddleware, Decision, REJECTION_MESSAGE,
    REJECTION_STATUS,
};
use monitoring_api::path::is_protected_path;
use monitoring_api::token::{bearer_token, is_text_value, token_grants};

fn guard() -> AuthentificationMiddleware<()> {
    Authentification::new("bearer_token").new_transform(())
}

fn with_authorization(value: &[u8]) -> HeaderMap {
    let mut headers = HeaderMap::new();
    headers.insert(
        HeaderName::from_static("authorization"),
        HeaderValue::from_bytes(value).unwrap(),
    );
    headers
}

#[test]
fn health_without_headers_passes_through() {
    assert_eq!(guard().decide("/health", &HeaderMap::new()), Decision::Forward);
}

#[test]
fn unprotected_path_ignores_wrong_credential() {
    let headers = with_authorization(b"xyz");
    assert_eq!(guard().decide("/health", &headers), Decision::Forward);
    assert_eq!(guard().decide("/metric", &headers), Decision::Forward);
}

#[test]
fn credential_alone_loses_its_first_six_bytes() {
    // "bearer_token" without a scheme leaves "_token" once six bytes are dropped.
    let headers = with_authorization(b"bearer_token");
    assert_eq!(guard().decide("/metrics", &headers), Decision::Reject);
}

#[test]
fn six_letter_scheme_then_credential_passes() {
    let headers = with_authorization(b"Bearerbearer_token");
    assert_eq!(guard().decide("/metrics", &headers), Decision::Forward);
    let headers = with_authorization(b"bearerbearer_token");
    assert_eq!(guard().decide("/metrics", &headers), Decision::Forward);
}

#[test]
fn scheme_and_space_then_credential_passes() {
    // The space left after the six dropped bytes is trimmed away.
    let headers = with_authorization(b"Bearer bearer_token");
    assert_eq!(guard().decide("/metrics", &headers), Decision::Forward);
}

#[test]
fn any_six_bytes_stand_for_the_scheme() {
    let headers = with_authorization(b"xxxxxxbearer_token");
    assert_eq!(guard().decide("/metrics", &headers), Decision::Forward);
}

#[test]
fn metrics_without_authorization_is_rejected() {
    assert_eq!(guard().decide("/metrics", &HeaderMap::new()), Decision::Reject);
    assert_eq!(REJECTION_STATUS, 401);
    assert_eq!(REJECTION_MESSAGE, "Only prometheus can use me !");
}

#[test]
fn short_authorization_is_rejected() {
    let headers = with_authorization(b"xyz");
    assert_eq!(guard().decide("/metrics", &headers), Decision::Reject);
    let headers = with_authorization(b"");
    assert_eq!(guard().decide("/metrics", &headers), Decision::Reject);
    let headers = with_authorization(b"Bearer");
    assert_eq!(guard().decide("/metrics", &headers), Decision::Reject);
}

#[test]
fn sub_path_with_valid_credential_passes() {
    let headers = with_authorization(b"Bearer bearer_token");
    assert_eq!(guard().decide("/api/metrics/summary", &headers), Decision::Forward);
}

#[test]
fn sub_path_without_credential_is_rejected() {
    assert_eq!(guard().decide("/foo/metrics/bar", &HeaderMap::new()), Decision::Reject);
    assert_eq!(guard().decide("/admin/metrics-export", &HeaderMap::new()), Decision::Reject);
}

#[test]
fn credential_comparison_is_case_sensitive() {
    let headers = with_authorization(b"Bearer BEARER_TOKEN");
    assert_eq!(guard().decide("/metrics", &headers), Decision::Reject);
    let headers = with_authorization(b"Bearer bearer_token2");
    assert_eq!(guard().decide("/metrics", &headers), Decision::Reject);
}

#[test]
fn value_that_is_not_text_is_rejected() {
    let headers = with_authorization(b"Bearer bearer_token\xe9");
    assert_eq!(guard().decide("/metrics", &headers), Decision::Reject);
}

#[test]
fn tabs_and_spaces_around_the_token_are_trimmed() {
    let headers = with_authorization(b"Bearer\t bearer_token \t");
    assert_eq!(guard().decide("/metrics", &headers), Decision::Forward);
}

#[test]
fn header_name_is_looked_up_without_regard_to_case() {
    let mut headers = HeaderMap::new();
    headers.insert(
        HeaderName::from_bytes(b"AUTHORIZATION").unwrap(),
        HeaderValue::from_static("Bearer bearer_token"),
    );
    assert_eq!(guard().decide("/metrics", &headers), Decision::Forward);
}

#[test]
fn only_the_first_authorization_value_counts() {
    let name = HeaderName::from_static("authorization");
    let mut headers = HeaderMap::new();
    headers.append(name.clone(), HeaderValue::from_static("Bearer wrong"));
    headers.append(name.clone(), HeaderValue::from_static("Bearer bearer_token"));
    assert_eq!(guard().decide("/metrics", &headers), Decision::Reject);

    let mut headers = HeaderMap::new();
    headers.append(name.clone(), HeaderValue::from_static("Bearer bearer_token"));
    headers.append(name, HeaderValue::from_static("Bearer wrong"));
    assert_eq!(guard().decide("/metrics", &headers), Decision::Forward);
}

#[test]
fn other_headers_do_not_count() {
    let mut headers = HeaderMap::new();
    headers.insert(
        HeaderName::from_static("x-authorization"),
        HeaderValue::from_static("Bearer bearer_token"),
    );
    assert_eq!(guard().decide("/metrics", &headers), Decision::Reject);
}

#[test]
fn repeated_requests_get_the_same_decision() {
    let g = guard();
    let good = with_authorization(b"Bearer bearer_token");
    let bad = with_authorization(b"Bearer nope");
    for _ in 0..3 {
        assert_eq!(g.decide("/metrics", &good), Decision::Forward);
        assert_eq!(g.decide("/metrics", &bad), Decision::Reject);
    }
}

#[test]
fn configured_credential_replaces_the_default() {
    let g = Authentification::new("s3cret").new_transform(7u8);
    assert_eq!(*g.service(), 7u8);
    let headers = with_authorization(b"Bearer s3cret");
    assert_eq!(g.decide("/metrics", &headers), Decision::Forward);
    let headers = with_authorization(b"Bearer bearer_token");
    assert_eq!(g.decide("/metrics", &headers), Decision::Reject);
}

#[test]
fn default_guard_asks_for_bearer_token() {
    let g = Authentification::default().new_transform(());
    let headers = with_authorization(b"Bearer bearer_token");
    assert_eq!(g.decide("/metrics", &headers), Decision::Forward);
    let headers = with_authorization(b"Bearer other");
    assert_eq!(g.decide("/metrics", &headers), Decision::Reject);
}

#[test]
fn decide_request_on_plain_values() {
    let c: &[u8] = b"bearer_token";
    assert_eq!(decide_request(c, "/health", None), Decision::Forward);
    assert_eq!(decide_request(c, "/metrics", None), Decision::Reject);
    assert_eq!(decide_request(c, "/metrics", Some(b"xyz")), Decision::Reject);
    assert_eq!(decide_request(c, "/metrics", Some(b"Bearer bearer_token")), Decision::Forward);
    assert_eq!(decide_request(c, "/x/metrics", Some(b"bearer_token")), Decision::Reject);
}

#[test]
fn protected_paths() {
    assert!(is_protected_path("/metrics"));
    assert!(is_protected_path("/metrics/"));
    assert!(is_protected_path("/foo/metrics/bar"));
    assert!(is_protected_path("x/metricsy"));
    assert!(!is_protected_path(""));
    assert!(!is_protected_path("/metric"));
    assert!(!is_protected_path("metrics"));
    assert!(!is_protected_path("/Metrics"));
    assert!(!is_protected_path("/health"));
}

#[test]
fn bearer_token_drops_six_bytes_and_trims() {
    assert_eq!(bearer_token(b"Bearer  abc  "), Some(&b"abc"[..]));
    assert_eq!(bearer_token(b"bearerabc"), Some(&b"abc"[..]));
    assert_eq!(bearer_token(b"Bearer"), Some(&b""[..]));
    assert_eq!(bearer_token(b"Bearer    "), Some(&b""[..]));
    assert_eq!(bearer_token(b"Beare"), None);
    assert_eq!(bearer_token(b"Bearer \x7f"), None);
}

#[test]
fn text_values() {
    assert!(is_text_value(b""));
    assert!(is_text_value(b"Bearer\tx ~"));
    assert!(!is_text_value(b"a\x1fb"));
    assert!(!is_text_value(b"\x7f"));
    assert!(!is_text_value(b"\xc3\xa9"));
}

#[test]
fn token_grants_compares_exactly() {
    assert!(token_grants(b"abc", b"123456abc"));
    assert!(token_grants(b"", b"123456"));
    assert!(!token_grants(b"abc", b"123456abcd"));
    assert!(!token_grants(b"abc", b"12345abc"));
    assert!(!token_grants(b"abc", b"abc"));
}
