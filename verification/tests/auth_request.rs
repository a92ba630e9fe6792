use prometheus_metrics::auth::{select_auth, split_auth, AuthMode};
use prometheus_metrics::endpoint::normalize_base;
use prometheus_metrics::error::ClientError;
use prometheus_metrics::request::{build_match_params, build_request, Method, Operation};

fn some(s: &str) -> Option<String> {
    Some(s.to_string())
}

#[test]
fn split_auth_splits_on_first_colon_only() {
    let (user, pass) = split_auth("alice:secret:extra").unwrap();
    assert_eq!(user, "alice");
    assert_eq!(pass, "secret:extra");
}

#[test]
fn split_auth_rejects_missing_colon() {
    let err = split_auth("alice").unwrap_err();
    assert!(matches!(err, ClientError::InvalidAuthFormat));
    assert_eq!(err.message(), "auth must be in the form user:password");
}

#[test]
fn split_auth_rejects_empty_user() {
    let err = split_auth(":secret").unwrap_err();
    assert!(matches!(err, ClientError::InvalidAuthFormat));
}

#[test]
fn split_auth_accepts_empty_password() {
    let (user, pass) = split_auth("alice:").unwrap();
    assert_eq!(user, "alice");
    assert_eq!(pass, "");
}

#[test]
fn bearer_wins_over_combined_auth() {
    let mode = select_auth(&some("tok"), &some("alice:secret"), &None, &None).unwrap();
    match mode {
        AuthMode::Bearer(token) => assert_eq!(token, "tok"),
        other => panic!("expected bearer auth, got {:?}", other),
    }
}

#[test]
fn combined_auth_yields_basic() {
    let mode = select_auth(&None, &some("alice:secret"), &None, &None).unwrap();
    match mode {
        AuthMode::Basic(user, pass) => {
            assert_eq!(user, "alice");
            assert_eq!(pass, "secret");
        },
        other => panic!("expected basic auth, got {:?}", other),
    }
}

#[test]
fn split_credentials_yield_basic() {
    let mode = select_auth(&None, &None, &some("u"), &some("p")).unwrap();
    assert!(matches!(mode, AuthMode::Basic(_, _)));
}

#[test]
fn password_without_user_is_incomplete() {
    let err = select_auth(&None, &None, &None, &some("p")).unwrap_err();
    assert!(matches!(err, ClientError::IncompleteCredentials { missing_user: true }));
    assert_eq!(err.message(), "--user is required when using --password");
}

#[test]
fn user_without_password_is_incomplete() {
    let err = select_auth(&None, &None, &some("u"), &None).unwrap_err();
    assert!(matches!(err, ClientError::IncompleteCredentials { missing_user: false }));
    assert_eq!(err.message(), "--password is required when using --user");
}

#[test]
fn no_credentials_yield_no_auth() {
    let mode = select_auth(&None, &None, &None, &None).unwrap();
    assert!(matches!(mode, AuthMode::NoAuth));
}

#[test]
fn match_params_repeat_key_in_order() {
    let params = build_match_params(
        vec!["up".to_string(), "node_cpu".to_string()],
        some("1"),
        None,
    );
    let texts: Vec<(String, String)> = params;
    assert_eq!(texts.len(), 3);
    assert_eq!(texts[0], ("match[]".to_string(), "up".to_string()));
    assert_eq!(texts[1], ("match[]".to_string(), "node_cpu".to_string()));
    assert_eq!(texts[2], ("start".to_string(), "1".to_string()));
}

#[test]
fn normalization_joins_like_a_trailing_slash() {
    let without = normalize_base("http://example.com/prom").unwrap();
    let with = normalize_base("http://example.com/prom/").unwrap();
    let op = Operation::Query { query: "up".to_string(), time: None, timeout: None };
    let a = build_request(&without, &op, AuthMode::NoAuth).unwrap();
    let b = build_request(&with, &op, AuthMode::NoAuth).unwrap();
    assert_eq!(a.url, b.url);
    assert_eq!(a.url, "http://example.com/prom/api/v1/query");
}

#[test]
fn query_request_is_a_form_post() {
    let base = normalize_base("http://example.com").unwrap();
    let op = Operation::Query {
        query: "up".to_string(),
        time: some("123"),
        timeout: some("30s"),
    };
    let d = build_request(&base, &op, AuthMode::NoAuth).unwrap();
    assert_eq!(d.method, Method::PostForm);
    assert_eq!(d.url, "http://example.com/api/v1/query");
    assert_eq!(d.params.len(), 3);
    assert_eq!(d.params[0], ("query".to_string(), "up".to_string()));
    assert_eq!(d.params[1], ("time".to_string(), "123".to_string()));
    assert_eq!(d.params[2], ("timeout".to_string(), "30s".to_string()));
}

#[test]
fn range_request_defaults_step() {
    let base = normalize_base("http://example.com").unwrap();
    let op = Operation::Range {
        query: "up".to_string(),
        start: "1".to_string(),
        end: "2".to_string(),
        step: None,
        timeout: None,
    };
    let d = build_request(&base, &op, AuthMode::NoAuth).unwrap();
    assert_eq!(d.url, "http://example.com/api/v1/query_range");
    assert_eq!(d.method, Method::PostForm);
    assert_eq!(
        d.params,
        vec![
            ("query".to_string(), "up".to_string()),
            ("start".to_string(), "1".to_string()),
            ("end".to_string(), "2".to_string()),
            ("step".to_string(), "60s".to_string()),
        ]
    );
}

#[test]
fn labels_request_substitutes_the_label() {
    let base = normalize_base("http://example.com").unwrap();
    let op = Operation::Labels { label: "job".to_string(), matches: vec!["up".to_string()] };
    let d = build_request(&base, &op, AuthMode::NoAuth).unwrap();
    assert_eq!(d.url, "http://example.com/api/v1/label/job/values");
    assert_eq!(d.method, Method::Get);
    assert_eq!(d.params, vec![("match[]".to_string(), "up".to_string())]);
}

#[test]
fn jobs_and_metrics_have_fixed_paths() {
    let base = normalize_base("http://example.com").unwrap();
    let jobs = build_request(&base, &Operation::Jobs, AuthMode::NoAuth).unwrap();
    assert_eq!(jobs.url, "http://example.com/api/v1/label/job/values");
    assert!(jobs.params.is_empty());
    let metrics = build_request(&base, &Operation::Metrics, AuthMode::NoAuth).unwrap();
    assert_eq!(metrics.url, "http://example.com/api/v1/label/__name__/values");
    assert!(metrics.params.is_empty());
}

#[test]
fn series_without_matchers_fails_before_any_request() {
    let base = normalize_base("http://example.com").unwrap();
    let op = Operation::Series { matches: vec![], start: some("1"), end: None };
    let err = build_request(&base, &op, AuthMode::NoAuth).unwrap_err();
    assert!(matches!(err, ClientError::MissingMatcher));
    assert_eq!(err.message(), "--match is required for series queries");
}

#[test]
fn series_with_matchers_builds_a_get() {
    let base = normalize_base("http://example.com").unwrap();
    let op = Operation::Series {
        matches: vec!["up".to_string()],
        start: some("1"),
        end: some("2"),
    };
    let d = build_request(&base, &op, AuthMode::NoAuth).unwrap();
    assert_eq!(d.url, "http://example.com/api/v1/series");
    assert_eq!(d.method, Method::Get);
    assert_eq!(
        d.params,
        vec![
            ("match[]".to_string(), "up".to_string()),
            ("start".to_string(), "1".to_string()),
            ("end".to_string(), "2".to_string()),
        ]
    );
}

#[test]
fn invalid_base_url_is_rejected() {
    let err = normalize_base("not a url").unwrap_err();
    assert!(matches!(err, ClientError::InvalidUrl));
    assert_eq!(err.message(), "invalid base URL");
}

#[test]
fn query_without_options_sends_only_the_query() {
    let base = normalize_base("http://example.com").unwrap();
    let op = Operation::Query { query: "up".to_string(), time: None, timeout: None };
    let d = build_request(&base, &op, AuthMode::NoAuth).unwrap();
    assert_eq!(d.params, vec![("query".to_string(), "up".to_string())]);
}

#[test]
fn split_auth_handles_multibyte_text() {
    let (user, pass) = split_auth("célèbre:mot de passe").unwrap();
    assert_eq!(user, "célèbre");
    assert_eq!(pass, "mot de passe");
}

#[test]
fn request_carries_the_selected_auth() {
    let base = normalize_base("http://example.com").unwrap();
    let auth = select_auth(&Some("tok".to_string()), &some("a:b"), &None, &None).unwrap();
    let op = Operation::Jobs;
    let d = build_request(&base, &op, auth).unwrap();
    match d.auth {
        AuthMode::Bearer(token) => assert_eq!(token, "tok"),
        other => panic!("expected bearer auth, got {:?}", other),
    }
}
