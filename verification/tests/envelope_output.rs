use prometheus_metrics::envelope::{malformed_error, validate, Envelope};
use prometheus_metrics::error::ClientError;
use prometheus_metrics::json::Json;
use prometheus_metrics::output::{extract_result, filter_values, render_lines};
use prometheus_metrics::render::render_json;

fn vector_envelope() -> Envelope {
    Envelope {
        status: "success".to_string(),
        data: Some(Json::Obj(vec![
            ("resultType".to_string(), Json::Str("vector".to_string())),
            ("result".to_string(), Json::Arr(vec![])),
        ])),
        error_type: None,
        error: None,
        warnings: None,
    }
}

#[test]
fn success_envelope_yields_its_data() {
    let (data, warnings) = validate(vector_envelope()).unwrap();
    assert!(warnings.is_empty());
    assert_eq!(
        render_json(&data, false),
        "{\"resultType\":\"vector\",\"result\":[]}"
    );
}

#[test]
fn result_extraction_gives_the_result_field() {
    let (data, _) = validate(vector_envelope()).unwrap();
    let payload = extract_result(data);
    assert_eq!(render_json(&payload, false), "[]");
}

#[test]
fn extraction_without_result_field_keeps_the_value() {
    let obj = Json::Obj(vec![("other".to_string(), Json::Num("1".to_string()))]);
    assert_eq!(render_json(&extract_result(obj), false), "{\"other\":1}");
    let arr = Json::Arr(vec![Json::Null]);
    assert_eq!(render_json(&extract_result(arr), false), "[null]");
}

#[test]
fn error_envelope_carries_type_and_message() {
    let env = Envelope {
        status: "error".to_string(),
        data: None,
        error_type: Some("bad_data".to_string()),
        error: Some("invalid query".to_string()),
        warnings: None,
    };
    let err = validate(env).unwrap_err();
    let message = err.message();
    assert!(message.contains("bad_data"));
    assert!(message.contains("invalid query"));
    assert_eq!(message, "API error (bad_data): invalid query");
}

#[test]
fn error_envelope_defaults_missing_fields() {
    let env = Envelope {
        status: "error".to_string(),
        data: Some(Json::Null),
        error_type: None,
        error: None,
        warnings: None,
    };
    let err = validate(env).unwrap_err();
    assert_eq!(err.message(), "API error (unknown): unknown error");
}

#[test]
fn missing_data_becomes_null() {
    let env = Envelope {
        status: "success".to_string(),
        data: None,
        error_type: None,
        error: None,
        warnings: None,
    };
    let (data, _) = validate(env).unwrap();
    assert_eq!(render_json(&data, false), "null");
}

#[test]
fn warnings_come_back_in_order() {
    let env = Envelope {
        status: "success".to_string(),
        data: Some(Json::Arr(vec![])),
        error_type: None,
        error: None,
        warnings: Some(vec!["first".to_string(), "second".to_string()]),
    };
    let (_, warnings) = validate(env).unwrap();
    assert_eq!(warnings, vec!["first".to_string(), "second".to_string()]);
}

#[test]
fn malformed_error_keeps_status_and_preview() {
    let body: String = "x".repeat(250);
    let err = malformed_error(502, &body);
    match err {
        ClientError::Malformed { http_status, body_preview } => {
            assert_eq!(http_status, 502);
            assert_eq!(body_preview.len(), 200);
        },
        other => panic!("expected a malformed-response error, got {:?}", other),
    }
}

#[test]
fn malformed_error_message_names_the_status() {
    let err = malformed_error(502, "<html>oops");
    assert_eq!(
        err.message(),
        "failed to parse response as JSON (status 502): <html>oops"
    );
}

#[test]
fn metrics_filter_is_case_insensitive_and_keeps_order() {
    let data = Json::Arr(vec![
        Json::Str("cpu_usage".to_string()),
        Json::Str("memory_usage".to_string()),
        Json::Str("CPU_total".to_string()),
    ]);
    let filtered = filter_values(data, "cpu");
    assert_eq!(render_json(&filtered, false), "[\"cpu_usage\",\"CPU_total\"]");
}

#[test]
fn metrics_filter_drops_non_strings() {
    let data = Json::Arr(vec![
        Json::Str("cpu".to_string()),
        Json::Num("1".to_string()),
        Json::Null,
    ]);
    let filtered = filter_values(data, "c");
    assert_eq!(render_json(&filtered, false), "[\"cpu\"]");
}

#[test]
fn metrics_filter_with_upper_case_needle_matches() {
    let data = Json::Arr(vec![Json::Str("cpu_usage".to_string())]);
    let filtered = filter_values(data, "CPU");
    assert_eq!(render_json(&filtered, false), "[\"cpu_usage\"]");
}

#[test]
fn metrics_filter_passes_non_arrays_through() {
    let data = Json::Obj(vec![("a".to_string(), Json::Null)]);
    let filtered = filter_values(data, "cpu");
    assert_eq!(render_json(&filtered, false), "{\"a\":null}");
}

#[test]
fn lines_mode_prints_strings_verbatim() {
    let data = Json::Arr(vec![
        Json::Str("up".to_string()),
        Json::Num("1".to_string()),
        Json::Null,
    ]);
    let text = render_lines(&data).unwrap();
    assert_eq!(text, "up\n1\nnull\n");
}

#[test]
fn lines_mode_refuses_non_arrays() {
    let data = Json::Obj(vec![("a".to_string(), Json::Null)]);
    let err = render_lines(&data).unwrap_err();
    assert!(matches!(err, ClientError::NotAnArray));
    assert_eq!(err.message(), "expected an array response for lines output");
}

#[test]
fn empty_needle_keeps_all_strings() {
    let data = Json::Arr(vec![
        Json::Str("a".to_string()),
        Json::Num("1".to_string()),
        Json::Str("b".to_string()),
    ]);
    let filtered = filter_values(data, "");
    assert_eq!(render_json(&filtered, false), "[\"a\",\"b\"]");
}

#[test]
fn lines_mode_of_an_empty_array_prints_nothing() {
    let text = render_lines(&Json::Arr(vec![])).unwrap();
    assert_eq!(text, "");
}
