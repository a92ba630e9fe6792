use prometheus_metrics::json::Json;
use prometheus_metrics::render::{render_json, to_compact, to_pretty};

// Keys stand in sorted order so that a round trip through serde_json,
// whose maps order their keys, keeps the texts comparable.
fn sample() -> Json {
    Json::Obj(vec![
        ("empty".to_string(), Json::Arr(vec![])),
        ("name".to_string(), Json::Str("up".to_string())),
        ("nothing".to_string(), Json::Obj(vec![])),
        (
            "values".to_string(),
            Json::Arr(vec![
                Json::Num("1".to_string()),
                Json::Num("2.5".to_string()),
                Json::Bool(true),
                Json::Null,
            ]),
        ),
    ])
}

#[test]
fn compact_form_matches_serde() {
    let ours = to_compact(&sample());
    let theirs: serde_json::Value = serde_json::from_str(&ours).unwrap();
    assert_eq!(ours, serde_json::to_string(&theirs).unwrap());
}

#[test]
fn pretty_form_matches_serde() {
    let ours = to_pretty(&sample());
    let theirs: serde_json::Value = serde_json::from_str(&ours).unwrap();
    assert_eq!(ours, serde_json::to_string_pretty(&theirs).unwrap());
}

#[test]
fn pretty_and_compact_reparse_to_the_same_value() {
    let compact = render_json(&sample(), false);
    let pretty = render_json(&sample(), true);
    let a: serde_json::Value = serde_json::from_str(&compact).unwrap();
    let b: serde_json::Value = serde_json::from_str(&pretty).unwrap();
    assert_eq!(a, b);
    assert_ne!(compact, pretty);
}

#[test]
fn string_escapes_match_serde() {
    let tricky = Json::Str("a\"b\\c\nd\te\rf\u{8}g\u{c}h\u{1f}i\u{e9}".to_string());
    let ours = to_compact(&tricky);
    let theirs: serde_json::Value = serde_json::from_str(&ours).unwrap();
    assert_eq!(ours, serde_json::to_string(&theirs).unwrap());
    assert_eq!(theirs.as_str().unwrap(), "a\"b\\c\nd\te\rf\u{8}g\u{c}h\u{1f}i\u{e9}");
}

#[test]
fn scalars_render_bare() {
    assert_eq!(to_compact(&Json::Null), "null");
    assert_eq!(to_compact(&Json::Bool(true)), "true");
    assert_eq!(to_compact(&Json::Bool(false)), "false");
    assert_eq!(to_compact(&Json::Num("42".to_string())), "42");
    assert_eq!(to_compact(&Json::Str("hi".to_string())), "\"hi\"");
}

#[test]
fn pretty_indents_two_spaces() {
    let value = Json::Obj(vec![(
        "a".to_string(),
        Json::Arr(vec![Json::Num("1".to_string())]),
    )]);
    assert_eq!(to_pretty(&value), "{\n  \"a\": [\n    1\n  ]\n}");
}
