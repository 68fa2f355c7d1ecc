use rule_engine::farmscript::compile;
use rule_engine::farmscript::lexer::tokenize;
use rule_engine::farmscript::parser::parse;
use rule_engine::json::Json;
use serde_json::Value;

fn to_value(j: &Json) -> Value {
    match j {
        Json::Null => Value::Null,
        Json::Bool(b) => Value::Bool(*b),
        Json::Int(i) => Value::from(*i),
        Json::Float(t) => Value::from(t.parse::<f64>().unwrap()),
        Json::Str(s) => Value::String(s.clone()),
        Json::Array(items) => Value::Array(items.iter().map(to_value).collect()),
        Json::Object(members) => {
            let mut m = serde_json::Map::new();
            for (k, v) in members {
                m.insert(k.clone(), to_value(v));
            }
            Value::Object(m)
        }
    }
}

fn expected(text: &str) -> Value {
    serde_json::from_str(text).unwrap()
}

fn compile_value(source: &str) -> Value {
    to_value(&compile(source).unwrap())
}

const RECOMMENDATION: &str = r#"
    if critical_failures > 0 then "strong_no_hire"
    else if overall_score >= 85 then "strong_hire"
    else if overall_score >= 65 then "hire"
    else if overall_score >= 45 then "no_hire"
    else "strong_no_hire"
"#;

#[test]
fn lib_test_simple_comparison() {
    assert_eq!(compile_value("x < 10"), expected(r#"{"<": [{"var": "x"}, 10]}"#));
}

#[test]
fn lib_test_and_expression() {
    assert_eq!(compile_value("a and b"), expected(r#"{"and": [{"var": "a"}, {"var": "b"}]}"#));
}

#[test]
fn lib_test_complex_expression() {
    assert_eq!(
        compile_value("alert_acknowledged and time_since_alert_secs < 120"),
        expected(
            r#"{"and": [{"var": "alert_acknowledged"}, {"<": [{"var": "time_since_alert_secs"}, 120]}]}"#
        )
    );
}

#[test]
fn lib_test_clamp_expression() {
    let result = compile_value(
        "clamp(0, 100, max_possible_score * (positive_signals - negative_signals * 0.5))",
    );
    let json_str = serde_json::to_string(&result).unwrap();
    assert!(json_str.contains("max"));
    assert!(json_str.contains("min"));
}

#[test]
fn lib_test_if_chain() {
    let result = compile_value(RECOMMENDATION);
    let json_str = serde_json::to_string(&result).unwrap();
    assert!(json_str.contains("if"));
    assert!(json_str.contains("strong_hire"));
}

#[test]
fn lib_test_path_variable() {
    assert_eq!(compile_value("/users/active/count"), expected(r#"{"var": "users.active.count"}"#));
}

#[test]
fn lib_test_safe_division() {
    let json_str = serde_json::to_string(&compile_value("revenue /? expenses")).unwrap();
    assert!(json_str.contains("if"));
    assert!(json_str.contains("/"));
}

#[test]
fn test_method_chain() {
    let json_str =
        serde_json::to_string(&compile_value("items.filter(x => x > 0).map(x => x * 2)")).unwrap();
    assert!(json_str.contains("filter"));
    assert!(json_str.contains("map"));
}

#[test]
fn lib_test_equality_synonyms() {
    for source in ["a === b", "a is b", "a eq b", "a equals b", "a same_as b"] {
        assert_eq!(
            compile_value(source),
            expected(r#"{"===": [{"var": "a"}, {"var": "b"}]}"#),
            "Failed for: {}",
            source
        );
    }
}

#[test]
fn lib_test_in_operator() {
    assert_eq!(compile_value("x in [1, 2, 3]"), expected(r#"{"in": [{"var": "x"}, [1, 2, 3]]}"#));
}

#[test]
fn lib_test_contains_method() {
    assert_eq!(
        compile_value("[1, 2, 3].contains(x)"),
        expected(r#"{"in": [{"var": "x"}, [1, 2, 3]]}"#)
    );
}

#[test]
fn test_truthy_operator() {
    assert_eq!(compile_value("x?"), expected(r#"{"!!": {"var": "x"}}"#));
}

#[test]
fn lib_test_null_coalesce() {
    let json_str = serde_json::to_string(&compile_value("a ?? b")).unwrap();
    assert!(json_str.contains("if"));
    assert!(json_str.contains("!="));
}

#[test]
fn test_db_outage_detect_quick_response() {
    assert_eq!(
        compile_value("alert_acknowledged and time_since_alert_secs < 120"),
        expected(
            r#"{"and": [{"var": "alert_acknowledged"}, {"<": [{"var": "time_since_alert_secs"}, 120]}]}"#
        )
    );
}

#[test]
fn test_db_outage_compute_signal_score() {
    let result = compile_value(
        "clamp(0, 100, max_possible_score * (positive_signals - negative_signals * 0.5))",
    );
    let obj = result.as_object().unwrap();
    assert!(obj.contains_key("max"));
}

#[test]
fn test_db_outage_compute_recommendation() {
    let result = compile_value(RECOMMENDATION);
    let obj = result.as_object().unwrap();
    assert!(obj.contains_key("if"));
}

// Exact results for the longer fixtures.

#[test]
fn lib_signal_score_exact() {
    assert_eq!(
        compile_value("clamp(0, 100, max_possible_score * (positive_signals - negative_signals * 0.5))"),
        expected(
            r#"{"max": [0, {"min": [100, {"*": [{"var": "max_possible_score"},
                {"-": [{"var": "positive_signals"}, {"*": [{"var": "negative_signals"}, 0.5]}]}]}]}]}"#
        )
    );
}

#[test]
fn lib_recommendation_exact() {
    assert_eq!(
        compile_value(RECOMMENDATION),
        expected(
            r#"{"if": [{">": [{"var": "critical_failures"}, 0]}, "strong_no_hire",
                {">=": [{"var": "overall_score"}, 85]}, "strong_hire",
                {">=": [{"var": "overall_score"}, 65]}, "hire",
                {">=": [{"var": "overall_score"}, 45]}, "no_hire",
                "strong_no_hire"]}"#
        )
    );
}

#[test]
fn lib_compile_agrees_with_parse_and_tokenize() {
    assert!(parse("a and b").is_ok());
    assert_eq!(tokenize("a and b").len(), 4);
    assert!(compile("a and").is_err());
}
