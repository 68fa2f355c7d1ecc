use rule_engine::engine::context::ExecutionContext;
use rule_engine::json::Json;

fn entry(k: &str, v: Json) -> (String, Json) {
    (k.to_string(), v)
}

#[test]
fn test_context_get_set() {
    let mut ctx = ExecutionContext::new(vec![entry("x", Json::Int(10)), entry("y", Json::Int(20))]);

    assert_eq!(ctx.get("x"), Some(&Json::Int(10)));
    assert_eq!(ctx.get("z"), None);

    ctx.set("z", Json::Int(30));
    assert_eq!(ctx.get("z"), Some(&Json::Int(30)));
}

#[test]
fn test_context_nested_path() {
    let ctx = ExecutionContext::new(vec![entry(
        "user",
        Json::Object(vec![entry("name", Json::Str("Alice".into())), entry("age", Json::Int(25))]),
    )]);

    assert_eq!(ctx.get_path("user.name"), Some(Json::Str("Alice".into())));
    assert_eq!(ctx.get_path("user.age"), Some(Json::Int(25)));
    assert_eq!(ctx.get_path("user.unknown"), None);
}

#[test]
fn test_computed_overrides_input() {
    let mut ctx = ExecutionContext::new(vec![entry("x", Json::Int(10))]);

    ctx.set("x", Json::Int(100));
    assert_eq!(ctx.get("x"), Some(&Json::Int(100)));
}

#[test]
fn context_path_through_arrays() {
    let ctx = ExecutionContext::new(vec![entry(
        "items",
        Json::Array(vec![Json::Int(1), Json::Object(vec![entry("v", Json::Bool(true))])]),
    )]);
    assert_eq!(ctx.get_path("items.1.v"), Some(Json::Bool(true)));
    assert_eq!(ctx.get_path("items.0"), Some(Json::Int(1)));
    assert_eq!(ctx.get_path("items.2"), None);
    assert_eq!(ctx.get_path("items.x"), None);
    assert_eq!(ctx.get_path("items.0.deeper"), None);
    assert_eq!(ctx.get_path("missing.a"), None);
}

#[test]
fn context_empty_path_gives_everything() {
    let mut ctx = ExecutionContext::new(vec![entry("a", Json::Int(1)), entry("b", Json::Int(2))]);
    ctx.set("b", Json::Int(3));
    ctx.set("c", Json::Int(4));
    assert_eq!(
        ctx.get_path(""),
        Some(Json::Object(vec![entry("a", Json::Int(1)), entry("b", Json::Int(3)), entry("c", Json::Int(4))]))
    );
}

#[test]
fn context_to_value_nests_dotted_names() {
    let mut ctx = ExecutionContext::new(vec![
        entry("loan.main.rate", Json::Int(5)),
        entry("loan.main.term", Json::Int(12)),
        entry("plain", Json::Null),
    ]);
    ctx.set("loan.fee", Json::Int(7));
    ctx.set("plain.inner", Json::Int(1));
    assert_eq!(
        ctx.to_value(),
        Json::Object(vec![
            entry(
                "loan",
                Json::Object(vec![
                    entry("main", Json::Object(vec![entry("rate", Json::Int(5)), entry("term", Json::Int(12))])),
                    entry("fee", Json::Int(7)),
                ]),
            ),
            entry("plain", Json::Null),
        ])
    );
}

#[test]
fn context_keys_and_available_inputs() {
    let mut ctx = ExecutionContext::new(vec![entry("a", Json::Int(1)), entry("b", Json::Int(2))]);
    ctx.set("b", Json::Int(3));
    ctx.set("c", Json::Int(4));
    assert_eq!(ctx.keys(), vec!["a", "b", "c"]);
    assert_eq!(ctx.available_inputs(), vec!["a".to_string(), "b".to_string(), "c".to_string()]);
    assert!(ctx.contains("c"));
    assert!(!ctx.contains("d"));
}

#[test]
fn context_merge_and_metadata() {
    let mut a = ExecutionContext::new(vec![entry("x", Json::Int(1))]);
    let mut b = ExecutionContext::default();
    b.set("y", Json::Int(2));
    b.set("x", Json::Int(3));
    a.merge(&b);
    assert_eq!(a.get("x"), Some(&Json::Int(3)));
    assert_eq!(a.get("y"), Some(&Json::Int(2)));
    assert_eq!(a.computed_values().len(), 2);
    assert_eq!(a.input_values().len(), 1);
    a.set_metadata("run", Json::Str("r1".into()));
    assert_eq!(a.get_metadata("run"), Some(&Json::Str("r1".into())));
    assert_eq!(a.get_metadata("other"), None);
}

#[test]
fn context_from_json() {
    let ctx = ExecutionContext::from_json(&Json::Object(vec![entry("k", Json::Int(9))]));
    assert_eq!(ctx.get("k"), Some(&Json::Int(9)));
    let empty = ExecutionContext::from_json(&Json::Int(1));
    assert!(empty.keys().is_empty());
}
