use rule_engine::farmscript::compiler::{CompileError, Compiler};
use rule_engine::farmscript::lexer::Lexer;
use rule_engine::farmscript::parser::Parser;
use rule_engine::json::Json;
use serde_json::Value;

fn to_value(j: &Json) -> Value {
    match j {
        Json::Null => Value::Null,
        Json::Bool(b) => Value::Bool(*b),
        Json::Int(i) => Value::from(*i),
        Json::Float(t) => Value::from(t.parse::<f64>().unwrap()),
        Json::Str(s) => Value::String(s.clone()),
        Json::Array(items) => Value::Array(items.iter().map(to_value).collect()),
        Json::Object(members) => {
            let mut m = serde_json::Map::new();
            for (k, v) in members {
                m.insert(k.clone(), to_value(v));
            }
            Value::Object(m)
        }
    }
}

fn expected(text: &str) -> Value {
    serde_json::from_str(text).unwrap()
}

fn compile(source: &str) -> Result<Value, CompileError> {
    let lexer = Lexer::new(source);
    let parser = Parser::new(lexer);
    let ast = parser.parse().map_err(CompileError::from_parse_error)?;
    let compiler = Compiler::default_options();
    compiler.compile(&ast).map(|j| to_value(&j))
}

#[test]
fn compiler_test_simple_comparison() {
    assert_eq!(compile("x < 10").unwrap(), expected(r#"{"<": [{"var": "x"}, 10]}"#));
}

#[test]
fn compiler_test_and_expression() {
    assert_eq!(compile("a and b").unwrap(), expected(r#"{"and": [{"var": "a"}, {"var": "b"}]}"#));
}

#[test]
fn test_and_chain_flattening() {
    assert_eq!(
        compile("a and b and c and d").unwrap(),
        expected(r#"{"and": [{"var": "a"}, {"var": "b"}, {"var": "c"}, {"var": "d"}]}"#)
    );
}

#[test]
fn test_or_chain_flattening() {
    assert_eq!(
        compile("a or b or c").unwrap(),
        expected(r#"{"or": [{"var": "a"}, {"var": "b"}, {"var": "c"}]}"#)
    );
}

#[test]
fn test_mixed_and_or_no_flatten() {
    assert_eq!(
        compile("a and b or c").unwrap(),
        expected(r#"{"or": [{"and": [{"var": "a"}, {"var": "b"}]}, {"var": "c"}]}"#)
    );
}

#[test]
fn test_brackets_precedence() {
    assert_eq!(
        compile("a and (b or c)").unwrap(),
        expected(r#"{"and": [{"var": "a"}, {"or": [{"var": "b"}, {"var": "c"}]}]}"#)
    );
}

#[test]
fn test_let_expression() {
    assert_eq!(compile("let x = 5 in x * 2").unwrap(), expected(r#"{"*": [5, 2]}"#));
}

#[test]
fn test_let_expression_with_var() {
    assert_eq!(
        compile("let factor = /multiplier in factor * 10").unwrap(),
        expected(r#"{"*": [{"var": "multiplier"}, 10]}"#)
    );
}

#[test]
fn compiler_test_complex_expression() {
    assert_eq!(
        compile("alert_acknowledged and time_since_alert_secs < 120").unwrap(),
        expected(
            r#"{"and": [{"var": "alert_acknowledged"}, {"<": [{"var": "time_since_alert_secs"}, 120]}]}"#
        )
    );
}

#[test]
fn compiler_test_clamp() {
    assert_eq!(
        compile("clamp(0, 100, raw_score)").unwrap(),
        expected(r#"{"max": [0, {"min": [100, {"var": "raw_score"}]}]}"#)
    );
}

#[test]
fn compiler_test_if_then_else() {
    assert_eq!(
        compile("if x > 0 then 1 else 0").unwrap(),
        expected(r#"{"if": [{">": [{"var": "x"}, 0]}, 1, 0]}"#)
    );
}

#[test]
fn compiler_test_path_variable() {
    assert_eq!(compile("/users/count").unwrap(), expected(r#"{"var": "users.count"}"#));
}

#[test]
fn compiler_test_safe_division() {
    assert_eq!(
        compile("a /? b").unwrap(),
        expected(r#"{"if": [{"==": [{"var": "b"}, 0]}, 0, {"/": [{"var": "a"}, {"var": "b"}]}]}"#)
    );
}

#[test]
fn test_safe_div_function() {
    assert_eq!(
        compile("safe_div(a, b, 0)").unwrap(),
        expected(r#"{"if": [{"==": [{"var": "b"}, 0]}, 0, {"/": [{"var": "a"}, {"var": "b"}]}]}"#)
    );
}

#[test]
fn compiler_test_in_operator() {
    assert_eq!(
        compile("x in [1, 2, 3]").unwrap(),
        expected(r#"{"in": [{"var": "x"}, [1, 2, 3]]}"#)
    );
}

#[test]
fn compiler_test_method_call() {
    assert_eq!(
        compile("items.filter(x => x > 0)").unwrap(),
        expected(r#"{"filter": [{"var": "items"}, {">": [{"var": ""}, 0]}]}"#)
    );
}

#[test]
fn compiler_test_contains_method() {
    assert_eq!(
        compile("[1, 2, 3].contains(x)").unwrap(),
        expected(r#"{"in": [{"var": "x"}, [1, 2, 3]]}"#)
    );
}

#[test]
fn compiler_test_truthy_postfix() {
    assert_eq!(compile("x?").unwrap(), expected(r#"{"!!": {"var": "x"}}"#));
}

#[test]
fn compiler_test_equality_synonyms() {
    for source in ["a === b", "a is b", "a eq b", "a equals b"] {
        assert_eq!(
            compile(source).unwrap(),
            expected(r#"{"===": [{"var": "a"}, {"var": "b"}]}"#),
            "Failed for: {}",
            source
        );
    }
}

#[test]
fn test_nested_property() {
    assert_eq!(compile("user.address.city").unwrap(), expected(r#"{"var": "user.address.city"}"#));
}

#[test]
fn compiler_test_null_coalesce() {
    assert_eq!(
        compile("a ?? b").unwrap(),
        expected(r#"{"if": [{"!=": [{"var": "a"}, null]}, {"var": "a"}, {"var": "b"}]}"#)
    );
}

// Further cases: each error the compiler gives, and formulas with exact results.

#[test]
fn compiler_unknown_function_is_a_custom_operation() {
    assert_eq!(compile("frobnicate(1, x)").unwrap(), expected(r#"{"frobnicate": [1, {"var": "x"}]}"#));
}

#[test]
fn compiler_wrong_arity_is_unsupported() {
    match compile("clamp(1, 2)") {
        Err(CompileError::Unsupported(msg)) => {
            assert_eq!(msg, "clamp requires 3 arguments (min, max, value)");
            assert_eq!(
                CompileError::Unsupported(msg).to_text(),
                "Unsupported expression: clamp requires 3 arguments (min, max, value)"
            );
        }
        other => panic!("Expected unsupported, got {:?}", other),
    }
}

#[test]
fn compiler_parse_error_is_carried() {
    match compile("a +") {
        Err(CompileError::ParseError(msg)) => assert!(msg.starts_with("Unexpected token")),
        other => panic!("Expected parse error, got {:?}", other),
    }
}

#[test]
fn compiler_float_keeps_its_value() {
    assert_eq!(compile("x * 0.5").unwrap(), expected(r#"{"*": [{"var": "x"}, 0.5]}"#));
}

#[test]
fn compiler_safe_division_null() {
    assert_eq!(
        compile("a /! b").unwrap(),
        expected(r#"{"if": [{"==": [{"var": "b"}, 0]}, null, {"/": [{"var": "a"}, {"var": "b"}]}]}"#)
    );
}
