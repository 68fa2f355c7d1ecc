use rule_engine::farmscript::ast::{BinaryOp, Expr, PostfixOp};
use rule_engine::farmscript::lexer::Lexer;
use rule_engine::farmscript::parser::{ParseError, Parser};

fn parse(source: &str) -> Result<Expr, ParseError> {
    let lexer = Lexer::new(source);
    let parser = Parser::new(lexer);
    parser.parse()
}

fn binary_op(source: &str) -> BinaryOp {
    match parse(source).unwrap() {
        Expr::Binary(b) => b.op,
        other => panic!("Expected binary for {}: {:?}", source, other),
    }
}

#[test]
fn test_simple_literal() {
    assert_eq!(parse("42").unwrap(), Expr::integer(42));
    assert_eq!(parse("3.14").unwrap(), Expr::float("3.14"));
    assert_eq!(parse("true").unwrap(), Expr::bool(true));
    assert_eq!(parse("null").unwrap(), Expr::null());
}

#[test]
fn test_variable() {
    match parse("foo").unwrap() {
        Expr::Var(v) => assert_eq!(v.name, "foo"),
        _ => panic!("Expected variable"),
    }
}

#[test]
fn parser_test_path_variable() {
    match parse("/users/count").unwrap() {
        Expr::Var(v) => assert_eq!(v.name, "/users/count"),
        _ => panic!("Expected variable"),
    }
}

#[test]
fn test_binary_operators() {
    assert_eq!(binary_op("a + b"), BinaryOp::Add);
}

#[test]
fn test_operator_precedence() {
    match parse("a + b * c").unwrap() {
        Expr::Binary(b) => {
            assert_eq!(b.op, BinaryOp::Add);
            match &b.right {
                Expr::Binary(inner) => assert_eq!(inner.op, BinaryOp::Mul),
                _ => panic!("Expected nested binary"),
            }
        }
        _ => panic!("Expected binary"),
    }
}

#[test]
fn parser_test_comparison() {
    assert_eq!(binary_op("x < 10"), BinaryOp::Lt);
}

#[test]
fn test_logical_and() {
    assert_eq!(binary_op("a and b"), BinaryOp::And);
}

#[test]
fn parser_test_equality_synonyms() {
    for source in &["a === b", "a is b", "a eq b", "a equals b", "a same_as b"] {
        assert_eq!(binary_op(source), BinaryOp::StrictEq, "Failed for: {}", source);
    }
}

#[test]
fn test_if_expression() {
    match parse("if x > 0 then 1 else 0").unwrap() {
        Expr::If(i) => assert!(i.else_branch.is_some()),
        _ => panic!("Expected if"),
    }
}

#[test]
fn test_function_call() {
    match parse("max(a, b, c)").unwrap() {
        Expr::Call(c) => {
            assert_eq!(c.function, "max");
            assert_eq!(c.args.len(), 3);
        }
        _ => panic!("Expected call"),
    }
}

#[test]
fn parser_test_method_call() {
    match parse("items.filter(x => x > 0)").unwrap() {
        Expr::MethodCall(m) => assert_eq!(m.method, "filter"),
        _ => panic!("Expected method call"),
    }
}

#[test]
fn test_lambda() {
    match parse("x => x * 2").unwrap() {
        Expr::Lambda(l) => assert_eq!(l.params, vec!["x".to_string()]),
        _ => panic!("Expected lambda"),
    }
}

#[test]
fn test_array_literal() {
    match parse("[1, 2, 3]").unwrap() {
        Expr::Array(items) => assert_eq!(items.len(), 3),
        _ => panic!("Expected array"),
    }
}

#[test]
fn parser_test_in_operator() {
    assert_eq!(binary_op("x in [1, 2, 3]"), BinaryOp::In);
}

#[test]
fn parser_test_safe_division() {
    assert_eq!(binary_op("a /? b"), BinaryOp::SafeDivZero);
    assert_eq!(binary_op("a /! b"), BinaryOp::SafeDivNull);
}

#[test]
fn parser_test_truthy_postfix() {
    match parse("x?").unwrap() {
        Expr::Postfix(p) => assert_eq!(p.op, PostfixOp::Truthy),
        _ => panic!("Expected postfix"),
    }
}

#[test]
fn parser_test_null_coalesce() {
    match parse("a ?? b").unwrap() {
        Expr::NullCoalesce(_, _) => {}
        _ => panic!("Expected null coalesce"),
    }
}

#[test]
fn parser_test_complex_expression() {
    assert_eq!(binary_op("alert_acknowledged and time_since_alert_secs < 120"), BinaryOp::And);
}

#[test]
fn parser_test_clamp_expression() {
    match parse("clamp(0, 100, raw_score)").unwrap() {
        Expr::Call(c) => {
            assert_eq!(c.function, "clamp");
            assert_eq!(c.args.len(), 3);
        }
        _ => panic!("Expected call"),
    }
}

// Errors and edge cases.

#[test]
fn parser_empty_input_expects_an_expression() {
    match parse("") {
        Err(ParseError::UnexpectedToken { expected, position, .. }) => {
            assert_eq!(expected, "expression");
            assert_eq!(position, 0);
        }
        other => panic!("Expected an error, got {:?}", other),
    }
}

#[test]
fn parser_trailing_tokens_are_rejected() {
    assert!(matches!(parse("a b"), Err(ParseError::UnexpectedToken { .. })));
}

#[test]
fn parser_lexer_error_token_is_not_an_expression() {
    assert!(matches!(parse("\"abc"), Err(ParseError::UnexpectedToken { .. })));
}

#[test]
fn parser_power_is_right_associative() {
    match parse("a ^ b ^ c").unwrap() {
        Expr::Binary(b) => {
            assert_eq!(b.op, BinaryOp::Pow);
            assert!(matches!(&b.right, Expr::Binary(inner) if inner.op == BinaryOp::Pow));
        }
        _ => panic!("Expected binary"),
    }
}

#[test]
fn parser_error_text_of_unexpected_eof() {
    assert_eq!(ParseError::UnexpectedEof.to_text(), "Unexpected end of input");
}
