use rule_engine::farmscript::lexer::{tokenize, Lexer};
use rule_engine::farmscript::token::{TemplatePart, TokenKind};

fn lex(source: &str) -> Vec<TokenKind> {
    Lexer::new(source).collect_tokens().into_iter().map(|t| t.kind).collect()
}

fn ident(s: &str) -> TokenKind {
    TokenKind::Ident(s.to_string())
}

fn float_value(k: &TokenKind) -> f64 {
    match k {
        TokenKind::Float(text) => text.parse::<f64>().unwrap(),
        other => panic!("Expected float, got {:?}", other),
    }
}

#[test]
fn test_simple_tokens() {
    assert_eq!(
        lex("+ - * / %"),
        vec![
            TokenKind::Plus,
            TokenKind::Minus,
            TokenKind::Star,
            TokenKind::Slash,
            TokenKind::Percent,
            TokenKind::Eof,
        ]
    );
}

#[test]
fn test_comparison_operators() {
    assert_eq!(
        lex("== === != !== < > <= >= <>"),
        vec![
            TokenKind::EqEq,
            TokenKind::EqEqEq,
            TokenKind::NotEq,
            TokenKind::NotEqEq,
            TokenKind::Lt,
            TokenKind::Gt,
            TokenKind::LtEq,
            TokenKind::GtEq,
            TokenKind::LtGt,
            TokenKind::Eof,
        ]
    );
}

#[test]
fn test_logical_operators() {
    assert_eq!(
        lex("and or not && || !"),
        vec![
            TokenKind::And,
            TokenKind::Or,
            TokenKind::Not,
            TokenKind::And,
            TokenKind::Or,
            TokenKind::Not,
            TokenKind::Eof,
        ]
    );
}

#[test]
fn test_keywords() {
    assert_eq!(
        lex("if then else true false null"),
        vec![
            TokenKind::If,
            TokenKind::Then,
            TokenKind::Else,
            TokenKind::True,
            TokenKind::False,
            TokenKind::Null,
            TokenKind::Eof,
        ]
    );
}

#[test]
fn lexer_test_equality_synonyms() {
    assert_eq!(
        lex("is isnt is_not eq equals same_as not_eq"),
        vec![
            TokenKind::Is,
            TokenKind::Isnt,
            TokenKind::IsNot,
            TokenKind::Eq,
            TokenKind::Equals,
            TokenKind::SameAs,
            TokenKind::NotEqKw,
            TokenKind::Eof,
        ]
    );
}

#[test]
fn test_integers() {
    assert_eq!(
        lex("0 42 1_000_000"),
        vec![
            TokenKind::Integer(0),
            TokenKind::Integer(42),
            TokenKind::Integer(1000000),
            TokenKind::Eof,
        ]
    );
}

#[test]
fn test_floats() {
    let tokens = lex("3.14 0.5 1e10 2.5e-3");
    assert_eq!(tokens.len(), 5);
    assert_eq!(float_value(&tokens[0]), 3.14);
    assert_eq!(float_value(&tokens[1]), 0.5);
    assert_eq!(float_value(&tokens[2]), 1e10);
    assert_eq!(float_value(&tokens[3]), 2.5e-3);
    assert_eq!(tokens[4], TokenKind::Eof);
}

#[test]
fn test_strings() {
    let tokens = lex(r#""hello" 'world' "with \"escape\"""#);
    assert_eq!(
        tokens,
        vec![
            TokenKind::String("hello".into()),
            TokenKind::String("world".into()),
            TokenKind::String("with \"escape\"".into()),
            TokenKind::Eof,
        ]
    );
}

#[test]
fn test_identifiers() {
    assert_eq!(
        lex("foo bar_baz camelCase"),
        vec![ident("foo"), ident("bar_baz"), ident("camelCase"), TokenKind::Eof]
    );
}

#[test]
fn test_path_variables() {
    assert_eq!(lex("/users/count"), vec![ident("/users/count"), TokenKind::Eof]);
    assert_eq!(
        lex("/users/count + /api/endpoint"),
        vec![ident("/users/count"), TokenKind::Plus, ident("/api/endpoint"), TokenKind::Eof]
    );
}

#[test]
fn test_division_vs_path() {
    assert_eq!(
        lex("a / b"),
        vec![ident("a"), TokenKind::Slash, ident("b"), TokenKind::Eof]
    );
    assert_eq!(
        lex("/foo + /bar"),
        vec![ident("/foo"), TokenKind::Plus, ident("/bar"), TokenKind::Eof]
    );
    assert_eq!(
        lex("a / b + /path"),
        vec![
            ident("a"),
            TokenKind::Slash,
            ident("b"),
            TokenKind::Plus,
            ident("/path"),
            TokenKind::Eof,
        ]
    );
}

#[test]
fn lexer_test_safe_division() {
    assert_eq!(
        lex("a /? b /! c"),
        vec![
            ident("a"),
            TokenKind::SlashQuestion,
            ident("b"),
            TokenKind::SlashBang,
            ident("c"),
            TokenKind::Eof,
        ]
    );
}

#[test]
fn test_template_string() {
    let tokens = lex("`Hello {name}!`");
    assert_eq!(tokens.len(), 2);
    match &tokens[0] {
        TokenKind::TemplateString(parts) => {
            assert_eq!(parts.len(), 3);
            assert_eq!(parts[0], TemplatePart::Literal("Hello ".into()));
            assert_eq!(parts[1], TemplatePart::Expr("name".into()));
            assert_eq!(parts[2], TemplatePart::Literal("!".into()));
        }
        _ => panic!("Expected template string"),
    }
}

#[test]
fn test_question_operators() {
    assert_eq!(
        lex("x? a ?? b"),
        vec![
            ident("x"),
            TokenKind::Question,
            ident("a"),
            TokenKind::QuestionQuestion,
            ident("b"),
            TokenKind::Eof,
        ]
    );
}

#[test]
fn test_arrow() {
    assert_eq!(
        lex("x => x * 2"),
        vec![
            ident("x"),
            TokenKind::Arrow,
            ident("x"),
            TokenKind::Star,
            TokenKind::Integer(2),
            TokenKind::Eof,
        ]
    );
}

#[test]
fn test_sql_keywords() {
    assert_eq!(
        lex("from items where x > 0 select y"),
        vec![
            TokenKind::From,
            ident("items"),
            TokenKind::Where,
            ident("x"),
            TokenKind::Gt,
            TokenKind::Integer(0),
            TokenKind::Select,
            ident("y"),
            TokenKind::Eof,
        ]
    );
}

#[test]
fn test_array_operations() {
    assert_eq!(
        lex("map filter reduce all some merge"),
        vec![
            TokenKind::MapKw,
            TokenKind::Filter,
            TokenKind::Reduce,
            TokenKind::All,
            TokenKind::SomeKw,
            TokenKind::Merge,
            TokenKind::Eof,
        ]
    );
}

#[test]
fn test_comments() {
    assert_eq!(
        lex("x + y # this is a comment\nz"),
        vec![ident("x"), TokenKind::Plus, ident("y"), ident("z"), TokenKind::Eof]
    );
}

#[test]
fn lexer_test_complex_expression() {
    assert_eq!(
        lex("alert_acknowledged and time_since_alert_secs < 120"),
        vec![
            ident("alert_acknowledged"),
            TokenKind::And,
            ident("time_since_alert_secs"),
            TokenKind::Lt,
            TokenKind::Integer(120),
            TokenKind::Eof,
        ]
    );
}

#[test]
fn lexer_test_clamp_expression() {
    assert_eq!(
        lex("clamp(0, 100, raw_score)"),
        vec![
            ident("clamp"),
            TokenKind::LParen,
            TokenKind::Integer(0),
            TokenKind::Comma,
            TokenKind::Integer(100),
            TokenKind::Comma,
            ident("raw_score"),
            TokenKind::RParen,
            TokenKind::Eof,
        ]
    );
}

// Edge cases of the lexer.

#[test]
fn lexer_empty_source_gives_only_eof() {
    assert_eq!(lex(""), vec![TokenKind::Eof]);
    assert_eq!(lex("   \n\t "), vec![TokenKind::Eof]);
}

#[test]
fn lexer_unterminated_string_is_an_error_token() {
    let tokens = lex("\"abc");
    assert!(matches!(tokens[0], TokenKind::Error(_)));
}

#[test]
fn lexer_spans_are_byte_offsets() {
    let tokens = tokenize("ab + c");
    assert_eq!(tokens[0].span.start, 0);
    assert_eq!(tokens[0].span.end, 2);
    assert_eq!(tokens[1].span.start, 3);
    assert_eq!(tokens[2].span.start, 5);
}

#[test]
fn lexer_integer_overflow_is_an_error_token() {
    let tokens = lex("99999999999999999999");
    assert!(matches!(tokens[0], TokenKind::Error(_)));
}

#[test]
fn lexer_eof_after_trailing_comment_repeats() {
    let mut lexer = Lexer::new("x  # note\n  ");
    let first = lexer.next_token();
    assert!(matches!(first.kind, TokenKind::Ident(_)));
    assert_eq!(first.lexeme, "x");
    let end = lexer.next_token();
    assert!(matches!(end.kind, TokenKind::Eof));
    assert_eq!(end.span.start, 12);
    assert_eq!(end.span.end, 12);
    assert_eq!(end.lexeme, "");
    let again = lexer.next_token();
    assert!(matches!(again.kind, TokenKind::Eof));
    assert_eq!(again.span.start, 12);
}
