//! Parser for FarmScript
//!
//! Recursive descent with one function per precedence level.  The parser
//! works on the token sequence of the source; `spec_parse_tokens` and the
//! functions it calls give the meaning of each parsing step.  They carry a
//! `fuel` argument that bounds the depth of the derivation (the
//! implementation never runs out of it) and the length `n` of the source,
//! which bounds the nested parses of template-string expressions.

use vstd::prelude::*;
use crate::farmscript::ast::{
    exprs_view, lemma_exprs_view_push, lemma_pairs_view_push, lemma_strings_view_push,
    lemma_template_view_push, option_view, template_expr_view, pairs_view, strings_view, template_view, BinaryExpr,
    BinaryOp, CallExpr, Expr, IfExpr, IndexExpr, LambdaExpr, LetExpr, Literal, MethodCallExpr,
    PostfixExpr, PostfixOp, PropertyExpr, QueryExpr, SpecExpr, SpecLiteral, SpecTemplateExpr,
    TemplateExpr, UnaryExpr, UnaryOp, VarExpr,
};
use crate::farmscript::compiler::op_name;
use crate::farmscript::lexer::{lemma_lex_at_comparison, lex_at, spec_tokenize, tokenize, Lexer};
use crate::text::ascii_lower_seq;
use crate::text::{chars_eq_str, push_chars, push_str, str_chars, string_from_chars};
use crate::farmscript::token::{
    decimal_nat, nat_to_chars, spec_kind_text, tokens_view, Span, SpecTemplatePart, SpecToken, SpecTokenKind, TemplatePart,
    Token, TokenKind,
};

verus! {

/// Parse error
#[derive(Debug, Clone)]
pub enum ParseError {
    UnexpectedToken { expected: String, found: String, position: usize },
    UnexpectedEof,
    InvalidExpression(String),
    LexerError(String),
}

/// Model of a [`ParseError`].
pub enum SpecParseError {
    UnexpectedToken { expected: Seq<char>, found: Seq<char>, position: usize },
    UnexpectedEof,
    InvalidExpression(Seq<char>),
    LexerError(Seq<char>),
}

impl View for ParseError {
    type V = SpecParseError;

    open spec fn view(&self) -> SpecParseError {
        match self {
            ParseError::UnexpectedToken { expected, found, position } => SpecParseError::UnexpectedToken {
                expected: expected@,
                found: found@,
                position: *position,
            },
            ParseError::UnexpectedEof => SpecParseError::UnexpectedEof,
            ParseError::InvalidExpression(s) => SpecParseError::InvalidExpression(s@),
            ParseError::LexerError(s) => SpecParseError::LexerError(s@),
        }
    }
}

/// The message of a parse error (its `Display` text).
pub open spec fn parse_error_text(e: SpecParseError) -> Seq<char> {
    match e {
        SpecParseError::UnexpectedToken { expected, found, position } => "Unexpected token: expected "@
            + expected + ", found "@ + found + " at position "@ + decimal_nat(position as nat),
        SpecParseError::UnexpectedEof => "Unexpected end of input"@,
        SpecParseError::InvalidExpression(s) => "Invalid expression: "@ + s,
        SpecParseError::LexerError(s) => "Lexer error: "@ + s,
    }
}

impl ParseError {
    /// The message of this error.
    pub fn to_text(&self) -> (r: String)
        ensures
            r@ == parse_error_text(self@),
    {
        let mut v: Vec<char> = Vec::new();
        match self {
            ParseError::UnexpectedToken { expected, found, position } => {
                push_str(&mut v, "Unexpected token: expected ");
                push_str(&mut v, expected.as_str());
                push_str(&mut v, ", found ");
                push_str(&mut v, found.as_str());
                push_str(&mut v, " at position ");
                let p: u64 = *position as u64;
                let digits = nat_to_chars(p);
                push_chars(&mut v, digits.as_slice());
            },
            ParseError::UnexpectedEof => {
                push_str(&mut v, "Unexpected end of input");
            },
            ParseError::InvalidExpression(s) => {
                push_str(&mut v, "Invalid expression: ");
                push_str(&mut v, s.as_str());
            },
            ParseError::LexerError(s) => {
                push_str(&mut v, "Lexer error: ");
                push_str(&mut v, s.as_str());
            },
        }
        proof {
            reveal_strlit("");
        }
        assert(v@ =~= ""@ + parse_error_text(self@));
        string_from_chars(v.as_slice())
    }
}

// ---------------------------------------------------------------------------
// Specification
// ---------------------------------------------------------------------------

pub open spec fn eof_token() -> SpecToken {
    SpecToken { kind: SpecTokenKind::Eof, span: Span { start: 0, end: 0 }, lexeme: seq![] }
}

/// The token at position `p` (the end-of-input token past the end).
pub open spec fn cur(toks: Seq<SpecToken>, p: int) -> SpecToken {
    if 0 <= p < toks.len() {
        toks[p]
    } else {
        eof_token()
    }
}

pub open spec fn kind_at(toks: Seq<SpecToken>, p: int) -> SpecTokenKind {
    cur(toks, p).kind
}

/// Span of the token before position `p` (of the first token at the start).
pub open spec fn prev_span(toks: Seq<SpecToken>, p: int) -> Span {
    if p >= 1 {
        cur(toks, p - 1).span
    } else {
        cur(toks, 0).span
    }
}

pub open spec fn zero_span() -> Span {
    Span { start: 0, end: 0 }
}

/// The error for an unexpected token at `p`.
pub open spec fn unexpected(toks: Seq<SpecToken>, p: int, expected: Seq<char>) -> SpecParseError {
    SpecParseError::UnexpectedToken {
        expected,
        found: spec_kind_text(kind_at(toks, p)),
        position: cur(toks, p).span.start,
    }
}

/// Consume a token of kind `k` at `p`.
pub open spec fn spec_expect(toks: Seq<SpecToken>, p: int, k: SpecTokenKind) -> Result<
    int,
    SpecParseError,
> {
    if kind_at(toks, p) == k {
        Ok(p + 1)
    } else {
        Err(unexpected(toks, p, spec_kind_text(k)))
    }
}

/// Name of a keyword that may stand where an identifier is expected.
pub open spec fn keyword_name(k: SpecTokenKind) -> Option<Seq<char>> {
    match k {
        SpecTokenKind::MapKw => Some("map"@),
        SpecTokenKind::Filter => Some("filter"@),
        SpecTokenKind::Reduce => Some("reduce"@),
        SpecTokenKind::All => Some("all"@),
        SpecTokenKind::SomeKw => Some("some"@),
        SpecTokenKind::Merge => Some("merge"@),
        SpecTokenKind::Contains => Some("contains"@),
        SpecTokenKind::Missing => Some("missing"@),
        SpecTokenKind::MissingSome => Some("missing_some"@),
        SpecTokenKind::Log => Some("log"@),
        SpecTokenKind::In => Some("in"@),
        _ => None,
    }
}

/// An identifier (or keyword usable as a name) at `p`.
pub open spec fn spec_expect_identifier(toks: Seq<SpecToken>, p: int) -> Result<
    (Seq<char>, int),
    SpecParseError,
> {
    match kind_at(toks, p) {
        SpecTokenKind::Ident(name) => Ok((name, p + 1)),
        k => match keyword_name(k) {
            Some(name) => Ok((name, p + 1)),
            None => Err(unexpected(toks, p, "identifier"@)),
        },
    }
}

/// Keywords that name array functions in call position.
pub open spec fn is_function_keyword(k: SpecTokenKind) -> bool {
    match k {
        SpecTokenKind::MapKw | SpecTokenKind::Filter | SpecTokenKind::Reduce | SpecTokenKind::All
        | SpecTokenKind::SomeKw | SpecTokenKind::Merge | SpecTokenKind::Missing
        | SpecTokenKind::MissingSome | SpecTokenKind::Log | SpecTokenKind::Contains => true,
        _ => false,
    }
}

pub open spec fn bin(l: SpecExpr, op: BinaryOp, r: SpecExpr) -> SpecExpr {
    SpecExpr::Binary(Box::new(l), op, Box::new(r), zero_span())
}

pub open spec fn equality_op(k: SpecTokenKind) -> Option<BinaryOp> {
    match k {
        SpecTokenKind::EqEq => Some(BinaryOp::Eq),
        SpecTokenKind::EqEqEq | SpecTokenKind::Is | SpecTokenKind::Eq | SpecTokenKind::Equals
        | SpecTokenKind::SameAs => Some(BinaryOp::StrictEq),
        SpecTokenKind::NotEq | SpecTokenKind::LtGt => Some(BinaryOp::NotEq),
        SpecTokenKind::NotEqEq | SpecTokenKind::Isnt | SpecTokenKind::IsNot
        | SpecTokenKind::NotEqKw => Some(BinaryOp::StrictNotEq),
        _ => None,
    }
}

pub open spec fn comparison_op(k: SpecTokenKind) -> Option<BinaryOp> {
    match k {
        SpecTokenKind::Lt => Some(BinaryOp::Lt),
        SpecTokenKind::Gt => Some(BinaryOp::Gt),
        SpecTokenKind::LtEq => Some(BinaryOp::LtEq),
        SpecTokenKind::GtEq => Some(BinaryOp::GtEq),
        SpecTokenKind::In => Some(BinaryOp::In),
        _ => None,
    }
}

pub open spec fn additive_op(k: SpecTokenKind) -> Option<BinaryOp> {
    match k {
        SpecTokenKind::Plus => Some(BinaryOp::Add),
        SpecTokenKind::Minus => Some(BinaryOp::Sub),
        _ => None,
    }
}

pub open spec fn multiplicative_op(k: SpecTokenKind) -> Option<BinaryOp> {
    match k {
        SpecTokenKind::Star => Some(BinaryOp::Mul),
        SpecTokenKind::Slash => Some(BinaryOp::Div),
        SpecTokenKind::Percent => Some(BinaryOp::Mod),
        SpecTokenKind::SlashQuestion => Some(BinaryOp::SafeDivZero),
        SpecTokenKind::SlashBang => Some(BinaryOp::SafeDivNull),
        _ => None,
    }
}

/// Operator and precedence of a token in the precedence-climbing loop.
pub open spec fn climbing_op(k: SpecTokenKind) -> Option<(BinaryOp, u8)> {
    match k {
        SpecTokenKind::Or => Some((BinaryOp::Or, 1)),
        SpecTokenKind::And => Some((BinaryOp::And, 2)),
        SpecTokenKind::EqEq => Some((BinaryOp::Eq, 3)),
        SpecTokenKind::EqEqEq | SpecTokenKind::Is | SpecTokenKind::Eq | SpecTokenKind::Equals
        | SpecTokenKind::SameAs => Some((BinaryOp::StrictEq, 3)),
        SpecTokenKind::NotEq | SpecTokenKind::LtGt => Some((BinaryOp::NotEq, 3)),
        SpecTokenKind::NotEqEq | SpecTokenKind::Isnt | SpecTokenKind::IsNot
        | SpecTokenKind::NotEqKw => Some((BinaryOp::StrictNotEq, 3)),
        SpecTokenKind::Lt => Some((BinaryOp::Lt, 4)),
        SpecTokenKind::Gt => Some((BinaryOp::Gt, 4)),
        SpecTokenKind::LtEq => Some((BinaryOp::LtEq, 4)),
        SpecTokenKind::GtEq => Some((BinaryOp::GtEq, 4)),
        SpecTokenKind::Plus => Some((BinaryOp::Add, 5)),
        SpecTokenKind::Minus => Some((BinaryOp::Sub, 5)),
        SpecTokenKind::Star => Some((BinaryOp::Mul, 6)),
        SpecTokenKind::Slash => Some((BinaryOp::Div, 6)),
        SpecTokenKind::Percent => Some((BinaryOp::Mod, 6)),
        SpecTokenKind::SlashQuestion => Some((BinaryOp::SafeDivZero, 6)),
        SpecTokenKind::SlashBang => Some((BinaryOp::SafeDivNull, 6)),
        SpecTokenKind::Caret => Some((BinaryOp::Pow, 7)),
        _ => None,
    }
}

/// Fuel large enough to parse a token sequence of length `len`.
pub open spec fn fuel_for(len: nat) -> nat {
    (len + 1) * 16
}

/// Parse a whole source text.
pub open spec fn spec_parse_source(cs: Seq<char>) -> Result<SpecExpr, SpecParseError>
    decreases cs.len(), fuel_for(spec_tokenize(cs).len()) + 1, 0nat,
{
    spec_parse_tokens(spec_tokenize(cs), cs.len(), fuel_for(spec_tokenize(cs).len()))
}

/// Parse a token sequence: one expression followed by the end of input.
pub open spec fn spec_parse_tokens(toks: Seq<SpecToken>, n: nat, fuel: nat) -> Result<
    SpecExpr,
    SpecParseError,
>
    decreases n, fuel, 0nat,
{
    if fuel == 0 {
        Err(SpecParseError::UnexpectedEof)
    } else {
        match p_expression(toks, n, (fuel - 1) as nat, 0) {
            Ok((e, p)) => if kind_at(toks, p) is Eof {
                Ok(e)
            } else {
                Err(unexpected(toks, p, "end of expression"@))
            },
            Err(err) => Err(err),
        }
    }
}

pub open spec fn p_expression(toks: Seq<SpecToken>, n: nat, fuel: nat, pos: int) -> Result<
    (SpecExpr, int),
    SpecParseError,
>
    decreases n, fuel, 0nat,
{
    if fuel == 0 {
        Err(SpecParseError::UnexpectedEof)
    } else {
        p_null_coalesce(toks, n, (fuel - 1) as nat, pos)
    }
}

pub open spec fn p_null_coalesce(toks: Seq<SpecToken>, n: nat, fuel: nat, pos: int) -> Result<
    (SpecExpr, int),
    SpecParseError,
>
    decreases n, fuel, 0nat,
{
    if fuel == 0 {
        Err(SpecParseError::UnexpectedEof)
    } else {
        match p_or(toks, n, (fuel - 1) as nat, pos) {
            Ok((e, p)) => p_null_coalesce_rest(toks, n, (fuel - 1) as nat, e, p),
            Err(err) => Err(err),
        }
    }
}

pub open spec fn p_null_coalesce_rest(
    toks: Seq<SpecToken>,
    n: nat,
    fuel: nat,
    left: SpecExpr,
    pos: int,
) -> Result<(SpecExpr, int), SpecParseError>
    decreases n, fuel, 0nat,
{
    if fuel == 0 {
        Err(SpecParseError::UnexpectedEof)
    } else if kind_at(toks, pos) is QuestionQuestion {
        match p_or(toks, n, (fuel - 1) as nat, pos + 1) {
            Ok((r, p)) => p_null_coalesce_rest(
                toks,
                n,
                (fuel - 1) as nat,
                SpecExpr::NullCoalesce(Box::new(left), Box::new(r)),
                p,
            ),
            Err(err) => Err(err),
        }
    } else {
        Ok((left, pos))
    }
}

pub open spec fn p_or(toks: Seq<SpecToken>, n: nat, fuel: nat, pos: int) -> Result<
    (SpecExpr, int),
    SpecParseError,
>
    decreases n, fuel, 0nat,
{
    if fuel == 0 {
        Err(SpecParseError::UnexpectedEof)
    } else {
        match p_and(toks, n, (fuel - 1) as nat, pos) {
            Ok((e, p)) => p_or_rest(toks, n, (fuel - 1) as nat, e, p),
            Err(err) => Err(err),
        }
    }
}

pub open spec fn p_or_rest(toks: Seq<SpecToken>, n: nat, fuel: nat, left: SpecExpr, pos: int) -> Result<
    (SpecExpr, int),
    SpecParseError,
>
    decreases n, fuel, 0nat,
{
    if fuel == 0 {
        Err(SpecParseError::UnexpectedEof)
    } else if kind_at(toks, pos) is Or {
        match p_and(toks, n, (fuel - 1) as nat, pos + 1) {
            Ok((r, p)) => p_or_rest(toks, n, (fuel - 1) as nat, bin(left, BinaryOp::Or, r), p),
            Err(err) => Err(err),
        }
    } else {
        Ok((left, pos))
    }
}

pub open spec fn p_and(toks: Seq<SpecToken>, n: nat, fuel: nat, pos: int) -> Result<
    (SpecExpr, int),
    SpecParseError,
>
    decreases n, fuel, 0nat,
{
    if fuel == 0 {
        Err(SpecParseError::UnexpectedEof)
    } else {
        match p_equality(toks, n, (fuel - 1) as nat, pos) {
            Ok((e, p)) => p_and_rest(toks, n, (fuel - 1) as nat, e, p),
            Err(err) => Err(err),
        }
    }
}

pub open spec fn p_and_rest(toks: Seq<SpecToken>, n: nat, fuel: nat, left: SpecExpr, pos: int) -> Result<
    (SpecExpr, int),
    SpecParseError,
>
    decreases n, fuel, 0nat,
{
    if fuel == 0 {
        Err(SpecParseError::UnexpectedEof)
    } else if kind_at(toks, pos) is And {
        match p_equality(toks, n, (fuel - 1) as nat, pos + 1) {
            Ok((r, p)) => p_and_rest(toks, n, (fuel - 1) as nat, bin(left, BinaryOp::And, r), p),
            Err(err) => Err(err),
        }
    } else {
        Ok((left, pos))
    }
}

pub open spec fn p_equality(toks: Seq<SpecToken>, n: nat, fuel: nat, pos: int) -> Result<
    (SpecExpr, int),
    SpecParseError,
>
    decreases n, fuel, 0nat,
{
    if fuel == 0 {
        Err(SpecParseError::UnexpectedEof)
    } else {
        match p_comparison(toks, n, (fuel - 1) as nat, pos) {
            Ok((e, p)) => p_equality_rest(toks, n, (fuel - 1) as nat, e, p),
            Err(err) => Err(err),
        }
    }
}

pub open spec fn p_equality_rest(
    toks: Seq<SpecToken>,
    n: nat,
    fuel: nat,
    left: SpecExpr,
    pos: int,
) -> Result<(SpecExpr, int), SpecParseError>
    decreases n, fuel, 0nat,
{
    if fuel == 0 {
        Err(SpecParseError::UnexpectedEof)
    } else {
        match equality_op(kind_at(toks, pos)) {
            Some(op) => match p_comparison(toks, n, (fuel - 1) as nat, pos + 1) {
                Ok((r, p)) => p_equality_rest(toks, n, (fuel - 1) as nat, bin(left, op, r), p),
                Err(err) => Err(err),
            },
            None => Ok((left, pos)),
        }
    }
}

pub open spec fn p_comparison(toks: Seq<SpecToken>, n: nat, fuel: nat, pos: int) -> Result<
    (SpecExpr, int),
    SpecParseError,
>
    decreases n, fuel, 0nat,
{
    if fuel == 0 {
        Err(SpecParseError::UnexpectedEof)
    } else {
        match p_additive(toks, n, (fuel - 1) as nat, pos) {
            Ok((e, p)) => p_comparison_rest(toks, n, (fuel - 1) as nat, e, p),
            Err(err) => Err(err),
        }
    }
}

pub open spec fn p_comparison_rest(
    toks: Seq<SpecToken>,
    n: nat,
    fuel: nat,
    left: SpecExpr,
    pos: int,
) -> Result<(SpecExpr, int), SpecParseError>
    decreases n, fuel, 0nat,
{
    if fuel == 0 {
        Err(SpecParseError::UnexpectedEof)
    } else {
        match comparison_op(kind_at(toks, pos)) {
            Some(op) => match p_additive(toks, n, (fuel - 1) as nat, pos + 1) {
                Ok((r, p)) => p_comparison_rest(toks, n, (fuel - 1) as nat, bin(left, op, r), p),
                Err(err) => Err(err),
            },
            None => Ok((left, pos)),
        }
    }
}

pub open spec fn p_additive(toks: Seq<SpecToken>, n: nat, fuel: nat, pos: int) -> Result<
    (SpecExpr, int),
    SpecParseError,
>
    decreases n, fuel, 0nat,
{
    if fuel == 0 {
        Err(SpecParseError::UnexpectedEof)
    } else {
        match p_multiplicative(toks, n, (fuel - 1) as nat, pos) {
            Ok((e, p)) => p_additive_rest(toks, n, (fuel - 1) as nat, e, p),
            Err(err) => Err(err),
        }
    }
}

pub open spec fn p_additive_rest(
    toks: Seq<SpecToken>,
    n: nat,
    fuel: nat,
    left: SpecExpr,
    pos: int,
) -> Result<(SpecExpr, int), SpecParseError>
    decreases n, fuel, 0nat,
{
    if fuel == 0 {
        Err(SpecParseError::UnexpectedEof)
    } else {
        match additive_op(kind_at(toks, pos)) {
            Some(op) => match p_multiplicative(toks, n, (fuel - 1) as nat, pos + 1) {
                Ok((r, p)) => p_additive_rest(toks, n, (fuel - 1) as nat, bin(left, op, r), p),
                Err(err) => Err(err),
            },
            None => Ok((left, pos)),
        }
    }
}

pub open spec fn p_multiplicative(toks: Seq<SpecToken>, n: nat, fuel: nat, pos: int) -> Result<
    (SpecExpr, int),
    SpecParseError,
>
    decreases n, fuel, 0nat,
{
    if fuel == 0 {
        Err(SpecParseError::UnexpectedEof)
    } else {
        match p_power(toks, n, (fuel - 1) as nat, pos) {
            Ok((e, p)) => p_multiplicative_rest(toks, n, (fuel - 1) as nat, e, p),
            Err(err) => Err(err),
        }
    }
}

pub open spec fn p_multiplicative_rest(
    toks: Seq<SpecToken>,
    n: nat,
    fuel: nat,
    left: SpecExpr,
    pos: int,
) -> Result<(SpecExpr, int), SpecParseError>
    decreases n, fuel, 0nat,
{
    if fuel == 0 {
        Err(SpecParseError::UnexpectedEof)
    } else {
        match multiplicative_op(kind_at(toks, pos)) {
            Some(op) => match p_power(toks, n, (fuel - 1) as nat, pos + 1) {
                Ok((r, p)) => p_multiplicative_rest(toks, n, (fuel - 1) as nat, bin(left, op, r), p),
                Err(err) => Err(err),
            },
            None => Ok((left, pos)),
        }
    }
}

/// `^` is right-associative.
pub open spec fn p_power(toks: Seq<SpecToken>, n: nat, fuel: nat, pos: int) -> Result<
    (SpecExpr, int),
    SpecParseError,
>
    decreases n, fuel, 0nat,
{
    if fuel == 0 {
        Err(SpecParseError::UnexpectedEof)
    } else {
        match p_unary(toks, n, (fuel - 1) as nat, pos) {
            Ok((e, p)) => if kind_at(toks, p) is Caret {
                match p_power(toks, n, (fuel - 1) as nat, p + 1) {
                    Ok((r, q)) => Ok((bin(e, BinaryOp::Pow, r), q)),
                    Err(err) => Err(err),
                }
            } else {
                Ok((e, p))
            },
            Err(err) => Err(err),
        }
    }
}

pub open spec fn un(op: UnaryOp, e: SpecExpr) -> SpecExpr {
    SpecExpr::Unary(op, Box::new(e), zero_span())
}

pub open spec fn p_unary(toks: Seq<SpecToken>, n: nat, fuel: nat, pos: int) -> Result<
    (SpecExpr, int),
    SpecParseError,
>
    decreases n, fuel, 0nat,
{
    if fuel == 0 {
        Err(SpecParseError::UnexpectedEof)
    } else {
        let k = kind_at(toks, pos);
        if k is Not || k is Minus || k is Plus {
            let op = if k is Not {
                UnaryOp::Not
            } else if k is Minus {
                UnaryOp::Neg
            } else {
                UnaryOp::Plus
            };
            match p_unary(toks, n, (fuel - 1) as nat, pos + 1) {
                Ok((e, p)) => Ok((un(op, e), p)),
                Err(err) => Err(err),
            }
        } else {
            p_postfix(toks, n, (fuel - 1) as nat, pos)
        }
    }
}

pub open spec fn p_postfix(toks: Seq<SpecToken>, n: nat, fuel: nat, pos: int) -> Result<
    (SpecExpr, int),
    SpecParseError,
>
    decreases n, fuel, 0nat,
{
    if fuel == 0 {
        Err(SpecParseError::UnexpectedEof)
    } else {
        match p_primary(toks, n, (fuel - 1) as nat, pos) {
            Ok((e, p)) => p_postfix_rest(toks, n, (fuel - 1) as nat, e, p),
            Err(err) => Err(err),
        }
    }
}

/// Postfix `?`, `.name`, `.name(args)` and `[index]` after an operand.
pub open spec fn p_postfix_rest(
    toks: Seq<SpecToken>,
    n: nat,
    fuel: nat,
    e: SpecExpr,
    pos: int,
) -> Result<(SpecExpr, int), SpecParseError>
    decreases n, fuel, 0nat,
{
    if fuel == 0 {
        Err(SpecParseError::UnexpectedEof)
    } else {
        let k = kind_at(toks, pos);
        if k is Question {
            p_postfix_rest(
                toks,
                n,
                (fuel - 1) as nat,
                SpecExpr::Postfix(Box::new(e), PostfixOp::Truthy, cur(toks, pos).span),
                pos + 1,
            )
        } else if k is Dot {
            match spec_expect_identifier(toks, pos + 1) {
                Ok((name, p2)) => if kind_at(toks, p2) is LParen {
                    match p_args(toks, n, (fuel - 1) as nat, p2 + 1) {
                        Ok((args, p3)) => p_postfix_rest(
                            toks,
                            n,
                            (fuel - 1) as nat,
                            SpecExpr::MethodCall(Box::new(e), name, args, prev_span(toks, p3)),
                            p3,
                        ),
                        Err(err) => Err(err),
                    }
                } else {
                    p_postfix_rest(
                        toks,
                        n,
                        (fuel - 1) as nat,
                        SpecExpr::Property(Box::new(e), name, prev_span(toks, p2)),
                        p2,
                    )
                },
                Err(err) => Err(err),
            }
        } else if k is LBracket {
            match p_expression(toks, n, (fuel - 1) as nat, pos + 1) {
                Ok((idx, p2)) => match spec_expect(toks, p2, SpecTokenKind::RBracket) {
                    Ok(p3) => p_postfix_rest(
                        toks,
                        n,
                        (fuel - 1) as nat,
                        SpecExpr::Index(Box::new(e), Box::new(idx), prev_span(toks, p3)),
                        p3,
                    ),
                    Err(err) => Err(err),
                },
                Err(err) => Err(err),
            }
        } else {
            Ok((e, pos))
        }
    }
}

pub open spec fn lit(l: SpecLiteral) -> SpecExpr {
    SpecExpr::Literal(l)
}

pub open spec fn p_primary(toks: Seq<SpecToken>, n: nat, fuel: nat, pos: int) -> Result<
    (SpecExpr, int),
    SpecParseError,
>
    decreases n, fuel, 0nat,
{
    if fuel == 0 {
        Err(SpecParseError::UnexpectedEof)
    } else {
        let f = (fuel - 1) as nat;
        match kind_at(toks, pos) {
            SpecTokenKind::Integer(v) => Ok((lit(SpecLiteral::Integer(v)), pos + 1)),
            SpecTokenKind::Float(t) => Ok((lit(SpecLiteral::Float(t)), pos + 1)),
            SpecTokenKind::String(s) => Ok((lit(SpecLiteral::String(s)), pos + 1)),
            SpecTokenKind::TemplateString(parts) => match p_template_parts(toks, n, f, parts, 0) {
                Ok(exprs) => Ok((SpecExpr::Template(exprs), pos + 1)),
                Err(err) => Err(err),
            },
            SpecTokenKind::True => Ok((lit(SpecLiteral::Bool(true)), pos + 1)),
            SpecTokenKind::False => Ok((lit(SpecLiteral::Bool(false)), pos + 1)),
            SpecTokenKind::Null => Ok((lit(SpecLiteral::Null), pos + 1)),
            SpecTokenKind::If => p_if(toks, n, f, pos + 1),
            SpecTokenKind::Let => p_let(toks, n, f, pos + 1),
            SpecTokenKind::From => p_query(toks, n, f, pos + 1),
            SpecTokenKind::LBracket => p_array(toks, n, f, pos + 1),
            SpecTokenKind::LParen => p_grouped(toks, n, f, pos + 1),
            SpecTokenKind::Ident(name) => {
                let span = cur(toks, pos).span;
                if kind_at(toks, pos + 1) is Arrow {
                    match p_expression(toks, n, f, pos + 2) {
                        Ok((body, p)) => Ok((SpecExpr::Lambda(seq![name], Box::new(body), span), p)),
                        Err(err) => Err(err),
                    }
                } else if kind_at(toks, pos + 1) is LParen {
                    match p_args(toks, n, f, pos + 2) {
                        Ok((args, p)) => Ok((SpecExpr::Call(name, args, span), p)),
                        Err(err) => Err(err),
                    }
                } else {
                    Ok((SpecExpr::Var(name, span), pos + 1))
                }
            },
            k => if is_function_keyword(k) {
                let name = spec_kind_text(k);
                let span = cur(toks, pos).span;
                if kind_at(toks, pos + 1) is LParen {
                    match p_args(toks, n, f, pos + 2) {
                        Ok((args, p)) => Ok((SpecExpr::Call(name, args, span), p)),
                        Err(err) => Err(err),
                    }
                } else {
                    Err(
                        SpecParseError::InvalidExpression(
                            "'"@ + name + "' requires arguments"@,
                        ),
                    )
                }
            } else {
                Err(unexpected(toks, pos, "expression"@))
            },
        }
    }
}

/// One part of a template string; an expression part is parsed as a
/// source text of its own, shorter than the text it stands in.
pub open spec fn p_template_part(
    toks: Seq<SpecToken>,
    n: nat,
    fuel: nat,
    part: SpecTemplatePart,
) -> Result<SpecTemplateExpr, SpecParseError>
    decreases n, fuel, 0nat,
{
    match part {
        SpecTemplatePart::Literal(s) => Ok(SpecTemplateExpr::Literal(s)),
        SpecTemplatePart::Expr(src) => if src.len() < n {
            match spec_parse_source(src) {
                Ok(e) => Ok(SpecTemplateExpr::Expr(e)),
                Err(err) => Err(err),
            }
        } else {
            Err(SpecParseError::UnexpectedEof)
        },
    }
}

/// The parts of a template string, from the `k`-th on.
pub open spec fn p_template_parts(
    toks: Seq<SpecToken>,
    n: nat,
    fuel: nat,
    parts: Seq<SpecTemplatePart>,
    k: int,
) -> Result<Seq<SpecTemplateExpr>, SpecParseError>
    decreases n, fuel, parts.len() - k,
{
    if k < 0 || k >= parts.len() {
        Ok(seq![])
    } else {
        match p_template_part(toks, n, fuel, parts[k]) {
            Ok(t) => match p_template_parts(toks, n, fuel, parts, k + 1) {
                Ok(rest) => Ok(seq![t] + rest),
                Err(err) => Err(err),
            },
            Err(err) => Err(err),
        }
    }
}

/// `if` (already consumed) cond `then` a { `else if` c `then` b } [ `else` d ]
pub open spec fn p_if(toks: Seq<SpecToken>, n: nat, fuel: nat, pos: int) -> Result<
    (SpecExpr, int),
    SpecParseError,
>
    decreases n, fuel, 0nat,
{
    if fuel == 0 {
        Err(SpecParseError::UnexpectedEof)
    } else {
        let f = (fuel - 1) as nat;
        let span = prev_span(toks, pos);
        match p_expression(toks, n, f, pos) {
            Ok((c, p1)) => match spec_expect(toks, p1, SpecTokenKind::Then) {
                Ok(p2) => match p_expression(toks, n, f, p2) {
                    Ok((t, p3)) => p_else_chain(toks, n, f, c, t, seq![], span, p3),
                    Err(err) => Err(err),
                },
                Err(err) => Err(err),
            },
            Err(err) => Err(err),
        }
    }
}

pub open spec fn p_else_chain(
    toks: Seq<SpecToken>,
    n: nat,
    fuel: nat,
    c: SpecExpr,
    t: SpecExpr,
    else_ifs: Seq<SpecExpr>,
    span: Span,
    pos: int,
) -> Result<(SpecExpr, int), SpecParseError>
    decreases n, fuel, 1nat,
{
    if fuel == 0 {
        Err(SpecParseError::UnexpectedEof)
    } else if kind_at(toks, pos) is Else {
        let f = (fuel - 1) as nat;
        if kind_at(toks, pos + 1) is If {
            p_else_if(toks, n, f, c, t, else_ifs, span, pos + 2)
        } else {
            match p_expression(toks, n, f, pos + 1) {
                Ok((e, p)) => Ok(
                    (
                        SpecExpr::If(Box::new(c), Box::new(t), Some(Box::new(e)), else_ifs, span),
                        p,
                    ),
                ),
                Err(err) => Err(err),
            }
        }
    } else {
        Ok((SpecExpr::If(Box::new(c), Box::new(t), None, else_ifs, span), pos))
    }
}

/// `else if` (already consumed) cond `then` branch, then the rest of the chain.
pub open spec fn p_else_if(
    toks: Seq<SpecToken>,
    n: nat,
    fuel: nat,
    c: SpecExpr,
    t: SpecExpr,
    else_ifs: Seq<SpecExpr>,
    span: Span,
    pos: int,
) -> Result<(SpecExpr, int), SpecParseError>
    decreases n, fuel, 0nat,
{
    if fuel == 0 {
        Err(SpecParseError::UnexpectedEof)
    } else {
        let f = (fuel - 1) as nat;
        match p_expression(toks, n, f, pos) {
            Ok((c2, p1)) => match spec_expect(toks, p1, SpecTokenKind::Then) {
                Ok(p2) => match p_expression(toks, n, f, p2) {
                    Ok((t2, p3)) => p_else_chain(toks, n, f, c, t, else_ifs + seq![c2, t2], span, p3),
                    Err(err) => Err(err),
                },
                Err(err) => Err(err),
            },
            Err(err) => Err(err),
        }
    }
}

/// `let` (already consumed) name `=` value `in` body; the value is an
/// additive expression.
pub open spec fn p_let(toks: Seq<SpecToken>, n: nat, fuel: nat, pos: int) -> Result<
    (SpecExpr, int),
    SpecParseError,
>
    decreases n, fuel, 0nat,
{
    if fuel == 0 {
        Err(SpecParseError::UnexpectedEof)
    } else {
        let f = (fuel - 1) as nat;
        let span = prev_span(toks, pos);
        match spec_expect_identifier(toks, pos) {
            Ok((name, p1)) => match spec_expect(toks, p1, SpecTokenKind::Assign) {
                Ok(p2) => match p_additive(toks, n, f, p2) {
                    Ok((v, p3)) => match spec_expect(toks, p3, SpecTokenKind::In) {
                        Ok(p4) => match p_expression(toks, n, f, p4) {
                            Ok((b, p5)) => Ok((SpecExpr::Let(name, Box::new(v), Box::new(b), span), p5)),
                            Err(err) => Err(err),
                        },
                        Err(err) => Err(err),
                    },
                    Err(err) => Err(err),
                },
                Err(err) => Err(err),
            },
            Err(err) => Err(err),
        }
    }
}

/// `from` (already consumed) source [`where` cond] `select` projection
pub open spec fn p_query(toks: Seq<SpecToken>, n: nat, fuel: nat, pos: int) -> Result<
    (SpecExpr, int),
    SpecParseError,
>
    decreases n, fuel, 0nat,
{
    if fuel == 0 {
        Err(SpecParseError::UnexpectedEof)
    } else {
        let f = (fuel - 1) as nat;
        let span = prev_span(toks, pos);
        match p_primary(toks, n, f, pos) {
            Ok((src, p1)) => if kind_at(toks, p1) is Where {
                match p_expression(toks, n, f, p1 + 1) {
                    Ok((c, p2)) => p_query_select(toks, n, f, src, Some(Box::new(c)), span, p2),
                    Err(err) => Err(err),
                }
            } else {
                p_query_select(toks, n, f, src, None, span, p1)
            },
            Err(err) => Err(err),
        }
    }
}

/// The `select` projection closing a query.
pub open spec fn p_query_select(
    toks: Seq<SpecToken>,
    n: nat,
    fuel: nat,
    src: SpecExpr,
    filter: Option<Box<SpecExpr>>,
    span: Span,
    pos: int,
) -> Result<(SpecExpr, int), SpecParseError>
    decreases n, fuel, 1nat,
{
    match spec_expect(toks, pos, SpecTokenKind::Select) {
        Ok(p3) => match p_expression(toks, n, fuel, p3) {
            Ok((proj, p4)) => Ok((SpecExpr::Query(Box::new(src), filter, Box::new(proj), span), p4)),
            Err(err) => Err(err),
        },
        Err(err) => Err(err),
    }
}

/// `[` (already consumed) items `]`, a trailing comma allowed.
pub open spec fn p_array(toks: Seq<SpecToken>, n: nat, fuel: nat, pos: int) -> Result<
    (SpecExpr, int),
    SpecParseError,
>
    decreases n, fuel, 0nat,
{
    if fuel == 0 {
        Err(SpecParseError::UnexpectedEof)
    } else {
        let items = if kind_at(toks, pos) is RBracket {
            Ok((seq![], pos))
        } else {
            p_array_items(toks, n, (fuel - 1) as nat, seq![], pos)
        };
        match items {
            Ok((v, p)) => match spec_expect(toks, p, SpecTokenKind::RBracket) {
                Ok(q) => Ok((SpecExpr::Array(v), q)),
                Err(err) => Err(err),
            },
            Err(err) => Err(err),
        }
    }
}

pub open spec fn p_array_items(
    toks: Seq<SpecToken>,
    n: nat,
    fuel: nat,
    acc: Seq<SpecExpr>,
    pos: int,
) -> Result<(Seq<SpecExpr>, int), SpecParseError>
    decreases n, fuel, 0nat,
{
    if fuel == 0 {
        Err(SpecParseError::UnexpectedEof)
    } else {
        match p_expression(toks, n, (fuel - 1) as nat, pos) {
            Ok((e, p)) => if kind_at(toks, p) is Comma {
                if kind_at(toks, p + 1) is RBracket {
                    Ok((acc.push(e), p + 1))
                } else {
                    p_array_items(toks, n, (fuel - 1) as nat, acc.push(e), p + 1)
                }
            } else {
                Ok((acc.push(e), p))
            },
            Err(err) => Err(err),
        }
    }
}

/// `(` (already consumed) arguments `)`.
pub open spec fn p_args(toks: Seq<SpecToken>, n: nat, fuel: nat, pos: int) -> Result<
    (Seq<SpecExpr>, int),
    SpecParseError,
>
    decreases n, fuel, 0nat,
{
    if fuel == 0 {
        Err(SpecParseError::UnexpectedEof)
    } else {
        let items = if kind_at(toks, pos) is RParen {
            Ok((seq![], pos))
        } else {
            p_arg_items(toks, n, (fuel - 1) as nat, seq![], pos)
        };
        match items {
            Ok((v, p)) => match spec_expect(toks, p, SpecTokenKind::RParen) {
                Ok(q) => Ok((v, q)),
                Err(err) => Err(err),
            },
            Err(err) => Err(err),
        }
    }
}

pub open spec fn p_arg_items(
    toks: Seq<SpecToken>,
    n: nat,
    fuel: nat,
    acc: Seq<SpecExpr>,
    pos: int,
) -> Result<(Seq<SpecExpr>, int), SpecParseError>
    decreases n, fuel, 0nat,
{
    if fuel == 0 {
        Err(SpecParseError::UnexpectedEof)
    } else {
        match p_expression(toks, n, (fuel - 1) as nat, pos) {
            Ok((e, p)) => if kind_at(toks, p) is Comma {
                p_arg_items(toks, n, (fuel - 1) as nat, acc.push(e), p + 1)
            } else {
                Ok((acc.push(e), p))
            },
            Err(err) => Err(err),
        }
    }
}

/// Lambda parameters after the first: `, name` repeated.
pub open spec fn p_params(toks: Seq<SpecToken>, acc: Seq<Seq<char>>, pos: int) -> Result<
    (Seq<Seq<char>>, int),
    SpecParseError,
>
    decreases toks.len() - pos,
{
    match spec_expect_identifier(toks, pos) {
        Ok((name, p)) => if kind_at(toks, p) is Comma && p + 1 <= toks.len() {
            p_params(toks, acc.push(name), p + 1)
        } else {
            Ok((acc.push(name), p))
        },
        Err(err) => Err(err),
    }
}

/// `(` (already consumed): a lambda `(a, b) => e`, `(a) => e`, or a
/// parenthesized expression.
pub open spec fn p_grouped(toks: Seq<SpecToken>, n: nat, fuel: nat, pos: int) -> Result<
    (SpecExpr, int),
    SpecParseError,
>
    decreases n, fuel, 0nat,
{
    if fuel == 0 {
        Err(SpecParseError::UnexpectedEof)
    } else {
        let f = (fuel - 1) as nat;
        match kind_at(toks, pos) {
            SpecTokenKind::Ident(first) => {
                let q = pos + 1;
                if kind_at(toks, q) is Comma {
                    match p_params(toks, seq![first], q + 1) {
                        Ok((params, p1)) => match spec_expect(toks, p1, SpecTokenKind::RParen) {
                            Ok(p2) => match spec_expect(toks, p2, SpecTokenKind::Arrow) {
                                Ok(p3) => match p_expression(toks, n, f, p3) {
                                    Ok((body, p4)) => Ok(
                                        (SpecExpr::Lambda(params, Box::new(body), zero_span()), p4),
                                    ),
                                    Err(err) => Err(err),
                                },
                                Err(err) => Err(err),
                            },
                            Err(err) => Err(err),
                        },
                        Err(err) => Err(err),
                    }
                } else if kind_at(toks, q) is RParen {
                    if kind_at(toks, q + 1) is Arrow {
                        match p_expression(toks, n, f, q + 2) {
                            Ok((body, p)) => Ok(
                                (SpecExpr::Lambda(seq![first], Box::new(body), zero_span()), p),
                            ),
                            Err(err) => Err(err),
                        }
                    } else {
                        Ok((SpecExpr::Var(first, zero_span()), q + 1))
                    }
                } else {
                    match p_continue(toks, n, f, SpecExpr::Var(first, zero_span()), q) {
                        Ok((e, p)) => match spec_expect(toks, p, SpecTokenKind::RParen) {
                            Ok(p2) => Ok((e, p2)),
                            Err(err) => Err(err),
                        },
                        Err(err) => Err(err),
                    }
                }
            },
            _ => match p_expression(toks, n, f, pos) {
                Ok((e, p)) => match spec_expect(toks, p, SpecTokenKind::RParen) {
                    Ok(p2) => Ok((e, p2)),
                    Err(err) => Err(err),
                },
                Err(err) => Err(err),
            },
        }
    }
}

/// Continue an expression whose first operand (an identifier) is parsed:
/// postfix operators, then binary operators by precedence climbing.
pub open spec fn p_continue(
    toks: Seq<SpecToken>,
    n: nat,
    fuel: nat,
    left: SpecExpr,
    pos: int,
) -> Result<(SpecExpr, int), SpecParseError>
    decreases n, fuel, 0nat,
{
    if fuel == 0 {
        Err(SpecParseError::UnexpectedEof)
    } else {
        match p_postfix_rest(toks, n, (fuel - 1) as nat, left, pos) {
            Ok((e, p)) => p_binary_rest(toks, n, (fuel - 1) as nat, e, 0, p),
            Err(err) => Err(err),
        }
    }
}

pub open spec fn p_binary_rest(
    toks: Seq<SpecToken>,
    n: nat,
    fuel: nat,
    left: SpecExpr,
    min_prec: u8,
    pos: int,
) -> Result<(SpecExpr, int), SpecParseError>
    decreases n, fuel, 0nat,
{
    if fuel == 0 {
        Err(SpecParseError::UnexpectedEof)
    } else {
        let f = (fuel - 1) as nat;
        match climbing_op(kind_at(toks, pos)) {
            Some((op, prec)) => if prec < min_prec {
                Ok((left, pos))
            } else {
                match p_unary(toks, n, f, pos + 1) {
                    Ok((r, p1)) => {
                        let next_min: u8 = if op == BinaryOp::Pow {
                            prec
                        } else {
                            (prec + 1) as u8
                        };
                        match p_binary_rest(toks, n, f, r, next_min, p1) {
                            Ok((r2, p2)) => p_binary_rest(toks, n, f, bin(left, op, r2), min_prec, p2),
                            Err(err) => Err(err),
                        }
                    },
                    Err(err) => Err(err),
                }
            },
            None => Ok((left, pos)),
        }
    }
}

// ---------------------------------------------------------------------------
// Implementation
// ---------------------------------------------------------------------------

pub open spec fn result_view(r: Result<(Expr, usize), ParseError>) -> Result<(SpecExpr, int), SpecParseError> {
    match r {
        Ok((e, p)) => Ok((e@, p as int)),
        Err(err) => Err(err@),
    }
}

pub open spec fn results_view(r: Result<(Vec<Expr>, usize), ParseError>) -> Result<
    (Seq<SpecExpr>, int),
    SpecParseError,
> {
    match r {
        Ok((v, p)) => Ok((exprs_view(v@), p as int)),
        Err(err) => Err(err@),
    }
}

pub open spec fn pos_view(r: Result<usize, ParseError>) -> Result<int, SpecParseError> {
    match r {
        Ok(p) => Ok(p as int),
        Err(err) => Err(err@),
    }
}

pub open spec fn name_view(r: Result<(String, usize), ParseError>) -> Result<(Seq<char>, int), SpecParseError> {
    match r {
        Ok((s, p)) => Ok((s@, p as int)),
        Err(err) => Err(err@),
    }
}

/// Bound on the fuel a parsing step at `pos` of rank `rank` consumes.
pub open spec fn measure(len: int, pos: int, rank: int) -> int {
    (len - pos) * 16 + rank + 1
}

/// The FarmScript parser
pub struct Parser {
    tokens: Vec<Token>,
    /// Length (in characters) of the source the tokens were read from
    source_len: usize,
}

impl Parser {
    /// The tokens being parsed, ending with the end-of-input token.
    pub closed spec fn toks(&self) -> Seq<SpecToken> {
        tokens_view(self.tokens@)
    }

    /// Length of the source text.
    pub closed spec fn n(&self) -> nat {
        self.source_len as nat
    }

    #[verifier::type_invariant]
    closed spec fn inv(&self) -> bool {
        &&& self.tokens@.len() >= 1
        &&& self.tokens@.len() < usize::MAX - 4
        &&& self.tokens@.last().kind@ is Eof
    }

    spec fn len(&self) -> int {
        self.tokens@.len() as int
    }

    /// Create a new parser reading all tokens of `lexer`.
    pub fn new(lexer: Lexer) -> (p: Parser)
        ensures
            p.toks() == crate::farmscript::lexer::spec_tokens_from(
                lexer.source(),
                lexer.position(),
                lexer.after_value(),
            ),
            p.n() == lexer.source().len(),
    {
        let mut lexer = lexer;
        let source_len = lexer.source_len();
        let tokens = lexer.collect_tokens();
        assert(tokens@.len() <= isize::MAX + 1);
        assert(isize::MAX + 1 < usize::MAX - 4);
        Parser { tokens, source_len }
    }

    fn kind(&self, p: usize) -> (k: &TokenKind)
        requires
            self.inv(),
            p < self.len(),
        ensures
            k@ == kind_at(self.toks(), p as int),
    {
        &self.tokens[p].kind
    }

    fn unexpected_at(&self, p: usize, expected: &str) -> (e: ParseError)
        requires
            self.inv(),
            p < self.len(),
        ensures
            e@ == unexpected(self.toks(), p as int, expected@),
    {
        ParseError::UnexpectedToken {
            expected: expected.to_owned(),
            found: self.tokens[p].kind.to_text(),
            position: self.tokens[p].span.start,
        }
    }

    fn prev_span_at(&self, p: usize) -> (s: Span)
        requires
            self.inv(),
            p < self.len(),
        ensures
            s == prev_span(self.toks(), p as int),
    {
        if p >= 1 {
            self.tokens[p - 1].span
        } else {
            self.tokens[0].span
        }
    }

    proof fn lemma_not_eof_not_last(&self, p: int)
        requires
            self.inv(),
            0 <= p < self.len(),
            !(kind_at(self.toks(), p) is Eof),
        ensures
            p + 1 < self.len(),
    {
    }

    fn expect_rbracket(&self, p: usize) -> (r: Result<usize, ParseError>)
        requires
            self.inv(),
            p < self.len(),
        ensures
            pos_view(r) == spec_expect(self.toks(), p as int, SpecTokenKind::RBracket),
            r is Ok ==> r->Ok_0 == p + 1 < self.len(),
    {
        match self.kind(p) {
            TokenKind::RBracket => {
                proof {
                    self.lemma_not_eof_not_last(p as int);
                }
                Ok(p + 1)
            },
            _ => Err(self.unexpected_at(p, "]")),
        }
    }

    fn expect_rparen(&self, p: usize) -> (r: Result<usize, ParseError>)
        requires
            self.inv(),
            p < self.len(),
        ensures
            pos_view(r) == spec_expect(self.toks(), p as int, SpecTokenKind::RParen),
            r is Ok ==> r->Ok_0 == p + 1 < self.len(),
    {
        match self.kind(p) {
            TokenKind::RParen => {
                proof {
                    self.lemma_not_eof_not_last(p as int);
                }
                Ok(p + 1)
            },
            _ => Err(self.unexpected_at(p, ")")),
        }
    }

    fn expect_then(&self, p: usize) -> (r: Result<usize, ParseError>)
        requires
            self.inv(),
            p < self.len(),
        ensures
            pos_view(r) == spec_expect(self.toks(), p as int, SpecTokenKind::Then),
            r is Ok ==> r->Ok_0 == p + 1 < self.len(),
    {
        match self.kind(p) {
            TokenKind::Then => {
                proof {
                    self.lemma_not_eof_not_last(p as int);
                }
                Ok(p + 1)
            },
            _ => Err(self.unexpected_at(p, "then")),
        }
    }

    fn expect_assign(&self, p: usize) -> (r: Result<usize, ParseError>)
        requires
            self.inv(),
            p < self.len(),
        ensures
            pos_view(r) == spec_expect(self.toks(), p as int, SpecTokenKind::Assign),
            r is Ok ==> r->Ok_0 == p + 1 < self.len(),
    {
        match self.kind(p) {
            TokenKind::Assign => {
                proof {
                    self.lemma_not_eof_not_last(p as int);
                }
                Ok(p + 1)
            },
            _ => Err(self.unexpected_at(p, "=")),
        }
    }

    fn expect_in(&self, p: usize) -> (r: Result<usize, ParseError>)
        requires
            self.inv(),
            p < self.len(),
        ensures
            pos_view(r) == spec_expect(self.toks(), p as int, SpecTokenKind::In),
            r is Ok ==> r->Ok_0 == p + 1 < self.len(),
    {
        match self.kind(p) {
            TokenKind::In => {
                proof {
                    self.lemma_not_eof_not_last(p as int);
                }
                Ok(p + 1)
            },
            _ => Err(self.unexpected_at(p, "in")),
        }
    }

    fn expect_select(&self, p: usize) -> (r: Result<usize, ParseError>)
        requires
            self.inv(),
            p < self.len(),
        ensures
            pos_view(r) == spec_expect(self.toks(), p as int, SpecTokenKind::Select),
            r is Ok ==> r->Ok_0 == p + 1 < self.len(),
    {
        match self.kind(p) {
            TokenKind::Select => {
                proof {
                    self.lemma_not_eof_not_last(p as int);
                }
                Ok(p + 1)
            },
            _ => Err(self.unexpected_at(p, "select")),
        }
    }

    fn expect_arrow(&self, p: usize) -> (r: Result<usize, ParseError>)
        requires
            self.inv(),
            p < self.len(),
        ensures
            pos_view(r) == spec_expect(self.toks(), p as int, SpecTokenKind::Arrow),
            r is Ok ==> r->Ok_0 == p + 1 < self.len(),
    {
        match self.kind(p) {
            TokenKind::Arrow => {
                proof {
                    self.lemma_not_eof_not_last(p as int);
                }
                Ok(p + 1)
            },
            _ => Err(self.unexpected_at(p, "=>")),
        }
    }

    fn expect_identifier(&self, p: usize) -> (r: Result<(String, usize), ParseError>)
        requires
            self.inv(),
            p < self.len(),
        ensures
            name_view(r) == spec_expect_identifier(self.toks(), p as int),
            r is Ok ==> r->Ok_0.1 == p + 1 < self.len(),
    {
        let name = match self.kind(p) {
            TokenKind::Ident(name) => name.clone(),
            TokenKind::MapKw => str_owned("map"),
            TokenKind::Filter => str_owned("filter"),
            TokenKind::Reduce => str_owned("reduce"),
            TokenKind::All => str_owned("all"),
            TokenKind::SomeKw => str_owned("some"),
            TokenKind::Merge => str_owned("merge"),
            TokenKind::Contains => str_owned("contains"),
            TokenKind::Missing => str_owned("missing"),
            TokenKind::MissingSome => str_owned("missing_some"),
            TokenKind::Log => str_owned("log"),
            TokenKind::In => str_owned("in"),
            _ => {
                return Err(self.unexpected_at(p, "identifier"));
            },
        };
        proof {
            self.lemma_not_eof_not_last(p as int);
        }
        Ok((name, p + 1))
    }

    fn parse_or(&self, pos: usize, Ghost(fuel): Ghost<nat>) -> (r: Result<(Expr, usize), ParseError>)
        requires
            self.inv(),
            pos < self.len(),
            fuel >= measure(self.len(), pos as int, 10),
        ensures
            result_view(r) == p_or(self.toks(), self.n(), fuel, pos as int),
            r is Ok ==> pos <= r->Ok_0.1 < self.len(),
        decreases self.n(), fuel, 0nat,
    {
        let left = self.parse_and(pos, Ghost((fuel - 1) as nat))?;
        self.parse_or_rest(left.0, left.1, Ghost((fuel - 1) as nat))
    }

    fn parse_or_rest(&self, left: Expr, pos: usize, Ghost(fuel): Ghost<nat>) -> (r: Result<(Expr, usize), ParseError>)
        requires
            self.inv(),
            pos < self.len(),
            fuel >= measure(self.len(), pos as int, 0),
        ensures
            result_view(r) == p_or_rest(self.toks(), self.n(), fuel, left@, pos as int),
            r is Ok ==> pos <= r->Ok_0.1 < self.len(),
        decreases self.n(), fuel, 0nat,
    {
        let op = match self.kind(pos) {
            TokenKind::Or => Some(BinaryOp::Or),
            _ => None,
        };
        match op {
            Some(op) => {
                proof {
                    self.lemma_not_eof_not_last(pos as int);
                }
                let right = self.parse_and(pos + 1, Ghost((fuel - 1) as nat))?;
                let e = Expr::binary(left, op, right.0);
                self.parse_or_rest(e, right.1, Ghost((fuel - 1) as nat))
            },
            None => Ok((left, pos)),
        }
    }

    fn parse_and(&self, pos: usize, Ghost(fuel): Ghost<nat>) -> (r: Result<(Expr, usize), ParseError>)
        requires
            self.inv(),
            pos < self.len(),
            fuel >= measure(self.len(), pos as int, 9),
        ensures
            result_view(r) == p_and(self.toks(), self.n(), fuel, pos as int),
            r is Ok ==> pos <= r->Ok_0.1 < self.len(),
        decreases self.n(), fuel, 0nat,
    {
        let left = self.parse_equality(pos, Ghost((fuel - 1) as nat))?;
        self.parse_and_rest(left.0, left.1, Ghost((fuel - 1) as nat))
    }

    fn parse_and_rest(&self, left: Expr, pos: usize, Ghost(fuel): Ghost<nat>) -> (r: Result<(Expr, usize), ParseError>)
        requires
            self.inv(),
            pos < self.len(),
            fuel >= measure(self.len(), pos as int, 0),
        ensures
            result_view(r) == p_and_rest(self.toks(), self.n(), fuel, left@, pos as int),
            r is Ok ==> pos <= r->Ok_0.1 < self.len(),
        decreases self.n(), fuel, 0nat,
    {
        let op = match self.kind(pos) {
            TokenKind::And => Some(BinaryOp::And),
            _ => None,
        };
        match op {
            Some(op) => {
                proof {
                    self.lemma_not_eof_not_last(pos as int);
                }
                let right = self.parse_equality(pos + 1, Ghost((fuel - 1) as nat))?;
                let e = Expr::binary(left, op, right.0);
                self.parse_and_rest(e, right.1, Ghost((fuel - 1) as nat))
            },
            None => Ok((left, pos)),
        }
    }

    fn parse_equality(&self, pos: usize, Ghost(fuel): Ghost<nat>) -> (r: Result<(Expr, usize), ParseError>)
        requires
            self.inv(),
            pos < self.len(),
            fuel >= measure(self.len(), pos as int, 8),
        ensures
            result_view(r) == p_equality(self.toks(), self.n(), fuel, pos as int),
            r is Ok ==> pos <= r->Ok_0.1 < self.len(),
        decreases self.n(), fuel, 0nat,
    {
        let left = self.parse_comparison(pos, Ghost((fuel - 1) as nat))?;
        self.parse_equality_rest(left.0, left.1, Ghost((fuel - 1) as nat))
    }

    fn parse_equality_rest(&self, left: Expr, pos: usize, Ghost(fuel): Ghost<nat>) -> (r: Result<(Expr, usize), ParseError>)
        requires
            self.inv(),
            pos < self.len(),
            fuel >= measure(self.len(), pos as int, 0),
        ensures
            result_view(r) == p_equality_rest(self.toks(), self.n(), fuel, left@, pos as int),
            r is Ok ==> pos <= r->Ok_0.1 < self.len(),
        decreases self.n(), fuel, 0nat,
    {
        let op = match self.kind(pos) {
            TokenKind::EqEq => Some(BinaryOp::Eq),
            TokenKind::EqEqEq => Some(BinaryOp::StrictEq),
            TokenKind::Is => Some(BinaryOp::StrictEq),
            TokenKind::Eq => Some(BinaryOp::StrictEq),
            TokenKind::Equals => Some(BinaryOp::StrictEq),
            TokenKind::SameAs => Some(BinaryOp::StrictEq),
            TokenKind::NotEq => Some(BinaryOp::NotEq),
            TokenKind::LtGt => Some(BinaryOp::NotEq),
            TokenKind::NotEqEq => Some(BinaryOp::StrictNotEq),
            TokenKind::Isnt => Some(BinaryOp::StrictNotEq),
            TokenKind::IsNot => Some(BinaryOp::StrictNotEq),
            TokenKind::NotEqKw => Some(BinaryOp::StrictNotEq),
            _ => None,
        };
        match op {
            Some(op) => {
                proof {
                    self.lemma_not_eof_not_last(pos as int);
                }
                let right = self.parse_comparison(pos + 1, Ghost((fuel - 1) as nat))?;
                let e = Expr::binary(left, op, right.0);
                self.parse_equality_rest(e, right.1, Ghost((fuel - 1) as nat))
            },
            None => Ok((left, pos)),
        }
    }

    fn parse_comparison(&self, pos: usize, Ghost(fuel): Ghost<nat>) -> (r: Result<(Expr, usize), ParseError>)
        requires
            self.inv(),
            pos < self.len(),
            fuel >= measure(self.len(), pos as int, 7),
        ensures
            result_view(r) == p_comparison(self.toks(), self.n(), fuel, pos as int),
            r is Ok ==> pos <= r->Ok_0.1 < self.len(),
        decreases self.n(), fuel, 0nat,
    {
        let left = self.parse_additive(pos, Ghost((fuel - 1) as nat))?;
        self.parse_comparison_rest(left.0, left.1, Ghost((fuel - 1) as nat))
    }

    fn parse_comparison_rest(&self, left: Expr, pos: usize, Ghost(fuel): Ghost<nat>) -> (r: Result<(Expr, usize), ParseError>)
        requires
            self.inv(),
            pos < self.len(),
            fuel >= measure(self.len(), pos as int, 0),
        ensures
            result_view(r) == p_comparison_rest(self.toks(), self.n(), fuel, left@, pos as int),
            r is Ok ==> pos <= r->Ok_0.1 < self.len(),
        decreases self.n(), fuel, 0nat,
    {
        let op = match self.kind(pos) {
            TokenKind::Lt => Some(BinaryOp::Lt),
            TokenKind::Gt => Some(BinaryOp::Gt),
            TokenKind::LtEq => Some(BinaryOp::LtEq),
            TokenKind::GtEq => Some(BinaryOp::GtEq),
            TokenKind::In => Some(BinaryOp::In),
            _ => None,
        };
        match op {
            Some(op) => {
                proof {
                    self.lemma_not_eof_not_last(pos as int);
                }
                let right = self.parse_additive(pos + 1, Ghost((fuel - 1) as nat))?;
                let e = Expr::binary(left, op, right.0);
                self.parse_comparison_rest(e, right.1, Ghost((fuel - 1) as nat))
            },
            None => Ok((left, pos)),
        }
    }

    fn parse_additive(&self, pos: usize, Ghost(fuel): Ghost<nat>) -> (r: Result<(Expr, usize), ParseError>)
        requires
            self.inv(),
            pos < self.len(),
            fuel >= measure(self.len(), pos as int, 6),
        ensures
            result_view(r) == p_additive(self.toks(), self.n(), fuel, pos as int),
            r is Ok ==> pos <= r->Ok_0.1 < self.len(),
        decreases self.n(), fuel, 0nat,
    {
        let left = self.parse_multiplicative(pos, Ghost((fuel - 1) as nat))?;
        self.parse_additive_rest(left.0, left.1, Ghost((fuel - 1) as nat))
    }

    fn parse_additive_rest(&self, left: Expr, pos: usize, Ghost(fuel): Ghost<nat>) -> (r: Result<(Expr, usize), ParseError>)
        requires
            self.inv(),
            pos < self.len(),
            fuel >= measure(self.len(), pos as int, 0),
        ensures
            result_view(r) == p_additive_rest(self.toks(), self.n(), fuel, left@, pos as int),
            r is Ok ==> pos <= r->Ok_0.1 < self.len(),
        decreases self.n(), fuel, 0nat,
    {
        let op = match self.kind(pos) {
            TokenKind::Plus => Some(BinaryOp::Add),
            TokenKind::Minus => Some(BinaryOp::Sub),
            _ => None,
        };
        match op {
            Some(op) => {
                proof {
                    self.lemma_not_eof_not_last(pos as int);
                }
                let right = self.parse_multiplicative(pos + 1, Ghost((fuel - 1) as nat))?;
                let e = Expr::binary(left, op, right.0);
                self.parse_additive_rest(e, right.1, Ghost((fuel - 1) as nat))
            },
            None => Ok((left, pos)),
        }
    }

    fn parse_multiplicative(&self, pos: usize, Ghost(fuel): Ghost<nat>) -> (r: Result<(Expr, usize), ParseError>)
        requires
            self.inv(),
            pos < self.len(),
            fuel >= measure(self.len(), pos as int, 5),
        ensures
            result_view(r) == p_multiplicative(self.toks(), self.n(), fuel, pos as int),
            r is Ok ==> pos <= r->Ok_0.1 < self.len(),
        decreases self.n(), fuel, 0nat,
    {
        let left = self.parse_power(pos, Ghost((fuel - 1) as nat))?;
        self.parse_multiplicative_rest(left.0, left.1, Ghost((fuel - 1) as nat))
    }

    fn parse_multiplicative_rest(&self, left: Expr, pos: usize, Ghost(fuel): Ghost<nat>) -> (r: Result<(Expr, usize), ParseError>)
        requires
            self.inv(),
            pos < self.len(),
            fuel >= measure(self.len(), pos as int, 0),
        ensures
            result_view(r) == p_multiplicative_rest(self.toks(), self.n(), fuel, left@, pos as int),
            r is Ok ==> pos <= r->Ok_0.1 < self.len(),
        decreases self.n(), fuel, 0nat,
    {
        let op = match self.kind(pos) {
            TokenKind::Star => Some(BinaryOp::Mul),
            TokenKind::Slash => Some(BinaryOp::Div),
            TokenKind::Percent => Some(BinaryOp::Mod),
            TokenKind::SlashQuestion => Some(BinaryOp::SafeDivZero),
            TokenKind::SlashBang => Some(BinaryOp::SafeDivNull),
            _ => None,
        };
        match op {
            Some(op) => {
                proof {
                    self.lemma_not_eof_not_last(pos as int);
                }
                let right = self.parse_power(pos + 1, Ghost((fuel - 1) as nat))?;
                let e = Expr::binary(left, op, right.0);
                self.parse_multiplicative_rest(e, right.1, Ghost((fuel - 1) as nat))
            },
            None => Ok((left, pos)),
        }
    }

    fn parse_expression(&self, pos: usize, Ghost(fuel): Ghost<nat>) -> (r: Result<(Expr, usize), ParseError>)
        requires
            self.inv(),
            pos < self.len(),
            fuel >= measure(self.len(), pos as int, 12),
        ensures
            result_view(r) == p_expression(self.toks(), self.n(), fuel, pos as int),
            r is Ok ==> pos <= r->Ok_0.1 < self.len(),
        decreases self.n(), fuel, 0nat,
    {
        self.parse_null_coalesce(pos, Ghost((fuel - 1) as nat))
    }

    fn parse_null_coalesce(&self, pos: usize, Ghost(fuel): Ghost<nat>) -> (r: Result<(Expr, usize), ParseError>)
        requires
            self.inv(),
            pos < self.len(),
            fuel >= measure(self.len(), pos as int, 11),
        ensures
            result_view(r) == p_null_coalesce(self.toks(), self.n(), fuel, pos as int),
            r is Ok ==> pos <= r->Ok_0.1 < self.len(),
        decreases self.n(), fuel, 0nat,
    {
        let left = self.parse_or(pos, Ghost((fuel - 1) as nat))?;
        self.parse_null_coalesce_rest(left.0, left.1, Ghost((fuel - 1) as nat))
    }

    fn parse_null_coalesce_rest(&self, left: Expr, pos: usize, Ghost(fuel): Ghost<nat>) -> (r: Result<(Expr, usize), ParseError>)
        requires
            self.inv(),
            pos < self.len(),
            fuel >= measure(self.len(), pos as int, 0),
        ensures
            result_view(r) == p_null_coalesce_rest(self.toks(), self.n(), fuel, left@, pos as int),
            r is Ok ==> pos <= r->Ok_0.1 < self.len(),
        decreases self.n(), fuel, 0nat,
    {
        match self.kind(pos) {
            TokenKind::QuestionQuestion => {
                proof {
                    self.lemma_not_eof_not_last(pos as int);
                }
                let right = self.parse_or(pos + 1, Ghost((fuel - 1) as nat))?;
                let e = Expr::NullCoalesce(Box::new(left), Box::new(right.0));
                self.parse_null_coalesce_rest(e, right.1, Ghost((fuel - 1) as nat))
            },
            _ => Ok((left, pos)),
        }
    }

    fn parse_power(&self, pos: usize, Ghost(fuel): Ghost<nat>) -> (r: Result<(Expr, usize), ParseError>)
        requires
            self.inv(),
            pos < self.len(),
            fuel >= measure(self.len(), pos as int, 4),
        ensures
            result_view(r) == p_power(self.toks(), self.n(), fuel, pos as int),
            r is Ok ==> pos <= r->Ok_0.1 < self.len(),
        decreases self.n(), fuel, 0nat,
    {
        let (e, p) = self.parse_unary(pos, Ghost((fuel - 1) as nat))?;
        match self.kind(p) {
            TokenKind::Caret => {
                proof {
                    self.lemma_not_eof_not_last(p as int);
                }
                let (r, q) = self.parse_power(p + 1, Ghost((fuel - 1) as nat))?;
                Ok((Expr::binary(e, BinaryOp::Pow, r), q))
            },
            _ => Ok((e, p)),
        }
    }

    fn parse_unary(&self, pos: usize, Ghost(fuel): Ghost<nat>) -> (r: Result<(Expr, usize), ParseError>)
        requires
            self.inv(),
            pos < self.len(),
            fuel >= measure(self.len(), pos as int, 3),
        ensures
            result_view(r) == p_unary(self.toks(), self.n(), fuel, pos as int),
            r is Ok ==> pos <= r->Ok_0.1 < self.len(),
        decreases self.n(), fuel, 0nat,
    {
        let op = match self.kind(pos) {
            TokenKind::Not => Some(UnaryOp::Not),
            TokenKind::Minus => Some(UnaryOp::Neg),
            TokenKind::Plus => Some(UnaryOp::Plus),
            _ => None,
        };
        match op {
            Some(op) => {
                proof {
                    self.lemma_not_eof_not_last(pos as int);
                }
                let (e, p) = self.parse_unary(pos + 1, Ghost((fuel - 1) as nat))?;
                Ok((Expr::unary(op, e), p))
            },
            None => self.parse_postfix(pos, Ghost((fuel - 1) as nat)),
        }
    }

    fn parse_postfix(&self, pos: usize, Ghost(fuel): Ghost<nat>) -> (r: Result<(Expr, usize), ParseError>)
        requires
            self.inv(),
            pos < self.len(),
            fuel >= measure(self.len(), pos as int, 2),
        ensures
            result_view(r) == p_postfix(self.toks(), self.n(), fuel, pos as int),
            r is Ok ==> pos <= r->Ok_0.1 < self.len(),
        decreases self.n(), fuel, 0nat,
    {
        let (e, p) = self.parse_primary(pos, Ghost((fuel - 1) as nat))?;
        self.parse_postfix_rest(e, p, Ghost((fuel - 1) as nat))
    }

    #[verifier::rlimit(60)]
    fn parse_postfix_rest(&self, e: Expr, pos: usize, Ghost(fuel): Ghost<nat>) -> (r: Result<(Expr, usize), ParseError>)
        requires
            self.inv(),
            pos < self.len(),
            fuel >= measure(self.len(), pos as int, 0),
        ensures
            result_view(r) == p_postfix_rest(self.toks(), self.n(), fuel, e@, pos as int),
            r is Ok ==> pos <= r->Ok_0.1 < self.len(),
        decreases self.n(), fuel, 0nat,
    {
        match self.kind(pos) {
            TokenKind::Question => {
                proof {
                    self.lemma_not_eof_not_last(pos as int);
                }
                let span = self.tokens[pos].span;
                let e2 = Expr::Postfix(Box::new(PostfixExpr { expr: e, op: PostfixOp::Truthy, span }));
                self.parse_postfix_rest(e2, pos + 1, Ghost((fuel - 1) as nat))
            },
            TokenKind::Dot => {
                proof {
                    self.lemma_not_eof_not_last(pos as int);
                }
                let (name, p2) = self.expect_identifier(pos + 1)?;
                match self.kind(p2) {
                    TokenKind::LParen => {
                        proof {
                            self.lemma_not_eof_not_last(p2 as int);
                        }
                        let (args, p3) = self.parse_args(p2 + 1, Ghost((fuel - 1) as nat))?;
                        let span = self.prev_span_at(p3);
                        let e2 = Expr::MethodCall(Box::new(MethodCallExpr { object: e, method: name, args, span }));
                        self.parse_postfix_rest(e2, p3, Ghost((fuel - 1) as nat))
                    },
                    _ => {
                        let span = self.prev_span_at(p2);
                        let e2 = Expr::Property(Box::new(PropertyExpr { object: e, property: name, span }));
                        self.parse_postfix_rest(e2, p2, Ghost((fuel - 1) as nat))
                    },
                }
            },
            TokenKind::LBracket => {
                proof {
                    self.lemma_not_eof_not_last(pos as int);
                }
                let (idx, p2) = self.parse_expression(pos + 1, Ghost((fuel - 1) as nat))?;
                let p3 = self.expect_rbracket(p2)?;
                let span = self.prev_span_at(p3);
                let e2 = Expr::Index(Box::new(IndexExpr { object: e, index: idx, span }));
                self.parse_postfix_rest(e2, p3, Ghost((fuel - 1) as nat))
            },
            _ => Ok((e, pos)),
        }
    }

    #[verifier::rlimit(60)]
    fn parse_primary(&self, pos: usize, Ghost(fuel): Ghost<nat>) -> (r: Result<(Expr, usize), ParseError>)
        requires
            self.inv(),
            pos < self.len(),
            fuel >= measure(self.len(), pos as int, 1),
        ensures
            result_view(r) == p_primary(self.toks(), self.n(), fuel, pos as int),
            r is Ok ==> pos <= r->Ok_0.1 < self.len(),
        decreases self.n(), fuel, 0nat,
    {
        let f = Ghost((fuel - 1) as nat);
        let k = self.kind(pos);
        let not_eof = match k {
            TokenKind::Eof => false,
            _ => true,
        };
        if not_eof {
            proof {
                self.lemma_not_eof_not_last(pos as int);
            }
        }
        match k {
            TokenKind::Integer(v) => Ok((Expr::Literal(Literal::Integer(*v)), pos + 1)),
            TokenKind::Float(t) => Ok((Expr::Literal(Literal::Float(t.clone())), pos + 1)),
            TokenKind::String(t) => Ok((Expr::Literal(Literal::String(t.clone())), pos + 1)),
            TokenKind::TemplateString(parts) => {
                let exprs = self.parse_template_parts(parts, f)?;
                Ok((Expr::Template(exprs), pos + 1))
            },
            TokenKind::True => Ok((Expr::Literal(Literal::Bool(true)), pos + 1)),
            TokenKind::False => Ok((Expr::Literal(Literal::Bool(false)), pos + 1)),
            TokenKind::Null => Ok((Expr::Literal(Literal::Null), pos + 1)),
            TokenKind::If => self.parse_if_expression(pos + 1, f),
            TokenKind::Let => self.parse_let_expression(pos + 1, f),
            TokenKind::From => self.parse_query_expression(pos + 1, f),
            TokenKind::LBracket => self.parse_array_literal(pos + 1, f),
            TokenKind::LParen => self.parse_grouped_or_lambda(pos + 1, f),
            TokenKind::Ident(name) => {
                let span = self.tokens[pos].span;
                match self.kind(pos + 1) {
                    TokenKind::Arrow => {
                        proof {
                            self.lemma_not_eof_not_last(pos + 1);
                        }
                        let (body, p) = self.parse_expression(pos + 2, f)?;
                        let mut params: Vec<String> = Vec::new();
                        params.push(name.clone());
                        proof {
                            lemma_strings_view_push(Seq::<String>::empty(), params@[0]);
                            assert(Seq::<String>::empty().push(params@[0]) =~= params@);
                            assert(strings_view(Seq::<String>::empty()) =~= Seq::<Seq<char>>::empty());
                        }
                        Ok((Expr::Lambda(Box::new(LambdaExpr { params, body, span })), p))
                    },
                    TokenKind::LParen => {
                        proof {
                            self.lemma_not_eof_not_last(pos + 1);
                        }
                        let (args, p) = self.parse_args(pos + 2, f)?;
                        Ok((Expr::Call(Box::new(CallExpr { function: name.clone(), args, span })), p))
                    },
                    _ => Ok((Expr::Var(VarExpr { name: name.clone(), span }), pos + 1)),
                }
            },
            TokenKind::MapKw | TokenKind::Filter | TokenKind::Reduce | TokenKind::All
            | TokenKind::SomeKw | TokenKind::Merge | TokenKind::Missing | TokenKind::MissingSome
            | TokenKind::Log | TokenKind::Contains => {
                let name = k.to_text();
                let span = self.tokens[pos].span;
                match self.kind(pos + 1) {
                    TokenKind::LParen => {
                        proof {
                            self.lemma_not_eof_not_last(pos + 1);
                        }
                        let (args, p) = self.parse_args(pos + 2, f)?;
                        Ok((Expr::Call(Box::new(CallExpr { function: name, args, span })), p))
                    },
                    _ => {
                        proof {
                            reveal_strlit("'");
                        }
                        let mut msg: Vec<char> = Vec::new();
                        msg.push('\'');
                        push_str(&mut msg, name.as_str());
                        push_str(&mut msg, "' requires arguments");
                        assert(msg@ =~= "'"@ + name@ + "' requires arguments"@);
                        Err(ParseError::InvalidExpression(string_from_chars(msg.as_slice())))
                    },
                }
            },
            _ => Err(self.unexpected_at(pos, "expression")),
        }
    }

    fn parse_template_part(&self, part: &TemplatePart, Ghost(fuel): Ghost<nat>) -> (r: Result<TemplateExpr, ParseError>)
        requires
            self.inv(),
        ensures
            match r {
                Ok(t) => p_template_part(self.toks(), self.n(), fuel, part@) == Ok::<SpecTemplateExpr, SpecParseError>(template_expr_view(t)),
                Err(e) => p_template_part(self.toks(), self.n(), fuel, part@) == Err::<SpecTemplateExpr, SpecParseError>(e@),
            },
        decreases self.n(), fuel, 0nat,
    {
        match part {
            TemplatePart::Literal(s) => Ok(TemplateExpr::Literal(s.clone())),
            TemplatePart::Expr(src) => {
                let src_len = str_chars(src.as_str()).len();
                if src_len < self.source_len {
                    match parse(src.as_str()) {
                        Ok(e) => Ok(TemplateExpr::Expr(e)),
                        Err(e) => Err(e),
                    }
                } else {
                    Err(ParseError::UnexpectedEof)
                }
            },
        }
    }

    fn parse_template_parts(&self, parts: &Vec<TemplatePart>, Ghost(fuel): Ghost<nat>) -> (r: Result<Vec<TemplateExpr>, ParseError>)
        requires
            self.inv(),
        ensures
            match r {
                Ok(v) => p_template_parts(self.toks(), self.n(), fuel, crate::farmscript::token::parts_view(parts@), 0) == Ok::<Seq<SpecTemplateExpr>, SpecParseError>(template_view(v@)),
                Err(e) => p_template_parts(self.toks(), self.n(), fuel, crate::farmscript::token::parts_view(parts@), 0) == Err::<Seq<SpecTemplateExpr>, SpecParseError>(e@),
            },
        decreases self.n(), fuel, parts@.len(),
    {
        let ghost pv = crate::farmscript::token::parts_view(parts@);
        let mut out: Vec<TemplateExpr> = Vec::new();
        let mut k: usize = 0;
        assert(template_view(out@) =~= Seq::<SpecTemplateExpr>::empty());
        while k < parts.len()
            invariant
                self.inv(),
                0 <= k <= parts@.len(),
                pv == crate::farmscript::token::parts_view(parts@),
                p_template_parts(self.toks(), self.n(), fuel, pv, 0) == match p_template_parts(
                    self.toks(),
                    self.n(),
                    fuel,
                    pv,
                    k as int,
                ) {
                    Ok(rest) => Ok(template_view(out@) + rest),
                    Err(e) => Err::<Seq<SpecTemplateExpr>, SpecParseError>(e),
                },
            decreases parts@.len() - k,
        {
            let t = self.parse_template_part(&parts[k], Ghost(fuel))?;
            let ghost old_out = out@;
            proof {
                lemma_template_view_push(old_out, t);
                assert(seq![t].subrange(1, 1) =~= Seq::<TemplateExpr>::empty());
                assert(template_view(Seq::<TemplateExpr>::empty()) =~= Seq::<SpecTemplateExpr>::empty());
                assert(template_view(seq![t]) =~= seq![template_expr_view(t)]);
            }
            out.push(t);
            k = k + 1;
            proof {
                assert(out@ =~= old_out.push(t));
                match p_template_parts(self.toks(), self.n(), fuel, pv, k as int) {
                    Ok(rest) => {
                        assert(template_view(out@) + rest =~= template_view(old_out) + (seq![template_expr_view(t)] + rest));
                    },
                    Err(e) => {},
                }
            }
        }
        assert(template_view(out@) + Seq::<SpecTemplateExpr>::empty() =~= template_view(out@));
        Ok(out)
    }

    fn parse_if_expression(&self, pos: usize, Ghost(fuel): Ghost<nat>) -> (r: Result<(Expr, usize), ParseError>)
        requires
            self.inv(),
            pos < self.len(),
            fuel >= measure(self.len(), pos as int, 13),
        ensures
            result_view(r) == p_if(self.toks(), self.n(), fuel, pos as int),
            r is Ok ==> pos <= r->Ok_0.1 < self.len(),
        decreases self.n(), fuel, 0nat,
    {
        let f = Ghost((fuel - 1) as nat);
        let span = self.prev_span_at(pos);
        let (condition, p1) = self.parse_expression(pos, f)?;
        let p2 = self.expect_then(p1)?;
        let (then_branch, p3) = self.parse_expression(p2, f)?;
        let else_ifs: Vec<(Expr, Expr)> = Vec::new();
        assert(pairs_view(else_ifs@) =~= Seq::<SpecExpr>::empty());
        self.parse_else_chain(condition, then_branch, else_ifs, span, p3, f)
    }

    fn parse_else_chain(
        &self,
        c: Expr,
        t: Expr,
        else_ifs: Vec<(Expr, Expr)>,
        span: Span,
        pos: usize,
        Ghost(fuel): Ghost<nat>,
    ) -> (r: Result<(Expr, usize), ParseError>)
        requires
            self.inv(),
            pos < self.len(),
            fuel >= measure(self.len(), pos as int, 0),
        ensures
            result_view(r) == p_else_chain(self.toks(), self.n(), fuel, c@, t@, pairs_view(else_ifs@), span, pos as int),
            r is Ok ==> pos <= r->Ok_0.1 < self.len(),
        decreases self.n(), fuel, 1nat,
    {
        let is_else = match self.kind(pos) {
            TokenKind::Else => true,
            _ => false,
        };
        if !is_else {
            assert(option_view(None) == None::<Box<SpecExpr>>);
            return Ok((Expr::If(Box::new(IfExpr { condition: c, then_branch: t, else_branch: None, else_ifs, span })), pos));
        }
        proof {
            self.lemma_not_eof_not_last(pos as int);
        }
        let f = Ghost((fuel - 1) as nat);
        let is_if = match self.kind(pos + 1) {
            TokenKind::If => true,
            _ => false,
        };
        if is_if {
            proof {
                self.lemma_not_eof_not_last(pos + 1);
            }
            return self.parse_else_if(c, t, else_ifs, span, pos + 2, f);
        }
        self.parse_else_branch(c, t, else_ifs, span, pos + 1, f)
    }

    /// The final `else` branch of a conditional.
    fn parse_else_branch(
        &self,
        c: Expr,
        t: Expr,
        else_ifs: Vec<(Expr, Expr)>,
        span: Span,
        pos: usize,
        Ghost(fuel): Ghost<nat>,
    ) -> (r: Result<(Expr, usize), ParseError>)
        requires
            self.inv(),
            pos < self.len(),
            fuel >= measure(self.len(), pos as int, 12),
        ensures
            result_view(r) == match p_expression(self.toks(), self.n(), fuel, pos as int) {
                Ok((e, p)) => Ok(
                    (
                        SpecExpr::If(Box::new(c@), Box::new(t@), Some(Box::new(e)), pairs_view(else_ifs@), span),
                        p,
                    ),
                ),
                Err(err) => Err(err),
            },
            r is Ok ==> pos <= r->Ok_0.1 < self.len(),
        decreases self.n(), fuel, 1nat,
    {
        let (e, p) = self.parse_expression(pos, Ghost(fuel))?;
        assert(option_view(Some(e)) == Some(Box::new(e@)));
        Ok((Expr::If(Box::new(IfExpr { condition: c, then_branch: t, else_branch: Some(e), else_ifs, span })), p))
    }

    #[verifier::spinoff_prover]
    #[verifier::rlimit(40)]
    fn parse_else_if(
        &self,
        c: Expr,
        t: Expr,
        else_ifs: Vec<(Expr, Expr)>,
        span: Span,
        pos: usize,
        Ghost(fuel): Ghost<nat>,
    ) -> (r: Result<(Expr, usize), ParseError>)
        requires
            self.inv(),
            pos < self.len(),
            fuel >= measure(self.len(), pos as int, 14),
        ensures
            result_view(r) == p_else_if(self.toks(), self.n(), fuel, c@, t@, pairs_view(else_ifs@), span, pos as int),
            r is Ok ==> pos <= r->Ok_0.1 < self.len(),
        decreases self.n(), fuel, 0nat,
    {
        let f = Ghost((fuel - 1) as nat);
        let (c2, p1) = self.parse_expression(pos, f)?;
        let p2 = self.expect_then(p1)?;
        let (t2, p3) = self.parse_expression(p2, f)?;
        let mut else_ifs = else_ifs;
        proof {
            lemma_pairs_view_push(else_ifs@, c2, t2);
        }
        else_ifs.push((c2, t2));
        self.parse_else_chain(c, t, else_ifs, span, p3, f)
    }

    fn parse_let_expression(&self, pos: usize, Ghost(fuel): Ghost<nat>) -> (r: Result<(Expr, usize), ParseError>)
        requires
            self.inv(),
            pos < self.len(),
            fuel >= measure(self.len(), pos as int, 13),
        ensures
            result_view(r) == p_let(self.toks(), self.n(), fuel, pos as int),
            r is Ok ==> pos <= r->Ok_0.1 < self.len(),
        decreases self.n(), fuel, 0nat,
    {
        let f = Ghost((fuel - 1) as nat);
        let span = self.prev_span_at(pos);
        let (name, p1) = self.expect_identifier(pos)?;
        let p2 = self.expect_assign(p1)?;
        let (value, p3) = self.parse_additive(p2, f)?;
        let p4 = self.expect_in(p3)?;
        let (body, p5) = self.parse_expression(p4, f)?;
        Ok((Expr::Let(Box::new(LetExpr { name, value, body, span })), p5))
    }

    fn parse_query_expression(&self, pos: usize, Ghost(fuel): Ghost<nat>) -> (r: Result<(Expr, usize), ParseError>)
        requires
            self.inv(),
            pos < self.len(),
            fuel >= measure(self.len(), pos as int, 13),
        ensures
            result_view(r) == p_query(self.toks(), self.n(), fuel, pos as int),
            r is Ok ==> pos <= r->Ok_0.1 < self.len(),
        decreases self.n(), fuel, 0nat,
    {
        let f = Ghost((fuel - 1) as nat);
        let span = self.prev_span_at(pos);
        let (source, p1) = self.parse_primary(pos, f)?;
        match self.kind(p1) {
            TokenKind::Where => {
                proof {
                    self.lemma_not_eof_not_last(p1 as int);
                }
                let (c, p2) = self.parse_expression(p1 + 1, f)?;
                self.parse_query_select(source, Some(c), span, p2, f)
            },
            _ => self.parse_query_select(source, None, span, p1, f),
        }
    }

    fn parse_query_select(
        &self,
        source: Expr,
        filter: Option<Expr>,
        span: Span,
        pos: usize,
        Ghost(fuel): Ghost<nat>,
    ) -> (r: Result<(Expr, usize), ParseError>)
        requires
            self.inv(),
            pos < self.len(),
            fuel >= measure(self.len(), pos as int, 0),
        ensures
            result_view(r) == p_query_select(self.toks(), self.n(), fuel, source@, option_view(filter), span, pos as int),
            r is Ok ==> pos <= r->Ok_0.1 < self.len(),
        decreases self.n(), fuel, 1nat,
    {
        let p3 = self.expect_select(pos)?;
        let (projection, p4) = self.parse_expression(p3, Ghost(fuel))?;
        Ok((Expr::Query(Box::new(QueryExpr { source, filter, projection, span })), p4))
    }

    fn parse_array_literal(&self, pos: usize, Ghost(fuel): Ghost<nat>) -> (r: Result<(Expr, usize), ParseError>)
        requires
            self.inv(),
            pos < self.len(),
            fuel >= measure(self.len(), pos as int, 14),
        ensures
            result_view(r) == p_array(self.toks(), self.n(), fuel, pos as int),
            r is Ok ==> pos <= r->Ok_0.1 < self.len(),
        decreases self.n(), fuel, 0nat,
    {
        let (items, p) = match self.kind(pos) {
            TokenKind::RBracket => {
                let v: Vec<Expr> = Vec::new();
                assert(exprs_view(v@) =~= Seq::<SpecExpr>::empty());
                (v, pos)
            },
            _ => {
                let v: Vec<Expr> = Vec::new();
                assert(exprs_view(v@) =~= Seq::<SpecExpr>::empty());
                self.parse_array_items(v, pos, Ghost((fuel - 1) as nat))?
            },
        };
        let q = self.expect_rbracket(p)?;
        Ok((Expr::Array(items), q))
    }

    fn parse_array_items(&self, acc: Vec<Expr>, pos: usize, Ghost(fuel): Ghost<nat>) -> (r: Result<(Vec<Expr>, usize), ParseError>)
        requires
            self.inv(),
            pos < self.len(),
            fuel >= measure(self.len(), pos as int, 13),
        ensures
            results_view(r) == p_array_items(self.toks(), self.n(), fuel, exprs_view(acc@), pos as int),
            r is Ok ==> pos <= r->Ok_0.1 < self.len(),
        decreases self.n(), fuel, 0nat,
    {
        let (e, p) = self.parse_expression(pos, Ghost((fuel - 1) as nat))?;
        let mut acc = acc;
        proof {
            lemma_exprs_view_push(acc@, e);
        }
        acc.push(e);
        match self.kind(p) {
            TokenKind::Comma => {
                proof {
                    self.lemma_not_eof_not_last(p as int);
                }
                match self.kind(p + 1) {
                    TokenKind::RBracket => Ok((acc, p + 1)),
                    _ => self.parse_array_items(acc, p + 1, Ghost((fuel - 1) as nat)),
                }
            },
            _ => Ok((acc, p)),
        }
    }

    fn parse_args(&self, pos: usize, Ghost(fuel): Ghost<nat>) -> (r: Result<(Vec<Expr>, usize), ParseError>)
        requires
            self.inv(),
            pos < self.len(),
            fuel >= measure(self.len(), pos as int, 14),
        ensures
            results_view(r) == p_args(self.toks(), self.n(), fuel, pos as int),
            r is Ok ==> pos <= r->Ok_0.1 < self.len(),
        decreases self.n(), fuel, 0nat,
    {
        let (items, p) = match self.kind(pos) {
            TokenKind::RParen => {
                let v: Vec<Expr> = Vec::new();
                assert(exprs_view(v@) =~= Seq::<SpecExpr>::empty());
                (v, pos)
            },
            _ => {
                let v: Vec<Expr> = Vec::new();
                assert(exprs_view(v@) =~= Seq::<SpecExpr>::empty());
                self.parse_arg_items(v, pos, Ghost((fuel - 1) as nat))?
            },
        };
        let q = self.expect_rparen(p)?;
        Ok((items, q))
    }

    fn parse_arg_items(&self, acc: Vec<Expr>, pos: usize, Ghost(fuel): Ghost<nat>) -> (r: Result<(Vec<Expr>, usize), ParseError>)
        requires
            self.inv(),
            pos < self.len(),
            fuel >= measure(self.len(), pos as int, 13),
        ensures
            results_view(r) == p_arg_items(self.toks(), self.n(), fuel, exprs_view(acc@), pos as int),
            r is Ok ==> pos <= r->Ok_0.1 < self.len(),
        decreases self.n(), fuel, 0nat,
    {
        let (e, p) = self.parse_expression(pos, Ghost((fuel - 1) as nat))?;
        let mut acc = acc;
        proof {
            lemma_exprs_view_push(acc@, e);
        }
        acc.push(e);
        match self.kind(p) {
            TokenKind::Comma => {
                proof {
                    self.lemma_not_eof_not_last(p as int);
                }
                self.parse_arg_items(acc, p + 1, Ghost((fuel - 1) as nat))
            },
            _ => Ok((acc, p)),
        }
    }

    fn parse_params(&self, acc: Vec<String>, pos: usize) -> (r: Result<(Vec<String>, usize), ParseError>)
        requires
            self.inv(),
            pos < self.len(),
        ensures
            match r {
                Ok((v, p)) => p_params(self.toks(), strings_view(acc@), pos as int) == Ok::<(Seq<Seq<char>>, int), SpecParseError>((strings_view(v@), p as int)),
                Err(e) => p_params(self.toks(), strings_view(acc@), pos as int) == Err::<(Seq<Seq<char>>, int), SpecParseError>(e@),
            },
            r is Ok ==> pos < r->Ok_0.1 < self.len(),
        decreases self.len() - pos,
    {
        let (name, p) = self.expect_identifier(pos)?;
        let mut acc = acc;
        proof {
            lemma_strings_view_push(acc@, name);
        }
        acc.push(name);
        match self.kind(p) {
            TokenKind::Comma => {
                proof {
                    self.lemma_not_eof_not_last(p as int);
                }
                self.parse_params(acc, p + 1)
            },
            _ => Ok((acc, p)),
        }
    }

    #[verifier::rlimit(60)]
    fn parse_grouped_or_lambda(&self, pos: usize, Ghost(fuel): Ghost<nat>) -> (r: Result<(Expr, usize), ParseError>)
        requires
            self.inv(),
            pos < self.len(),
            fuel >= measure(self.len(), pos as int, 13),
        ensures
            result_view(r) == p_grouped(self.toks(), self.n(), fuel, pos as int),
            r is Ok ==> pos <= r->Ok_0.1 < self.len(),
        decreases self.n(), fuel, 0nat,
    {
        let f = Ghost((fuel - 1) as nat);
        match self.kind(pos) {
            TokenKind::Ident(first) => {
                proof {
                    self.lemma_not_eof_not_last(pos as int);
                }
                let q = pos + 1;
                match self.kind(q) {
                    TokenKind::Comma => {
                        proof {
                            self.lemma_not_eof_not_last(q as int);
                        }
                        let mut acc: Vec<String> = Vec::new();
                        acc.push(first.clone());
                        proof {
                            assert(strings_view(acc@) =~= seq![first@]);
                        }
                        let (params, p1) = self.parse_params(acc, q + 1)?;
                        let p2 = self.expect_rparen(p1)?;
                        let p3 = self.expect_arrow(p2)?;
                        let (body, p4) = self.parse_expression(p3, f)?;
                        Ok((Expr::Lambda(Box::new(LambdaExpr { params, body, span: Span::new(0, 0) })), p4))
                    },
                    TokenKind::RParen => {
                        proof {
                            self.lemma_not_eof_not_last(q as int);
                        }
                        match self.kind(q + 1) {
                            TokenKind::Arrow => {
                                proof {
                                    self.lemma_not_eof_not_last(q + 1);
                                }
                                let (body, p) = self.parse_expression(q + 2, f)?;
                                let mut params: Vec<String> = Vec::new();
                                params.push(first.clone());
                                proof {
                                    assert(strings_view(params@) =~= seq![first@]);
                                }
                                Ok((Expr::Lambda(Box::new(LambdaExpr { params, body, span: Span::new(0, 0) })), p))
                            },
                            _ => Ok((Expr::Var(VarExpr { name: first.clone(), span: Span::new(0, 0) }), q + 1)),
                        }
                    },
                    _ => {
                        let var = Expr::Var(VarExpr { name: first.clone(), span: Span::new(0, 0) });
                        let (e, p) = self.continue_expression(var, q, f)?;
                        let p2 = self.expect_rparen(p)?;
                        Ok((e, p2))
                    },
                }
            },
            _ => {
                let (e, p) = self.parse_expression(pos, f)?;
                let p2 = self.expect_rparen(p)?;
                Ok((e, p2))
            },
        }
    }

    fn continue_expression(&self, left: Expr, pos: usize, Ghost(fuel): Ghost<nat>) -> (r: Result<(Expr, usize), ParseError>)
        requires
            self.inv(),
            pos < self.len(),
            fuel >= measure(self.len(), pos as int, 1),
        ensures
            result_view(r) == p_continue(self.toks(), self.n(), fuel, left@, pos as int),
            r is Ok ==> pos <= r->Ok_0.1 < self.len(),
        decreases self.n(), fuel, 0nat,
    {
        let (e, p) = self.parse_postfix_rest(left, pos, Ghost((fuel - 1) as nat))?;
        self.parse_binary_rest(e, 0, p, Ghost((fuel - 1) as nat))
    }

    fn parse_binary_rest(&self, left: Expr, min_prec: u8, pos: usize, Ghost(fuel): Ghost<nat>) -> (r: Result<(Expr, usize), ParseError>)
        requires
            self.inv(),
            pos < self.len(),
            fuel >= measure(self.len(), pos as int, 0),
        ensures
            result_view(r) == p_binary_rest(self.toks(), self.n(), fuel, left@, min_prec, pos as int),
            r is Ok ==> pos <= r->Ok_0.1 < self.len(),
        decreases self.n(), fuel, 0nat,
    {
        let f = Ghost((fuel - 1) as nat);
        let found: Option<(BinaryOp, u8)> = match self.kind(pos) {
            TokenKind::Or => Some((BinaryOp::Or, 1)),
            TokenKind::And => Some((BinaryOp::And, 2)),
            TokenKind::EqEq => Some((BinaryOp::Eq, 3)),
            TokenKind::EqEqEq | TokenKind::Is | TokenKind::Eq | TokenKind::Equals
            | TokenKind::SameAs => Some((BinaryOp::StrictEq, 3)),
            TokenKind::NotEq | TokenKind::LtGt => Some((BinaryOp::NotEq, 3)),
            TokenKind::NotEqEq | TokenKind::Isnt | TokenKind::IsNot
            | TokenKind::NotEqKw => Some((BinaryOp::StrictNotEq, 3)),
            TokenKind::Lt => Some((BinaryOp::Lt, 4)),
            TokenKind::Gt => Some((BinaryOp::Gt, 4)),
            TokenKind::LtEq => Some((BinaryOp::LtEq, 4)),
            TokenKind::GtEq => Some((BinaryOp::GtEq, 4)),
            TokenKind::Plus => Some((BinaryOp::Add, 5)),
            TokenKind::Minus => Some((BinaryOp::Sub, 5)),
            TokenKind::Star => Some((BinaryOp::Mul, 6)),
            TokenKind::Slash => Some((BinaryOp::Div, 6)),
            TokenKind::Percent => Some((BinaryOp::Mod, 6)),
            TokenKind::SlashQuestion => Some((BinaryOp::SafeDivZero, 6)),
            TokenKind::SlashBang => Some((BinaryOp::SafeDivNull, 6)),
            TokenKind::Caret => Some((BinaryOp::Pow, 7)),
            _ => None,
        };
        match found {
            Some((op, prec)) => {
                if prec < min_prec {
                    return Ok((left, pos));
                }
                proof {
                    self.lemma_not_eof_not_last(pos as int);
                }
                let (r1, p1) = self.parse_unary(pos + 1, f)?;
                let next_min: u8 = if op.is_right_assoc() { prec } else { prec + 1 };
                let (r2, p2) = self.parse_binary_rest(r1, next_min, p1, f)?;
                self.parse_binary_rest(Expr::binary(left, op, r2), min_prec, p2, f)
            },
            None => Ok((left, pos)),
        }
    }

    /// Parse the entire expression
    #[verifier::spinoff_prover]
    #[verifier::rlimit(40)]
    pub fn parse(&self) -> (r: Result<Expr, ParseError>)
        ensures
            expr_result_view(r) == spec_parse_tokens(self.toks(), self.n(), fuel_for(self.toks().len())),
        decreases self.n(), fuel_for(self.toks().len()), 0nat,
    {
        proof {
            use_type_invariant(self);
        }
        let (e, p) = self.parse_expression(0, Ghost((fuel_for(self.toks().len()) - 1) as nat))?;
        match self.kind(p) {
            TokenKind::Eof => Ok(e),
            _ => Err(self.unexpected_at(p, "end of expression")),
        }
    }

}

pub open spec fn expr_result_view(r: Result<Expr, ParseError>) -> Result<SpecExpr, SpecParseError> {
    match r {
        Ok(e) => Ok(e@),
        Err(err) => Err(err@),
    }
}

/// Parse FarmScript source to AST (for inspection/transformation)
pub fn parse(source: &str) -> (r: Result<Expr, ParseError>)
    ensures
        expr_result_view(r) == spec_parse_source(source@),
    decreases source@.len(), fuel_for(spec_tokenize(source@).len()) + 1, 0nat,
{
    let lexer = Lexer::new(source);
    let parser = Parser::new(lexer);
    parser.parse()
}

fn str_owned(s: &str) -> (r: String)
    ensures
        r@ == s@,
{
    s.to_owned()
}

/// A comparison token as the lexer reads it from the source.
pub open spec fn is_comparison_kind(k: SpecTokenKind) -> bool {
    k is Lt || k is LtEq || k is Gt || k is GtEq || k is In
}

/// The operator a comparison token selects is the one written in the
/// source: its JSON Logic name is the token's text (`<=` gives the `<=`
/// operator, `IN` the `in` operator).
pub proof fn lemma_comparison_operator_as_written(cs: Seq<char>, s: int, last_was_value: bool)
    requires
        0 <= s < cs.len(),
    ensures
        is_comparison_kind(lex_at(cs, s, last_was_value).0) ==> (comparison_op(lex_at(cs, s, last_was_value).0) matches Some(
            op,
        ) && op_name(op) == ascii_lower_seq(cs.subrange(s, lex_at(cs, s, last_was_value).1))),
{
    lemma_lex_at_comparison(cs, s, last_was_value);
    reveal_strlit("<");
    reveal_strlit("<=");
    reveal_strlit(">");
    reveal_strlit(">=");
    let text = cs.subrange(s, lex_at(cs, s, last_was_value).1);
    assert(ascii_lower_seq(seq!['<']) =~= "<"@);
    assert(ascii_lower_seq(seq!['<', '=']) =~= "<="@);
    assert(ascii_lower_seq(seq!['>']) =~= ">"@);
    assert(ascii_lower_seq(seq!['>', '=']) =~= ">="@);
}

/// Parsing a comparison whose operator token was read from the source at
/// `s` builds the binary node of the operator written there: the left
/// operand, the operator whose JSON Logic name is the token's text, and
/// the additive expression that follows.
pub proof fn lemma_comparison_node_as_written(
    toks: Seq<SpecToken>,
    n: nat,
    fuel: nat,
    left: SpecExpr,
    pos: int,
    cs: Seq<char>,
    s: int,
    last_was_value: bool,
)
    requires
        fuel > 0,
        0 <= s < cs.len(),
        kind_at(toks, pos) == lex_at(cs, s, last_was_value).0,
        is_comparison_kind(kind_at(toks, pos)),
    ensures
        exists|op: BinaryOp|
            #[trigger] op_name(op) == ascii_lower_seq(cs.subrange(s, lex_at(cs, s, last_was_value).1))
                && p_comparison_rest(toks, n, fuel, left, pos) == match p_additive(toks, n, (fuel - 1) as nat, pos + 1) {
                Ok((r, p)) => p_comparison_rest(toks, n, (fuel - 1) as nat, bin(left, op, r), p),
                Err(err) => Err(err),
            },
{
    lemma_comparison_operator_as_written(cs, s, last_was_value);
    let op = comparison_op(kind_at(toks, pos))->Some_0;
    assert(op_name(op) == ascii_lower_seq(cs.subrange(s, lex_at(cs, s, last_was_value).1)));
}

} // verus!
