//! Lexer/Tokenizer for FarmScript
//!
//! Converts source text into a stream of tokens.
//!
//! Special handling:
//! - `/path/to/var` at token start = path-style variable
//! - `a / b` = division operator
//!
//! The meaning of every lexing step is given by the spec functions below,
//! each of which reads the source as a sequence of characters `cs` from a
//! character index on.

use vstd::prelude::*;
use crate::text::{
    ascii_lower_seq, byte_offset, char_is_alphanumeric, char_is_whitespace, is_ascii_digit, is_ascii_letter,
    lemma_byte_offset_at_least_index, lemma_byte_offset_mono, push_chars, push_str, str_char_indices, string_from_chars,
    unicode_alphanumeric, unicode_whitespace, utf8_len,
};
use crate::farmscript::token::{
    parts_view, spec_keyword, tokens_view, Span, SpecTemplatePart, SpecToken, SpecTokenKind,
    TemplatePart, Token, TokenKind,
};

verus! {

// ---------------------------------------------------------------------------
// Specification
// ---------------------------------------------------------------------------

pub open spec fn is_ident_char(c: char) -> bool {
    unicode_alphanumeric(c) || c == '_'
}

pub open spec fn is_path_char(c: char) -> bool {
    unicode_alphanumeric(c) || c == '_' || c == '/' || c == '-'
}

/// First index at or after `i` that holds no whitespace.
pub open spec fn skip_ws(cs: Seq<char>, i: int) -> int
    decreases cs.len() - i,
{
    if 0 <= i < cs.len() && unicode_whitespace(cs[i]) {
        skip_ws(cs, i + 1)
    } else {
        i
    }
}

/// Index of the line break that ends a comment starting at `i` (or the end).
pub open spec fn comment_end(cs: Seq<char>, i: int) -> int
    decreases cs.len() - i,
{
    if 0 <= i < cs.len() && cs[i] != '\n' {
        comment_end(cs, i + 1)
    } else {
        i
    }
}

/// End of a run of identifier characters starting at `i`.
pub open spec fn ident_end(cs: Seq<char>, i: int) -> int
    decreases cs.len() - i,
{
    if 0 <= i < cs.len() && is_ident_char(cs[i]) {
        ident_end(cs, i + 1)
    } else {
        i
    }
}

/// End of a run of path characters starting at `i`.
pub open spec fn path_end(cs: Seq<char>, i: int) -> int
    decreases cs.len() - i,
{
    if 0 <= i < cs.len() && is_path_char(cs[i]) {
        path_end(cs, i + 1)
    } else {
        i
    }
}

/// End of a run of digits and `_` separators starting at `i`.
pub open spec fn digits_end(cs: Seq<char>, i: int) -> int
    decreases cs.len() - i,
{
    if 0 <= i < cs.len() && (is_ascii_digit(cs[i]) || cs[i] == '_') {
        digits_end(cs, i + 1)
    } else {
        i
    }
}

/// End of a run of digits (no separators) starting at `i`.
pub open spec fn plain_digits_end(cs: Seq<char>, i: int) -> int
    decreases cs.len() - i,
{
    if 0 <= i < cs.len() && is_ascii_digit(cs[i]) {
        plain_digits_end(cs, i + 1)
    } else {
        i
    }
}

/// The digits of `s` with the `_` separators left out.
pub open spec fn without_separators(s: Seq<char>) -> Seq<char>
    decreases s.len(),
{
    if s.len() == 0 {
        seq![]
    } else if s.last() == '_' {
        without_separators(s.drop_last())
    } else {
        without_separators(s.drop_last()).push(s.last())
    }
}

/// Value of a sequence of decimal digits.
pub open spec fn digits_value(ds: Seq<char>) -> nat
    decreases ds.len(),
{
    if ds.len() == 0 {
        0
    } else {
        digits_value(ds.drop_last()) * 10 + ((ds.last() as u32) - ('0' as u32)) as nat
    }
}

/// Whitespace removed from both ends.
pub open spec fn trim_start(s: Seq<char>) -> Seq<char>
    decreases s.len(),
{
    if s.len() > 0 && unicode_whitespace(s[0]) {
        trim_start(s.drop_first())
    } else {
        s
    }
}

pub open spec fn trim_end(s: Seq<char>) -> Seq<char>
    decreases s.len(),
{
    if s.len() > 0 && unicode_whitespace(s.last()) {
        trim_end(s.drop_last())
    } else {
        s
    }
}

pub open spec fn trim(s: Seq<char>) -> Seq<char> {
    trim_end(trim_start(s))
}

/// Body of a quoted string literal whose opening quote precedes `i`;
/// `acc` holds the characters decoded so far.  Yields the kind and the
/// index just past the literal.
pub open spec fn lex_string_from(cs: Seq<char>, i: int, quote: char, acc: Seq<char>) -> (
    SpecTokenKind,
    int,
)
    decreases cs.len() - i,
{
    if i < 0 || i >= cs.len() {
        (SpecTokenKind::Error("Unterminated string"@), cs.len() as int)
    } else if cs[i] == quote {
        (SpecTokenKind::String(acc), i + 1)
    } else if cs[i] == '\\' {
        if i + 1 >= cs.len() {
            (SpecTokenKind::Error("Unterminated escape sequence"@), cs.len() as int)
        } else {
            let e = cs[i + 1];
            let decoded = if e == 'n' {
                seq!['\n']
            } else if e == 't' {
                seq!['\t']
            } else if e == 'r' {
                seq!['\r']
            } else if e == '\\' {
                seq!['\\']
            } else if e == quote {
                seq![e]
            } else {
                seq!['\\', e]
            };
            lex_string_from(cs, i + 2, quote, acc + decoded)
        }
    } else {
        lex_string_from(cs, i + 1, quote, acc.push(cs[i]))
    }
}

pub open spec fn close_literal(lit: Seq<char>, parts: Seq<SpecTemplatePart>) -> Seq<
    SpecTemplatePart,
> {
    if lit.len() > 0 {
        parts.push(SpecTemplatePart::Literal(lit))
    } else {
        parts
    }
}

/// Literal text of a template string from `i` on.
pub open spec fn lex_template_from(
    cs: Seq<char>,
    i: int,
    lit: Seq<char>,
    parts: Seq<SpecTemplatePart>,
) -> (SpecTokenKind, int)
    decreases cs.len() - i, 1int,
{
    if i < 0 || i >= cs.len() {
        (SpecTokenKind::Error("Unterminated template string"@), cs.len() as int)
    } else if cs[i] == '`' {
        (SpecTokenKind::TemplateString(close_literal(lit, parts)), i + 1)
    } else if cs[i] == '{' {
        lex_template_expr_from(cs, i + 1, 1, seq![], close_literal(lit, parts))
    } else if cs[i] == '\\' {
        if i + 1 >= cs.len() {
            (SpecTokenKind::Error("Unterminated escape sequence"@), cs.len() as int)
        } else {
            let e = cs[i + 1];
            let decoded = if e == 'n' {
                seq!['\n']
            } else if e == 't' {
                seq!['\t']
            } else if e == 'r' {
                seq!['\r']
            } else if e == '\\' || e == '`' || e == '{' {
                seq![e]
            } else {
                seq!['\\', e]
            };
            lex_template_from(cs, i + 2, lit + decoded, parts)
        }
    } else {
        lex_template_from(cs, i + 1, lit.push(cs[i]), parts)
    }
}

/// Expression text of a template string, inside braces nested `depth` deep.
pub open spec fn lex_template_expr_from(
    cs: Seq<char>,
    i: int,
    depth: nat,
    expr: Seq<char>,
    parts: Seq<SpecTemplatePart>,
) -> (SpecTokenKind, int)
    decreases cs.len() - i, 0int,
{
    if i < 0 || i >= cs.len() {
        (SpecTokenKind::Error("Unterminated template expression"@), cs.len() as int)
    } else if cs[i] == '{' {
        lex_template_expr_from(cs, i + 1, depth + 1, expr.push('{'), parts)
    } else if cs[i] == '}' {
        if depth <= 1 {
            lex_template_from(cs, i + 1, seq![], parts.push(SpecTemplatePart::Expr(trim(expr))))
        } else {
            lex_template_expr_from(cs, i + 1, (depth - 1) as nat, expr.push('}'), parts)
        }
    } else {
        lex_template_expr_from(cs, i + 1, depth, expr.push(cs[i]), parts)
    }
}

/// A number literal whose first digit is at `s`.
pub open spec fn lex_number_at(cs: Seq<char>, s: int) -> (SpecTokenKind, int) {
    let int_end = digits_end(cs, s + 1);
    let int_text = seq![cs[s]] + without_separators(cs.subrange(s + 1, int_end));
    let has_fraction = int_end + 1 < cs.len() && cs[int_end] == '.' && is_ascii_digit(
        cs[int_end + 1],
    );
    let frac_end = if has_fraction {
        digits_end(cs, int_end + 1)
    } else {
        int_end
    };
    let frac_text = if has_fraction {
        seq!['.'] + without_separators(cs.subrange(int_end + 1, frac_end))
    } else {
        seq![]
    };
    let has_exponent = 0 <= frac_end < cs.len() && (cs[frac_end] == 'e' || cs[frac_end] == 'E');
    let sign_end = if has_exponent && frac_end + 1 < cs.len() && (cs[frac_end + 1] == '+'
        || cs[frac_end + 1] == '-') {
        frac_end + 2
    } else if has_exponent {
        frac_end + 1
    } else {
        frac_end
    };
    let exp_end = if has_exponent {
        plain_digits_end(cs, sign_end)
    } else {
        frac_end
    };
    let exp_text = cs.subrange(frac_end, exp_end);
    let text = int_text + frac_text + exp_text;
    if has_fraction || has_exponent {
        if has_exponent && exp_end == sign_end {
            (SpecTokenKind::Error("Invalid float: "@ + text), exp_end)
        } else {
            (SpecTokenKind::Float(text), exp_end)
        }
    } else if digits_value(text) <= i64::MAX {
        (SpecTokenKind::Integer(digits_value(text) as i64), exp_end)
    } else {
        (SpecTokenKind::Error("Invalid integer: "@ + text), exp_end)
    }
}

/// Path text `/a/b` read from the characters `cs[j..e]` after the slash; a
/// single trailing slash is dropped.
pub open spec fn path_text(cs: Seq<char>, j: int, e: int) -> Seq<char> {
    let p = seq!['/'] + cs.subrange(j, e);
    if p.len() > 1 && p.last() == '/' {
        p.drop_last()
    } else {
        p
    }
}

/// What follows a `/` at `j`.
pub open spec fn lex_slash_at(cs: Seq<char>, j: int, last_was_value: bool) -> (SpecTokenKind, int) {
    if j < cs.len() && cs[j] == '?' {
        (SpecTokenKind::SlashQuestion, j + 1)
    } else if j < cs.len() && cs[j] == '!' {
        (SpecTokenKind::SlashBang, j + 1)
    } else if last_was_value {
        (SpecTokenKind::Slash, j)
    } else if j < cs.len() && is_ident_char(cs[j]) {
        let e = path_end(cs, j);
        (SpecTokenKind::Ident(path_text(cs, j, e)), e)
    } else {
        (SpecTokenKind::Slash, j)
    }
}

/// Two-character operators: `first` at `s`; if `cs[s+1]` is `c1` the kind is
/// `k1`, if it is `c2` (when given) the kind is `k2`, else `k0`.
pub open spec fn lex_pair(cs: Seq<char>, s: int, c1: char, k1: SpecTokenKind, k0: SpecTokenKind) -> (
    SpecTokenKind,
    int,
) {
    if s + 1 < cs.len() && cs[s + 1] == c1 {
        (k1, s + 2)
    } else {
        (k0, s + 1)
    }
}

/// The token that starts at index `s` (which holds neither whitespace nor
/// `#`): its kind and the index just past it.
pub open spec fn lex_at(cs: Seq<char>, s: int, last_was_value: bool) -> (SpecTokenKind, int) {
    let ch = cs[s];
    let n = s + 1 < cs.len();
    if ch == '+' {
        (SpecTokenKind::Plus, s + 1)
    } else if ch == '-' {
        (SpecTokenKind::Minus, s + 1)
    } else if ch == '*' {
        (SpecTokenKind::Star, s + 1)
    } else if ch == '%' {
        (SpecTokenKind::Percent, s + 1)
    } else if ch == '^' {
        (SpecTokenKind::Caret, s + 1)
    } else if ch == '(' {
        (SpecTokenKind::LParen, s + 1)
    } else if ch == ')' {
        (SpecTokenKind::RParen, s + 1)
    } else if ch == '[' {
        (SpecTokenKind::LBracket, s + 1)
    } else if ch == ']' {
        (SpecTokenKind::RBracket, s + 1)
    } else if ch == '{' {
        (SpecTokenKind::LBrace, s + 1)
    } else if ch == '}' {
        (SpecTokenKind::RBrace, s + 1)
    } else if ch == ',' {
        (SpecTokenKind::Comma, s + 1)
    } else if ch == '.' {
        (SpecTokenKind::Dot, s + 1)
    } else if ch == ':' {
        (SpecTokenKind::Colon, s + 1)
    } else if ch == ';' {
        (SpecTokenKind::Semicolon, s + 1)
    } else if ch == '/' {
        lex_slash_at(cs, s + 1, last_was_value)
    } else if ch == '=' {
        if n && cs[s + 1] == '=' {
            lex_pair(cs, s + 1, '=', SpecTokenKind::EqEqEq, SpecTokenKind::EqEq)
        } else if n && cs[s + 1] == '>' {
            (SpecTokenKind::Arrow, s + 2)
        } else {
            (SpecTokenKind::Assign, s + 1)
        }
    } else if ch == '!' {
        if n && cs[s + 1] == '=' {
            lex_pair(cs, s + 1, '=', SpecTokenKind::NotEqEq, SpecTokenKind::NotEq)
        } else {
            (SpecTokenKind::Not, s + 1)
        }
    } else if ch == '<' {
        if n && cs[s + 1] == '=' {
            (SpecTokenKind::LtEq, s + 2)
        } else if n && cs[s + 1] == '>' {
            (SpecTokenKind::LtGt, s + 2)
        } else {
            (SpecTokenKind::Lt, s + 1)
        }
    } else if ch == '>' {
        lex_pair(cs, s, '=', SpecTokenKind::GtEq, SpecTokenKind::Gt)
    } else if ch == '?' {
        lex_pair(cs, s, '?', SpecTokenKind::QuestionQuestion, SpecTokenKind::Question)
    } else if ch == '&' {
        lex_pair(
            cs,
            s,
            '&',
            SpecTokenKind::And,
            SpecTokenKind::Error("Unexpected '&'. Use '&&' for logical AND."@),
        )
    } else if ch == '|' {
        lex_pair(
            cs,
            s,
            '|',
            SpecTokenKind::Or,
            SpecTokenKind::Error("Unexpected '|'. Use '||' for logical OR."@),
        )
    } else if ch == '"' || ch == '\'' {
        lex_string_from(cs, s + 1, ch, seq![])
    } else if ch == '`' {
        lex_template_from(cs, s + 1, seq![], seq![])
    } else if is_ascii_digit(ch) {
        lex_number_at(cs, s)
    } else if is_ascii_letter(ch) || ch == '_' {
        let e = ident_end(cs, s + 1);
        let word = cs.subrange(s, e);
        match spec_keyword(word) {
            Option::Some(k) => (k, e),
            Option::None => (SpecTokenKind::Ident(word), e),
        }
    } else {
        (SpecTokenKind::Error("Unexpected character: '"@ + seq![ch] + "'"@), s + 1)
    }
}

/// The next token from index `i` on: its kind and the character indices of
/// its first character and of the position just past it.  Whitespace is
/// skipped and `#` comments run to the end of the line.
pub open spec fn scan(cs: Seq<char>, i: int, last_was_value: bool) -> (SpecTokenKind, int, int)
    decreases cs.len() - i,
{
    let s = skip_ws(cs, i);
    if s < 0 || s >= cs.len() {
        (SpecTokenKind::Eof, s, s)
    } else if cs[s] == '#' {
        let j = comment_end(cs, s + 1);
        if i < j <= cs.len() {
            scan(cs, j, last_was_value)
        } else {
            (SpecTokenKind::Eof, s, s)
        }
    } else {
        let (k, e) = lex_at(cs, s, last_was_value);
        (k, s, e)
    }
}

/// Kinds after which a `/` is a division rather than the start of a path.
pub open spec fn is_value_kind(k: SpecTokenKind) -> bool {
    match k {
        SpecTokenKind::Integer(_) | SpecTokenKind::Float(_) | SpecTokenKind::String(_)
        | SpecTokenKind::TemplateString(_) | SpecTokenKind::Bool(_) | SpecTokenKind::Null
        | SpecTokenKind::Ident(_) | SpecTokenKind::RParen | SpecTokenKind::RBracket
        | SpecTokenKind::Question | SpecTokenKind::True | SpecTokenKind::False => true,
        _ => false,
    }
}

/// The token scanned from index `i`, with its byte span and its text.
pub open spec fn spec_token(cs: Seq<char>, i: int, last_was_value: bool) -> SpecToken {
    let (k, s, e) = scan(cs, i, last_was_value);
    SpecToken {
        kind: k,
        span: Span { start: byte_offset(cs, s) as usize, end: byte_offset(cs, e) as usize },
        lexeme: cs.subrange(s, e),
    }
}

/// The lexer state after that token.
pub open spec fn next_value_flag(cs: Seq<char>, i: int, last_was_value: bool) -> bool {
    let (k, s, e) = scan(cs, i, last_was_value);
    if k is Eof {
        last_was_value
    } else {
        is_value_kind(k)
    }
}

/// All tokens from index `i` on, ending with the `Eof` token.
pub open spec fn spec_tokens_from(cs: Seq<char>, i: int, last_was_value: bool) -> Seq<SpecToken>
    decreases cs.len() - i,
{
    let (k, s, e) = scan(cs, i, last_was_value);
    let t = spec_token(cs, i, last_was_value);
    if k is Eof || !(i < e <= cs.len()) {
        seq![t]
    } else {
        seq![t] + spec_tokens_from(cs, e, next_value_flag(cs, i, last_was_value))
    }
}

/// The tokens of a whole source text.
pub open spec fn spec_tokenize(cs: Seq<char>) -> Seq<SpecToken> {
    spec_tokens_from(cs, 0, false)
}

/// Index reached from `i` by skipping whitespace and `#` comments.
pub open spec fn layout_end(cs: Seq<char>, i: int) -> int
    decreases cs.len() - i,
{
    let s = skip_ws(cs, i);
    if 0 <= s < cs.len() && cs[s] == '#' {
        let j = comment_end(cs, s + 1);
        if i < j <= cs.len() {
            layout_end(cs, j)
        } else {
            s
        }
    } else {
        s
    }
}

proof fn lemma_string_not_eof(cs: Seq<char>, i: int, quote: char, acc: Seq<char>)
    ensures
        lex_string_from(cs, i, quote, acc).0 is String || lex_string_from(cs, i, quote, acc).0 is Error,
    decreases cs.len() - i,
{
    if 0 <= i < cs.len() && cs[i] != quote {
        if cs[i] == '\\' {
            if i + 1 < cs.len() {
                let e = cs[i + 1];
                let decoded = if e == 'n' {
                    seq!['\n']
                } else if e == 't' {
                    seq!['\t']
                } else if e == 'r' {
                    seq!['\r']
                } else if e == '\\' {
                    seq!['\\']
                } else if e == quote {
                    seq![e]
                } else {
                    seq!['\\', e]
                };
                lemma_string_not_eof(cs, i + 2, quote, acc + decoded);
            }
        } else {
            lemma_string_not_eof(cs, i + 1, quote, acc.push(cs[i]));
        }
    }
}

proof fn lemma_template_not_eof(
    cs: Seq<char>,
    i: int,
    lit: Seq<char>,
    parts: Seq<SpecTemplatePart>,
)
    ensures
        lex_template_from(cs, i, lit, parts).0 is TemplateString || lex_template_from(cs, i, lit, parts).0 is Error,
    decreases cs.len() - i, 1int,
{
    if 0 <= i < cs.len() && cs[i] != '`' {
        if cs[i] == '{' {
            lemma_template_expr_not_eof(cs, i + 1, 1, seq![], close_literal(lit, parts));
        } else if cs[i] == '\\' {
            if i + 1 < cs.len() {
                let e = cs[i + 1];
                let decoded = if e == 'n' {
                    seq!['\n']
                } else if e == 't' {
                    seq!['\t']
                } else if e == 'r' {
                    seq!['\r']
                } else if e == '\\' || e == '`' || e == '{' {
                    seq![e]
                } else {
                    seq!['\\', e]
                };
                lemma_template_not_eof(cs, i + 2, lit + decoded, parts);
            }
        } else {
            lemma_template_not_eof(cs, i + 1, lit.push(cs[i]), parts);
        }
    }
}

proof fn lemma_template_expr_not_eof(
    cs: Seq<char>,
    i: int,
    depth: nat,
    expr: Seq<char>,
    parts: Seq<SpecTemplatePart>,
)
    ensures
        lex_template_expr_from(cs, i, depth, expr, parts).0 is TemplateString || lex_template_expr_from(
            cs,
            i,
            depth,
            expr,
            parts,
        ).0 is Error,
    decreases cs.len() - i, 0int,
{
    if 0 <= i < cs.len() {
        if cs[i] == '{' {
            lemma_template_expr_not_eof(cs, i + 1, depth + 1, expr.push('{'), parts);
        } else if cs[i] == '}' {
            if depth <= 1 {
                lemma_template_not_eof(
                    cs,
                    i + 1,
                    seq![],
                    parts.push(SpecTemplatePart::Expr(trim(expr))),
                );
            } else {
                lemma_template_expr_not_eof(cs, i + 1, (depth - 1) as nat, expr.push('}'), parts);
            }
        } else {
            lemma_template_expr_not_eof(cs, i + 1, depth, expr.push(cs[i]), parts);
        }
    }
}

proof fn lemma_lex_at_not_eof(cs: Seq<char>, s: int, last_was_value: bool)
    ensures
        !(lex_at(cs, s, last_was_value).0 is Eof),
{
    let ch = cs[s];
    if ch == '"' || ch == '\'' {
        lemma_string_not_eof(cs, s + 1, ch, seq![]);
    } else if ch == '`' {
        lemma_template_not_eof(cs, s + 1, seq![], seq![]);
    }
}

proof fn lemma_skip_ws_bounds(cs: Seq<char>, i: int)
    requires
        0 <= i <= cs.len(),
    ensures
        i <= skip_ws(cs, i) <= cs.len(),
    decreases cs.len() - i,
{
    if i < cs.len() && unicode_whitespace(cs[i]) {
        lemma_skip_ws_bounds(cs, i + 1);
    }
}

proof fn lemma_comment_end_bounds(cs: Seq<char>, i: int)
    requires
        0 <= i <= cs.len(),
    ensures
        i <= comment_end(cs, i) <= cs.len(),
    decreases cs.len() - i,
{
    if i < cs.len() && cs[i] != '\n' {
        lemma_comment_end_bounds(cs, i + 1);
    }
}

/// A comparison token is the comparison written in the source: `<` and
/// `>` alone, `<=` and `>=` as two characters, and `in` as a word in any
/// letter case.
pub proof fn lemma_lex_at_comparison(cs: Seq<char>, s: int, last_was_value: bool)
    requires
        0 <= s < cs.len(),
    ensures
        ({
            let (k, e) = lex_at(cs, s, last_was_value);
            match k {
                SpecTokenKind::Lt => e == s + 1 && cs.subrange(s, e) == seq!['<'],
                SpecTokenKind::LtEq => e == s + 2 && cs.subrange(s, e) == seq!['<', '='],
                SpecTokenKind::Gt => e == s + 1 && cs.subrange(s, e) == seq!['>'],
                SpecTokenKind::GtEq => e == s + 2 && cs.subrange(s, e) == seq!['>', '='],
                SpecTokenKind::In => s < e <= cs.len() && ascii_lower_seq(cs.subrange(s, e)) == "in"@,
                _ => true,
            }
        }),
{
    let ch = cs[s];
    if ch == '"' || ch == '\'' {
        lemma_string_not_eof(cs, s + 1, ch, seq![]);
    } else if ch == '`' {
        lemma_template_not_eof(cs, s + 1, seq![], seq![]);
    }
    let (k, e) = lex_at(cs, s, last_was_value);
    if k is LtEq || k is GtEq {
        assert(cs.subrange(s, e) =~= seq![cs[s], cs[s + 1]]);
    }
    if k is Lt || k is Gt {
        assert(cs.subrange(s, e) =~= seq![cs[s]]);
    }
    if k is In {
        lemma_ident_end_bounds(cs, s + 1);
    }
}

proof fn lemma_ident_end_bounds(cs: Seq<char>, i: int)
    requires
        0 <= i <= cs.len(),
    ensures
        i <= ident_end(cs, i) <= cs.len(),
    decreases cs.len() - i,
{
    if i < cs.len() && is_ident_char(cs[i]) {
        lemma_ident_end_bounds(cs, i + 1);
    }
}

/// A scan ends the input exactly when only whitespace and comments are left.
pub proof fn lemma_scan_eof_iff_layout(cs: Seq<char>, i: int, last_was_value: bool)
    requires
        0 <= i <= cs.len(),
    ensures
        (scan(cs, i, last_was_value).0 is Eof) <==> layout_end(cs, i) == cs.len(),
    decreases cs.len() - i,
{
    lemma_skip_ws_bounds(cs, i);
    let s = skip_ws(cs, i);
    if 0 <= s < cs.len() && cs[s] == '#' {
        lemma_comment_end_bounds(cs, s + 1);
        let j = comment_end(cs, s + 1);
        if i < j <= cs.len() {
            lemma_scan_eof_iff_layout(cs, j, last_was_value);
        }
    } else if 0 <= s < cs.len() {
        lemma_lex_at_not_eof(cs, s, last_was_value);
    }
}

// ---------------------------------------------------------------------------
// Implementation
// ---------------------------------------------------------------------------

/// Number of bytes `c` occupies in UTF-8 (`char::len_utf8`).
pub fn char_utf8_len(c: char) -> (r: usize)
    ensures
        r == utf8_len(c),
{
    let u = c as u32;
    if u < 0x80 {
        1
    } else if u < 0x800 {
        2
    } else if u < 0x10000 {
        3
    } else {
        4
    }
}

/// The characters `cs[s..e]`.
pub fn chars_between(cs: &[char], s: usize, e: usize) -> (r: Vec<char>)
    requires
        s <= e <= cs@.len(),
    ensures
        r@ == cs@.subrange(s as int, e as int),
{
    let mut r: Vec<char> = Vec::new();
    let mut k = s;
    while k < e
        invariant
            s <= k <= e <= cs@.len(),
            r@ == cs@.subrange(s as int, k as int),
        decreases e - k,
    {
        r.push(cs[k]);
        k = k + 1;
        assert(r@ =~= cs@.subrange(s as int, k as int));
    }
    r
}

fn skip_whitespace(cs: &[char], i: usize) -> (r: usize)
    requires
        i <= cs@.len(),
    ensures
        r as int == skip_ws(cs@, i as int),
        i <= r <= cs@.len(),
{
    let mut j = i;
    while j < cs.len() && char_is_whitespace(cs[j])
        invariant
            i <= j <= cs@.len(),
            skip_ws(cs@, j as int) == skip_ws(cs@, i as int),
        decreases cs@.len() - j,
    {
        j = j + 1;
    }
    j
}

fn comment_end_exec(cs: &[char], i: usize) -> (r: usize)
    requires
        i <= cs@.len(),
    ensures
        r as int == comment_end(cs@, i as int),
        i <= r <= cs@.len(),
{
    let mut j = i;
    while j < cs.len() && cs[j] != '\n'
        invariant
            i <= j <= cs@.len(),
            comment_end(cs@, j as int) == comment_end(cs@, i as int),
        decreases cs@.len() - j,
    {
        j = j + 1;
    }
    j
}

fn ident_end_exec(cs: &[char], i: usize) -> (r: usize)
    requires
        i <= cs@.len(),
    ensures
        r as int == ident_end(cs@, i as int),
        i <= r <= cs@.len(),
{
    let mut j = i;
    while j < cs.len() && (char_is_alphanumeric(cs[j]) || cs[j] == '_')
        invariant
            i <= j <= cs@.len(),
            ident_end(cs@, j as int) == ident_end(cs@, i as int),
        decreases cs@.len() - j,
    {
        j = j + 1;
    }
    j
}

fn path_end_exec(cs: &[char], i: usize) -> (r: usize)
    requires
        i <= cs@.len(),
    ensures
        r as int == path_end(cs@, i as int),
        i <= r <= cs@.len(),
{
    let mut j = i;
    while j < cs.len() && (char_is_alphanumeric(cs[j]) || cs[j] == '_' || cs[j] == '/' || cs[j]
        == '-')
        invariant
            i <= j <= cs@.len(),
            path_end(cs@, j as int) == path_end(cs@, i as int),
        decreases cs@.len() - j,
    {
        j = j + 1;
    }
    j
}

fn digits_end_exec(cs: &[char], i: usize) -> (r: usize)
    requires
        i <= cs@.len(),
    ensures
        r as int == digits_end(cs@, i as int),
        i <= r <= cs@.len(),
        forall|k: int| i <= k < r ==> is_ascii_digit(#[trigger] cs@[k]) || cs@[k] == '_',
{
    let mut j = i;
    while j < cs.len() && (('0' <= cs[j] && cs[j] <= '9') || cs[j] == '_')
        invariant
            i <= j <= cs@.len(),
            digits_end(cs@, j as int) == digits_end(cs@, i as int),
            forall|k: int| i <= k < j ==> is_ascii_digit(#[trigger] cs@[k]) || cs@[k] == '_',
        decreases cs@.len() - j,
    {
        j = j + 1;
    }
    j
}

fn plain_digits_end_exec(cs: &[char], i: usize) -> (r: usize)
    requires
        i <= cs@.len(),
    ensures
        r as int == plain_digits_end(cs@, i as int),
        i <= r <= cs@.len(),
{
    let mut j = i;
    while j < cs.len() && '0' <= cs[j] && cs[j] <= '9'
        invariant
            i <= j <= cs@.len(),
            plain_digits_end(cs@, j as int) == plain_digits_end(cs@, i as int),
        decreases cs@.len() - j,
    {
        j = j + 1;
    }
    j
}

/// Appends `cs[s..e]` without its `_` separators.
fn push_without_separators(v: &mut Vec<char>, cs: &[char], s: usize, e: usize)
    requires
        s <= e <= cs@.len(),
    ensures
        final(v)@ == old(v)@ + without_separators(cs@.subrange(s as int, e as int)),
{
    let mut k = s;
    while k < e
        invariant
            s <= k <= e <= cs@.len(),
            v@ == old(v)@ + without_separators(cs@.subrange(s as int, k as int)),
        decreases e - k,
    {
        let ghost prev = cs@.subrange(s as int, k as int);
        assert(cs@.subrange(s as int, k + 1).drop_last() =~= prev);
        if cs[k] != '_' {
            v.push(cs[k]);
        }
        k = k + 1;
        assert(v@ =~= old(v)@ + without_separators(cs@.subrange(s as int, k as int)));
    }
}

proof fn lemma_digits_value_grows(ds: Seq<char>, c: char)
    requires
        '0' <= c <= '9',
    ensures
        digits_value(ds.push(c)) == digits_value(ds) * 10 + ((c as u32) - ('0' as u32)),
        digits_value(ds.push(c)) >= digits_value(ds),
{
    assert(ds.push(c).drop_last() =~= ds);
}

/// Whether every character of `s` is a decimal digit.
pub open spec fn all_digits(s: Seq<char>) -> bool {
    forall|k: int| 0 <= k < s.len() ==> is_ascii_digit(#[trigger] s[k])
}

proof fn lemma_without_separators_digits(s: Seq<char>)
    requires
        forall|k: int| 0 <= k < s.len() ==> is_ascii_digit(#[trigger] s[k]) || s[k] == '_',
    ensures
        all_digits(without_separators(s)),
    decreases s.len(),
{
    if s.len() > 0 {
        lemma_without_separators_digits(s.drop_last());
    }
}

/// Value of the digits `ds` as an `i64`, or `None` when it exceeds `i64::MAX`.
fn digits_to_i64(ds: &[char]) -> (r: Option<i64>)
    requires
        all_digits(ds@),
    ensures
        match r {
            Option::Some(v) => digits_value(ds@) <= i64::MAX && v as int == digits_value(ds@),
            Option::None => digits_value(ds@) > i64::MAX,
        },
{
    let mut val: u64 = 0;
    let mut k: usize = 0;
    while k < ds.len()
        invariant
            0 <= k <= ds@.len(),
            all_digits(ds@),
            val as int == digits_value(ds@.subrange(0, k as int)),
            val <= i64::MAX,
        decreases ds@.len() - k,
    {
        let c = ds[k];
        let d = (c as u32 - '0' as u32) as u64;
        proof {
            assert(is_ascii_digit(ds@[k as int]));
            assert(ds@.subrange(0, k + 1) =~= ds@.subrange(0, k as int).push(c));
            lemma_digits_value_grows(ds@.subrange(0, k as int), c);
        }
        if val > (9223372036854775807u64 - d) / 10 {
            proof {
                lemma_digits_prefix_bound(ds@, k as int + 1);
            }
            return Option::None;
        }
        val = val * 10 + d;
        k = k + 1;
    }
    assert(ds@.subrange(0, ds@.len() as int) =~= ds@);
    Option::Some(val as i64)
}

proof fn lemma_digits_prefix_bound(ds: Seq<char>, k: int)
    requires
        0 <= k <= ds.len(),
        all_digits(ds),
    ensures
        digits_value(ds) >= digits_value(ds.subrange(0, k)),
    decreases ds.len() - k,
{
    if k < ds.len() {
        lemma_digits_prefix_bound(ds, k + 1);
        assert(ds.subrange(0, k + 1) =~= ds.subrange(0, k).push(ds[k]));
        assert(is_ascii_digit(ds[k]));
        lemma_digits_value_grows(ds.subrange(0, k), ds[k]);
    } else {
        assert(ds.subrange(0, k) =~= ds);
    }
}

fn str_string(s: &str) -> (r: String)
    ensures
        r@ == s@,
{
    s.to_owned()
}

/// A number literal whose first digit is at `s`.
fn lex_number(cs: &[char], s: usize) -> (r: (TokenKind, usize))
    requires
        s < cs@.len() < usize::MAX,
        is_ascii_digit(cs@[s as int]),
    ensures
        (r.0@, r.1 as int) == lex_number_at(cs@, s as int),
        s < r.1 <= cs@.len(),
{
    let int_end = digits_end_exec(cs, s + 1);
    let mut text: Vec<char> = Vec::new();
    text.push(cs[s]);
    push_without_separators(&mut text, cs, s + 1, int_end);
    let ghost int_text = text@;
    let has_fraction = int_end + 1 < cs.len() && cs[int_end] == '.' && '0' <= cs[int_end + 1]
        && cs[int_end + 1] <= '9';
    let mut frac_end = int_end;
    if has_fraction {
        frac_end = digits_end_exec(cs, int_end + 1);
        text.push('.');
        push_without_separators(&mut text, cs, int_end + 1, frac_end);
    }
    let ghost frac_text = text@.subrange(int_text.len() as int, text@.len() as int);
    assert(text@ =~= int_text + frac_text);
    let has_exponent = frac_end < cs.len() && (cs[frac_end] == 'e' || cs[frac_end] == 'E');
    let mut sign_end = frac_end;
    let mut exp_end = frac_end;
    if has_exponent {
        if frac_end + 1 < cs.len() && (cs[frac_end + 1] == '+' || cs[frac_end + 1] == '-') {
            sign_end = frac_end + 2;
        } else {
            sign_end = frac_end + 1;
        }
        exp_end = plain_digits_end_exec(cs, sign_end);
        let ex = chars_between(cs, frac_end, exp_end);
        push_chars(&mut text, ex.as_slice());
    }
    assert(text@ =~= int_text + frac_text + cs@.subrange(frac_end as int, exp_end as int));
    let ghost spec_r = lex_number_at(cs@, s as int);
    assert(int_text == seq![cs@[s as int]] + without_separators(cs@.subrange(s + 1, int_end as int)));
    assert(frac_text == (if has_fraction {
        seq!['.'] + without_separators(cs@.subrange(int_end + 1, frac_end as int))
    } else {
        seq![]
    }));
    if has_fraction || has_exponent {
        if has_exponent && exp_end == sign_end {
            let mut msg: Vec<char> = Vec::new();
            push_str(&mut msg, "Invalid float: ");
            push_chars(&mut msg, text.as_slice());
            (TokenKind::Error(string_from_chars(msg.as_slice())), exp_end)
        } else {
            (TokenKind::Float(string_from_chars(text.as_slice())), exp_end)
        }
    } else {
        proof {
            assert(int_end == exp_end);
            lemma_without_separators_digits(cs@.subrange(s + 1, int_end as int));
            assert(is_ascii_digit(cs@[s as int]));
            assert forall|k: int| 0 <= k < text@.len() implies is_ascii_digit(#[trigger] text@[k]) by {
                if k > 0 {
                    assert(text@[k] == without_separators(cs@.subrange(s + 1, int_end as int))[k
                        - 1]);
                }
            }
        }
        match digits_to_i64(text.as_slice()) {
            Option::Some(v) => (TokenKind::Integer(v), exp_end),
            Option::None => {
                let mut msg: Vec<char> = Vec::new();
                push_str(&mut msg, "Invalid integer: ");
                push_chars(&mut msg, text.as_slice());
                (TokenKind::Error(string_from_chars(msg.as_slice())), exp_end)
            },
        }
    }
}

/// Body of a quoted string literal whose opening quote precedes `i`.
fn lex_string(cs: &[char], i: usize, quote: char) -> (r: (TokenKind, usize))
    requires
        i <= cs@.len(),
    ensures
        (r.0@, r.1 as int) == lex_string_from(cs@, i as int, quote, seq![]),
        i <= r.1 <= cs@.len(),
{
    let mut acc: Vec<char> = Vec::new();
    let mut j = i;
    loop
        invariant
            i <= j <= cs@.len(),
            lex_string_from(cs@, j as int, quote, acc@) == lex_string_from(
                cs@,
                i as int,
                quote,
                seq![],
            ),
        decreases cs@.len() - j,
    {
        if j >= cs.len() {
            return (TokenKind::Error(str_string("Unterminated string")), cs.len());
        }
        let c = cs[j];
        if c == quote {
            return (TokenKind::String(string_from_chars(acc.as_slice())), j + 1);
        } else if c == '\\' {
            if j + 1 >= cs.len() {
                return (TokenKind::Error(str_string("Unterminated escape sequence")), cs.len());
            }
            let e = cs[j + 1];
            let ghost before = acc@;
            if e == 'n' {
                acc.push('\n');
                assert(acc@ =~= before + seq!['\n']);
            } else if e == 't' {
                acc.push('\t');
                assert(acc@ =~= before + seq!['\t']);
            } else if e == 'r' {
                acc.push('\r');
                assert(acc@ =~= before + seq!['\r']);
            } else if e == '\\' {
                acc.push('\\');
                assert(acc@ =~= before + seq!['\\']);
            } else if e == quote {
                acc.push(e);
                assert(acc@ =~= before + seq![e]);
            } else {
                acc.push('\\');
                acc.push(e);
                assert(acc@ =~= before + seq!['\\', e]);
            }
            j = j + 2;
        } else {
            acc.push(c);
            j = j + 1;
        }
    }
}

proof fn lemma_trim_start_len(s: Seq<char>)
    ensures
        trim_start(s).len() <= s.len(),
    decreases s.len(),
{
    if s.len() > 0 && unicode_whitespace(s[0]) {
        lemma_trim_start_len(s.drop_first());
    }
}

/// `s` with whitespace removed from both ends.
pub fn trim_chars(s: &[char]) -> (r: Vec<char>)
    ensures
        r@ == trim(s@),
{
    let mut a: usize = 0;
    assert(s@.subrange(0, s@.len() as int) =~= s@);
    while a < s.len() && char_is_whitespace(s[a])
        invariant
            0 <= a <= s@.len(),
            trim_start(s@.subrange(a as int, s@.len() as int)) == trim_start(s@),
        decreases s@.len() - a,
    {
        assert(s@.subrange(a as int, s@.len() as int).drop_first() =~= s@.subrange(
            a + 1,
            s@.len() as int,
        ));
        a = a + 1;
    }
    assert(trim_start(s@) == s@.subrange(a as int, s@.len() as int));
    let mut b: usize = s.len();
    while b > a && char_is_whitespace(s[b - 1])
        invariant
            a <= b <= s@.len(),
            trim_end(s@.subrange(a as int, b as int)) == trim(s@),
        decreases b,
    {
        assert(s@.subrange(a as int, b as int).drop_last() =~= s@.subrange(a as int, b - 1));
        b = b - 1;
    }
    chars_between(s, a, b)
}

/// A template string whose opening backquote precedes `i`.
fn lex_template_string(cs: &[char], i: usize) -> (r: (TokenKind, usize))
    requires
        i <= cs@.len(),
    ensures
        (r.0@, r.1 as int) == lex_template_from(cs@, i as int, seq![], seq![]),
        i <= r.1 <= cs@.len(),
{
    let mut parts: Vec<TemplatePart> = Vec::new();
    let mut lit: Vec<char> = Vec::new();
    let mut expr: Vec<char> = Vec::new();
    let mut in_expr = false;
    let mut depth: usize = 0;
    let mut j = i;
    assert(parts_view(parts@) =~= Seq::<SpecTemplatePart>::empty());
    loop
        invariant
            i <= j <= cs@.len(),
            depth <= j,
            !in_expr ==> lex_template_from(cs@, j as int, lit@, parts_view(parts@))
                == lex_template_from(cs@, i as int, seq![], seq![]),
            in_expr ==> lex_template_expr_from(
                cs@,
                j as int,
                depth as nat,
                expr@,
                parts_view(parts@),
            ) == lex_template_from(cs@, i as int, seq![], seq![]),
        decreases cs@.len() - j,
    {
        if j >= cs.len() {
            if in_expr {
                return (TokenKind::Error(str_string("Unterminated template expression")), cs.len());
            } else {
                return (TokenKind::Error(str_string("Unterminated template string")), cs.len());
            }
        }
        let c = cs[j];
        if in_expr {
            if c == '{' {
                depth = depth + 1;
                expr.push('{');
            } else if c == '}' {
                if depth <= 1 {
                    let t = trim_chars(expr.as_slice());
                    let ghost pv = parts_view(parts@);
                    parts.push(TemplatePart::Expr(string_from_chars(t.as_slice())));
                    proof {
                        reveal_parts_push(parts@);
                    }
                    assert(parts_view(parts@) == pv.push(SpecTemplatePart::Expr(trim(expr@))));
                    in_expr = false;
                    lit = Vec::new();
                    depth = 0;
                } else {
                    depth = depth - 1;
                    expr.push('}');
                }
            } else {
                expr.push(c);
            }
            j = j + 1;
        } else {
            if c == '`' {
                let ghost pv = parts_view(parts@);
                if lit.len() > 0 {
                    parts.push(TemplatePart::Literal(string_from_chars(lit.as_slice())));
                    proof {
                        reveal_parts_push(parts@);
                        assert(parts@.drop_last() =~= old_parts_of(parts@));
                    }
                }
                assert(parts_view(parts@) == close_literal(lit@, pv));
                return (TokenKind::TemplateString(parts), j + 1);
            } else if c == '{' {
                let ghost pv = parts_view(parts@);
                if lit.len() > 0 {
                    parts.push(TemplatePart::Literal(string_from_chars(lit.as_slice())));
                    proof {
                        reveal_parts_push(parts@);
                    }
                }
                assert(parts_view(parts@) == close_literal(lit@, pv));
                in_expr = true;
                depth = 1;
                expr = Vec::new();
                j = j + 1;
            } else if c == '\\' {
                if j + 1 >= cs.len() {
                    return (TokenKind::Error(str_string("Unterminated escape sequence")), cs.len());
                }
                let e = cs[j + 1];
                let ghost before = lit@;
                if e == 'n' {
                    lit.push('\n');
                    assert(lit@ =~= before + seq!['\n']);
                } else if e == 't' {
                    lit.push('\t');
                    assert(lit@ =~= before + seq!['\t']);
                } else if e == 'r' {
                    lit.push('\r');
                    assert(lit@ =~= before + seq!['\r']);
                } else if e == '\\' || e == '`' || e == '{' {
                    lit.push(e);
                    assert(lit@ =~= before + seq![e]);
                } else {
                    lit.push('\\');
                    lit.push(e);
                    assert(lit@ =~= before + seq!['\\', e]);
                }
                j = j + 2;
            } else {
                lit.push(c);
                j = j + 1;
            }
        }
    }
}

spec fn old_parts_of(p: Seq<TemplatePart>) -> Seq<TemplatePart> {
    p.drop_last()
}

proof fn reveal_parts_push(p: Seq<TemplatePart>)
    requires
        p.len() > 0,
    ensures
        parts_view(p) =~= parts_view(p.drop_last()).push(p.last()@),
{
}

/// What follows a `/` at `j`.
fn lex_slash_or_path(cs: &[char], j: usize, last_was_value: bool) -> (r: (TokenKind, usize))
    requires
        j <= cs@.len() < usize::MAX,
    ensures
        (r.0@, r.1 as int) == lex_slash_at(cs@, j as int, last_was_value),
        j <= r.1 <= cs@.len(),
{
    if j < cs.len() && cs[j] == '?' {
        (TokenKind::SlashQuestion, j + 1)
    } else if j < cs.len() && cs[j] == '!' {
        (TokenKind::SlashBang, j + 1)
    } else if last_was_value {
        (TokenKind::Slash, j)
    } else if j < cs.len() && (char_is_alphanumeric(cs[j]) || cs[j] == '_') {
        let e = path_end_exec(cs, j);
        let mut p: Vec<char> = Vec::new();
        p.push('/');
        let rest = chars_between(cs, j, e);
        push_chars(&mut p, rest.as_slice());
        let ghost full = p@;
        assert(full =~= seq!['/'] + cs@.subrange(j as int, e as int));
        if p.len() > 1 && p[p.len() - 1] == '/' {
            p.pop();
            assert(p@ =~= full.drop_last());
        }
        (TokenKind::Ident(string_from_chars(p.as_slice())), e)
    } else {
        (TokenKind::Slash, j)
    }
}

/// The token that starts at index `s`.
fn lex_at_exec(cs: &[char], s: usize, last_was_value: bool) -> (r: (TokenKind, usize))
    requires
        s < cs@.len() < usize::MAX,
    ensures
        (r.0@, r.1 as int) == lex_at(cs@, s as int, last_was_value),
        s < r.1 <= cs@.len(),
{
    let ch = cs[s];
    let n = s + 1 < cs.len();
    if ch == '+' {
        (TokenKind::Plus, s + 1)
    } else if ch == '-' {
        (TokenKind::Minus, s + 1)
    } else if ch == '*' {
        (TokenKind::Star, s + 1)
    } else if ch == '%' {
        (TokenKind::Percent, s + 1)
    } else if ch == '^' {
        (TokenKind::Caret, s + 1)
    } else if ch == '(' {
        (TokenKind::LParen, s + 1)
    } else if ch == ')' {
        (TokenKind::RParen, s + 1)
    } else if ch == '[' {
        (TokenKind::LBracket, s + 1)
    } else if ch == ']' {
        (TokenKind::RBracket, s + 1)
    } else if ch == '{' {
        (TokenKind::LBrace, s + 1)
    } else if ch == '}' {
        (TokenKind::RBrace, s + 1)
    } else if ch == ',' {
        (TokenKind::Comma, s + 1)
    } else if ch == '.' {
        (TokenKind::Dot, s + 1)
    } else if ch == ':' {
        (TokenKind::Colon, s + 1)
    } else if ch == ';' {
        (TokenKind::Semicolon, s + 1)
    } else if ch == '/' {
        lex_slash_or_path(cs, s + 1, last_was_value)
    } else if ch == '=' {
        if n && cs[s + 1] == '=' {
            if s + 2 < cs.len() && cs[s + 2] == '=' {
                (TokenKind::EqEqEq, s + 3)
            } else {
                (TokenKind::EqEq, s + 2)
            }
        } else if n && cs[s + 1] == '>' {
            (TokenKind::Arrow, s + 2)
        } else {
            (TokenKind::Assign, s + 1)
        }
    } else if ch == '!' {
        if n && cs[s + 1] == '=' {
            if s + 2 < cs.len() && cs[s + 2] == '=' {
                (TokenKind::NotEqEq, s + 3)
            } else {
                (TokenKind::NotEq, s + 2)
            }
        } else {
            (TokenKind::Not, s + 1)
        }
    } else if ch == '<' {
        if n && cs[s + 1] == '=' {
            (TokenKind::LtEq, s + 2)
        } else if n && cs[s + 1] == '>' {
            (TokenKind::LtGt, s + 2)
        } else {
            (TokenKind::Lt, s + 1)
        }
    } else if ch == '>' {
        if n && cs[s + 1] == '=' {
            (TokenKind::GtEq, s + 2)
        } else {
            (TokenKind::Gt, s + 1)
        }
    } else if ch == '?' {
        if n && cs[s + 1] == '?' {
            (TokenKind::QuestionQuestion, s + 2)
        } else {
            (TokenKind::Question, s + 1)
        }
    } else if ch == '&' {
        if n && cs[s + 1] == '&' {
            (TokenKind::And, s + 2)
        } else {
            (TokenKind::Error(str_string("Unexpected '&'. Use '&&' for logical AND.")), s + 1)
        }
    } else if ch == '|' {
        if n && cs[s + 1] == '|' {
            (TokenKind::Or, s + 2)
        } else {
            (TokenKind::Error(str_string("Unexpected '|'. Use '||' for logical OR.")), s + 1)
        }
    } else if ch == '"' || ch == '\'' {
        lex_string(cs, s + 1, ch)
    } else if ch == '`' {
        lex_template_string(cs, s + 1)
    } else if '0' <= ch && ch <= '9' {
        lex_number(cs, s)
    } else if ('a' <= ch && ch <= 'z') || ('A' <= ch && ch <= 'Z') || ch == '_' {
        let e = ident_end_exec(cs, s + 1);
        let word = chars_between(cs, s, e);
        match TokenKind::keyword_of_chars(word.as_slice()) {
            Option::Some(k) => (k, e),
            Option::None => (TokenKind::Ident(string_from_chars(word.as_slice())), e),
        }
    } else {
        let mut msg: Vec<char> = Vec::new();
        push_str(&mut msg, "Unexpected character: '");
        msg.push(ch);
        push_str(&mut msg, "'");
        assert(msg@ =~= "Unexpected character: '"@ + seq![ch] + "'"@);
        (TokenKind::Error(string_from_chars(msg.as_slice())), s + 1)
    }
}

/// Whether `/` after a token of this kind is a division.
pub fn is_value_token(k: &TokenKind) -> (r: bool)
    ensures
        r == is_value_kind(k@),
{
    match k {
        TokenKind::Integer(_) | TokenKind::Float(_) | TokenKind::String(_)
        | TokenKind::TemplateString(_) | TokenKind::Bool(_) | TokenKind::Null
        | TokenKind::Ident(_) | TokenKind::RParen | TokenKind::RBracket | TokenKind::Question
        | TokenKind::True | TokenKind::False => true,
        _ => false,
    }
}

/// The lexer that tokenizes FarmScript source
pub struct Lexer {
    /// The source characters
    chars: Vec<char>,
    /// Byte offset of each character, and of the end of the source
    offsets: Vec<usize>,
    /// Index of the next unread character
    idx: usize,
    /// Whether the last token produced a value (for division vs path)
    last_was_value: bool,
}

impl Lexer {
    /// The source text, as characters.
    pub closed spec fn source(&self) -> Seq<char> {
        self.chars@
    }

    /// Index of the next unread character.
    pub closed spec fn position(&self) -> int {
        self.idx as int
    }

    /// Whether the last token produced a value.
    pub closed spec fn after_value(&self) -> bool {
        self.last_was_value
    }

    #[verifier::type_invariant]
    closed spec fn inv(&self) -> bool {
        &&& self.offsets@.len() == self.chars@.len() + 1
        &&& forall|k: int|
            0 <= k <= self.chars@.len() ==> #[trigger] self.offsets@[k] == byte_offset(
                self.chars@,
                k,
            )
        &&& self.idx <= self.chars@.len()
        &&& self.chars@.len() <= isize::MAX
    }

    /// Length of the source, in characters.
    pub fn source_len(&self) -> (n: usize)
        ensures
            n == self.source().len(),
            n <= isize::MAX,
    {
        proof {
            use_type_invariant(self);
        }
        self.chars.len()
    }

    /// Create a new lexer for the given source
    pub fn new(source: &str) -> (l: Lexer)
        ensures
            l.source() == source@,
            l.position() == 0,
            !l.after_value(),
    {
        let ci = str_char_indices(source);
        let mut chars: Vec<char> = Vec::new();
        let mut offsets: Vec<usize> = Vec::new();
        let mut k: usize = 0;
        while k < ci.len()
            invariant
                0 <= k <= ci@.len(),
                ci@.len() == source@.len(),
                forall|q: int| 0 <= q < ci@.len() ==> (#[trigger] ci@[q]).1 == source@[q],
                forall|q: int| 0 <= q < ci@.len() ==> (#[trigger] ci@[q]).0 == byte_offset(source@, q),
                chars@ == source@.subrange(0, k as int),
                offsets@.len() == k,
                forall|q: int| 0 <= q < k ==> #[trigger] offsets@[q] == byte_offset(source@, q),
            decreases ci@.len() - k,
        {
            chars.push(ci[k].1);
            offsets.push(ci[k].0);
            k = k + 1;
            assert(chars@ =~= source@.subrange(0, k as int));
        }
        assert(chars@ =~= source@);
        let end: usize = if ci.len() == 0 {
            0
        } else {
            let last = ci[ci.len() - 1];
            proof {
                assert(byte_offset(source@, ci@.len() as int) == last.0 + utf8_len(last.1));
            }
            last.0 + char_utf8_len(last.1)
        };
        offsets.push(end);
        proof {
            lemma_byte_offset_at_least_index(source@, source@.len() as int);
            assert(chars@.len() <= isize::MAX);
            assert forall|q: int| 0 <= q <= chars@.len() implies #[trigger] offsets@[q]
                == byte_offset(chars@, q) by {}
        }
        Lexer { chars, offsets, idx: 0, last_was_value: false }
    }

    /// Get the next token
    pub fn next_token(&mut self) -> (t: Token)
        ensures
            t@ == spec_token(old(self).source(), old(self).position(), old(self).after_value()),
            final(self).source() == old(self).source(),
            final(self).position() == scan(
                old(self).source(),
                old(self).position(),
                old(self).after_value(),
            ).2,
            final(self).after_value() == next_value_flag(
                old(self).source(),
                old(self).position(),
                old(self).after_value(),
            ),
            old(self).position() <= final(self).position() <= old(self).source().len(),
            !(t.kind@ is Eof) ==> old(self).position() < final(self).position(),
            old(self).position() <= scan(old(self).source(), old(self).position(), old(self).after_value()).1
                <= final(self).position(),
            (t.kind@ is Eof) <==> layout_end(old(self).source(), old(self).position())
                == old(self).source().len(),
            t.kind@ is Eof ==> final(self).position() == old(self).source().len() && t@.lexeme.len()
                == 0,
            old(self).position() == old(self).source().len() ==> t.kind@ is Eof,
            byte_offset(old(self).source(), old(self).position()) <= t.span.start <= t.span.end,
            t.span.end == byte_offset(old(self).source(), final(self).position()),
            t.span.end <= byte_offset(old(self).source(), old(self).source().len() as int),
            t.kind@ is Eof ==> t.span.start == t.span.end && t.span.end == byte_offset(
                old(self).source(),
                old(self).source().len() as int,
            ),
    {
        proof {
            use_type_invariant(&*self);
        }
        let ghost cs = self.chars@;
        let ghost i0 = self.idx as int;
        let lwv = self.last_was_value;
        let mut i = self.idx;
        loop
            invariant
                cs == self.chars@,
                cs == old(self).chars@,
                i0 == old(self).idx,
                lwv == old(self).last_was_value,
                i0 <= i <= cs.len() <= isize::MAX,
                scan(cs, i as int, lwv) == scan(cs, i0, lwv),
                self.last_was_value == lwv,
                self.offsets@.len() == cs.len() + 1,
                forall|k: int| 0 <= k <= cs.len() ==> #[trigger] self.offsets@[k] == byte_offset(cs, k),
            decreases cs.len() - i,
        {
            let s = skip_whitespace(self.chars.as_slice(), i);
            if s >= self.chars.len() {
                let span = Span::new(self.offsets[s], self.offsets[s]);
                self.idx = s;
                let empty: Vec<char> = Vec::new();
                assert(cs.subrange(s as int, s as int) =~= empty@);
                let t = Token::new(TokenKind::Eof, span, string_from_chars(empty.as_slice()));
                assert(t@ == spec_token(cs, i0, lwv));
                proof {
                    lemma_scan_eof_iff_layout(cs, i0, lwv);
                    lemma_byte_offset_mono(cs, i0, s as int);
                }
                return t;
            }
            if self.chars[s] == '#' {
                i = comment_end_exec(self.chars.as_slice(), s + 1);
            } else {
                let (kind, e) = lex_at_exec(self.chars.as_slice(), s, lwv);
                proof {
                    lemma_lex_at_not_eof(cs, s as int, lwv);
                    lemma_scan_eof_iff_layout(cs, i0, lwv);
                    lemma_byte_offset_mono(cs, i0, s as int);
                    lemma_byte_offset_mono(cs, s as int, e as int);
                    lemma_byte_offset_mono(cs, e as int, cs.len() as int);
                }
                let span = Span::new(self.offsets[s], self.offsets[e]);
                let lexeme = chars_between(self.chars.as_slice(), s, e);
                self.idx = e;
                self.last_was_value = match kind {
                    TokenKind::Eof => lwv,
                    _ => is_value_token(&kind),
                };
                return Token::new(kind, span, string_from_chars(lexeme.as_slice()));
            }
        }
    }

    /// Collect all tokens up to and including the end-of-input token.
    pub fn collect_tokens(&mut self) -> (v: Vec<Token>)
        ensures
            tokens_view(v@) == spec_tokens_from(
                old(self).source(),
                old(self).position(),
                old(self).after_value(),
            ),
            final(self).source() == old(self).source(),
            v@.len() >= 1,
            v@.last().kind@ is Eof,
            v@.len() <= old(self).source().len() - old(self).position() + 1,
            v@.len() <= old(self).source().len() + 1,
    {
        proof {
            use_type_invariant(&*self);
        }
        let ghost cs = self.source();
        let ghost i0 = self.position();
        let ghost l0 = self.after_value();
        let mut v: Vec<Token> = Vec::new();
        assert(tokens_view(v@) + spec_tokens_from(cs, i0, l0) =~= spec_tokens_from(cs, i0, l0));
        loop
            invariant
                cs == self.source(),
                cs == old(self).source(),
                i0 == old(self).position(),
                l0 == old(self).after_value(),
                0 <= self.position() <= cs.len(),
                v@.len() <= self.position() - i0,
                tokens_view(v@) + spec_tokens_from(cs, self.position(), self.after_value())
                    == spec_tokens_from(cs, i0, l0),
            decreases cs.len() - self.position(),
        {
            let ghost i = self.position();
            let ghost l = self.after_value();
            let t = self.next_token();
            let is_eof = match t.kind {
                TokenKind::Eof => true,
                _ => false,
            };
            let ghost tv = t@;
            v.push(t);
            proof {
                assert(tokens_view(v@) =~= tokens_view(v@.drop_last()).push(tv));
                assert(v@.drop_last() =~= v@.subrange(0, v@.len() - 1));
            }
            if is_eof {
                assert(spec_tokens_from(cs, i, l) == seq![tv]);
                assert(tokens_view(v@) =~= spec_tokens_from(cs, i0, l0));
                return v;
            }
            assert(spec_tokens_from(cs, i, l) == seq![tv] + spec_tokens_from(
                cs,
                self.position(),
                self.after_value(),
            ));
            assert(tokens_view(v@) + spec_tokens_from(cs, self.position(), self.after_value())
                =~= tokens_view(v@.drop_last()) + spec_tokens_from(cs, i, l));
        }
    }
}

/// Tokenize FarmScript source (for debugging)
pub fn tokenize(source: &str) -> (v: Vec<Token>)
    ensures
        tokens_view(v@) == spec_tokenize(source@),
{
    let mut lexer = Lexer::new(source);
    lexer.collect_tokens()
}

} // verus!
