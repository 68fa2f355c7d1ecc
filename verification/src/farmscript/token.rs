//! Tokens of the FarmScript language.

use vstd::prelude::*;
use crate::text::{ascii_lower, ascii_lower_seq, chars_eq_str, lower_char, push_chars, push_str, str_chars, string_from_chars};

verus! {

/// Span in source code: byte offsets of the first character and of the
/// position just past the last one.
#[derive(Debug, Clone, Copy, PartialEq, Eq, Structural)]
pub struct Span {
    pub start: usize,
    pub end: usize,
}

impl Span {
    pub fn new(start: usize, end: usize) -> (s: Span)
        ensures
            s.start == start,
            s.end == end,
    {
        Span { start, end }
    }

    /// The smallest span covering both spans.
    pub fn merge(self, other: Span) -> (s: Span)
        ensures
            s.start == (if self.start <= other.start { self.start } else { other.start }),
            s.end == (if self.end >= other.end { self.end } else { other.end }),
    {
        Span {
            start: if self.start <= other.start { self.start } else { other.start },
            end: if self.end >= other.end { self.end } else { other.end },
        }
    }
}

/// Part of a template string
#[derive(Debug, Clone, PartialEq)]
pub enum TemplatePart {
    Literal(String),
    /// The expression text between `{` and `}`, trimmed.
    Expr(String),
}

/// Mathematical model of a [`TemplatePart`].
pub enum SpecTemplatePart {
    Literal(Seq<char>),
    Expr(Seq<char>),
}

impl View for TemplatePart {
    type V = SpecTemplatePart;

    open spec fn view(&self) -> SpecTemplatePart {
        match self {
            TemplatePart::Literal(s) => SpecTemplatePart::Literal(s@),
            TemplatePart::Expr(s) => SpecTemplatePart::Expr(s@),
        }
    }
}

pub open spec fn parts_view(v: Seq<TemplatePart>) -> Seq<SpecTemplatePart> {
    v.map_values(|p: TemplatePart| p@)
}

/// Token kinds
#[derive(Debug, Clone, PartialEq)]
pub enum TokenKind {
    Integer(i64),
    /// A floating-point literal, held as the decimal text it was written
    /// with (digit separators removed), e.g. `2.5e-3`.
    Float(String),
    String(String),
    TemplateString(Vec<TemplatePart>),
    Bool(bool),
    Null,
    /// Identifier (includes /path/style variables)
    Ident(String),
    Plus,
    Minus,
    Star,
    Slash,
    Percent,
    Caret,
    SlashQuestion,
    SlashBang,
    Assign,
    EqEq,
    EqEqEq,
    NotEq,
    NotEqEq,
    LtGt,
    Lt,
    Gt,
    LtEq,
    GtEq,
    And,
    Or,
    Not,
    Question,
    QuestionQuestion,
    Arrow,
    LParen,
    RParen,
    LBracket,
    RBracket,
    LBrace,
    RBrace,
    Comma,
    Dot,
    Colon,
    Semicolon,
    If,
    Then,
    Else,
    Let,
    In,
    True,
    False,
    Is,
    Isnt,
    IsNot,
    Eq,
    Equals,
    SameAs,
    NotEqKw,
    From,
    Where,
    Select,
    MapKw,
    Filter,
    Reduce,
    All,
    SomeKw,
    NoneKw,
    Merge,
    Missing,
    MissingSome,
    Log,
    Contains,
    Eof,
    Error(String),
}

/// Mathematical model of a [`TokenKind`].
pub enum SpecTokenKind {
    Integer(i64),
    Float(Seq<char>),
    String(Seq<char>),
    TemplateString(Seq<SpecTemplatePart>),
    Bool(bool),
    Null,
    Ident(Seq<char>),
    Plus,
    Minus,
    Star,
    Slash,
    Percent,
    Caret,
    SlashQuestion,
    SlashBang,
    Assign,
    EqEq,
    EqEqEq,
    NotEq,
    NotEqEq,
    LtGt,
    Lt,
    Gt,
    LtEq,
    GtEq,
    And,
    Or,
    Not,
    Question,
    QuestionQuestion,
    Arrow,
    LParen,
    RParen,
    LBracket,
    RBracket,
    LBrace,
    RBrace,
    Comma,
    Dot,
    Colon,
    Semicolon,
    If,
    Then,
    Else,
    Let,
    In,
    True,
    False,
    Is,
    Isnt,
    IsNot,
    Eq,
    Equals,
    SameAs,
    NotEqKw,
    From,
    Where,
    Select,
    MapKw,
    Filter,
    Reduce,
    All,
    SomeKw,
    NoneKw,
    Merge,
    Missing,
    MissingSome,
    Log,
    Contains,
    Eof,
    Error(Seq<char>),
}

impl View for TokenKind {
    type V = SpecTokenKind;

    open spec fn view(&self) -> SpecTokenKind {
        match self {
            TokenKind::Integer(n) => SpecTokenKind::Integer(*n),
            TokenKind::Float(s) => SpecTokenKind::Float(s@),
            TokenKind::String(s) => SpecTokenKind::String(s@),
            TokenKind::TemplateString(p) => SpecTokenKind::TemplateString(parts_view(p@)),
            TokenKind::Bool(b) => SpecTokenKind::Bool(*b),
            TokenKind::Null => SpecTokenKind::Null,
            TokenKind::Ident(s) => SpecTokenKind::Ident(s@),
            TokenKind::Plus => SpecTokenKind::Plus,
            TokenKind::Minus => SpecTokenKind::Minus,
            TokenKind::Star => SpecTokenKind::Star,
            TokenKind::Slash => SpecTokenKind::Slash,
            TokenKind::Percent => SpecTokenKind::Percent,
            TokenKind::Caret => SpecTokenKind::Caret,
            TokenKind::SlashQuestion => SpecTokenKind::SlashQuestion,
            TokenKind::SlashBang => SpecTokenKind::SlashBang,
            TokenKind::Assign => SpecTokenKind::Assign,
            TokenKind::EqEq => SpecTokenKind::EqEq,
            TokenKind::EqEqEq => SpecTokenKind::EqEqEq,
            TokenKind::NotEq => SpecTokenKind::NotEq,
            TokenKind::NotEqEq => SpecTokenKind::NotEqEq,
            TokenKind::LtGt => SpecTokenKind::LtGt,
            TokenKind::Lt => SpecTokenKind::Lt,
            TokenKind::Gt => SpecTokenKind::Gt,
            TokenKind::LtEq => SpecTokenKind::LtEq,
            TokenKind::GtEq => SpecTokenKind::GtEq,
            TokenKind::And => SpecTokenKind::And,
            TokenKind::Or => SpecTokenKind::Or,
            TokenKind::Not => SpecTokenKind::Not,
            TokenKind::Question => SpecTokenKind::Question,
            TokenKind::QuestionQuestion => SpecTokenKind::QuestionQuestion,
            TokenKind::Arrow => SpecTokenKind::Arrow,
            TokenKind::LParen => SpecTokenKind::LParen,
            TokenKind::RParen => SpecTokenKind::RParen,
            TokenKind::LBracket => SpecTokenKind::LBracket,
            TokenKind::RBracket => SpecTokenKind::RBracket,
            TokenKind::LBrace => SpecTokenKind::LBrace,
            TokenKind::RBrace => SpecTokenKind::RBrace,
            TokenKind::Comma => SpecTokenKind::Comma,
            TokenKind::Dot => SpecTokenKind::Dot,
            TokenKind::Colon => SpecTokenKind::Colon,
            TokenKind::Semicolon => SpecTokenKind::Semicolon,
            TokenKind::If => SpecTokenKind::If,
            TokenKind::Then => SpecTokenKind::Then,
            TokenKind::Else => SpecTokenKind::Else,
            TokenKind::Let => SpecTokenKind::Let,
            TokenKind::In => SpecTokenKind::In,
            TokenKind::True => SpecTokenKind::True,
            TokenKind::False => SpecTokenKind::False,
            TokenKind::Is => SpecTokenKind::Is,
            TokenKind::Isnt => SpecTokenKind::Isnt,
            TokenKind::IsNot => SpecTokenKind::IsNot,
            TokenKind::Eq => SpecTokenKind::Eq,
            TokenKind::Equals => SpecTokenKind::Equals,
            TokenKind::SameAs => SpecTokenKind::SameAs,
            TokenKind::NotEqKw => SpecTokenKind::NotEqKw,
            TokenKind::From => SpecTokenKind::From,
            TokenKind::Where => SpecTokenKind::Where,
            TokenKind::Select => SpecTokenKind::Select,
            TokenKind::MapKw => SpecTokenKind::MapKw,
            TokenKind::Filter => SpecTokenKind::Filter,
            TokenKind::Reduce => SpecTokenKind::Reduce,
            TokenKind::All => SpecTokenKind::All,
            TokenKind::SomeKw => SpecTokenKind::SomeKw,
            TokenKind::NoneKw => SpecTokenKind::NoneKw,
            TokenKind::Merge => SpecTokenKind::Merge,
            TokenKind::Missing => SpecTokenKind::Missing,
            TokenKind::MissingSome => SpecTokenKind::MissingSome,
            TokenKind::Log => SpecTokenKind::Log,
            TokenKind::Contains => SpecTokenKind::Contains,
            TokenKind::Eof => SpecTokenKind::Eof,
            TokenKind::Error(s) => SpecTokenKind::Error(s@),
        }
    }
}

/// Token with kind and position
#[derive(Debug, Clone, PartialEq)]
pub struct Token {
    pub kind: TokenKind,
    pub span: Span,
    pub lexeme: String,
}

/// Mathematical model of a [`Token`].
pub struct SpecToken {
    pub kind: SpecTokenKind,
    pub span: Span,
    pub lexeme: Seq<char>,
}

impl View for Token {
    type V = SpecToken;

    open spec fn view(&self) -> SpecToken {
        SpecToken { kind: self.kind@, span: self.span, lexeme: self.lexeme@ }
    }
}

pub open spec fn tokens_view(v: Seq<Token>) -> Seq<SpecToken> {
    v.map_values(|t: Token| t@)
}

impl Token {
    pub fn new(kind: TokenKind, span: Span, lexeme: String) -> (t: Token)
        ensures
            t.kind == kind,
            t.span == span,
            t.lexeme == lexeme,
    {
        Token { kind, span, lexeme }
    }

    /// A copy of this token.
    pub fn duplicate(&self) -> (t: Token)
        ensures
            t@ == self@,
    {
        Token { kind: self.kind.duplicate(), span: self.span, lexeme: self.lexeme.clone() }
    }
}

impl TemplatePart {
    pub fn duplicate(&self) -> (p: TemplatePart)
        ensures
            p@ == self@,
    {
        match self {
            TemplatePart::Literal(s) => TemplatePart::Literal(s.clone()),
            TemplatePart::Expr(s) => TemplatePart::Expr(s.clone()),
        }
    }
}

pub fn duplicate_parts(v: &Vec<TemplatePart>) -> (r: Vec<TemplatePart>)
    ensures
        parts_view(r@) == parts_view(v@),
{
    let mut r: Vec<TemplatePart> = Vec::new();
    let mut i: usize = 0;
    while i < v.len()
        invariant
            0 <= i <= v@.len(),
            r@.len() == i,
            forall|k: int| 0 <= k < i ==> (#[trigger] r@[k])@ == v@[k]@,
        decreases v@.len() - i,
    {
        r.push(v[i].duplicate());
        i = i + 1;
    }
    assert(parts_view(r@) =~= parts_view(v@));
    r
}

/// Keyword recognised for an identifier: the match ignores ASCII case.
/// (The only non-ASCII character that Unicode lower-cases into an ASCII
/// letter is the Kelvin sign, whose image `k` occurs in no keyword, so a
/// full Unicode lower-casing would recognise exactly the same words.)
pub open spec fn spec_keyword(s: Seq<char>) -> Option<SpecTokenKind> {
    let l = ascii_lower_seq(s);
    if l == "if"@ {
        Option::Some(SpecTokenKind::If)
    }     else if l == "then"@ {
        Option::Some(SpecTokenKind::Then)
    }     else if l == "else"@ {
        Option::Some(SpecTokenKind::Else)
    }     else if l == "let"@ {
        Option::Some(SpecTokenKind::Let)
    }     else if l == "in"@ {
        Option::Some(SpecTokenKind::In)
    }     else if l == "true"@ {
        Option::Some(SpecTokenKind::True)
    }     else if l == "false"@ {
        Option::Some(SpecTokenKind::False)
    }     else if l == "null"@ {
        Option::Some(SpecTokenKind::Null)
    }     else if l == "nil"@ {
        Option::Some(SpecTokenKind::Null)
    }     else if l == "none"@ {
        Option::Some(SpecTokenKind::Null)
    }     else if l == "and"@ {
        Option::Some(SpecTokenKind::And)
    }     else if l == "or"@ {
        Option::Some(SpecTokenKind::Or)
    }     else if l == "not"@ {
        Option::Some(SpecTokenKind::Not)
    }     else if l == "is"@ {
        Option::Some(SpecTokenKind::Is)
    }     else if l == "isnt"@ {
        Option::Some(SpecTokenKind::Isnt)
    }     else if l == "is_not"@ {
        Option::Some(SpecTokenKind::IsNot)
    }     else if l == "eq"@ {
        Option::Some(SpecTokenKind::Eq)
    }     else if l == "equals"@ {
        Option::Some(SpecTokenKind::Equals)
    }     else if l == "same_as"@ {
        Option::Some(SpecTokenKind::SameAs)
    }     else if l == "not_eq"@ {
        Option::Some(SpecTokenKind::NotEqKw)
    }     else if l == "from"@ {
        Option::Some(SpecTokenKind::From)
    }     else if l == "where"@ {
        Option::Some(SpecTokenKind::Where)
    }     else if l == "select"@ {
        Option::Some(SpecTokenKind::Select)
    }     else if l == "map"@ {
        Option::Some(SpecTokenKind::MapKw)
    }     else if l == "filter"@ {
        Option::Some(SpecTokenKind::Filter)
    }     else if l == "reduce"@ {
        Option::Some(SpecTokenKind::Reduce)
    }     else if l == "all"@ {
        Option::Some(SpecTokenKind::All)
    }     else if l == "some"@ {
        Option::Some(SpecTokenKind::SomeKw)
    }     else if l == "merge"@ {
        Option::Some(SpecTokenKind::Merge)
    }     else if l == "missing"@ {
        Option::Some(SpecTokenKind::Missing)
    }     else if l == "missing_some"@ {
        Option::Some(SpecTokenKind::MissingSome)
    }     else if l == "contains"@ {
        Option::Some(SpecTokenKind::Contains)
    }     else if l == "log"@ {
        Option::Some(SpecTokenKind::Log)
    } else {
        Option::None
    }
}

pub open spec fn spec_is_equality(k: SpecTokenKind) -> bool {
    match k {
        SpecTokenKind::EqEq | SpecTokenKind::EqEqEq | SpecTokenKind::Is | SpecTokenKind::Eq
        | SpecTokenKind::Equals | SpecTokenKind::SameAs => true,
        _ => false,
    }
}

pub open spec fn spec_is_inequality(k: SpecTokenKind) -> bool {
    match k {
        SpecTokenKind::NotEq | SpecTokenKind::NotEqEq | SpecTokenKind::LtGt | SpecTokenKind::Isnt
        | SpecTokenKind::IsNot | SpecTokenKind::NotEqKw => true,
        _ => false,
    }
}

pub open spec fn spec_is_comparison(k: SpecTokenKind) -> bool {
    spec_is_equality(k) || spec_is_inequality(k) || match k {
        SpecTokenKind::Lt | SpecTokenKind::Gt | SpecTokenKind::LtEq | SpecTokenKind::GtEq => true,
        _ => false,
    }
}

pub open spec fn spec_is_arithmetic(k: SpecTokenKind) -> bool {
    match k {
        SpecTokenKind::Plus | SpecTokenKind::Minus | SpecTokenKind::Star | SpecTokenKind::Slash
        | SpecTokenKind::Percent | SpecTokenKind::Caret | SpecTokenKind::SlashQuestion
        | SpecTokenKind::SlashBang => true,
        _ => false,
    }
}

pub open spec fn spec_is_logical(k: SpecTokenKind) -> bool {
    match k {
        SpecTokenKind::And | SpecTokenKind::Or | SpecTokenKind::Not => true,
        _ => false,
    }
}

/// Decimal digits of a natural number.
pub open spec fn decimal_nat(n: nat) -> Seq<char>
    decreases n,
{
    if n < 10 {
        seq![(('0' as u32) + n) as char]
    } else {
        decimal_nat(n / 10) + seq![(('0' as u32) + (n % 10)) as char]
    }
}

/// Decimal text of an integer, with a leading `-` when negative.
pub open spec fn decimal_int(n: int) -> Seq<char> {
    if n < 0 {
        seq!['-'] + decimal_nat((-n) as nat)
    } else {
        decimal_nat(n as nat)
    }
}

/// How a token kind is printed (its `Display` text).
pub open spec fn spec_kind_text(k: SpecTokenKind) -> Seq<char> {
    match k {
        SpecTokenKind::Integer(n) => decimal_int(n as int),
        SpecTokenKind::Float(s) => s,
        SpecTokenKind::String(s) => seq!['"'] + s + seq!['"'],
        SpecTokenKind::TemplateString(_) => "<template>"@,
        SpecTokenKind::Bool(b) => if b { "true"@ } else { "false"@ },
        SpecTokenKind::Null => "null"@,
        SpecTokenKind::Ident(s) => s,
        SpecTokenKind::Plus => "+"@,
        SpecTokenKind::Minus => "-"@,
        SpecTokenKind::Star => "*"@,
        SpecTokenKind::Slash => "/"@,
        SpecTokenKind::Percent => "%"@,
        SpecTokenKind::Caret => "^"@,
        SpecTokenKind::SlashQuestion => "/?"@,
        SpecTokenKind::SlashBang => "/!"@,
        SpecTokenKind::Assign => "="@,
        SpecTokenKind::EqEq => "=="@,
        SpecTokenKind::EqEqEq => "==="@,
        SpecTokenKind::NotEq => "!="@,
        SpecTokenKind::NotEqEq => "!=="@,
        SpecTokenKind::LtGt => "<>"@,
        SpecTokenKind::Lt => "<"@,
        SpecTokenKind::Gt => ">"@,
        SpecTokenKind::LtEq => "<="@,
        SpecTokenKind::GtEq => ">="@,
        SpecTokenKind::And => "and"@,
        SpecTokenKind::Or => "or"@,
        SpecTokenKind::Not => "not"@,
        SpecTokenKind::Question => "?"@,
        SpecTokenKind::QuestionQuestion => "??"@,
        SpecTokenKind::Arrow => "=>"@,
        SpecTokenKind::LParen => "("@,
        SpecTokenKind::RParen => ")"@,
        SpecTokenKind::LBracket => "["@,
        SpecTokenKind::RBracket => "]"@,
        SpecTokenKind::LBrace => "{"@,
        SpecTokenKind::RBrace => "}"@,
        SpecTokenKind::Comma => ","@,
        SpecTokenKind::Dot => "."@,
        SpecTokenKind::Colon => ":"@,
        SpecTokenKind::Semicolon => ";"@,
        SpecTokenKind::If => "if"@,
        SpecTokenKind::Then => "then"@,
        SpecTokenKind::Else => "else"@,
        SpecTokenKind::Let => "let"@,
        SpecTokenKind::In => "in"@,
        SpecTokenKind::True => "true"@,
        SpecTokenKind::False => "false"@,
        SpecTokenKind::Is => "is"@,
        SpecTokenKind::Isnt => "isnt"@,
        SpecTokenKind::IsNot => "is_not"@,
        SpecTokenKind::Eq => "eq"@,
        SpecTokenKind::Equals => "equals"@,
        SpecTokenKind::SameAs => "same_as"@,
        SpecTokenKind::NotEqKw => "not_eq"@,
        SpecTokenKind::From => "from"@,
        SpecTokenKind::Where => "where"@,
        SpecTokenKind::Select => "select"@,
        SpecTokenKind::MapKw => "map"@,
        SpecTokenKind::Filter => "filter"@,
        SpecTokenKind::Reduce => "reduce"@,
        SpecTokenKind::All => "all"@,
        SpecTokenKind::SomeKw => "some"@,
        SpecTokenKind::NoneKw => "none"@,
        SpecTokenKind::Merge => "merge"@,
        SpecTokenKind::Missing => "missing"@,
        SpecTokenKind::MissingSome => "missing_some"@,
        SpecTokenKind::Log => "log"@,
        SpecTokenKind::Contains => "contains"@,
        SpecTokenKind::Eof => "EOF"@,
        SpecTokenKind::Error(e) => "Error: "@ + e,
    }
}

/// Decimal digits of `n`.
pub fn nat_to_chars(n: u64) -> (r: Vec<char>)
    ensures
        r@ == decimal_nat(n as nat),
    decreases n,
{
    if n < 10 {
        let mut r: Vec<char> = Vec::new();
        r.push(digit_char(n as u8));
        r
    } else {
        let mut r = nat_to_chars(n / 10);
        r.push(digit_char((n % 10) as u8));
        r
    }
}

fn digit_char(d: u8) -> (c: char)
    requires
        d < 10,
    ensures
        c == (('0' as u32) + d) as char,
{
    let b: u8 = 48 + d;
    b as char
}

/// Decimal text of `n`.
pub fn int_to_chars(n: i64) -> (r: Vec<char>)
    ensures
        r@ == decimal_int(n as int),
{
    if n < 0 {
        let m: u64 = if n == i64::MIN { 9223372036854775808u64 } else { (-n) as u64 };
        let mut r: Vec<char> = Vec::new();
        r.push('-');
        let d = nat_to_chars(m);
        push_chars(&mut r, d.as_slice());
        r
    } else {
        nat_to_chars(n as u64)
    }
}

impl TokenKind {
    /// A copy of this kind.
    pub fn duplicate(&self) -> (k: TokenKind)
        ensures
            k@ == self@,
    {
        match self {
            TokenKind::Integer(n) => TokenKind::Integer(*n),
            TokenKind::Float(s) => TokenKind::Float(s.clone()),
            TokenKind::String(s) => TokenKind::String(s.clone()),
            TokenKind::TemplateString(p) => TokenKind::TemplateString(duplicate_parts(p)),
            TokenKind::Bool(b) => TokenKind::Bool(*b),
            TokenKind::Null => TokenKind::Null,
            TokenKind::Ident(s) => TokenKind::Ident(s.clone()),
            TokenKind::Plus => TokenKind::Plus,
            TokenKind::Minus => TokenKind::Minus,
            TokenKind::Star => TokenKind::Star,
            TokenKind::Slash => TokenKind::Slash,
            TokenKind::Percent => TokenKind::Percent,
            TokenKind::Caret => TokenKind::Caret,
            TokenKind::SlashQuestion => TokenKind::SlashQuestion,
            TokenKind::SlashBang => TokenKind::SlashBang,
            TokenKind::Assign => TokenKind::Assign,
            TokenKind::EqEq => TokenKind::EqEq,
            TokenKind::EqEqEq => TokenKind::EqEqEq,
            TokenKind::NotEq => TokenKind::NotEq,
            TokenKind::NotEqEq => TokenKind::NotEqEq,
            TokenKind::LtGt => TokenKind::LtGt,
            TokenKind::Lt => TokenKind::Lt,
            TokenKind::Gt => TokenKind::Gt,
            TokenKind::LtEq => TokenKind::LtEq,
            TokenKind::GtEq => TokenKind::GtEq,
            TokenKind::And => TokenKind::And,
            TokenKind::Or => TokenKind::Or,
            TokenKind::Not => TokenKind::Not,
            TokenKind::Question => TokenKind::Question,
            TokenKind::QuestionQuestion => TokenKind::QuestionQuestion,
            TokenKind::Arrow => TokenKind::Arrow,
            TokenKind::LParen => TokenKind::LParen,
            TokenKind::RParen => TokenKind::RParen,
            TokenKind::LBracket => TokenKind::LBracket,
            TokenKind::RBracket => TokenKind::RBracket,
            TokenKind::LBrace => TokenKind::LBrace,
            TokenKind::RBrace => TokenKind::RBrace,
            TokenKind::Comma => TokenKind::Comma,
            TokenKind::Dot => TokenKind::Dot,
            TokenKind::Colon => TokenKind::Colon,
            TokenKind::Semicolon => TokenKind::Semicolon,
            TokenKind::If => TokenKind::If,
            TokenKind::Then => TokenKind::Then,
            TokenKind::Else => TokenKind::Else,
            TokenKind::Let => TokenKind::Let,
            TokenKind::In => TokenKind::In,
            TokenKind::True => TokenKind::True,
            TokenKind::False => TokenKind::False,
            TokenKind::Is => TokenKind::Is,
            TokenKind::Isnt => TokenKind::Isnt,
            TokenKind::IsNot => TokenKind::IsNot,
            TokenKind::Eq => TokenKind::Eq,
            TokenKind::Equals => TokenKind::Equals,
            TokenKind::SameAs => TokenKind::SameAs,
            TokenKind::NotEqKw => TokenKind::NotEqKw,
            TokenKind::From => TokenKind::From,
            TokenKind::Where => TokenKind::Where,
            TokenKind::Select => TokenKind::Select,
            TokenKind::MapKw => TokenKind::MapKw,
            TokenKind::Filter => TokenKind::Filter,
            TokenKind::Reduce => TokenKind::Reduce,
            TokenKind::All => TokenKind::All,
            TokenKind::SomeKw => TokenKind::SomeKw,
            TokenKind::NoneKw => TokenKind::NoneKw,
            TokenKind::Merge => TokenKind::Merge,
            TokenKind::Missing => TokenKind::Missing,
            TokenKind::MissingSome => TokenKind::MissingSome,
            TokenKind::Log => TokenKind::Log,
            TokenKind::Contains => TokenKind::Contains,
            TokenKind::Eof => TokenKind::Eof,
            TokenKind::Error(s) => TokenKind::Error(s.clone()),
        }
    }

    /// Try to match a keyword from an identifier
    pub fn from_keyword(s: &str) -> (r: Option<TokenKind>)
        ensures
            match r {
                Option::Some(k) => spec_keyword(s@) == Option::Some(k@),
                Option::None => spec_keyword(s@).is_none(),
            },
    {
        let cs = str_chars(s);
        Self::keyword_of_chars(cs.as_slice())
    }

    /// Keyword spelled by the characters `s`, if any.
    pub fn keyword_of_chars(s: &[char]) -> (r: Option<TokenKind>)
        ensures
            match r {
                Option::Some(k) => spec_keyword(s@) == Option::Some(k@),
                Option::None => spec_keyword(s@).is_none(),
            },
    {
        let mut l: Vec<char> = Vec::new();
        let mut i: usize = 0;
        while i < s.len()
            invariant
                0 <= i <= s@.len(),
                l@ == ascii_lower_seq(s@.subrange(0, i as int)),
            decreases s@.len() - i,
        {
            l.push(lower_char(s[i]));
            i = i + 1;
            assert(ascii_lower_seq(s@.subrange(0, i as int)) =~= ascii_lower_seq(
                s@.subrange(0, i - 1),
            ).push(ascii_lower(s@[i - 1])));
        }
        assert(s@.subrange(0, s@.len() as int) =~= s@);
        let l = l.as_slice();
        if chars_eq_str(l, "if") {
            Option::Some(TokenKind::If)
        }         else if chars_eq_str(l, "then") {
            Option::Some(TokenKind::Then)
        }         else if chars_eq_str(l, "else") {
            Option::Some(TokenKind::Else)
        }         else if chars_eq_str(l, "let") {
            Option::Some(TokenKind::Let)
        }         else if chars_eq_str(l, "in") {
            Option::Some(TokenKind::In)
        }         else if chars_eq_str(l, "true") {
            Option::Some(TokenKind::True)
        }         else if chars_eq_str(l, "false") {
            Option::Some(TokenKind::False)
        }         else if chars_eq_str(l, "null") {
            Option::Some(TokenKind::Null)
        }         else if chars_eq_str(l, "nil") {
            Option::Some(TokenKind::Null)
        }         else if chars_eq_str(l, "none") {
            Option::Some(TokenKind::Null)
        }         else if chars_eq_str(l, "and") {
            Option::Some(TokenKind::And)
        }         else if chars_eq_str(l, "or") {
            Option::Some(TokenKind::Or)
        }         else if chars_eq_str(l, "not") {
            Option::Some(TokenKind::Not)
        }         else if chars_eq_str(l, "is") {
            Option::Some(TokenKind::Is)
        }         else if chars_eq_str(l, "isnt") {
            Option::Some(TokenKind::Isnt)
        }         else if chars_eq_str(l, "is_not") {
            Option::Some(TokenKind::IsNot)
        }         else if chars_eq_str(l, "eq") {
            Option::Some(TokenKind::Eq)
        }         else if chars_eq_str(l, "equals") {
            Option::Some(TokenKind::Equals)
        }         else if chars_eq_str(l, "same_as") {
            Option::Some(TokenKind::SameAs)
        }         else if chars_eq_str(l, "not_eq") {
            Option::Some(TokenKind::NotEqKw)
        }         else if chars_eq_str(l, "from") {
            Option::Some(TokenKind::From)
        }         else if chars_eq_str(l, "where") {
            Option::Some(TokenKind::Where)
        }         else if chars_eq_str(l, "select") {
            Option::Some(TokenKind::Select)
        }         else if chars_eq_str(l, "map") {
            Option::Some(TokenKind::MapKw)
        }         else if chars_eq_str(l, "filter") {
            Option::Some(TokenKind::Filter)
        }         else if chars_eq_str(l, "reduce") {
            Option::Some(TokenKind::Reduce)
        }         else if chars_eq_str(l, "all") {
            Option::Some(TokenKind::All)
        }         else if chars_eq_str(l, "some") {
            Option::Some(TokenKind::SomeKw)
        }         else if chars_eq_str(l, "merge") {
            Option::Some(TokenKind::Merge)
        }         else if chars_eq_str(l, "missing") {
            Option::Some(TokenKind::Missing)
        }         else if chars_eq_str(l, "missing_some") {
            Option::Some(TokenKind::MissingSome)
        }         else if chars_eq_str(l, "contains") {
            Option::Some(TokenKind::Contains)
        }         else if chars_eq_str(l, "log") {
            Option::Some(TokenKind::Log)
        } else {
            Option::None
        }
    }

    /// Check if this token is an equality operator (including synonyms)
    pub fn is_equality(&self) -> (r: bool)
        ensures
            r == spec_is_equality(self@),
    {
        match self {
            TokenKind::EqEq | TokenKind::EqEqEq | TokenKind::Is | TokenKind::Eq
            | TokenKind::Equals | TokenKind::SameAs => true,
            _ => false,
        }
    }

    /// Check if this token is an inequality operator (including synonyms)
    pub fn is_inequality(&self) -> (r: bool)
        ensures
            r == spec_is_inequality(self@),
    {
        match self {
            TokenKind::NotEq | TokenKind::NotEqEq | TokenKind::LtGt | TokenKind::Isnt
            | TokenKind::IsNot | TokenKind::NotEqKw => true,
            _ => false,
        }
    }

    /// Check if this is a comparison operator
    pub fn is_comparison(&self) -> (r: bool)
        ensures
            r == spec_is_comparison(self@),
    {
        self.is_equality() || self.is_inequality() || match self {
            TokenKind::Lt | TokenKind::Gt | TokenKind::LtEq | TokenKind::GtEq => true,
            _ => false,
        }
    }

    /// Check if this is an arithmetic operator
    pub fn is_arithmetic(&self) -> (r: bool)
        ensures
            r == spec_is_arithmetic(self@),
    {
        match self {
            TokenKind::Plus | TokenKind::Minus | TokenKind::Star | TokenKind::Slash
            | TokenKind::Percent | TokenKind::Caret | TokenKind::SlashQuestion
            | TokenKind::SlashBang => true,
            _ => false,
        }
    }

    /// Check if this is a logical operator
    pub fn is_logical(&self) -> (r: bool)
        ensures
            r == spec_is_logical(self@),
    {
        match self {
            TokenKind::And | TokenKind::Or | TokenKind::Not => true,
            _ => false,
        }
    }

    /// The text this kind is printed as.
    pub fn text_chars(&self) -> (r: Vec<char>)
        ensures
            r@ == spec_kind_text(self@),
    {
        let mut r: Vec<char> = Vec::new();
        match self {
            TokenKind::Integer(n) => {
                return int_to_chars(*n);
            },
            TokenKind::Float(s) => {
                push_str(&mut r, s.as_str());
            },
            TokenKind::String(s) => {
                r.push('"');
                push_str(&mut r, s.as_str());
                r.push('"');
            },
            TokenKind::TemplateString(_) => {
                push_str(&mut r, "<template>");
            },
            TokenKind::Bool(b) => {
                if *b {
                    push_str(&mut r, "true");
                } else {
                    push_str(&mut r, "false");
                }
            },
            TokenKind::Null => {
                push_str(&mut r, "null");
            },
            TokenKind::Ident(s) => {
                push_str(&mut r, s.as_str());
            },
            TokenKind::Plus => {
                push_str(&mut r, "+");
            },
            TokenKind::Minus => {
                push_str(&mut r, "-");
            },
            TokenKind::Star => {
                push_str(&mut r, "*");
            },
            TokenKind::Slash => {
                push_str(&mut r, "/");
            },
            TokenKind::Percent => {
                push_str(&mut r, "%");
            },
            TokenKind::Caret => {
                push_str(&mut r, "^");
            },
            TokenKind::SlashQuestion => {
                push_str(&mut r, "/?");
            },
            TokenKind::SlashBang => {
                push_str(&mut r, "/!");
            },
            TokenKind::Assign => {
                push_str(&mut r, "=");
            },
            TokenKind::EqEq => {
                push_str(&mut r, "==");
            },
            TokenKind::EqEqEq => {
                push_str(&mut r, "===");
            },
            TokenKind::NotEq => {
                push_str(&mut r, "!=");
            },
            TokenKind::NotEqEq => {
                push_str(&mut r, "!==");
            },
            TokenKind::LtGt => {
                push_str(&mut r, "<>");
            },
            TokenKind::Lt => {
                push_str(&mut r, "<");
            },
            TokenKind::Gt => {
                push_str(&mut r, ">");
            },
            TokenKind::LtEq => {
                push_str(&mut r, "<=");
            },
            TokenKind::GtEq => {
                push_str(&mut r, ">=");
            },
            TokenKind::And => {
                push_str(&mut r, "and");
            },
            TokenKind::Or => {
                push_str(&mut r, "or");
            },
            TokenKind::Not => {
                push_str(&mut r, "not");
            },
            TokenKind::Question => {
                push_str(&mut r, "?");
            },
            TokenKind::QuestionQuestion => {
                push_str(&mut r, "??");
            },
            TokenKind::Arrow => {
                push_str(&mut r, "=>");
            },
            TokenKind::LParen => {
                push_str(&mut r, "(");
            },
            TokenKind::RParen => {
                push_str(&mut r, ")");
            },
            TokenKind::LBracket => {
                push_str(&mut r, "[");
            },
            TokenKind::RBracket => {
                push_str(&mut r, "]");
            },
            TokenKind::LBrace => {
                push_str(&mut r, "{");
            },
            TokenKind::RBrace => {
                push_str(&mut r, "}");
            },
            TokenKind::Comma => {
                push_str(&mut r, ",");
            },
            TokenKind::Dot => {
                push_str(&mut r, ".");
            },
            TokenKind::Colon => {
                push_str(&mut r, ":");
            },
            TokenKind::Semicolon => {
                push_str(&mut r, ";");
            },
            TokenKind::If => {
                push_str(&mut r, "if");
            },
            TokenKind::Then => {
                push_str(&mut r, "then");
            },
            TokenKind::Else => {
                push_str(&mut r, "else");
            },
            TokenKind::Let => {
                push_str(&mut r, "let");
            },
            TokenKind::In => {
                push_str(&mut r, "in");
            },
            TokenKind::True => {
                push_str(&mut r, "true");
            },
            TokenKind::False => {
                push_str(&mut r, "false");
            },
            TokenKind::Is => {
                push_str(&mut r, "is");
            },
            TokenKind::Isnt => {
                push_str(&mut r, "isnt");
            },
            TokenKind::IsNot => {
                push_str(&mut r, "is_not");
            },
            TokenKind::Eq => {
                push_str(&mut r, "eq");
            },
            TokenKind::Equals => {
                push_str(&mut r, "equals");
            },
            TokenKind::SameAs => {
                push_str(&mut r, "same_as");
            },
            TokenKind::NotEqKw => {
                push_str(&mut r, "not_eq");
            },
            TokenKind::From => {
                push_str(&mut r, "from");
            },
            TokenKind::Where => {
                push_str(&mut r, "where");
            },
            TokenKind::Select => {
                push_str(&mut r, "select");
            },
            TokenKind::MapKw => {
                push_str(&mut r, "map");
            },
            TokenKind::Filter => {
                push_str(&mut r, "filter");
            },
            TokenKind::Reduce => {
                push_str(&mut r, "reduce");
            },
            TokenKind::All => {
                push_str(&mut r, "all");
            },
            TokenKind::SomeKw => {
                push_str(&mut r, "some");
            },
            TokenKind::NoneKw => {
                push_str(&mut r, "none");
            },
            TokenKind::Merge => {
                push_str(&mut r, "merge");
            },
            TokenKind::Missing => {
                push_str(&mut r, "missing");
            },
            TokenKind::MissingSome => {
                push_str(&mut r, "missing_some");
            },
            TokenKind::Log => {
                push_str(&mut r, "log");
            },
            TokenKind::Contains => {
                push_str(&mut r, "contains");
            },
            TokenKind::Eof => {
                push_str(&mut r, "EOF");
            },
            TokenKind::Error(e) => {
                push_str(&mut r, "Error: ");
                push_str(&mut r, e.as_str());
            },
        }
        r
    }

    /// The text this kind is printed as (its `Display` text).
    pub fn to_text(&self) -> (r: String)
        ensures
            r@ == spec_kind_text(self@),
    {
        let v = self.text_chars();
        string_from_chars(v.as_slice())
    }
}

} // verus!
