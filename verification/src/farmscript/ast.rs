//! Abstract Syntax Tree for FarmScript
//!
//! Represents the parsed structure of FarmScript expressions.  Every type
//! has a mathematical model (`Spec*`) with sequences of characters in place
//! of strings; the parser and the compiler are specified over the models.

use vstd::prelude::*;
use crate::farmscript::token::Span;
use crate::text::{push_chars, push_str, str_chars, string_from_chars};

verus! {

/// A FarmScript expression
#[derive(Debug, PartialEq)]
pub enum Expr {
    Literal(Literal),
    Var(VarExpr),
    Binary(Box<BinaryExpr>),
    Unary(Box<UnaryExpr>),
    /// Postfix operations (x?)
    Postfix(Box<PostfixExpr>),
    /// Conditional: if cond then a else b
    If(Box<IfExpr>),
    /// Let binding: let x = expr in body
    Let(Box<LetExpr>),
    /// Function call: fn(args...)
    Call(Box<CallExpr>),
    /// Method call: obj.method(args...)
    MethodCall(Box<MethodCallExpr>),
    /// Property access: obj.prop
    Property(Box<PropertyExpr>),
    /// Index access: arr[idx]
    Index(Box<IndexExpr>),
    /// Array literal: [a, b, c]
    Array(Vec<Expr>),
    /// Lambda: x => expr or (x, y) => expr
    Lambda(Box<LambdaExpr>),
    /// SQL-like query: from items where cond select expr
    Query(Box<QueryExpr>),
    /// Template string: `Hello {name}!`
    Template(Vec<TemplateExpr>),
    /// Null coalescing: a ?? b
    NullCoalesce(Box<Expr>, Box<Expr>),
}

/// A literal value
#[derive(Debug, Clone, PartialEq)]
pub enum Literal {
    Null,
    Bool(bool),
    Integer(i64),
    /// A floating-point literal, as the decimal text it was written with.
    Float(String),
    String(String),
}

/// Variable reference
#[derive(Debug, Clone, PartialEq)]
pub struct VarExpr {
    pub name: String,
    pub span: Span,
}

/// Binary expression
#[derive(Debug, PartialEq)]
pub struct BinaryExpr {
    pub left: Expr,
    pub op: BinaryOp,
    pub right: Expr,
    pub span: Span,
}

/// Binary operators
#[derive(Debug, Clone, Copy, PartialEq, Eq, Structural)]
pub enum BinaryOp {
    Add,
    Sub,
    Mul,
    Div,
    Mod,
    Pow,
    /// /? returns 0 on div by zero
    SafeDivZero,
    /// /! returns null on div by zero
    SafeDivNull,
    /// == (loose)
    Eq,
    /// === (strict)
    StrictEq,
    NotEq,
    StrictNotEq,
    Lt,
    Gt,
    LtEq,
    GtEq,
    And,
    Or,
    In,
}

pub open spec fn spec_precedence(op: BinaryOp) -> u8 {
    match op {
        BinaryOp::Or => 1,
        BinaryOp::And => 2,
        BinaryOp::Eq | BinaryOp::StrictEq | BinaryOp::NotEq | BinaryOp::StrictNotEq => 3,
        BinaryOp::Lt | BinaryOp::Gt | BinaryOp::LtEq | BinaryOp::GtEq | BinaryOp::In => 4,
        BinaryOp::Add | BinaryOp::Sub => 5,
        BinaryOp::Mul | BinaryOp::Div | BinaryOp::Mod | BinaryOp::SafeDivZero
        | BinaryOp::SafeDivNull => 6,
        BinaryOp::Pow => 7,
    }
}

impl BinaryOp {
    /// Get the precedence of this operator (higher = binds tighter)
    pub fn precedence(&self) -> (p: u8)
        ensures
            p == spec_precedence(*self),
    {
        match self {
            BinaryOp::Or => 1,
            BinaryOp::And => 2,
            BinaryOp::Eq | BinaryOp::StrictEq | BinaryOp::NotEq | BinaryOp::StrictNotEq => 3,
            BinaryOp::Lt | BinaryOp::Gt | BinaryOp::LtEq | BinaryOp::GtEq | BinaryOp::In => 4,
            BinaryOp::Add | BinaryOp::Sub => 5,
            BinaryOp::Mul | BinaryOp::Div | BinaryOp::Mod | BinaryOp::SafeDivZero
            | BinaryOp::SafeDivNull => 6,
            BinaryOp::Pow => 7,
        }
    }

    /// Is this operator right-associative?
    pub fn is_right_assoc(&self) -> (r: bool)
        ensures
            r == (*self == BinaryOp::Pow),
    {
        match self {
            BinaryOp::Pow => true,
            _ => false,
        }
    }
}

/// Unary expression
#[derive(Debug, PartialEq)]
pub struct UnaryExpr {
    pub op: UnaryOp,
    pub expr: Expr,
    pub span: Span,
}

/// Unary operators
#[derive(Debug, Clone, Copy, PartialEq, Eq, Structural)]
pub enum UnaryOp {
    /// not x, !x
    Not,
    /// -x
    Neg,
    /// +x (no-op, for symmetry)
    Plus,
}

/// Postfix expression (x?)
#[derive(Debug, PartialEq)]
pub struct PostfixExpr {
    pub expr: Expr,
    pub op: PostfixOp,
    pub span: Span,
}

/// Postfix operators
#[derive(Debug, Clone, Copy, PartialEq, Eq, Structural)]
pub enum PostfixOp {
    /// x? - convert to boolean
    Truthy,
}

/// If expression
#[derive(Debug, PartialEq)]
pub struct IfExpr {
    pub condition: Expr,
    pub then_branch: Expr,
    pub else_branch: Option<Expr>,
    /// (condition, then) of each `else if`
    pub else_ifs: Vec<(Expr, Expr)>,
    pub span: Span,
}

/// Let binding expression
#[derive(Debug, PartialEq)]
pub struct LetExpr {
    pub name: String,
    pub value: Expr,
    pub body: Expr,
    pub span: Span,
}

/// Function call expression
#[derive(Debug, PartialEq)]
pub struct CallExpr {
    pub function: String,
    pub args: Vec<Expr>,
    pub span: Span,
}

/// Method call expression
#[derive(Debug, PartialEq)]
pub struct MethodCallExpr {
    pub object: Expr,
    pub method: String,
    pub args: Vec<Expr>,
    pub span: Span,
}

/// Property access expression
#[derive(Debug, PartialEq)]
pub struct PropertyExpr {
    pub object: Expr,
    pub property: String,
    pub span: Span,
}

/// Index access expression
#[derive(Debug, PartialEq)]
pub struct IndexExpr {
    pub object: Expr,
    pub index: Expr,
    pub span: Span,
}

/// Lambda expression
#[derive(Debug, PartialEq)]
pub struct LambdaExpr {
    pub params: Vec<String>,
    pub body: Expr,
    pub span: Span,
}

/// SQL-like query expression
#[derive(Debug, PartialEq)]
pub struct QueryExpr {
    /// from <source>
    pub source: Expr,
    /// where <condition>
    pub filter: Option<Expr>,
    /// select <expr>
    pub projection: Expr,
    pub span: Span,
}

/// Template string part
#[derive(Debug, PartialEq)]
pub enum TemplateExpr {
    Literal(String),
    Expr(Expr),
}

// ---------------------------------------------------------------------------
// Models
// ---------------------------------------------------------------------------

/// Model of a [`Literal`].
pub enum SpecLiteral {
    Null,
    Bool(bool),
    Integer(i64),
    Float(Seq<char>),
    String(Seq<char>),
}

/// Model of an [`Expr`]: the fields of each node inline.  The `else if`
/// branches of a conditional are flattened into one sequence
/// `cond1, then1, cond2, then2, ...`.
pub enum SpecExpr {
    Literal(SpecLiteral),
    Var(Seq<char>, Span),
    Binary(Box<SpecExpr>, BinaryOp, Box<SpecExpr>, Span),
    Unary(UnaryOp, Box<SpecExpr>, Span),
    Postfix(Box<SpecExpr>, PostfixOp, Span),
    If(Box<SpecExpr>, Box<SpecExpr>, Option<Box<SpecExpr>>, Seq<SpecExpr>, Span),
    Let(Seq<char>, Box<SpecExpr>, Box<SpecExpr>, Span),
    Call(Seq<char>, Seq<SpecExpr>, Span),
    MethodCall(Box<SpecExpr>, Seq<char>, Seq<SpecExpr>, Span),
    Property(Box<SpecExpr>, Seq<char>, Span),
    Index(Box<SpecExpr>, Box<SpecExpr>, Span),
    Array(Seq<SpecExpr>),
    Lambda(Seq<Seq<char>>, Box<SpecExpr>, Span),
    Query(Box<SpecExpr>, Option<Box<SpecExpr>>, Box<SpecExpr>, Span),
    Template(Seq<SpecTemplateExpr>),
    NullCoalesce(Box<SpecExpr>, Box<SpecExpr>),
}

/// Model of a [`TemplateExpr`].
pub enum SpecTemplateExpr {
    Literal(Seq<char>),
    Expr(SpecExpr),
}

pub open spec fn literal_view(l: Literal) -> SpecLiteral {
    match l {
        Literal::Null => SpecLiteral::Null,
        Literal::Bool(b) => SpecLiteral::Bool(b),
        Literal::Integer(n) => SpecLiteral::Integer(n),
        Literal::Float(s) => SpecLiteral::Float(s@),
        Literal::String(s) => SpecLiteral::String(s@),
    }
}

pub open spec fn strings_view(v: Seq<String>) -> Seq<Seq<char>> {
    v.map_values(|s: String| s@)
}

pub open spec fn expr_view(e: Expr) -> SpecExpr
    decreases e,
{
    match e {
        Expr::Literal(l) => SpecExpr::Literal(literal_view(l)),
        Expr::Var(v) => SpecExpr::Var(v.name@, v.span),
        Expr::Binary(b) => SpecExpr::Binary(
            Box::new(expr_view(b.left)),
            b.op,
            Box::new(expr_view(b.right)),
            b.span,
        ),
        Expr::Unary(u) => SpecExpr::Unary(u.op, Box::new(expr_view(u.expr)), u.span),
        Expr::Postfix(p) => SpecExpr::Postfix(Box::new(expr_view(p.expr)), p.op, p.span),
        Expr::If(i) => SpecExpr::If(
            Box::new(expr_view(i.condition)),
            Box::new(expr_view(i.then_branch)),
            option_view(i.else_branch),
            pairs_view(i.else_ifs@),
            i.span,
        ),
        Expr::Let(l) => SpecExpr::Let(
            l.name@,
            Box::new(expr_view(l.value)),
            Box::new(expr_view(l.body)),
            l.span,
        ),
        Expr::Call(c) => SpecExpr::Call(c.function@, exprs_view(c.args@), c.span),
        Expr::MethodCall(m) => SpecExpr::MethodCall(
            Box::new(expr_view(m.object)),
            m.method@,
            exprs_view(m.args@),
            m.span,
        ),
        Expr::Property(p) => SpecExpr::Property(Box::new(expr_view(p.object)), p.property@, p.span),
        Expr::Index(i) => SpecExpr::Index(
            Box::new(expr_view(i.object)),
            Box::new(expr_view(i.index)),
            i.span,
        ),
        Expr::Array(items) => SpecExpr::Array(exprs_view(items@)),
        Expr::Lambda(l) => SpecExpr::Lambda(strings_view(l.params@), Box::new(expr_view(l.body)), l.span),
        Expr::Query(q) => SpecExpr::Query(
            Box::new(expr_view(q.source)),
            option_view(q.filter),
            Box::new(expr_view(q.projection)),
            q.span,
        ),
        Expr::Template(parts) => SpecExpr::Template(template_view(parts@)),
        Expr::NullCoalesce(a, b) => SpecExpr::NullCoalesce(
            Box::new(expr_view(*a)),
            Box::new(expr_view(*b)),
        ),
    }
}

pub open spec fn option_view(o: Option<Expr>) -> Option<Box<SpecExpr>>
    decreases o,
{
    match o {
        Option::Some(e) => Option::Some(Box::new(expr_view(e))),
        Option::None => Option::None,
    }
}

pub open spec fn exprs_view(v: Seq<Expr>) -> Seq<SpecExpr>
    decreases v,
{
    if v.len() == 0 {
        seq![]
    } else {
        seq![expr_view(v[0])] + exprs_view(v.subrange(1, v.len() as int))
    }
}

pub open spec fn pairs_view(v: Seq<(Expr, Expr)>) -> Seq<SpecExpr>
    decreases v,
{
    if v.len() == 0 {
        seq![]
    } else {
        seq![expr_view(v[0].0), expr_view(v[0].1)] + pairs_view(v.subrange(1, v.len() as int))
    }
}

pub open spec fn template_view(v: Seq<TemplateExpr>) -> Seq<SpecTemplateExpr>
    decreases v,
{
    if v.len() == 0 {
        seq![]
    } else {
        seq![
            match v[0] {
                TemplateExpr::Literal(s) => SpecTemplateExpr::Literal(s@),
                TemplateExpr::Expr(e) => SpecTemplateExpr::Expr(expr_view(e)),
            },
        ] + template_view(v.subrange(1, v.len() as int))
    }
}

/// The model of one part of a template.
pub open spec fn template_expr_view(t: TemplateExpr) -> SpecTemplateExpr {
    match t {
        TemplateExpr::Literal(s) => SpecTemplateExpr::Literal(s@),
        TemplateExpr::Expr(e) => SpecTemplateExpr::Expr(expr_view(e)),
    }
}

impl View for Expr {
    type V = SpecExpr;

    open spec fn view(&self) -> SpecExpr {
        expr_view(*self)
    }
}

/// `exprs_view` is taken element by element.
pub proof fn lemma_exprs_view(v: Seq<Expr>)
    ensures
        exprs_view(v).len() == v.len(),
        forall|i: int| 0 <= i < v.len() ==> #[trigger] exprs_view(v)[i] == expr_view(v[i]),
    decreases v.len(),
{
    if v.len() > 0 {
        let rest = v.subrange(1, v.len() as int);
        lemma_exprs_view(rest);
        assert forall|i: int| 0 <= i < v.len() implies #[trigger] exprs_view(v)[i] == expr_view(v[i]) by {
            if i > 0 {
                assert(rest[i - 1] == v[i]);
            }
        }
    }
}

/// `pairs_view` flattens each pair into two consecutive elements.
pub proof fn lemma_pairs_view(v: Seq<(Expr, Expr)>)
    ensures
        pairs_view(v).len() == 2 * v.len(),
        forall|i: int| 0 <= i < v.len() ==> #[trigger] pairs_view(v)[2 * i] == expr_view(v[i].0),
        forall|i: int| 0 <= i < v.len() ==> #[trigger] pairs_view(v)[2 * i + 1] == expr_view(v[i].1),
    decreases v.len(),
{
    if v.len() > 0 {
        let rest = v.subrange(1, v.len() as int);
        lemma_pairs_view(rest);
        assert forall|i: int| 0 <= i < v.len() implies #[trigger] pairs_view(v)[2 * i] == expr_view(v[i].0) by {
            if i > 0 {
                assert(rest[i - 1] == v[i]);
                assert(pairs_view(v)[2 * i] == pairs_view(rest)[2 * (i - 1)]);
            }
        }
        assert forall|i: int| 0 <= i < v.len() implies #[trigger] pairs_view(v)[2 * i + 1] == expr_view(v[i].1) by {
            if i > 0 {
                assert(rest[i - 1] == v[i]);
                assert(pairs_view(v)[2 * i + 1] == pairs_view(rest)[2 * (i - 1) + 1]);
            }
        }
    }
}

/// `template_view` is taken part by part.
pub proof fn lemma_template_view(v: Seq<TemplateExpr>)
    ensures
        template_view(v).len() == v.len(),
        forall|i: int| 0 <= i < v.len() ==> #[trigger] template_view(v)[i] == template_expr_view(v[i]),
    decreases v.len(),
{
    if v.len() > 0 {
        let rest = v.subrange(1, v.len() as int);
        lemma_template_view(rest);
        assert forall|i: int| 0 <= i < v.len() implies #[trigger] template_view(v)[i] == template_expr_view(v[i]) by {
            if i > 0 {
                assert(rest[i - 1] == v[i]);
            }
        }
    }
}

pub proof fn lemma_exprs_view_push(v: Seq<Expr>, e: Expr)
    ensures
        exprs_view(v.push(e)) == exprs_view(v).push(expr_view(e)),
    decreases v.len(),
{
    if v.len() == 0 {
        assert(v.push(e).subrange(1, 1) =~= Seq::<Expr>::empty());
        assert(exprs_view(Seq::<Expr>::empty()) =~= Seq::<SpecExpr>::empty());
        assert(exprs_view(v.push(e)) =~= exprs_view(v).push(expr_view(e)));
    } else {
        lemma_exprs_view_push(v.subrange(1, v.len() as int), e);
        assert(v.push(e).subrange(1, v.len() as int + 1) =~= v.subrange(1, v.len() as int).push(e));
        assert(exprs_view(v.push(e)) =~= exprs_view(v).push(expr_view(e)));
    }
}

pub proof fn lemma_pairs_view_push(v: Seq<(Expr, Expr)>, a: Expr, b: Expr)
    ensures
        pairs_view(v.push((a, b))) == pairs_view(v) + seq![expr_view(a), expr_view(b)],
    decreases v.len(),
{
    if v.len() == 0 {
        assert(v.push((a, b)).subrange(1, 1) =~= Seq::<(Expr, Expr)>::empty());
        assert(pairs_view(Seq::<(Expr, Expr)>::empty()) =~= Seq::<SpecExpr>::empty());
        assert(pairs_view(v.push((a, b))) =~= pairs_view(v) + seq![expr_view(a), expr_view(b)]);
    } else {
        lemma_pairs_view_push(v.subrange(1, v.len() as int), a, b);
        assert(v.push((a, b)).subrange(1, v.len() as int + 1) =~= v.subrange(1, v.len() as int).push(
            (a, b),
        ));
        assert(pairs_view(v.push((a, b))) =~= pairs_view(v) + seq![expr_view(a), expr_view(b)]);
    }
}

pub proof fn lemma_template_view_push(v: Seq<TemplateExpr>, t: TemplateExpr)
    ensures
        template_view(v.push(t)) == template_view(v) + template_view(seq![t]),
    decreases v.len(),
{
    assert(seq![t].subrange(1, 1) =~= Seq::<TemplateExpr>::empty());
    assert(template_view(Seq::<TemplateExpr>::empty()) =~= Seq::<SpecTemplateExpr>::empty());
    if v.len() == 0 {
        assert(v.push(t) =~= seq![t]);
        assert(template_view(v.push(t)) =~= template_view(v) + template_view(seq![t]));
    } else {
        lemma_template_view_push(v.subrange(1, v.len() as int), t);
        assert(v.push(t).subrange(1, v.len() as int + 1) =~= v.subrange(1, v.len() as int).push(t));
        assert(template_view(v.push(t)) =~= template_view(v) + template_view(seq![t]));
    }
}

pub proof fn lemma_strings_view_push(v: Seq<String>, s: String)
    ensures
        strings_view(v.push(s)) == strings_view(v).push(s@),
{
    assert(strings_view(v.push(s)) =~= strings_view(v).push(s@));
}

impl Expr {
    /// Create a null literal
    pub fn null() -> (e: Expr)
        ensures
            e@ == SpecExpr::Literal(SpecLiteral::Null),
    {
        Expr::Literal(Literal::Null)
    }

    /// Create a boolean literal
    pub fn bool(value: bool) -> (e: Expr)
        ensures
            e@ == SpecExpr::Literal(SpecLiteral::Bool(value)),
    {
        Expr::Literal(Literal::Bool(value))
    }

    /// Create an integer literal
    pub fn integer(value: i64) -> (e: Expr)
        ensures
            e@ == SpecExpr::Literal(SpecLiteral::Integer(value)),
    {
        Expr::Literal(Literal::Integer(value))
    }

    /// Create a floating-point literal from its decimal text
    pub fn float(text: &str) -> (e: Expr)
        ensures
            e@ == SpecExpr::Literal(SpecLiteral::Float(text@)),
    {
        Expr::Literal(Literal::Float(text.to_owned()))
    }

    /// Create a string literal
    pub fn string(value: &str) -> (e: Expr)
        ensures
            e@ == SpecExpr::Literal(SpecLiteral::String(value@)),
    {
        Expr::Literal(Literal::String(value.to_owned()))
    }

    /// Create a variable reference
    pub fn var(name: &str) -> (e: Expr)
        ensures
            e@ == SpecExpr::Var(name@, Span { start: 0, end: 0 }),
    {
        Expr::Var(VarExpr { name: name.to_owned(), span: Span::new(0, 0) })
    }

    /// Create a binary expression
    pub fn binary(left: Expr, op: BinaryOp, right: Expr) -> (e: Expr)
        ensures
            e@ == SpecExpr::Binary(Box::new(left@), op, Box::new(right@), Span { start: 0, end: 0 }),
    {
        Expr::Binary(Box::new(BinaryExpr { left, op, right, span: Span::new(0, 0) }))
    }

    /// Create a unary expression
    pub fn unary(op: UnaryOp, expr: Expr) -> (e: Expr)
        ensures
            e@ == SpecExpr::Unary(op, Box::new(expr@), Span { start: 0, end: 0 }),
    {
        Expr::Unary(Box::new(UnaryExpr { op, expr, span: Span::new(0, 0) }))
    }

    /// Create a function call
    pub fn call(function: &str, args: Vec<Expr>) -> (e: Expr)
        ensures
            e@ == SpecExpr::Call(function@, exprs_view(args@), Span { start: 0, end: 0 }),
    {
        Expr::Call(Box::new(CallExpr { function: function.to_owned(), args, span: Span::new(0, 0) }))
    }

    /// Create an if expression
    pub fn if_then_else(condition: Expr, then_branch: Expr, else_branch: Option<Expr>) -> (e: Expr)
        ensures
            e@ == SpecExpr::If(
                Box::new(condition@),
                Box::new(then_branch@),
                option_view(else_branch),
                seq![],
                Span { start: 0, end: 0 },
            ),
    {
        let else_ifs: Vec<(Expr, Expr)> = Vec::new();
        assert(pairs_view(else_ifs@) =~= Seq::<SpecExpr>::empty());
        Expr::If(Box::new(IfExpr { condition, then_branch, else_branch, else_ifs, span: Span::new(0, 0) }))
    }

    /// Get the span of this expression
    pub fn span(&self) -> (s: Span)
        ensures
            s == spec_span(self@),
    {
        match self {
            Expr::Literal(_) => Span::new(0, 0),
            Expr::Var(v) => v.span,
            Expr::Binary(b) => b.span,
            Expr::Unary(u) => u.span,
            Expr::Postfix(p) => p.span,
            Expr::If(i) => i.span,
            Expr::Let(l) => l.span,
            Expr::Call(c) => c.span,
            Expr::MethodCall(m) => m.span,
            Expr::Property(p) => p.span,
            Expr::Index(i) => i.span,
            Expr::Array(_) => Span::new(0, 0),
            Expr::Lambda(l) => l.span,
            Expr::Query(q) => q.span,
            Expr::Template(_) => Span::new(0, 0),
            Expr::NullCoalesce(_, _) => Span::new(0, 0),
        }
    }
}

/// The span recorded on a node (literals, arrays, templates and `??` have none).
pub open spec fn spec_span(e: SpecExpr) -> Span {
    match e {
        SpecExpr::Var(_, s) | SpecExpr::Binary(_, _, _, s) | SpecExpr::Unary(_, _, s)
        | SpecExpr::Postfix(_, _, s) | SpecExpr::If(_, _, _, _, s) | SpecExpr::Let(_, _, _, s)
        | SpecExpr::Call(_, _, s) | SpecExpr::MethodCall(_, _, _, s) | SpecExpr::Property(_, _, s)
        | SpecExpr::Index(_, _, s) | SpecExpr::Lambda(_, _, s) | SpecExpr::Query(_, _, _, s) => s,
        _ => Span { start: 0, end: 0 },
    }
}

} // verus!
