//! Abstract Syntax Tree for JSON Logic expressions, with the values of
//! literals as JSON values.

use vstd::prelude::*;
use crate::json::Json;
use crate::text::str_chars;

verus! {

/// A parsed JSON Logic expression
#[derive(Debug, PartialEq)]
pub enum Expr {
    /// Literal value
    Literal(Json),
    /// Variable access: {"var": "path.to.value"} or {"var": ["path", default]}
    Var(VarExpr),
    /// Equality: {"==": [a, b]}
    Eq(Box<Expr>, Box<Expr>),
    /// Strict equality: {"===": [a, b]}
    StrictEq(Box<Expr>, Box<Expr>),
    /// Not equal: {"!=": [a, b]}
    Ne(Box<Expr>, Box<Expr>),
    /// Strict not equal: {"!==": [a, b]}
    StrictNe(Box<Expr>, Box<Expr>),
    /// Less than: {"<": [a, b]} or {"<": [a, b, c]} for a < b < c
    Lt(Vec<Expr>),
    /// Less than or equal: {"<=": [a, b]}
    Le(Vec<Expr>),
    /// Greater than: {">": [a, b]}
    Gt(Vec<Expr>),
    /// Greater than or equal: {">=": [a, b]}
    Ge(Vec<Expr>),
    /// Logical NOT: {"!": [a]}
    Not(Box<Expr>),
    /// Double negation (to boolean): {"!!": [a]}
    ToBool(Box<Expr>),
    /// Logical AND: {"and": [a, b, ...]}
    And(Vec<Expr>),
    /// Logical OR: {"or": [a, b, ...]}
    Or(Vec<Expr>),
    /// If-then-else: {"if": [cond, then, else]} or {"if": [cond1, then1, cond2, then2, ..., else]}
    If(Vec<Expr>),
    /// Ternary: {"?:": [cond, then, else]}
    Ternary(Box<Expr>, Box<Expr>, Box<Expr>),
    /// Addition: {"+": [a, b, ...]}
    Add(Vec<Expr>),
    /// Subtraction: {"-": [a, b]} or {"-": [a]} for negation
    Sub(Vec<Expr>),
    /// Multiplication: {"*": [a, b, ...]}
    Mul(Vec<Expr>),
    /// Division: {"/": [a, b]}
    Div(Box<Expr>, Box<Expr>),
    /// Modulo: {"%": [a, b]}
    Mod(Box<Expr>, Box<Expr>),
    /// Minimum: {"min": [a, b, ...]}
    Min(Vec<Expr>),
    /// Maximum: {"max": [a, b, ...]}
    Max(Vec<Expr>),
    /// String concatenation: {"cat": [a, b, ...]}
    Cat(Vec<Expr>),
    /// Substring: {"substr": [str, start, length?]}
    Substr(Box<Expr>, Box<Expr>, Option<Box<Expr>>),
    /// Map: {"map": [[array], expr]}
    MapItems(Box<Expr>, Box<Expr>),
    /// Filter: {"filter": [[array], expr]}
    Filter(Box<Expr>, Box<Expr>),
    /// Reduce: {"reduce": [[array], expr, initial]}
    Reduce(Box<Expr>, Box<Expr>, Box<Expr>),
    /// All: {"all": [[array], expr]}
    All(Box<Expr>, Box<Expr>),
    /// Some: {"some": [[array], expr]}
    SomeItems(Box<Expr>, Box<Expr>),
    /// None: {"none": [[array], expr]}
    NoItems(Box<Expr>, Box<Expr>),
    /// Merge arrays: {"merge": [[a], [b], ...]}
    Merge(Vec<Expr>),
    /// In array: {"in": [value, array]}
    In(Box<Expr>, Box<Expr>),
    /// Missing: {"missing": [keys...]}
    Missing(Vec<Expr>),
    /// Missing some: {"missing_some": [min_required, [keys...]]}
    MissingSome(Box<Expr>, Vec<Expr>),
    /// Log: {"log": [value]}
    Log(Box<Expr>),
}

/// Variable access expression
#[derive(Debug, PartialEq)]
pub struct VarExpr {
    /// Variable path (e.g., "user.age" or "" for entire data)
    pub path: String,
    /// Default value if variable is not found
    pub default: Option<Json>,
}

/// The pieces of `s` between the `.` characters, empty ones included.
pub open spec fn split_dots(s: Seq<char>) -> Seq<Seq<char>>
    decreases s.len(),
{
    if s.len() == 0 {
        seq![seq![]]
    } else {
        let prev = split_dots(s.drop_last());
        if s.last() == '.' {
            prev.push(seq![])
        } else {
            prev.update(prev.len() - 1, prev.last().push(s.last()))
        }
    }
}

/// The segments of a variable path: none for the empty path.
pub open spec fn path_segments_of(path: Seq<char>) -> Seq<Seq<char>> {
    if path.len() == 0 {
        seq![]
    } else {
        split_dots(path)
    }
}

impl VarExpr {
    /// Create a new variable expression
    pub fn new(path: &str) -> (v: Self)
        ensures
            v.path@ == path@,
            v.default is None,
    {
        VarExpr { path: path.to_owned(), default: None }
    }

    /// Create with default value
    pub fn with_default(path: &str, default: Json) -> (v: Self)
        ensures
            v.path@ == path@,
            v.default == Some(default),
    {
        VarExpr { path: path.to_owned(), default: Some(default) }
    }

    /// Parse the path into segments
    pub fn path_segments(&self) -> (r: Vec<String>)
        ensures
            r@.map_values(|s: String| s@) == path_segments_of(self.path@),
    {
        let cs = str_chars(self.path.as_str());
        let mut out: Vec<String> = Vec::new();
        if cs.len() == 0 {
            assert(out@.map_values(|s: String| s@) =~= path_segments_of(self.path@));
            return out;
        }
        let mut cur: Vec<char> = Vec::new();
        let mut i: usize = 0;
        while i < cs.len()
            invariant
                0 <= i <= cs@.len(),
                cs@ == self.path@,
                out@.map_values(|s: String| s@).push(cur@) == split_dots(cs@.subrange(0, i as int)),
            decreases cs@.len() - i,
        {
            let c = cs[i];
            let ghost prefix = cs@.subrange(0, i + 1);
            assert(prefix.drop_last() =~= cs@.subrange(0, i as int));
            assert(prefix.last() == c);
            let ghost prev = out@.map_values(|s: String| s@).push(cur@);
            if c == '.' {
                let piece = crate::text::string_from_chars(cur.as_slice());
                out.push(piece);
                cur = Vec::new();
                assert(out@.map_values(|s: String| s@).push(cur@) =~= prev.push(seq![]));
            } else {
                cur.push(c);
                assert(out@.map_values(|s: String| s@).push(cur@) =~= prev.update(prev.len() - 1, prev.last().push(c)));
            }
            i = i + 1;
        }
        let ghost before = out@.map_values(|s: String| s@);
        out.push(crate::text::string_from_chars(cur.as_slice()));
        assert(cs@.subrange(0, cs@.len() as int) =~= cs@);
        assert(out@.map_values(|s: String| s@) =~= before.push(cur@));
        out
    }
}

/// The number of nodes of an expression tree.
pub open spec fn expr_nodes(e: Expr) -> nat
    decreases e,
{
    match e {
        Expr::Literal(_) | Expr::Var(_) => 1,
        Expr::Not(a) | Expr::ToBool(a) | Expr::Log(a) => 1 + expr_nodes(*a),
        Expr::Eq(a, b) | Expr::StrictEq(a, b) | Expr::Ne(a, b) | Expr::StrictNe(a, b) | Expr::Div(a, b) | Expr::Mod(
            a,
            b,
        ) | Expr::In(a, b) | Expr::MapItems(a, b) | Expr::Filter(a, b) | Expr::All(a, b) | Expr::SomeItems(a, b)
        | Expr::NoItems(a, b) => 1 + expr_nodes(*a) + expr_nodes(*b),
        Expr::Lt(v) | Expr::Le(v) | Expr::Gt(v) | Expr::Ge(v) | Expr::And(v) | Expr::Or(v) | Expr::If(v) | Expr::Add(
            v,
        ) | Expr::Sub(v) | Expr::Mul(v) | Expr::Min(v) | Expr::Max(v) | Expr::Cat(v) | Expr::Merge(v)
        | Expr::Missing(v) => 1 + exprs_nodes(v@),
        Expr::Ternary(a, b, c) | Expr::Reduce(a, b, c) => 1 + expr_nodes(*a) + expr_nodes(*b) + expr_nodes(*c),
        Expr::Substr(a, b, c) => 1 + expr_nodes(*a) + expr_nodes(*b) + match c {
            Some(x) => expr_nodes(*x),
            None => 0,
        },
        Expr::MissingSome(a, v) => 1 + expr_nodes(*a) + exprs_nodes(v@),
    }
}

/// Every expression has at least one node.
pub proof fn lemma_expr_nodes_positive(e: Expr)
    ensures
        expr_nodes(e) >= 1,
{
}

pub open spec fn exprs_nodes(s: Seq<Expr>) -> nat
    decreases s,
{
    if s.len() == 0 {
        0
    } else {
        expr_nodes(s[0]) + exprs_nodes(s.subrange(1, s.len() as int))
    }
}

/// The variable paths an expression reads, in the order they are met
/// (the empty path, for the whole data, is not one).
pub open spec fn vars_of(e: Expr) -> Seq<Seq<char>>
    decreases e,
{
    match e {
        Expr::Var(v) => if v.path@.len() > 0 {
            seq![v.path@]
        } else {
            seq![]
        },
        Expr::Literal(_) => seq![],
        Expr::Not(a) | Expr::ToBool(a) | Expr::Log(a) => vars_of(*a),
        Expr::Eq(a, b) | Expr::StrictEq(a, b) | Expr::Ne(a, b) | Expr::StrictNe(a, b) | Expr::Div(a, b) | Expr::Mod(
            a,
            b,
        ) | Expr::In(a, b) | Expr::MapItems(a, b) | Expr::Filter(a, b) | Expr::All(a, b) | Expr::SomeItems(a, b)
        | Expr::NoItems(a, b) => vars_of(*a) + vars_of(*b),
        Expr::Lt(v) | Expr::Le(v) | Expr::Gt(v) | Expr::Ge(v) | Expr::And(v) | Expr::Or(v) | Expr::If(v) | Expr::Add(
            v,
        ) | Expr::Sub(v) | Expr::Mul(v) | Expr::Min(v) | Expr::Max(v) | Expr::Cat(v) | Expr::Merge(v)
        | Expr::Missing(v) => exprs_vars(v@),
        Expr::Ternary(a, b, c) | Expr::Reduce(a, b, c) => vars_of(*a) + vars_of(*b) + vars_of(*c),
        Expr::Substr(a, b, c) => vars_of(*a) + vars_of(*b) + match c {
            Some(x) => vars_of(*x),
            None => seq![],
        },
        Expr::MissingSome(a, v) => vars_of(*a) + exprs_vars(v@),
    }
}

pub open spec fn exprs_vars(s: Seq<Expr>) -> Seq<Seq<char>>
    decreases s,
{
    if s.len() == 0 {
        seq![]
    } else {
        vars_of(s[0]) + exprs_vars(s.subrange(1, s.len() as int))
    }
}

pub open spec fn str_refs_view(v: Seq<&str>) -> Seq<Seq<char>> {
    v.map_values(|s: &str| s@)
}

impl Expr {
    /// Check if this is a literal expression
    pub fn is_literal(&self) -> (r: bool)
        ensures
            r == (*self is Literal),
    {
        match self {
            Expr::Literal(_) => true,
            _ => false,
        }
    }

    /// Check if this is a variable expression
    pub fn is_var(&self) -> (r: bool)
        ensures
            r == (*self is Var),
    {
        match self {
            Expr::Var(_) => true,
            _ => false,
        }
    }

    /// Get the literal value if this is a literal
    pub fn as_literal(&self) -> (r: Option<&Json>)
        ensures
            match *self {
                Expr::Literal(v) => r == Some(&v),
                _ => r is None,
            },
    {
        match self {
            Expr::Literal(v) => Some(v),
            _ => None,
        }
    }

    /// Create a literal expression
    pub fn literal(value: Json) -> (e: Self)
        ensures
            e == Expr::Literal(value),
    {
        Expr::Literal(value)
    }

    /// Create a variable expression
    pub fn var(path: &str) -> (e: Self)
        ensures
            e matches Expr::Var(v) && v.path@ == path@ && v.default is None,
    {
        Expr::Var(VarExpr::new(path))
    }

    /// Collect all variable paths referenced in this expression
    pub fn collect_variables(&self) -> (r: Vec<&str>)
        ensures
            str_refs_view(r@) == vars_of(*self),
    {
        let mut vars: Vec<&str> = Vec::new();
        self.collect_variables_into(&mut vars);
        assert(str_refs_view(vars@) =~= vars_of(*self));
        vars
    }

    fn collect_variables_into<'a>(&'a self, vars: &mut Vec<&'a str>)
        ensures
            str_refs_view(final(vars)@) == str_refs_view(old(vars)@) + vars_of(*self),
        decreases self, 0nat,
    {
        let ghost start = str_refs_view(vars@);
        match self {
            Expr::Var(v) => {
                let cs = str_chars(v.path.as_str());
                if cs.len() > 0 {
                    vars.push(v.path.as_str());
                    assert(str_refs_view(vars@) =~= start + seq![v.path@]);
                } else {
                    assert(str_refs_view(vars@) =~= start + vars_of(*self));
                }
            },
            Expr::Literal(_) => {
                assert(str_refs_view(vars@) =~= start + vars_of(*self));
            },
            Expr::Eq(a, b) | Expr::StrictEq(a, b) | Expr::Ne(a, b) | Expr::StrictNe(a, b) | Expr::Div(a, b) | Expr::Mod(a, b) | Expr::In(a, b) | Expr::MapItems(a, b) | Expr::Filter(a, b) | Expr::All(a, b) | Expr::SomeItems(a, b) | Expr::NoItems(a, b) => {
                a.collect_variables_into(vars);
                b.collect_variables_into(vars);
                assert(str_refs_view(vars@) =~= start + vars_of(*self));
            },
            Expr::Lt(v) | Expr::Le(v) | Expr::Gt(v) | Expr::Ge(v) | Expr::And(v) | Expr::Or(v) | Expr::If(v) | Expr::Add(v) | Expr::Sub(v) | Expr::Mul(v) | Expr::Min(v) | Expr::Max(v) | Expr::Cat(v) | Expr::Merge(v) | Expr::Missing(v) => {
                collect_all(v, vars);
            },
            Expr::Not(a) | Expr::ToBool(a) | Expr::Log(a) => {
                a.collect_variables_into(vars);
            },
            Expr::Ternary(a, b, c) | Expr::Reduce(a, b, c) => {
                a.collect_variables_into(vars);
                b.collect_variables_into(vars);
                c.collect_variables_into(vars);
                assert(str_refs_view(vars@) =~= start + vars_of(*self));
            },
            Expr::Substr(a, b, c) => {
                a.collect_variables_into(vars);
                b.collect_variables_into(vars);
                match c {
                    Some(l) => {
                        l.collect_variables_into(vars);
                    },
                    None => {},
                }
                assert(str_refs_view(vars@) =~= start + vars_of(*self));
            },
            Expr::MissingSome(a, v) => {
                a.collect_variables_into(vars);
                collect_all(v, vars);
                assert(str_refs_view(vars@) =~= start + vars_of(*self));
            },
        }
    }

    /// Count the total number of nodes in this expression tree
    pub fn node_count(&self) -> (n: usize)
        requires
            expr_nodes(*self) <= usize::MAX,
        ensures
            n == expr_nodes(*self),
        decreases self, 0nat,
    {
        match self {
            Expr::Literal(_) | Expr::Var(_) => 1,
            Expr::Not(a) | Expr::ToBool(a) | Expr::Log(a) => 1 + a.node_count(),
            Expr::Eq(a, b) | Expr::StrictEq(a, b) | Expr::Ne(a, b) | Expr::StrictNe(a, b) | Expr::Div(a, b) | Expr::Mod(a, b) | Expr::In(a, b) | Expr::MapItems(a, b) | Expr::Filter(a, b) | Expr::All(a, b) | Expr::SomeItems(a, b) | Expr::NoItems(a, b) => 1 + a.node_count() + b.node_count(),
            Expr::Lt(v) | Expr::Le(v) | Expr::Gt(v) | Expr::Ge(v) | Expr::And(v) | Expr::Or(v) | Expr::If(v) | Expr::Add(v) | Expr::Sub(v) | Expr::Mul(v) | Expr::Min(v) | Expr::Max(v) | Expr::Cat(v) | Expr::Merge(v) | Expr::Missing(v) => 1 + count_all(v),
            Expr::Ternary(a, b, c) | Expr::Reduce(a, b, c) => 1 + a.node_count() + b.node_count() + c.node_count(),
            Expr::Substr(a, b, c) => {
                let rest: usize = match c {
                    Some(x) => x.node_count(),
                    None => 0,
                };
                1 + a.node_count() + b.node_count() + rest
            },
            Expr::MissingSome(a, v) => 1 + a.node_count() + count_all(v),
        }
    }
}

fn collect_all<'a>(exprs: &'a Vec<Expr>, vars: &mut Vec<&'a str>)
    ensures
        str_refs_view(final(vars)@) == str_refs_view(old(vars)@) + exprs_vars(exprs@),
    decreases exprs, 1nat,
{
    let ghost start = str_refs_view(vars@);
    let ghost s = exprs@;
    assert(s.subrange(0, s.len() as int) =~= s);
    let mut i: usize = 0;
    while i < exprs.len()
        invariant
            0 <= i <= exprs@.len(),
            s == exprs@,
            str_refs_view(vars@) + exprs_vars(s.subrange(i as int, s.len() as int)) == start + exprs_vars(s),
        decreases exprs@.len() - i,
    {
        proof {
            assert(decreases_to!(exprs => exprs@));
            assert(decreases_to!(exprs@ => exprs@[i as int]));
        }
        let ghost rest = s.subrange(i as int, s.len() as int);
        assert(rest[0] == s[i as int]);
        assert(rest.subrange(1, rest.len() as int) =~= s.subrange(i + 1, s.len() as int));
        let ghost before = str_refs_view(vars@);
        exprs[i].collect_variables_into(vars);
        i = i + 1;
        assert(str_refs_view(vars@) + exprs_vars(s.subrange(i as int, s.len() as int)) =~= start + exprs_vars(s));
    }
    assert(s.subrange(s.len() as int, s.len() as int) =~= Seq::<Expr>::empty());
    assert(str_refs_view(vars@) =~= start + exprs_vars(s));
}

fn count_all(exprs: &Vec<Expr>) -> (n: usize)
    requires
        exprs_nodes(exprs@) < usize::MAX,
    ensures
        n == exprs_nodes(exprs@),
    decreases exprs, 1nat,
{
    let ghost s = exprs@;
    assert(s.subrange(0, s.len() as int) =~= s);
    let mut total: usize = 0;
    let mut i: usize = 0;
    while i < exprs.len()
        invariant
            0 <= i <= exprs@.len(),
            s == exprs@,
            exprs_nodes(s) < usize::MAX,
            total + exprs_nodes(s.subrange(i as int, s.len() as int)) == exprs_nodes(s),
        decreases exprs@.len() - i,
    {
        proof {
            assert(decreases_to!(exprs => exprs@));
            assert(decreases_to!(exprs@ => exprs@[i as int]));
        }
        let ghost rest = s.subrange(i as int, s.len() as int);
        assert(rest[0] == s[i as int]);
        assert(rest.subrange(1, rest.len() as int) =~= s.subrange(i + 1, s.len() as int));
        total = total + exprs[i].node_count();
        i = i + 1;
    }
    assert(s.subrange(s.len() as int, s.len() as int) =~= Seq::<Expr>::empty());
    total
}

/// A compiled expression with cached metadata
#[derive(Debug)]
pub struct CompiledExpr {
    /// The parsed expression tree
    pub expr: std::sync::Arc<Expr>,
    /// Variables referenced in this expression (for fast context building)
    pub variables: Vec<String>,
    /// Total node count (for complexity estimation)
    pub node_count: usize,
}

impl CompiledExpr {
    /// Create a new compiled expression
    pub fn new(expr: Expr) -> (c: Self)
        requires
            expr_nodes(expr) <= usize::MAX,
        ensures
            *c.expr == expr,
            c.variables@.map_values(|s: String| s@) == vars_of(expr),
            c.node_count == expr_nodes(expr),
    {
        let refs = expr.collect_variables();
        let mut variables: Vec<String> = Vec::new();
        let mut i: usize = 0;
        while i < refs.len()
            invariant
                0 <= i <= refs@.len(),
                variables@.map_values(|s: String| s@) == str_refs_view(refs@).subrange(0, i as int),
            decreases refs@.len() - i,
        {
            let r: &str = refs[i];
            let owned = r.to_owned();
            assert(str_refs_view(refs@)[i as int] == owned@);
            let ghost before = variables@;
            variables.push(owned);
            assert(variables@.map_values(|s: String| s@) =~= before.map_values(|s: String| s@).push(owned@));
            i = i + 1;
            assert(variables@.map_values(|s: String| s@) =~= str_refs_view(refs@).subrange(0, i as int));
        }
        assert(str_refs_view(refs@).subrange(0, refs@.len() as int) =~= str_refs_view(refs@));
        let node_count = expr.node_count();
        CompiledExpr { expr: std::sync::Arc::new(expr), variables, node_count }
    }
}

} // verus!
