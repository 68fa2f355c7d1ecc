//! Compiler from FarmScript AST to JSON Logic
//!
//! Translates FarmScript expressions into JSON Logic format that can be
//! executed by the rule engine.  The translation is specified by the spec
//! functions of this module, one for each way an expression is compiled:
//! on its own ([`spec_compile`]), inside a `let` body where the bound name
//! stands for an already compiled value ([`spec_substitute`]), and inside the
//! body of a one- or two-parameter lambda ([`spec_element`],
//! [`spec_reducer`]).

use vstd::prelude::*;
use crate::farmscript::ast::{
    expr_view, exprs_view, lemma_exprs_view, lemma_pairs_view, option_view, pairs_view, strings_view,
    template_view, BinaryExpr, BinaryOp, CallExpr, Expr, IfExpr, IndexExpr, LambdaExpr, LetExpr,
    Literal, MethodCallExpr, PostfixExpr, PropertyExpr, QueryExpr, SpecExpr, SpecLiteral,
    SpecTemplateExpr, TemplateExpr, UnaryExpr, UnaryOp, VarExpr,
};
use crate::farmscript::parser::{parse_error_text, ParseError};
use crate::json::{json_view, jsons_view, lemma_jsons_view, Json, SpecJson};
use crate::text::{push_chars, push_str, str_chars, string_from_chars};
use crate::farmscript::token::{decimal_int, int_to_chars, Span};

verus! {

/// Compilation error
#[derive(Debug, Clone)]
pub enum CompileError {
    Unsupported(String),
    InvalidLambda(String),
    ParseError(String),
}

/// Model of a [`CompileError`].
pub enum SpecCompileError {
    Unsupported(Seq<char>),
    InvalidLambda(Seq<char>),
    ParseError(Seq<char>),
}

impl View for CompileError {
    type V = SpecCompileError;

    open spec fn view(&self) -> SpecCompileError {
        match self {
            CompileError::Unsupported(s) => SpecCompileError::Unsupported(s@),
            CompileError::InvalidLambda(s) => SpecCompileError::InvalidLambda(s@),
            CompileError::ParseError(s) => SpecCompileError::ParseError(s@),
        }
    }
}

/// The message of a compilation error (its `Display` text).
pub open spec fn compile_error_text(e: SpecCompileError) -> Seq<char> {
    match e {
        SpecCompileError::Unsupported(s) => "Unsupported expression: "@ + s,
        SpecCompileError::InvalidLambda(s) => "Invalid lambda: "@ + s,
        SpecCompileError::ParseError(s) => "Parse error: "@ + s,
    }
}

impl CompileError {
    /// The message of this error.
    pub fn to_text(&self) -> (r: String)
        ensures
            r@ == compile_error_text(self@),
    {
        let mut v: Vec<char> = Vec::new();
        match self {
            CompileError::Unsupported(s) => {
                push_str(&mut v, "Unsupported expression: ");
                push_str(&mut v, s.as_str());
            },
            CompileError::InvalidLambda(s) => {
                push_str(&mut v, "Invalid lambda: ");
                push_str(&mut v, s.as_str());
            },
            CompileError::ParseError(s) => {
                push_str(&mut v, "Parse error: ");
                push_str(&mut v, s.as_str());
            },
        }
        string_from_chars(v.as_slice())
    }

    /// The compilation error that reports a parse error.
    pub fn from_parse_error(e: ParseError) -> (r: CompileError)
        ensures
            r@ == SpecCompileError::ParseError(parse_error_text(e@)),
    {
        CompileError::ParseError(e.to_text())
    }
}

/// Model of a compilation result.
pub open spec fn json_result_view(r: Result<Json, CompileError>) -> Result<SpecJson, SpecCompileError> {
    match r {
        Ok(j) => Ok(j@),
        Err(e) => Err(e@),
    }
}

/// Model of the result of compiling a list of expressions.
pub open spec fn jsons_result_view(r: Result<Vec<Json>, CompileError>) -> Result<
    Seq<SpecJson>,
    SpecCompileError,
> {
    match r {
        Ok(v) => Ok(jsons_view(v@)),
        Err(e) => Err(e@),
    }
}

// ---------------------------------------------------------------------------
// Building blocks of the output
// ---------------------------------------------------------------------------

/// `{name: [args...]}`
pub open spec fn jop(name: Seq<char>, args: Seq<SpecJson>) -> SpecJson {
    SpecJson::Object(seq![(name, SpecJson::Array(args))])
}

/// `{name: value}`
pub open spec fn jkey(name: Seq<char>, value: SpecJson) -> SpecJson {
    SpecJson::Object(seq![(name, value)])
}

/// `{"var": path}`
pub open spec fn jvar(path: Seq<char>) -> SpecJson {
    jkey("var"@, SpecJson::Str(path))
}

pub open spec fn starts_with_slash(s: Seq<char>) -> bool {
    s.len() > 0 && s[0] == '/'
}

/// Every `/` replaced by `.`.
pub open spec fn replace_slashes(s: Seq<char>) -> Seq<char> {
    s.map_values(|c: char| if c == '/' { '.' } else { c })
}

/// The JSON Logic path of a variable: a leading `/` dropped, then every
/// `/` turned into `.` (`/users/count` reads `users.count`).
pub open spec fn var_path(name: Seq<char>) -> Seq<char> {
    replace_slashes(if starts_with_slash(name) { name.subrange(1, name.len() as int) } else { name })
}

/// The base of a property or index path: a path-style name (leading `/`)
/// in dot notation, any other name as written.
pub open spec fn path_base(name: Seq<char>) -> Seq<char> {
    if starts_with_slash(name) {
        replace_slashes(name.subrange(1, name.len() as int))
    } else {
        name
    }
}

pub open spec fn literal_json(l: SpecLiteral) -> SpecJson {
    match l {
        SpecLiteral::Null => SpecJson::Null,
        SpecLiteral::Bool(b) => SpecJson::Bool(b),
        SpecLiteral::Integer(n) => SpecJson::Int(n),
        SpecLiteral::Float(t) => SpecJson::Float(t),
        SpecLiteral::String(s) => SpecJson::Str(s),
    }
}

/// The JSON Logic operator of a binary operator.
pub open spec fn op_name(op: BinaryOp) -> Seq<char> {
    match op {
        BinaryOp::Add => "+"@,
        BinaryOp::Sub => "-"@,
        BinaryOp::Mul => "*"@,
        BinaryOp::Div | BinaryOp::SafeDivZero | BinaryOp::SafeDivNull => "/"@,
        BinaryOp::Mod => "%"@,
        BinaryOp::Pow => "pow"@,
        BinaryOp::Eq => "=="@,
        BinaryOp::StrictEq => "==="@,
        BinaryOp::NotEq => "!="@,
        BinaryOp::StrictNotEq => "!=="@,
        BinaryOp::Lt => "<"@,
        BinaryOp::Gt => ">"@,
        BinaryOp::LtEq => "<="@,
        BinaryOp::GtEq => ">="@,
        BinaryOp::And => "and"@,
        BinaryOp::Or => "or"@,
        BinaryOp::In => "in"@,
    }
}

/// `if b == 0 then default else a / b`
pub open spec fn safe_div_json(a: SpecJson, b: SpecJson, default: SpecJson) -> SpecJson {
    jop(
        "if"@,
        seq![jop("=="@, seq![b, SpecJson::Int(0)]), default, jop("/"@, seq![a, b])],
    )
}

/// A binary operation on compiled operands (`and`/`or` aside).
pub open spec fn binary_json(op: BinaryOp, l: SpecJson, r: SpecJson) -> SpecJson {
    match op {
        BinaryOp::SafeDivZero => safe_div_json(l, r, SpecJson::Int(0)),
        BinaryOp::SafeDivNull => safe_div_json(l, r, SpecJson::Null),
        _ => jop(op_name(op), seq![l, r]),
    }
}

pub open spec fn is_logical_op(op: BinaryOp) -> bool {
    op == BinaryOp::And || op == BinaryOp::Or
}

pub open spec fn unary_json(op: UnaryOp, j: SpecJson) -> SpecJson {
    match op {
        UnaryOp::Not => jkey("!"@, j),
        UnaryOp::Neg => jop("-"@, seq![j]),
        UnaryOp::Plus => j,
    }
}

pub open spec fn unsupported(msg: Seq<char>) -> Result<SpecJson, SpecCompileError> {
    Err(SpecCompileError::Unsupported(msg))
}

/// `{name: args}` when there are exactly `n` arguments, else the error `msg`.
pub open spec fn checked_op(name: Seq<char>, args: Seq<SpecJson>, n: nat, msg: Seq<char>) -> Result<
    SpecJson,
    SpecCompileError,
> {
    if args.len() != n {
        unsupported(msg)
    } else {
        Ok(jop(name, args))
    }
}

/// `abs(x)`: `if x < 0 then 0 - x else x`
pub open spec fn abs_json(args: Seq<SpecJson>) -> Result<SpecJson, SpecCompileError> {
    if args.len() != 1 {
        unsupported("abs requires 1 argument"@)
    } else {
        Ok(
            jop(
                "if"@,
                seq![
                    jop("<"@, seq![args[0], SpecJson::Int(0)]),
                    jop("-"@, seq![SpecJson::Int(0), args[0]]),
                    args[0],
                ],
            ),
        )
    }
}

/// `clamp(min, max, value)`: `max(min, min(max, value))`
pub open spec fn clamp_json(args: Seq<SpecJson>) -> Result<SpecJson, SpecCompileError> {
    if args.len() != 3 {
        unsupported("clamp requires 3 arguments (min, max, value)"@)
    } else {
        Ok(jop("max"@, seq![args[0], jop("min"@, seq![args[1], args[2]])]))
    }
}

/// A function call on compiled arguments.
pub open spec fn call_json(name: Seq<char>, args: Seq<SpecJson>) -> Result<SpecJson, SpecCompileError> {
    if name == "min"@ || name == "max"@ || name == "round"@ || name == "floor"@ || name == "ceil"@
        || name == "cat"@ || name == "substr"@ || name == "merge"@ || name == "missing"@ {
        Ok(jop(name, args))
    } else if name == "sum"@ {
        Ok(jop("+"@, args))
    } else if name == "abs"@ {
        abs_json(args)
    } else if name == "pow"@ {
        checked_op(name, args, 2, "pow requires 2 arguments"@)
    } else if name == "sqrt"@ {
        checked_op(name, args, 1, "sqrt requires 1 argument"@)
    } else if name == "clamp"@ {
        clamp_json(args)
    } else if name == "safe_div"@ {
        if args.len() < 2 || args.len() > 3 {
            unsupported("safe_div requires 2-3 arguments"@)
        } else {
            Ok(
                safe_div_json(
                    args[0],
                    args[1],
                    if args.len() > 2 { args[2] } else { SpecJson::Int(0) },
                ),
            )
        }
    } else if name == "len"@ || name == "length"@ {
        checked_op("len"@, args, 1, "len requires 1 argument"@)
    } else if name == "count"@ {
        checked_op(name, args, 1, "count requires 1 argument"@)
    } else if name == "missing_some"@ {
        checked_op(name, args, 2, "missing_some requires 2 arguments"@)
    } else if name == "log"@ {
        if args.len() != 1 {
            unsupported("log requires 1 argument"@)
        } else {
            Ok(jkey(name, args[0]))
        }
    } else if name == "contains"@ {
        if args.len() != 2 {
            unsupported("contains requires 2 arguments"@)
        } else {
            Ok(jop("in"@, seq![args[1], args[0]]))
        }
    } else {
        Ok(jop(name, args))
    }
}

/// A function call on arguments compiled inside a `let` body.
pub open spec fn call_with_args_json(name: Seq<char>, args: Seq<SpecJson>) -> Result<
    SpecJson,
    SpecCompileError,
> {
    if name == "sum"@ {
        Ok(jop("+"@, args))
    } else if name == "abs"@ {
        abs_json(args)
    } else if name == "clamp"@ {
        clamp_json(args)
    } else if name == "len"@ || name == "length"@ || name == "count"@ {
        Ok(jop("count"@, args))
    } else if name == "substr"@ || name == "substring"@ {
        Ok(jop("substr"@, args))
    } else if name == "cat"@ || name == "concat"@ {
        Ok(jop("cat"@, args))
    } else {
        Ok(jop(name, args))
    }
}

/// A method call on a compiled receiver and compiled arguments.
pub open spec fn method_json(name: Seq<char>, object: SpecJson, args: Seq<SpecJson>) -> Result<
    SpecJson,
    SpecCompileError,
> {
    if name == "map"@ || name == "filter"@ || name == "all"@ || name == "some"@ || name == "none"@ {
        if args.len() != 1 {
            unsupported(name + " requires 1 argument"@)
        } else {
            Ok(jop(name, seq![object, args[0]]))
        }
    } else if name == "reduce"@ {
        if args.len() != 2 {
            unsupported("reduce requires 2 arguments (initial, reducer)"@)
        } else {
            Ok(jop(name, seq![object, args[1], args[0]]))
        }
    } else if name == "contains"@ {
        if args.len() != 1 {
            unsupported("contains requires 1 argument"@)
        } else {
            Ok(jop("in"@, seq![args[0], object]))
        }
    } else if name == "length"@ || name == "len"@ {
        Ok(jop("len"@, seq![object]))
    } else {
        Ok(jop(name, seq![object] + args))
    }
}

/// The dotted path of a property access `a.b.c`; only chains of properties
/// on a variable have one.
pub open spec fn property_path(object: SpecExpr, property: Seq<char>) -> Result<
    Seq<char>,
    SpecCompileError,
>
    decreases object,
{
    match object {
        SpecExpr::Var(name, _) => Ok(path_base(name) + "."@ + property),
        SpecExpr::Property(inner, p, _) => match property_path(*inner, p) {
            Ok(base) => Ok(base + "."@ + property),
            Err(e) => Err(e),
        },
        _ => Err(SpecCompileError::Unsupported("Complex property access not yet supported"@)),
    }
}

// ---------------------------------------------------------------------------
// The translation
// ---------------------------------------------------------------------------

/// Compile an expression to JSON Logic.
pub open spec fn spec_compile(e: SpecExpr) -> Result<SpecJson, SpecCompileError>
    decreases e, 1nat,
{
    match e {
        SpecExpr::Literal(l) => Ok(literal_json(l)),
        SpecExpr::Var(name, _) => Ok(jvar(var_path(name))),
        SpecExpr::Binary(l, op, r, _) => if is_logical_op(op) {
            match spec_operands(*l, op) {
                Ok(a) => match spec_operands(*r, op) {
                    Ok(b) => Ok(jop(op_name(op), a + b)),
                    Err(err) => Err(err),
                },
                Err(err) => Err(err),
            }
        } else {
            match spec_compile(*l) {
                Ok(a) => match spec_compile(*r) {
                    Ok(b) => Ok(binary_json(op, a, b)),
                    Err(err) => Err(err),
                },
                Err(err) => Err(err),
            }
        },
        SpecExpr::Unary(op, x, _) => match spec_compile(*x) {
            Ok(j) => Ok(unary_json(op, j)),
            Err(err) => Err(err),
        },
        SpecExpr::Postfix(x, _, _) => match spec_compile(*x) {
            Ok(j) => Ok(jkey("!!"@, j)),
            Err(err) => Err(err),
        },
        SpecExpr::If(c, t, els, else_ifs, _) => match spec_compile(*c) {
            Ok(cj) => match spec_compile(*t) {
                Ok(tj) => match spec_compile_items(else_ifs, 0) {
                    Ok(mid) => match els {
                        Some(x) => match spec_compile(*x) {
                            Ok(xj) => Ok(jop("if"@, seq![cj, tj] + mid + seq![xj])),
                            Err(err) => Err(err),
                        },
                        None => Ok(jop("if"@, seq![cj, tj] + mid)),
                    },
                    Err(err) => Err(err),
                },
                Err(err) => Err(err),
            },
            Err(err) => Err(err),
        },
        SpecExpr::Let(name, v, body, _) => match spec_compile(*v) {
            Ok(vj) => spec_substitute(*body, name, vj),
            Err(err) => Err(err),
        },
        SpecExpr::Call(name, args, _) => match spec_compile_items(args, 0) {
            Ok(a) => call_json(name, a),
            Err(err) => Err(err),
        },
        SpecExpr::MethodCall(obj, name, args, _) => match spec_compile(*obj) {
            Ok(o) => match spec_compile_items(args, 0) {
                Ok(a) => method_json(name, o, a),
                Err(err) => Err(err),
            },
            Err(err) => Err(err),
        },
        SpecExpr::Property(obj, prop, _) => match property_path(*obj, prop) {
            Ok(path) => Ok(jvar(path)),
            Err(err) => Err(err),
        },
        SpecExpr::Index(obj, idx, _) => match (*obj, *idx) {
            (SpecExpr::Var(name, _), SpecExpr::Literal(SpecLiteral::Integer(n))) => Ok(
                jvar(path_base(name) + "."@ + decimal_int(n as int)),
            ),
            _ => match spec_compile(*obj) {
                Ok(a) => match spec_compile(*idx) {
                    Ok(i) => Ok(jop("index"@, seq![a, i])),
                    Err(err) => Err(err),
                },
                Err(err) => Err(err),
            },
        },
        SpecExpr::Array(items) => match spec_compile_items(items, 0) {
            Ok(a) => Ok(SpecJson::Array(a)),
            Err(err) => Err(err),
        },
        SpecExpr::Lambda(params, body, _) => if params.len() == 1 {
            spec_element(*body, params[0], ""@)
        } else if params.len() == 2 {
            spec_reducer(*body, params[0], params[1])
        } else {
            Err(SpecCompileError::InvalidLambda("Lambdas must have 1 or 2 parameters"@))
        },
        SpecExpr::Query(src, filter, proj, _) => match spec_compile(*src) {
            Ok(s) => match spec_compile(*proj) {
                Ok(p) => match filter {
                    Some(f) => match spec_compile(*f) {
                        Ok(fj) => Ok(jop("map"@, seq![jop("filter"@, seq![s, fj]), p])),
                        Err(err) => Err(err),
                    },
                    None => Ok(jop("map"@, seq![s, p])),
                },
                Err(err) => Err(err),
            },
            Err(err) => Err(err),
        },
        SpecExpr::Template(parts) => match spec_template_parts(parts, 0) {
            Ok(a) => Ok(jop("cat"@, a)),
            Err(err) => Err(err),
        },
        SpecExpr::NullCoalesce(a, b) => match spec_compile(*a) {
            Ok(aj) => match spec_compile(*b) {
                Ok(bj) => Ok(jop("if"@, seq![jop("!="@, seq![aj, SpecJson::Null]), aj, bj])),
                Err(err) => Err(err),
            },
            Err(err) => Err(err),
        },
    }
}

/// The operands of a chain of one logical operator, flattened: `a and b
/// and c` gives the three operands, each compiled.
pub open spec fn spec_operands(e: SpecExpr, target: BinaryOp) -> Result<
    Seq<SpecJson>,
    SpecCompileError,
>
    decreases e, 2nat,
{
    match e {
        SpecExpr::Binary(l, op, r, _) if op == target => match spec_operands(*l, target) {
            Ok(a) => match spec_operands(*r, target) {
                Ok(b) => Ok(a + b),
                Err(err) => Err(err),
            },
            Err(err) => Err(err),
        },
        _ => match spec_compile(e) {
            Ok(j) => Ok(seq![j]),
            Err(err) => Err(err),
        },
    }
}

/// The expressions `items[k..]`, each compiled; the first error wins.
pub open spec fn spec_compile_items(items: Seq<SpecExpr>, k: int) -> Result<
    Seq<SpecJson>,
    SpecCompileError,
>
    decreases items, (items.len() - k) as nat,
{
    if k < 0 || k >= items.len() {
        Ok(seq![])
    } else {
        match spec_compile(items[k]) {
            Ok(j) => match spec_compile_items(items, k + 1) {
                Ok(rest) => Ok(seq![j] + rest),
                Err(err) => Err(err),
            },
            Err(err) => Err(err),
        }
    }
}

/// The parts of a template from the `k`-th on: literal text as strings,
/// embedded expressions compiled.
pub open spec fn spec_template_parts(parts: Seq<SpecTemplateExpr>, k: int) -> Result<
    Seq<SpecJson>,
    SpecCompileError,
>
    decreases parts, (parts.len() - k) as nat,
{
    if k < 0 || k >= parts.len() {
        Ok(seq![])
    } else {
        let first = match parts[k] {
            SpecTemplateExpr::Literal(s) => Ok(SpecJson::Str(s)),
            SpecTemplateExpr::Expr(x) => spec_compile(x),
        };
        match first {
            Ok(j) => match spec_template_parts(parts, k + 1) {
                Ok(rest) => Ok(seq![j] + rest),
                Err(err) => Err(err),
            },
            Err(err) => Err(err),
        }
    }
}

/// Compile the body of `let name = value in body`, where `replacement` is
/// the compiled value: each reference to `name` reads `replacement`.
/// Variables, literals, operators, calls, conditionals and arrays are
/// handled here; any other expression is compiled on its own.
pub open spec fn spec_substitute(e: SpecExpr, name: Seq<char>, replacement: SpecJson) -> Result<
    SpecJson,
    SpecCompileError,
>
    decreases e, 2nat,
{
    match e {
        SpecExpr::Var(v, _) => if v == name {
            Ok(replacement)
        } else {
            Ok(jvar(var_path(v)))
        },
        SpecExpr::Literal(l) => Ok(literal_json(l)),
        SpecExpr::Binary(l, op, r, _) => if is_logical_op(op) {
            match spec_operands_sub(*l, op, name, replacement) {
                Ok(a) => match spec_operands_sub(*r, op, name, replacement) {
                    Ok(b) => Ok(jop(op_name(op), a + b)),
                    Err(err) => Err(err),
                },
                Err(err) => Err(err),
            }
        } else {
            match spec_substitute(*l, name, replacement) {
                Ok(a) => match spec_substitute(*r, name, replacement) {
                    Ok(b) => Ok(binary_json(op, a, b)),
                    Err(err) => Err(err),
                },
                Err(err) => Err(err),
            }
        },
        SpecExpr::Unary(op, x, _) => match spec_substitute(*x, name, replacement) {
            Ok(j) => Ok(unary_json(op, j)),
            Err(err) => Err(err),
        },
        SpecExpr::Call(f, args, _) => match spec_substitute_items(args, 0, name, replacement) {
            Ok(a) => call_with_args_json(f, a),
            Err(err) => Err(err),
        },
        SpecExpr::If(c, t, els, else_ifs, _) => match spec_substitute(*c, name, replacement) {
            Ok(cj) => match spec_substitute(*t, name, replacement) {
                Ok(tj) => match spec_substitute_items(else_ifs, 0, name, replacement) {
                    Ok(mid) => match els {
                        Some(x) => match spec_substitute(*x, name, replacement) {
                            Ok(xj) => Ok(jop("if"@, seq![cj, tj] + mid + seq![xj])),
                            Err(err) => Err(err),
                        },
                        None => Ok(jop("if"@, seq![cj, tj] + mid)),
                    },
                    Err(err) => Err(err),
                },
                Err(err) => Err(err),
            },
            Err(err) => Err(err),
        },
        SpecExpr::Array(items) => match spec_substitute_items(items, 0, name, replacement) {
            Ok(a) => Ok(SpecJson::Array(a)),
            Err(err) => Err(err),
        },
        _ => spec_compile(e),
    }
}

/// [`spec_operands`] inside a `let` body.
pub open spec fn spec_operands_sub(
    e: SpecExpr,
    target: BinaryOp,
    name: Seq<char>,
    replacement: SpecJson,
) -> Result<Seq<SpecJson>, SpecCompileError>
    decreases e, 3nat,
{
    match e {
        SpecExpr::Binary(l, op, r, _) if op == target => match spec_operands_sub(
            *l,
            target,
            name,
            replacement,
        ) {
            Ok(a) => match spec_operands_sub(*r, target, name, replacement) {
                Ok(b) => Ok(a + b),
                Err(err) => Err(err),
            },
            Err(err) => Err(err),
        },
        _ => match spec_substitute(e, name, replacement) {
            Ok(j) => Ok(seq![j]),
            Err(err) => Err(err),
        },
    }
}

/// [`spec_compile_items`] inside a `let` body.
pub open spec fn spec_substitute_items(
    items: Seq<SpecExpr>,
    k: int,
    name: Seq<char>,
    replacement: SpecJson,
) -> Result<Seq<SpecJson>, SpecCompileError>
    decreases items, (items.len() - k) as nat,
{
    if k < 0 || k >= items.len() {
        Ok(seq![])
    } else {
        match spec_substitute(items[k], name, replacement) {
            Ok(j) => match spec_substitute_items(items, k + 1, name, replacement) {
                Ok(rest) => Ok(seq![j] + rest),
                Err(err) => Err(err),
            },
            Err(err) => Err(err),
        }
    }
}

/// Compile the body of a one-parameter lambda: the parameter reads
/// `{"var": replacement}`.  Variables, literals, operators and calls are
/// handled here (a safe division is compiled on its own, as is any other
/// expression).
pub open spec fn spec_element(e: SpecExpr, param: Seq<char>, replacement: Seq<char>) -> Result<
    SpecJson,
    SpecCompileError,
>
    decreases e, 2nat,
{
    match e {
        SpecExpr::Var(v, _) => if v == param {
            Ok(jvar(replacement))
        } else {
            Ok(jvar(var_path(v)))
        },
        SpecExpr::Literal(l) => Ok(literal_json(l)),
        SpecExpr::Binary(l, op, r, _) => match spec_element(*l, param, replacement) {
            Ok(a) => match spec_element(*r, param, replacement) {
                Ok(b) => if op == BinaryOp::SafeDivZero || op == BinaryOp::SafeDivNull {
                    spec_compile(e)
                } else {
                    Ok(jop(op_name(op), seq![a, b]))
                },
                Err(err) => Err(err),
            },
            Err(err) => Err(err),
        },
        SpecExpr::Unary(op, x, _) => match spec_element(*x, param, replacement) {
            Ok(j) => Ok(unary_json(op, j)),
            Err(err) => Err(err),
        },
        SpecExpr::Call(f, args, _) => match spec_element_items(args, 0, param, replacement) {
            Ok(a) => Ok(jop(f, a)),
            Err(err) => Err(err),
        },
        _ => spec_compile(e),
    }
}

/// [`spec_compile_items`] inside a one-parameter lambda.
pub open spec fn spec_element_items(
    items: Seq<SpecExpr>,
    k: int,
    param: Seq<char>,
    replacement: Seq<char>,
) -> Result<Seq<SpecJson>, SpecCompileError>
    decreases items, (items.len() - k) as nat,
{
    if k < 0 || k >= items.len() {
        Ok(seq![])
    } else {
        match spec_element(items[k], param, replacement) {
            Ok(j) => match spec_element_items(items, k + 1, param, replacement) {
                Ok(rest) => Ok(seq![j] + rest),
                Err(err) => Err(err),
            },
            Err(err) => Err(err),
        }
    }
}

/// Compile the body of a two-parameter (reducer) lambda: the first
/// parameter reads `{"var": "accumulator"}`, the second
/// `{"var": "current"}`.  Variables, literals and operators are handled
/// here (a safe division is compiled on its own, as is any other
/// expression).
pub open spec fn spec_reducer(e: SpecExpr, acc: Seq<char>, cur: Seq<char>) -> Result<
    SpecJson,
    SpecCompileError,
>
    decreases e, 2nat,
{
    match e {
        SpecExpr::Var(v, _) => if v == acc {
            Ok(jvar("accumulator"@))
        } else if v == cur {
            Ok(jvar("current"@))
        } else {
            Ok(jvar(var_path(v)))
        },
        SpecExpr::Literal(l) => Ok(literal_json(l)),
        SpecExpr::Binary(l, op, r, _) => match spec_reducer(*l, acc, cur) {
            Ok(a) => match spec_reducer(*r, acc, cur) {
                Ok(b) => if op == BinaryOp::SafeDivZero || op == BinaryOp::SafeDivNull {
                    spec_compile(e)
                } else {
                    Ok(jop(op_name(op), seq![a, b]))
                },
                Err(err) => Err(err),
            },
            Err(err) => Err(err),
        },
        _ => spec_compile(e),
    }
}

// ---------------------------------------------------------------------------
// Builders
// ---------------------------------------------------------------------------

fn owned(s: &str) -> (r: String)
    ensures
        r@ == s@,
{
    s.to_owned()
}

/// Whether `s` is the text `lit`.
fn is_text(s: &String, lit: &str) -> (r: bool)
    ensures
        r == (s@ == lit@),
{
    let t = owned(lit);
    *s == t
}

fn make_key(name: String, value: Json) -> (j: Json)
    ensures
        j@ == jkey(name@, value@),
{
    let ghost nv = name@;
    let ghost vv = value@;
    let mut m: Vec<(String, Json)> = Vec::new();
    m.push((name, value));
    proof {
        crate::json::lemma_members_view(m@);
        assert(crate::json::members_view(m@) =~= seq![(nv, vv)]);
    }
    Json::Object(m)
}

fn make_op(name: String, args: Vec<Json>) -> (j: Json)
    ensures
        j@ == jop(name@, jsons_view(args@)),
{
    make_key(name, Json::Array(args))
}

fn op(name: &str, args: Vec<Json>) -> (j: Json)
    ensures
        j@ == jop(name@, jsons_view(args@)),
{
    make_op(owned(name), args)
}

fn key(name: &str, value: Json) -> (j: Json)
    ensures
        j@ == jkey(name@, value@),
{
    make_key(owned(name), value)
}

fn var_json(path: &Vec<char>) -> (j: Json)
    ensures
        j@ == jvar(path@),
{
    key("var", Json::Str(string_from_chars(path.as_slice())))
}

fn one(a: Json) -> (v: Vec<Json>)
    ensures
        jsons_view(v@) == seq![a@],
{
    let ghost av = a@;
    let mut v: Vec<Json> = Vec::new();
    v.push(a);
    proof {
        lemma_jsons_view(v@);
        assert(jsons_view(v@) =~= seq![av]);
    }
    v
}

fn two(a: Json, b: Json) -> (v: Vec<Json>)
    ensures
        jsons_view(v@) == seq![a@, b@],
{
    let ghost av = a@;
    let ghost bv = b@;
    let mut v: Vec<Json> = Vec::new();
    v.push(a);
    v.push(b);
    proof {
        lemma_jsons_view(v@);
        assert(jsons_view(v@) =~= seq![av, bv]);
    }
    v
}

fn three(a: Json, b: Json, c: Json) -> (v: Vec<Json>)
    ensures
        jsons_view(v@) == seq![a@, b@, c@],
{
    let ghost av = a@;
    let ghost bv = b@;
    let ghost cv = c@;
    let mut v: Vec<Json> = Vec::new();
    v.push(a);
    v.push(b);
    v.push(c);
    proof {
        lemma_jsons_view(v@);
        assert(jsons_view(v@) =~= seq![av, bv, cv]);
    }
    v
}

/// Appends `more` to `out`.
fn append_jsons(out: &mut Vec<Json>, more: Vec<Json>)
    ensures
        jsons_view(final(out)@) == jsons_view(old(out)@) + jsons_view(more@),
{
    let ghost o = out@;
    let ghost m = more@;
    let mut more = more;
    out.append(&mut more);
    proof {
        lemma_jsons_view(o);
        lemma_jsons_view(m);
        lemma_jsons_view(out@);
        assert(jsons_view(out@) =~= jsons_view(o) + jsons_view(m));
    }
}

/// Pushes `j` onto `out`.
fn push_json(out: &mut Vec<Json>, j: Json)
    ensures
        jsons_view(final(out)@) == jsons_view(old(out)@).push(j@),
{
    let ghost o = out@;
    let ghost jv = j@;
    out.push(j);
    proof {
        lemma_jsons_view(o);
        lemma_jsons_view(out@);
        assert(jsons_view(out@) =~= jsons_view(o).push(jv));
    }
}

fn first_of(v: &Vec<Json>) -> (j: Json)
    requires
        v@.len() >= 1,
    ensures
        j@ == jsons_view(v@)[0],
{
    proof {
        lemma_jsons_view(v@);
    }
    v[0].duplicate()
}

fn nth(v: &Vec<Json>, i: usize) -> (j: Json)
    requires
        i < v@.len(),
    ensures
        j@ == jsons_view(v@)[i as int],
{
    proof {
        lemma_jsons_view(v@);
    }
    v[i].duplicate()
}

fn replace_slashes_chars(s: &[char]) -> (r: Vec<char>)
    ensures
        r@ == replace_slashes(s@),
{
    let mut r: Vec<char> = Vec::new();
    let mut i: usize = 0;
    while i < s.len()
        invariant
            0 <= i <= s@.len(),
            r@ == replace_slashes(s@.subrange(0, i as int)),
        decreases s@.len() - i,
    {
        let c = s[i];
        r.push(if c == '/' { '.' } else { c });
        i = i + 1;
        assert(replace_slashes(s@.subrange(0, i as int)) =~= replace_slashes(s@.subrange(0, i - 1)).push(
            if c == '/' { '.' } else { c },
        ));
    }
    assert(s@.subrange(0, s@.len() as int) =~= s@);
    r
}

fn var_path_chars(name: &String) -> (r: Vec<char>)
    ensures
        r@ == var_path(name@),
{
    let cs = str_chars(name.as_str());
    if cs.len() > 0 && cs[0] == '/' {
        let rest = slice_chars(&cs, 1);
        replace_slashes_chars(rest.as_slice())
    } else {
        replace_slashes_chars(cs.as_slice())
    }
}

fn path_base_chars(name: &String) -> (r: Vec<char>)
    ensures
        r@ == path_base(name@),
{
    let cs = str_chars(name.as_str());
    if cs.len() > 0 && cs[0] == '/' {
        let rest = slice_chars(&cs, 1);
        replace_slashes_chars(rest.as_slice())
    } else {
        cs
    }
}

/// The characters of `v` from `start` on.
fn slice_chars(v: &Vec<char>, start: usize) -> (r: Vec<char>)
    requires
        start <= v@.len(),
    ensures
        r@ == v@.subrange(start as int, v@.len() as int),
{
    let mut r: Vec<char> = Vec::new();
    let mut i: usize = start;
    while i < v.len()
        invariant
            start <= i <= v@.len(),
            r@ == v@.subrange(start as int, i as int),
        decreases v@.len() - i,
    {
        r.push(v[i]);
        i = i + 1;
        assert(r@ =~= v@.subrange(start as int, i as int));
    }
    r
}

/// `base.property`
fn dotted(base: Vec<char>, property: &str) -> (r: Vec<char>)
    ensures
        r@ == base@ + "."@ + property@,
{
    let mut r = base;
    push_str(&mut r, ".");
    push_str(&mut r, property);
    r
}

// ---------------------------------------------------------------------------
// The compiler
// ---------------------------------------------------------------------------

/// Compilation options
#[derive(Debug, Clone)]
pub struct CompileOptions {
    /// Use strict equality (===) by default for == operator
    pub strict_equality_default: bool,
    /// Emit safe division as custom operations
    pub emit_safe_division: bool,
}

impl Default for CompileOptions {
    fn default() -> (o: Self)
        ensures
            !o.strict_equality_default,
            !o.emit_safe_division,
    {
        CompileOptions { strict_equality_default: false, emit_safe_division: false }
    }
}

/// The FarmScript to JSON Logic compiler
pub struct Compiler {
    options: CompileOptions,
}

impl Compiler {
    /// The options the compiler was made with.
    pub closed spec fn options(&self) -> CompileOptions {
        self.options
    }

    /// Create a new compiler with options
    pub fn new(options: CompileOptions) -> (c: Self)
        ensures
            c.options() == options,
    {
        Compiler { options }
    }

    /// Create a compiler with default options
    pub fn default_options() -> (c: Self)
        ensures
            !c.options().strict_equality_default,
            !c.options().emit_safe_division,
    {
        Self::new(CompileOptions::default())
    }

    /// Compile an expression to JSON Logic
    pub fn compile(&self, expr: &Expr) -> (r: Result<Json, CompileError>)
        ensures
            json_result_view(r) == spec_compile(expr@),
        decreases expr, 1nat,
    {
        match expr {
            Expr::Literal(lit) => Ok(self.compile_literal(lit)),
            Expr::Var(var) => Ok(self.compile_var(var)),
            Expr::Binary(binary) => self.compile_binary(binary),
            Expr::Unary(unary) => self.compile_unary(unary),
            Expr::Postfix(postfix) => self.compile_postfix(postfix),
            Expr::If(if_expr) => self.compile_if(if_expr),
            Expr::Let(let_expr) => self.compile_let(let_expr),
            Expr::Call(call) => self.compile_call(call),
            Expr::MethodCall(method_call) => self.compile_method_call(method_call),
            Expr::Property(prop) => self.compile_property(prop),
            Expr::Index(idx) => self.compile_index(idx),
            Expr::Array(items) => self.compile_array(items),
            Expr::Lambda(lambda) => self.compile_lambda(lambda),
            Expr::Query(query) => self.compile_query(query),
            Expr::Template(parts) => self.compile_template(parts),
            Expr::NullCoalesce(a, b) => {
                let a_compiled = self.compile(a)?;
                let b_compiled = self.compile(b)?;
                Ok(null_coalesce_of(a_compiled, b_compiled))
            },
        }
    }

    fn compile_literal(&self, lit: &Literal) -> (j: Json)
        ensures
            j@ == literal_json(crate::farmscript::ast::literal_view(*lit)),
    {
        match lit {
            Literal::Null => Json::Null,
            Literal::Bool(b) => Json::Bool(*b),
            Literal::Integer(n) => Json::Int(*n),
            Literal::Float(t) => Json::Float(t.clone()),
            Literal::String(s) => Json::Str(s.clone()),
        }
    }

    fn compile_var(&self, var: &VarExpr) -> (j: Json)
        ensures
            j@ == jvar(var_path(var.name@)),
    {
        let path = var_path_chars(&var.name);
        var_json(&path)
    }

    fn compile_binary(&self, binary: &BinaryExpr) -> (r: Result<Json, CompileError>)
        ensures
            json_result_view(r) == spec_compile(
                SpecExpr::Binary(Box::new(binary.left@), binary.op, Box::new(binary.right@), binary.span),
            ),
        decreases binary, 1nat,
    {
        match binary.op {
            BinaryOp::And | BinaryOp::Or => return self.compile_logical_chain(binary),
            _ => {},
        }
        let left = self.compile(&binary.left)?;
        let right = self.compile(&binary.right)?;
        Ok(binary_op_json(binary.op, left, right))
    }

    /// Compile logical and/or chains into flat arrays
    /// e.g., `a and b and c` becomes `{"and": [a, b, c]}` instead of nested
    fn compile_logical_chain(&self, binary: &BinaryExpr) -> (r: Result<Json, CompileError>)
        requires
            is_logical_op(binary.op),
        ensures
            json_result_view(r) == match spec_operands(binary.left@, binary.op) {
                Ok(a) => match spec_operands(binary.right@, binary.op) {
                    Ok(b) => Ok(jop(op_name(binary.op), a + b)),
                    Err(err) => Err(err),
                },
                Err(err) => Err(err),
            },
        decreases binary, 0nat,
    {
        let target = binary.op;
        let mut operands: Vec<Json> = Vec::new();
        assert(jsons_view(operands@) =~= Seq::<SpecJson>::empty());
        self.collect_logical_operands(&binary.left, target, &mut operands)?;
        self.collect_logical_operands(&binary.right, target, &mut operands)?;
        let name = if target == BinaryOp::And { owned("and") } else { owned("or") };
        Ok(make_op(name, operands))
    }

    /// Recursively collect operands for a logical chain
    fn collect_logical_operands(&self, expr: &Expr, target: BinaryOp, operands: &mut Vec<Json>) -> (r: Result<
        (),
        CompileError,
    >)
        ensures
            match r {
                Ok(_) => spec_operands(expr@, target) matches Ok(a) && jsons_view(final(operands)@)
                    == jsons_view(old(operands)@) + a,
                Err(err) => spec_operands(expr@, target) == Err::<Seq<SpecJson>, SpecCompileError>(err@),
            },
        decreases expr, 2nat,
    {
        if let Expr::Binary(binary) = expr {
            if binary.op == target {
                self.collect_logical_operands(&binary.left, target, operands)?;
                self.collect_logical_operands(&binary.right, target, operands)?;
                return Ok(());
            }
        }
        let j = self.compile(expr)?;
        push_json(operands, j);
        Ok(())
    }

    fn compile_unary(&self, unary: &UnaryExpr) -> (r: Result<Json, CompileError>)
        ensures
            json_result_view(r) == spec_compile(SpecExpr::Unary(unary.op, Box::new(unary.expr@), unary.span)),
        decreases unary, 1nat,
    {
        let expr = self.compile(&unary.expr)?;
        Ok(unary_op_json(unary.op, expr))
    }

    fn compile_postfix(&self, postfix: &PostfixExpr) -> (r: Result<Json, CompileError>)
        ensures
            json_result_view(r) == spec_compile(
                SpecExpr::Postfix(Box::new(postfix.expr@), postfix.op, postfix.span),
            ),
        decreases postfix, 1nat,
    {
        let expr = self.compile(&postfix.expr)?;
        Ok(key("!!", expr))
    }
}

impl Compiler {
    /// Compile the expressions of a list, in order; the first error wins.
    fn compile_items(&self, items: &Vec<Expr>) -> (r: Result<Vec<Json>, CompileError>)
        ensures
            jsons_result_view(r) == spec_compile_items(exprs_view(items@), 0),
        decreases items, 0nat,
    {
        let ghost sv = exprs_view(items@);
        proof {
            lemma_exprs_view(items@);
        }
        let mut out: Vec<Json> = Vec::new();
        let mut i: usize = 0;
        while i < items.len()
            invariant
                0 <= i <= items@.len(),
                sv == exprs_view(items@),
                sv.len() == items@.len(),
                forall|k: int| 0 <= k < items@.len() ==> #[trigger] sv[k] == expr_view(items@[k]),
                spec_compile_items(sv, 0) == match spec_compile_items(sv, i as int) {
                    Ok(rest) => Ok(jsons_view(out@) + rest),
                    Err(err) => Err::<Seq<SpecJson>, SpecCompileError>(err),
                },
            decreases items@.len() - i,
        {
            proof {
                assert(decreases_to!(*items => items@));
                assert(decreases_to!(items@ => items@[i as int]));
                assert(decreases_to!(*items => items@[i as int]));
            }
            let j = self.compile(&items[i])?;
            let ghost old_out = jsons_view(out@);
            let ghost jv = j@;
            push_json(&mut out, j);
            i = i + 1;
            proof {
                match spec_compile_items(sv, i as int) {
                    Ok(rest) => {
                        assert(old_out + (seq![jv] + rest) =~= jsons_view(out@) + rest);
                    },
                    Err(err) => {},
                }
            }
        }
        assert(jsons_view(out@) + Seq::<SpecJson>::empty() =~= jsons_view(out@));
        Ok(out)
    }

    /// Compile the `(condition, branch)` pairs of `else if`s, in order.
    fn compile_pairs(&self, pairs: &Vec<(Expr, Expr)>) -> (r: Result<Vec<Json>, CompileError>)
        ensures
            jsons_result_view(r) == spec_compile_items(pairs_view(pairs@), 0),
        decreases pairs, 0nat,
    {
        let ghost sv = pairs_view(pairs@);
        proof {
            lemma_pairs_view(pairs@);
        }
        let mut out: Vec<Json> = Vec::new();
        let mut i: usize = 0;
        while i < pairs.len()
            invariant
                0 <= i <= pairs@.len(),
                sv == pairs_view(pairs@),
                sv.len() == 2 * pairs@.len(),
                forall|k: int| 0 <= k < pairs@.len() ==> #[trigger] sv[2 * k] == expr_view(pairs@[k].0),
                forall|k: int| 0 <= k < pairs@.len() ==> #[trigger] sv[2 * k + 1] == expr_view(pairs@[k].1),
                spec_compile_items(sv, 0) == match spec_compile_items(sv, 2 * i) {
                    Ok(rest) => Ok(jsons_view(out@) + rest),
                    Err(err) => Err::<Seq<SpecJson>, SpecCompileError>(err),
                },
            decreases pairs@.len() - i,
        {
            proof {
                assert(decreases_to!(*pairs => pairs@));
                assert(decreases_to!(pairs@ => pairs@[i as int]));
                assert(decreases_to!(pairs@[i as int] => pairs@[i as int].0));
                assert(decreases_to!(pairs@[i as int] => pairs@[i as int].1));
                assert(decreases_to!(*pairs => pairs@[i as int].0));
                assert(decreases_to!(*pairs => pairs@[i as int].1));
                assert(sv[2 * i] == expr_view(pairs@[i as int].0));
                assert(sv[2 * i + 1] == expr_view(pairs@[i as int].1));
                assert(spec_compile_items(sv, 2 * i + 1) == match spec_compile(sv[2 * i + 1]) {
                    Ok(j) => match spec_compile_items(sv, 2 * i + 2) {
                        Ok(rest) => Ok(seq![j] + rest),
                        Err(err) => Err(err),
                    },
                    Err(err) => Err::<Seq<SpecJson>, SpecCompileError>(err),
                });
            }
            let c = self.compile(&pairs[i].0)?;
            let t = self.compile(&pairs[i].1)?;
            let ghost old_out = jsons_view(out@);
            let ghost cv = c@;
            let ghost tv = t@;
            push_json(&mut out, c);
            push_json(&mut out, t);
            i = i + 1;
            proof {
                assert(2 * i == 2 * (i - 1) + 2);
                match spec_compile_items(sv, 2 * i) {
                    Ok(rest) => {
                        assert(old_out + (seq![cv] + (seq![tv] + rest)) =~= jsons_view(out@) + rest);
                    },
                    Err(err) => {},
                }
            }
        }
        assert(jsons_view(out@) + Seq::<SpecJson>::empty() =~= jsons_view(out@));
        Ok(out)
    }
}

impl Compiler {
    fn compile_if(&self, if_expr: &IfExpr) -> (r: Result<Json, CompileError>)
        ensures
            json_result_view(r) == spec_compile(
                SpecExpr::If(
                    Box::new(if_expr.condition@),
                    Box::new(if_expr.then_branch@),
                    option_view(if_expr.else_branch),
                    pairs_view(if_expr.else_ifs@),
                    if_expr.span,
                ),
            ),
        decreases if_expr, 1nat,
    {
        let mut args: Vec<Json> = Vec::new();
        let c = self.compile(&if_expr.condition)?;
        let t = self.compile(&if_expr.then_branch)?;
        let mid = self.compile_pairs(&if_expr.else_ifs)?;
        let ghost cv = c@;
        let ghost tv = t@;
        let ghost mv = jsons_view(mid@);
        push_json(&mut args, c);
        push_json(&mut args, t);
        append_jsons(&mut args, mid);
        assert(jsons_view(args@) =~= seq![cv, tv] + mv);
        match &if_expr.else_branch {
            Some(else_branch) => {
                assert(option_view(if_expr.else_branch) == Some(Box::new(else_branch@)));
                let e = self.compile(else_branch)?;
                let ghost ev = e@;
                push_json(&mut args, e);
                assert(jsons_view(args@) =~= seq![cv, tv] + mv + seq![ev]);
                Ok(op("if", args))
            },
            None => {
                assert(option_view(if_expr.else_branch) == None::<Box<SpecExpr>>);
                Ok(op("if", args))
            },
        }
    }

    fn compile_let(&self, let_expr: &LetExpr) -> (r: Result<Json, CompileError>)
        ensures
            json_result_view(r) == spec_compile(
                SpecExpr::Let(let_expr.name@, Box::new(let_expr.value@), Box::new(let_expr.body@), let_expr.span),
            ),
        decreases let_expr, 1nat,
    {
        // JSON Logic has no let bindings: the compiled value is put in place
        // of each reference to the name in the body.
        let compiled_value = self.compile(&let_expr.value)?;
        self.compile_with_substitution(&let_expr.body, &let_expr.name, &compiled_value)
    }

    fn compile_call(&self, call: &CallExpr) -> (r: Result<Json, CompileError>)
        ensures
            json_result_view(r) == spec_compile(SpecExpr::Call(call.function@, exprs_view(call.args@), call.span)),
        decreases call, 1nat,
    {
        let args = self.compile_items(&call.args)?;
        call_by_name(&call.function, args)
    }

    fn compile_method_call(&self, method: &MethodCallExpr) -> (r: Result<Json, CompileError>)
        ensures
            json_result_view(r) == spec_compile(
                SpecExpr::MethodCall(Box::new(method.object@), method.method@, exprs_view(method.args@), method.span),
            ),
        decreases method, 1nat,
    {
        let object = self.compile(&method.object)?;
        let args = self.compile_items(&method.args)?;
        method_by_name(&method.method, object, args)
    }

    fn compile_property(&self, prop: &PropertyExpr) -> (r: Result<Json, CompileError>)
        ensures
            json_result_view(r) == spec_compile(SpecExpr::Property(Box::new(prop.object@), prop.property@, prop.span)),
    {
        let path = self.build_property_path(&prop.object, &prop.property)?;
        Ok(var_json(&path))
    }

    fn build_property_path(&self, object: &Expr, property: &String) -> (r: Result<Vec<char>, CompileError>)
        ensures
            match r {
                Ok(p) => property_path(object@, property@) == Ok::<Seq<char>, SpecCompileError>(p@),
                Err(e) => property_path(object@, property@) == Err::<Seq<char>, SpecCompileError>(e@),
            },
        decreases object,
    {
        match object {
            Expr::Var(v) => {
                let base = path_base_chars(&v.name);
                Ok(dotted(base, property.as_str()))
            },
            Expr::Property(p) => {
                let base = self.build_property_path(&p.object, &p.property)?;
                Ok(dotted(base, property.as_str()))
            },
            _ => Err(CompileError::Unsupported(owned("Complex property access not yet supported"))),
        }
    }

    fn compile_index(&self, idx: &IndexExpr) -> (r: Result<Json, CompileError>)
        ensures
            json_result_view(r) == spec_compile(SpecExpr::Index(Box::new(idx.object@), Box::new(idx.index@), idx.span)),
        decreases idx, 1nat,
    {
        match (&idx.object, &idx.index) {
            (Expr::Var(v), Expr::Literal(Literal::Integer(n))) => {
                let base = path_base_chars(&v.name);
                let mut path = dotted(base, "");
                let digits = int_to_chars(*n);
                push_chars(&mut path, digits.as_slice());
                proof {
                    reveal_strlit("");
                }
                assert(path@ =~= path_base(v.name@) + "."@ + decimal_int(*n as int));
                Ok(var_json(&path))
            },
            _ => {
                let arr = self.compile(&idx.object)?;
                let index = self.compile(&idx.index)?;
                Ok(op("index", two(arr, index)))
            },
        }
    }

    fn compile_array(&self, items: &Vec<Expr>) -> (r: Result<Json, CompileError>)
        ensures
            json_result_view(r) == spec_compile(SpecExpr::Array(exprs_view(items@))),
        decreases items, 1nat,
    {
        let compiled = self.compile_items(items)?;
        Ok(Json::Array(compiled))
    }

    fn compile_lambda(&self, lambda: &LambdaExpr) -> (r: Result<Json, CompileError>)
        ensures
            json_result_view(r) == spec_compile(
                SpecExpr::Lambda(strings_view(lambda.params@), Box::new(lambda.body@), lambda.span),
            ),
        decreases lambda, 1nat,
    {
        // A one-parameter lambda reads the current element as {"var": ""};
        // a two-parameter one reads "accumulator" and "current".
        if lambda.params.len() == 1 {
            self.transform_lambda_body(&lambda.body, &lambda.params[0], "")
        } else if lambda.params.len() == 2 {
            self.transform_reduce_lambda(&lambda.body, &lambda.params[0], &lambda.params[1])
        } else {
            Err(CompileError::InvalidLambda(owned("Lambdas must have 1 or 2 parameters")))
        }
    }

    fn compile_query(&self, query: &QueryExpr) -> (r: Result<Json, CompileError>)
        ensures
            json_result_view(r) == spec_compile(
                SpecExpr::Query(
                    Box::new(query.source@),
                    option_view(query.filter),
                    Box::new(query.projection@),
                    query.span,
                ),
            ),
        decreases query, 1nat,
    {
        // from items where cond select expr: map(filter(items, cond), expr)
        let source = self.compile(&query.source)?;
        let projection = self.compile(&query.projection)?;
        match &query.filter {
            Some(filter) => {
                assert(option_view(query.filter) == Some(Box::new(filter@)));
                let filter_compiled = self.compile(filter)?;
                let filtered = op("filter", two(source, filter_compiled));
                Ok(op("map", two(filtered, projection)))
            },
            None => {
                assert(option_view(query.filter) == None::<Box<SpecExpr>>);
                Ok(op("map", two(source, projection)))
            },
        }
    }

    fn compile_template(&self, parts: &Vec<TemplateExpr>) -> (r: Result<Json, CompileError>)
        ensures
            json_result_view(r) == spec_compile(SpecExpr::Template(template_view(parts@))),
        decreases parts, 1nat,
    {
        let ghost sv = template_view(parts@);
        proof {
            crate::farmscript::ast::lemma_template_view(parts@);
        }
        let mut out: Vec<Json> = Vec::new();
        let mut i: usize = 0;
        while i < parts.len()
            invariant
                0 <= i <= parts@.len(),
                sv == template_view(parts@),
                sv.len() == parts@.len(),
                forall|k: int| 0 <= k < parts@.len() ==> #[trigger] sv[k] == crate::farmscript::ast::template_expr_view(parts@[k]),
                spec_template_parts(sv, 0) == match spec_template_parts(sv, i as int) {
                    Ok(rest) => Ok(jsons_view(out@) + rest),
                    Err(err) => Err::<Seq<SpecJson>, SpecCompileError>(err),
                },
            decreases parts@.len() - i,
        {
            let j = match &parts[i] {
                TemplateExpr::Literal(s) => Json::Str(s.clone()),
                TemplateExpr::Expr(e) => {
                    proof {
                        assert(decreases_to!(*parts => parts@));
                        assert(decreases_to!(parts@ => parts@[i as int]));
                        assert(decreases_to!(parts@[i as int] => parts@[i as int]->Expr_0));
                        assert(decreases_to!(*parts => parts@[i as int]->Expr_0));
                    }
                    self.compile(e)?
                },
            };
            let ghost old_out = jsons_view(out@);
            let ghost jv = j@;
            push_json(&mut out, j);
            i = i + 1;
            proof {
                match spec_template_parts(sv, i as int) {
                    Ok(rest) => {
                        assert(old_out + (seq![jv] + rest) =~= jsons_view(out@) + rest);
                    },
                    Err(err) => {},
                }
            }
        }
        assert(jsons_view(out@) + Seq::<SpecJson>::empty() =~= jsons_view(out@));
        Ok(op("cat", out))
    }
}

/// `a ?? b` on compiled operands: `if a != null then a else b`.
fn null_coalesce_of(a: Json, b: Json) -> (j: Json)
    ensures
        j@ == jop("if"@, seq![jop("!="@, seq![a@, SpecJson::Null]), a@, b@]),
{
    let a_copy = a.duplicate();
    let test = op("!=", two(a, Json::Null));
    op("if", three(test, a_copy, b))
}

impl Compiler {
    /// Compile an expression with variable substitution
    fn compile_with_substitution(&self, expr: &Expr, var_name: &String, replacement: &Json) -> (r: Result<
        Json,
        CompileError,
    >)
        ensures
            json_result_view(r) == spec_substitute(expr@, var_name@, replacement@),
        decreases expr, 2nat,
    {
        match expr {
            Expr::Var(v) => {
                if v.name == *var_name {
                    Ok(replacement.duplicate())
                } else {
                    Ok(self.compile_var(v))
                }
            },
            Expr::Literal(lit) => Ok(self.compile_literal(lit)),
            Expr::Binary(b) => {
                match b.op {
                    BinaryOp::And | BinaryOp::Or => {
                        let mut operands: Vec<Json> = Vec::new();
                        assert(jsons_view(operands@) =~= Seq::<SpecJson>::empty());
                        self.collect_logical_operands_with_sub(&b.left, b.op, &mut operands, var_name, replacement)?;
                        self.collect_logical_operands_with_sub(&b.right, b.op, &mut operands, var_name, replacement)?;
                        let name = if b.op == BinaryOp::And { owned("and") } else { owned("or") };
                        return Ok(make_op(name, operands));
                    },
                    _ => {},
                }
                let left = self.compile_with_substitution(&b.left, var_name, replacement)?;
                let right = self.compile_with_substitution(&b.right, var_name, replacement)?;
                Ok(binary_op_json(b.op, left, right))
            },
            Expr::Unary(u) => {
                let inner = self.compile_with_substitution(&u.expr, var_name, replacement)?;
                Ok(unary_op_json(u.op, inner))
            },
            Expr::Call(c) => {
                let args = self.substitute_items(&c.args, var_name, replacement)?;
                compile_call_with_args(&c.function, args)
            },
            Expr::If(if_expr) => self.substitute_if(if_expr, var_name, replacement),
            Expr::Array(items) => {
                let compiled = self.substitute_items(items, var_name, replacement)?;
                Ok(Json::Array(compiled))
            },
            _ => self.compile(expr),
        }
    }

    /// A conditional inside a `let` body.
    fn substitute_if(&self, if_expr: &IfExpr, var_name: &String, replacement: &Json) -> (r: Result<
        Json,
        CompileError,
    >)
        ensures
            json_result_view(r) == spec_substitute(
                SpecExpr::If(
                    Box::new(if_expr.condition@),
                    Box::new(if_expr.then_branch@),
                    option_view(if_expr.else_branch),
                    pairs_view(if_expr.else_ifs@),
                    if_expr.span,
                ),
                var_name@,
                replacement@,
            ),
        decreases if_expr, 2nat,
    {
        let mut args: Vec<Json> = Vec::new();
        let c = self.compile_with_substitution(&if_expr.condition, var_name, replacement)?;
        let t = self.compile_with_substitution(&if_expr.then_branch, var_name, replacement)?;
        let mid = self.substitute_pairs(&if_expr.else_ifs, var_name, replacement)?;
        let ghost cv = c@;
        let ghost tv = t@;
        let ghost mv = jsons_view(mid@);
        push_json(&mut args, c);
        push_json(&mut args, t);
        append_jsons(&mut args, mid);
        assert(jsons_view(args@) =~= seq![cv, tv] + mv);
        match &if_expr.else_branch {
            Some(else_branch) => {
                assert(option_view(if_expr.else_branch) == Some(Box::new(else_branch@)));
                let e = self.compile_with_substitution(else_branch, var_name, replacement)?;
                let ghost ev = e@;
                push_json(&mut args, e);
                assert(jsons_view(args@) =~= seq![cv, tv] + mv + seq![ev]);
                Ok(op("if", args))
            },
            None => {
                assert(option_view(if_expr.else_branch) == None::<Box<SpecExpr>>);
                Ok(op("if", args))
            },
        }
    }

    /// Collect logical operands with substitution
    fn collect_logical_operands_with_sub(
        &self,
        expr: &Expr,
        target: BinaryOp,
        operands: &mut Vec<Json>,
        var_name: &String,
        replacement: &Json,
    ) -> (r: Result<(), CompileError>)
        ensures
            match r {
                Ok(_) => spec_operands_sub(expr@, target, var_name@, replacement@) matches Ok(a)
                    && jsons_view(final(operands)@) == jsons_view(old(operands)@) + a,
                Err(err) => spec_operands_sub(expr@, target, var_name@, replacement@) == Err::<
                    Seq<SpecJson>,
                    SpecCompileError,
                >(err@),
            },
        decreases expr, 3nat,
    {
        if let Expr::Binary(binary) = expr {
            if binary.op == target {
                self.collect_logical_operands_with_sub(&binary.left, target, operands, var_name, replacement)?;
                self.collect_logical_operands_with_sub(&binary.right, target, operands, var_name, replacement)?;
                return Ok(());
            }
        }
        let j = self.compile_with_substitution(expr, var_name, replacement)?;
        push_json(operands, j);
        Ok(())
    }

    /// The expressions of a list inside a `let` body, in order.
    fn substitute_items(&self, items: &Vec<Expr>, var_name: &String, replacement: &Json) -> (r: Result<
        Vec<Json>,
        CompileError,
    >)
        ensures
            jsons_result_view(r) == spec_substitute_items(exprs_view(items@), 0, var_name@, replacement@),
        decreases items, 0nat,
    {
        let ghost sv = exprs_view(items@);
        proof {
            lemma_exprs_view(items@);
        }
        let mut out: Vec<Json> = Vec::new();
        let mut i: usize = 0;
        while i < items.len()
            invariant
                0 <= i <= items@.len(),
                sv == exprs_view(items@),
                sv.len() == items@.len(),
                forall|k: int| 0 <= k < items@.len() ==> #[trigger] sv[k] == expr_view(items@[k]),
                spec_substitute_items(sv, 0, var_name@, replacement@) == match spec_substitute_items(
                    sv,
                    i as int,
                    var_name@,
                    replacement@,
                ) {
                    Ok(rest) => Ok(jsons_view(out@) + rest),
                    Err(err) => Err::<Seq<SpecJson>, SpecCompileError>(err),
                },
            decreases items@.len() - i,
        {
            proof {
                assert(decreases_to!(*items => items@));
                assert(decreases_to!(items@ => items@[i as int]));
                assert(decreases_to!(*items => items@[i as int]));
            }
            let j = self.compile_with_substitution(&items[i], var_name, replacement)?;
            let ghost old_out = jsons_view(out@);
            let ghost jv = j@;
            push_json(&mut out, j);
            i = i + 1;
            proof {
                match spec_substitute_items(sv, i as int, var_name@, replacement@) {
                    Ok(rest) => {
                        assert(old_out + (seq![jv] + rest) =~= jsons_view(out@) + rest);
                    },
                    Err(err) => {},
                }
            }
        }
        assert(jsons_view(out@) + Seq::<SpecJson>::empty() =~= jsons_view(out@));
        Ok(out)
    }

    /// The `else if` pairs of a conditional inside a `let` body, in order.
    fn substitute_pairs(&self, pairs: &Vec<(Expr, Expr)>, var_name: &String, replacement: &Json) -> (r: Result<
        Vec<Json>,
        CompileError,
    >)
        ensures
            jsons_result_view(r) == spec_substitute_items(pairs_view(pairs@), 0, var_name@, replacement@),
        decreases pairs, 0nat,
    {
        let ghost sv = pairs_view(pairs@);
        proof {
            lemma_pairs_view(pairs@);
        }
        let mut out: Vec<Json> = Vec::new();
        let mut i: usize = 0;
        while i < pairs.len()
            invariant
                0 <= i <= pairs@.len(),
                sv == pairs_view(pairs@),
                sv.len() == 2 * pairs@.len(),
                forall|k: int| 0 <= k < pairs@.len() ==> #[trigger] sv[2 * k] == expr_view(pairs@[k].0),
                forall|k: int| 0 <= k < pairs@.len() ==> #[trigger] sv[2 * k + 1] == expr_view(pairs@[k].1),
                spec_substitute_items(sv, 0, var_name@, replacement@) == match spec_substitute_items(
                    sv,
                    2 * i,
                    var_name@,
                    replacement@,
                ) {
                    Ok(rest) => Ok(jsons_view(out@) + rest),
                    Err(err) => Err::<Seq<SpecJson>, SpecCompileError>(err),
                },
            decreases pairs@.len() - i,
        {
            proof {
                assert(decreases_to!(*pairs => pairs@));
                assert(decreases_to!(pairs@ => pairs@[i as int]));
                assert(decreases_to!(pairs@[i as int] => pairs@[i as int].0));
                assert(decreases_to!(pairs@[i as int] => pairs@[i as int].1));
                assert(decreases_to!(*pairs => pairs@[i as int].0));
                assert(decreases_to!(*pairs => pairs@[i as int].1));
                assert(sv[2 * i] == expr_view(pairs@[i as int].0));
                assert(sv[2 * i + 1] == expr_view(pairs@[i as int].1));
                assert(spec_substitute_items(sv, 2 * i + 1, var_name@, replacement@) == match spec_substitute(
                    sv[2 * i + 1],
                    var_name@,
                    replacement@,
                ) {
                    Ok(j) => match spec_substitute_items(sv, 2 * i + 2, var_name@, replacement@) {
                        Ok(rest) => Ok(seq![j] + rest),
                        Err(err) => Err(err),
                    },
                    Err(err) => Err::<Seq<SpecJson>, SpecCompileError>(err),
                });
            }
            let c = self.compile_with_substitution(&pairs[i].0, var_name, replacement)?;
            let t = self.compile_with_substitution(&pairs[i].1, var_name, replacement)?;
            let ghost old_out = jsons_view(out@);
            let ghost cv = c@;
            let ghost tv = t@;
            push_json(&mut out, c);
            push_json(&mut out, t);
            i = i + 1;
            proof {
                assert(2 * i == 2 * (i - 1) + 2);
                match spec_substitute_items(sv, 2 * i, var_name@, replacement@) {
                    Ok(rest) => {
                        assert(old_out + (seq![cv] + (seq![tv] + rest)) =~= jsons_view(out@) + rest);
                    },
                    Err(err) => {},
                }
            }
        }
        assert(jsons_view(out@) + Seq::<SpecJson>::empty() =~= jsons_view(out@));
        Ok(out)
    }

    fn transform_lambda_body(&self, expr: &Expr, param: &String, replacement: &str) -> (r: Result<
        Json,
        CompileError,
    >)
        ensures
            json_result_view(r) == spec_element(expr@, param@, replacement@),
        decreases expr, 2nat,
    {
        match expr {
            Expr::Var(v) => {
                if v.name == *param {
                    let path = str_chars(replacement);
                    Ok(var_json(&path))
                } else {
                    Ok(self.compile_var(v))
                }
            },
            Expr::Literal(lit) => Ok(self.compile_literal(lit)),
            Expr::Binary(b) => {
                let left = self.transform_lambda_body(&b.left, param, replacement)?;
                let right = self.transform_lambda_body(&b.right, param, replacement)?;
                match b.op {
                    BinaryOp::SafeDivZero | BinaryOp::SafeDivNull => self.compile_binary(b),
                    _ => Ok(op_by_name(b.op, left, right)),
                }
            },
            Expr::Unary(u) => {
                let inner = self.transform_lambda_body(&u.expr, param, replacement)?;
                Ok(unary_op_json(u.op, inner))
            },
            Expr::Call(c) => {
                let args = self.transform_items(&c.args, param, replacement)?;
                Ok(make_op(c.function.clone(), args))
            },
            _ => self.compile(expr),
        }
    }

    /// The arguments of a call inside a one-parameter lambda, in order.
    fn transform_items(&self, items: &Vec<Expr>, param: &String, replacement: &str) -> (r: Result<
        Vec<Json>,
        CompileError,
    >)
        ensures
            jsons_result_view(r) == spec_element_items(exprs_view(items@), 0, param@, replacement@),
        decreases items, 0nat,
    {
        let ghost sv = exprs_view(items@);
        proof {
            lemma_exprs_view(items@);
        }
        let mut out: Vec<Json> = Vec::new();
        let mut i: usize = 0;
        while i < items.len()
            invariant
                0 <= i <= items@.len(),
                sv == exprs_view(items@),
                sv.len() == items@.len(),
                forall|k: int| 0 <= k < items@.len() ==> #[trigger] sv[k] == expr_view(items@[k]),
                spec_element_items(sv, 0, param@, replacement@) == match spec_element_items(
                    sv,
                    i as int,
                    param@,
                    replacement@,
                ) {
                    Ok(rest) => Ok(jsons_view(out@) + rest),
                    Err(err) => Err::<Seq<SpecJson>, SpecCompileError>(err),
                },
            decreases items@.len() - i,
        {
            proof {
                assert(decreases_to!(*items => items@));
                assert(decreases_to!(items@ => items@[i as int]));
                assert(decreases_to!(*items => items@[i as int]));
            }
            let j = self.transform_lambda_body(&items[i], param, replacement)?;
            let ghost old_out = jsons_view(out@);
            let ghost jv = j@;
            push_json(&mut out, j);
            i = i + 1;
            proof {
                match spec_element_items(sv, i as int, param@, replacement@) {
                    Ok(rest) => {
                        assert(old_out + (seq![jv] + rest) =~= jsons_view(out@) + rest);
                    },
                    Err(err) => {},
                }
            }
        }
        assert(jsons_view(out@) + Seq::<SpecJson>::empty() =~= jsons_view(out@));
        Ok(out)
    }

    fn transform_reduce_lambda(&self, expr: &Expr, acc_param: &String, cur_param: &String) -> (r: Result<
        Json,
        CompileError,
    >)
        ensures
            json_result_view(r) == spec_reducer(expr@, acc_param@, cur_param@),
        decreases expr, 2nat,
    {
        match expr {
            Expr::Var(v) => {
                if v.name == *acc_param {
                    let path = str_chars("accumulator");
                    Ok(var_json(&path))
                } else if v.name == *cur_param {
                    let path = str_chars("current");
                    Ok(var_json(&path))
                } else {
                    Ok(self.compile_var(v))
                }
            },
            Expr::Literal(lit) => Ok(self.compile_literal(lit)),
            Expr::Binary(b) => {
                let left = self.transform_reduce_lambda(&b.left, acc_param, cur_param)?;
                let right = self.transform_reduce_lambda(&b.right, acc_param, cur_param)?;
                match b.op {
                    BinaryOp::SafeDivZero | BinaryOp::SafeDivNull => self.compile(expr),
                    _ => Ok(op_by_name(b.op, left, right)),
                }
            },
            _ => self.compile(expr),
        }
    }
}

/// The error `Unsupported(msg)`.
fn unsupported_err(msg: &str) -> (e: CompileError)
    ensures
        e@ == SpecCompileError::Unsupported(msg@),
{
    CompileError::Unsupported(owned(msg))
}

/// `{name: args}` when there are exactly `n` arguments.
fn checked(name: String, args: Vec<Json>, n: usize, msg: &str) -> (r: Result<Json, CompileError>)
    ensures
        json_result_view(r) == checked_op(name@, jsons_view(args@), n as nat, msg@),
{
    proof {
        lemma_jsons_view(args@);
    }
    if args.len() != n {
        Err(unsupported_err(msg))
    } else {
        Ok(make_op(name, args))
    }
}

fn abs_of(args: Vec<Json>) -> (r: Result<Json, CompileError>)
    ensures
        json_result_view(r) == abs_json(jsons_view(args@)),
{
    proof {
        lemma_jsons_view(args@);
    }
    if args.len() != 1 {
        return Err(unsupported_err("abs requires 1 argument"));
    }
    let x = first_of(&args);
    let x2 = x.duplicate();
    let x3 = x.duplicate();
    let test = op("<", two(x, Json::Int(0)));
    let neg = op("-", two(Json::Int(0), x2));
    Ok(op("if", three(test, neg, x3)))
}

fn clamp_of(args: Vec<Json>) -> (r: Result<Json, CompileError>)
    ensures
        json_result_view(r) == clamp_json(jsons_view(args@)),
{
    proof {
        lemma_jsons_view(args@);
    }
    if args.len() != 3 {
        return Err(unsupported_err("clamp requires 3 arguments (min, max, value)"));
    }
    let min_val = nth(&args, 0);
    let max_val = nth(&args, 1);
    let value = nth(&args, 2);
    let inner = op("min", two(max_val, value));
    Ok(op("max", two(min_val, inner)))
}

/// A function call on compiled arguments.
fn call_by_name(name: &String, args: Vec<Json>) -> (r: Result<Json, CompileError>)
    ensures
        json_result_view(r) == call_json(name@, jsons_view(args@)),
{
    proof {
        lemma_jsons_view(args@);
    }
    if is_text(name, "min") || is_text(name, "max") || is_text(name, "round") || is_text(name, "floor")
        || is_text(name, "ceil") || is_text(name, "cat") || is_text(name, "substr") || is_text(
        name,
        "merge",
    ) || is_text(name, "missing") {
        Ok(make_op(name.clone(), args))
    } else if is_text(name, "sum") {
        Ok(op("+", args))
    } else if is_text(name, "abs") {
        abs_of(args)
    } else if is_text(name, "pow") {
        checked(name.clone(), args, 2, "pow requires 2 arguments")
    } else if is_text(name, "sqrt") {
        checked(name.clone(), args, 1, "sqrt requires 1 argument")
    } else if is_text(name, "clamp") {
        clamp_of(args)
    } else if is_text(name, "safe_div") {
        if args.len() < 2 || args.len() > 3 {
            return Err(unsupported_err("safe_div requires 2-3 arguments"));
        }
        let a = nth(&args, 0);
        let b = nth(&args, 1);
        let default_val = if args.len() > 2 { nth(&args, 2) } else { Json::Int(0) };
        Ok(safe_div(a, b, default_val))
    } else if is_text(name, "len") || is_text(name, "length") {
        checked(owned("len"), args, 1, "len requires 1 argument")
    } else if is_text(name, "count") {
        checked(name.clone(), args, 1, "count requires 1 argument")
    } else if is_text(name, "missing_some") {
        checked(name.clone(), args, 2, "missing_some requires 2 arguments")
    } else if is_text(name, "log") {
        if args.len() != 1 {
            return Err(unsupported_err("log requires 1 argument"));
        }
        Ok(make_key(name.clone(), first_of(&args)))
    } else if is_text(name, "contains") {
        if args.len() != 2 {
            return Err(unsupported_err("contains requires 2 arguments"));
        }
        // contains(haystack, needle) = in(needle, haystack)
        let needle = nth(&args, 1);
        let haystack = nth(&args, 0);
        Ok(op("in", two(needle, haystack)))
    } else {
        Ok(make_op(name.clone(), args))
    }
}

/// A function call on arguments compiled inside a `let` body.
fn compile_call_with_args(function: &String, args: Vec<Json>) -> (r: Result<Json, CompileError>)
    ensures
        json_result_view(r) == call_with_args_json(function@, jsons_view(args@)),
{
    if is_text(function, "sum") {
        Ok(op("+", args))
    } else if is_text(function, "abs") {
        abs_of(args)
    } else if is_text(function, "clamp") {
        clamp_of(args)
    } else if is_text(function, "len") || is_text(function, "length") || is_text(function, "count") {
        Ok(op("count", args))
    } else if is_text(function, "substr") || is_text(function, "substring") {
        Ok(op("substr", args))
    } else if is_text(function, "cat") || is_text(function, "concat") {
        Ok(op("cat", args))
    } else {
        Ok(make_op(function.clone(), args))
    }
}

/// A method call on a compiled receiver and compiled arguments.
fn method_by_name(name: &String, object: Json, args: Vec<Json>) -> (r: Result<Json, CompileError>)
    ensures
        json_result_view(r) == method_json(name@, object@, jsons_view(args@)),
{
    proof {
        lemma_jsons_view(args@);
    }
    if is_text(name, "map") || is_text(name, "filter") || is_text(name, "all") || is_text(name, "some")
        || is_text(name, "none") {
        if args.len() != 1 {
            let mut msg = str_chars(name.as_str());
            push_str(&mut msg, " requires 1 argument");
            return Err(CompileError::Unsupported(string_from_chars(msg.as_slice())));
        }
        Ok(make_op(name.clone(), two(object, first_of(&args))))
    } else if is_text(name, "reduce") {
        if args.len() != 2 {
            return Err(unsupported_err("reduce requires 2 arguments (initial, reducer)"));
        }
        let reducer = nth(&args, 1);
        let initial = nth(&args, 0);
        Ok(make_op(name.clone(), three(object, reducer, initial)))
    } else if is_text(name, "contains") {
        if args.len() != 1 {
            return Err(unsupported_err("contains requires 1 argument"));
        }
        // obj.contains(x) = in(x, obj)
        Ok(op("in", two(first_of(&args), object)))
    } else if is_text(name, "length") || is_text(name, "len") {
        Ok(op("len", one(object)))
    } else {
        let mut all_args = one(object);
        append_jsons(&mut all_args, args);
        Ok(make_op(name.clone(), all_args))
    }
}

/// A binary operation (`and`/`or` aside) on compiled operands.
fn binary_op_json(op: BinaryOp, left: Json, right: Json) -> (j: Json)
    ensures
        j@ == binary_json(op, left@, right@),
{
    match op {
        BinaryOp::SafeDivZero => safe_div(left, right, Json::Int(0)),
        BinaryOp::SafeDivNull => safe_div(left, right, Json::Null),
        _ => op_by_name(op, left, right),
    }
}

/// `{op: [left, right]}` under the JSON Logic name of `op`.
fn op_by_name(operator: BinaryOp, left: Json, right: Json) -> (j: Json)
    ensures
        j@ == jop(op_name(operator), seq![left@, right@]),
{
    let name = match operator {
        BinaryOp::Add => "+",
        BinaryOp::Sub => "-",
        BinaryOp::Mul => "*",
        BinaryOp::Div | BinaryOp::SafeDivZero | BinaryOp::SafeDivNull => "/",
        BinaryOp::Mod => "%",
        BinaryOp::Pow => "pow",
        BinaryOp::Eq => "==",
        BinaryOp::StrictEq => "===",
        BinaryOp::NotEq => "!=",
        BinaryOp::StrictNotEq => "!==",
        BinaryOp::Lt => "<",
        BinaryOp::Gt => ">",
        BinaryOp::LtEq => "<=",
        BinaryOp::GtEq => ">=",
        BinaryOp::And => "and",
        BinaryOp::Or => "or",
        BinaryOp::In => "in",
    };
    op(name, two(left, right))
}

/// `if b == 0 then default else a / b`
fn safe_div(a: Json, b: Json, default: Json) -> (j: Json)
    ensures
        j@ == safe_div_json(a@, b@, default@),
{
    let b2 = b.duplicate();
    let test = op("==", two(b, Json::Int(0)));
    let div = op("/", two(a, b2));
    op("if", three(test, default, div))
}

fn unary_op_json(op_kind: UnaryOp, j: Json) -> (r: Json)
    ensures
        r@ == unary_json(op_kind, j@),
{
    match op_kind {
        UnaryOp::Not => key("!", j),
        UnaryOp::Neg => op("-", one(j)),
        UnaryOp::Plus => j,
    }
}

/// The integer value of a JSON Logic expression built from integers,
/// variables (`env` gives their values), `-`, `<` and `if`, when it has one
/// within `fuel` levels of nesting.  A comparison is 1 when it holds and 0
/// when it does not; `if` takes its second argument when the first is not 0.
pub open spec fn int_logic(j: SpecJson, env: spec_fn(Seq<char>) -> int, fuel: nat) -> Option<int>
    decreases fuel,
{
    if fuel == 0 {
        None
    } else {
        match j {
            SpecJson::Int(n) => Some(n as int),
            SpecJson::Object(m) => if m.len() != 1 {
                None
            } else if m[0].0 == "var"@ {
                match m[0].1 {
                    SpecJson::Str(path) => Some(env(path)),
                    _ => None,
                }
            } else {
                match m[0].1 {
                    SpecJson::Array(xs) => {
                        let f = (fuel - 1) as nat;
                        if m[0].0 == "-"@ && xs.len() == 2 {
                            match (int_logic(xs[0], env, f), int_logic(xs[1], env, f)) {
                                (Some(a), Some(b)) => Some(a - b),
                                _ => None,
                            }
                        } else if m[0].0 == "<"@ && xs.len() == 2 {
                            match (int_logic(xs[0], env, f), int_logic(xs[1], env, f)) {
                                (Some(a), Some(b)) => Some(if a < b { 1 } else { 0 }),
                                _ => None,
                            }
                        } else if m[0].0 == "if"@ && xs.len() == 3 {
                            match int_logic(xs[0], env, f) {
                                Some(c) => if c != 0 {
                                    int_logic(xs[1], env, f)
                                } else {
                                    int_logic(xs[2], env, f)
                                },
                                None => None,
                            }
                        } else {
                            None
                        }
                    },
                    _ => None,
                }
            },
            _ => None,
        }
    }
}

/// More nesting allowed does not change a value found.
pub proof fn lemma_int_logic_fuel(j: SpecJson, env: spec_fn(Seq<char>) -> int, fuel: nat)
    requires
        int_logic(j, env, fuel) is Some,
    ensures
        int_logic(j, env, fuel + 1) == int_logic(j, env, fuel),
    decreases fuel,
{
    reveal_strlit("var");
    reveal_strlit("-");
    reveal_strlit("<");
    reveal_strlit("if");
    let f = (fuel - 1) as nat;
    match j {
        SpecJson::Object(m) => {
            if m.len() == 1 {
                match m[0].1 {
                    SpecJson::Array(xs) => {
                        if xs.len() >= 1 && int_logic(xs[0], env, f) is Some {
                            lemma_int_logic_fuel(xs[0], env, f);
                        }
                        if xs.len() >= 2 && int_logic(xs[1], env, f) is Some {
                            lemma_int_logic_fuel(xs[1], env, f);
                        }
                        if xs.len() >= 3 && int_logic(xs[2], env, f) is Some {
                            lemma_int_logic_fuel(xs[2], env, f);
                        }
                    },
                    _ => {},
                }
            }
        },
        _ => {},
    }
}

/// `abs(x)` compiles to an expression whose value, wherever `x` has an
/// integer value `v`, is the absolute value of `v`: at least 0, and `v` or
/// `-v`.  So `abs(-5)` is 5 and `abs(5)` is 5.
pub proof fn lemma_abs_is_absolute(x: SpecJson, env: spec_fn(Seq<char>) -> int, fuel: nat)
    requires
        int_logic(x, env, fuel) is Some,
    ensures
        call_json("abs"@, seq![x]) matches Ok(j) && int_logic(j, env, fuel + 2) == Some(
            if int_logic(x, env, fuel).unwrap() < 0 {
                -int_logic(x, env, fuel).unwrap()
            } else {
                int_logic(x, env, fuel).unwrap()
            },
        ),
        call_with_args_json("abs"@, seq![x]) == call_json("abs"@, seq![x]),
{
    reveal_strlit("abs");
    reveal_strlit("min");
    reveal_strlit("max");
    reveal_strlit("round");
    reveal_strlit("floor");
    reveal_strlit("ceil");
    reveal_strlit("cat");
    reveal_strlit("substr");
    reveal_strlit("merge");
    reveal_strlit("missing");
    reveal_strlit("sum");
    reveal_strlit("var");
    reveal_strlit("-");
    reveal_strlit("<");
    reveal_strlit("if");
    lemma_int_logic_fuel(x, env, fuel);
    let v = int_logic(x, env, fuel).unwrap();
    let zero = SpecJson::Int(0);
    let test = jop("<"@, seq![x, zero]);
    let neg = jop("-"@, seq![zero, x]);
    assert(int_logic(zero, env, fuel) == Some(0int));
    assert(test == SpecJson::Object(seq![("<"@, SpecJson::Array(seq![x, zero]))]));
    assert(seq![("<"@, SpecJson::Array(seq![x, zero]))][0].0 == "<"@);
    assert(seq![x, zero][0] == x);
    assert(seq![x, zero][1] == zero);
    assert("<"@[0] == '<' && "-"@[0] == '-' && "if"@[0] == 'i');
    assert("<"@ != "-"@);
    assert(int_logic(x, env, (fuel + 1 - 1) as nat) == Some(v));
    assert(int_logic(test, env, fuel + 1) == Some(if v < 0 { 1int } else { 0int }));
    assert(int_logic(neg, env, fuel + 1) == Some(0 - v));
    let j = jop("if"@, seq![test, neg, x]);
    assert("abs"@[0] == 'a' && "min"@[0] == 'm' && "max"@[0] == 'm' && "cat"@[0] == 'c' && "sum"@[0] == 's');
    assert(call_json("abs"@, seq![x]) == Ok::<SpecJson, SpecCompileError>(j));
    assert(int_logic(j, env, fuel + 2) == int_logic(if v < 0 { neg } else { x }, env, fuel + 1));
}

/// Compiling the call `abs(e)` gives the absolute value of what `e`
/// compiles to: where `e`'s code has an integer value `v`, the call's code
/// has the value `|v|`.
pub proof fn lemma_abs_call_is_absolute(e: SpecExpr, span: Span, env: spec_fn(Seq<char>) -> int, fuel: nat)
    requires
        spec_compile(e) matches Ok(a) && int_logic(a, env, fuel) is Some,
    ensures
        spec_compile(SpecExpr::Call("abs"@, seq![e], span)) matches Ok(j) && int_logic(j, env, fuel + 2) == Some(
            if int_logic(spec_compile(e)->Ok_0, env, fuel).unwrap() < 0 {
                -int_logic(spec_compile(e)->Ok_0, env, fuel).unwrap()
            } else {
                int_logic(spec_compile(e)->Ok_0, env, fuel).unwrap()
            },
        ),
{
    let a = spec_compile(e)->Ok_0;
    assert(spec_compile_items(seq![e], 1) == Ok::<Seq<SpecJson>, SpecCompileError>(seq![]));
    assert(seq![a] + Seq::<SpecJson>::empty() =~= seq![a]);
    assert(spec_compile_items(seq![e], 0) == Ok::<Seq<SpecJson>, SpecCompileError>(seq![a]));
    lemma_abs_is_absolute(a, env, fuel);
}

} // verus!
