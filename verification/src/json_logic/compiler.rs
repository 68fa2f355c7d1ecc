//! Bytecode compiler for JSON Logic expressions
//!
//! Compiles an expression to a stack-based bytecode: a list of operation
//! bytes with their arguments, a pool of constants and the table of the
//! variables it reads.  Short-circuit operators and conditionals jump
//! forward by offsets written once the code they skip is known.

use vstd::prelude::*;
use crate::json::{Json, SpecJson};
use crate::json_logic::ast::{exprs_nodes, expr_nodes, vars_of, Expr, VarExpr};
use crate::json_logic::opcode::{byte_opcode, lemma_opcode_round_trip, opcode_byte, OpCode};

verus! {

/// An error of compiling an expression to bytecode
#[derive(Debug)]
pub enum JsonLogicError {
    /// The expression uses what the bytecode cannot express
    CompilationError(String),
    /// A variable that was not collected
    VariableNotFound(String),
    /// An operation with the wrong number of arguments
    InvalidArgumentCount { op: String, expected: String, actual: usize },
    /// Evaluation took more steps or more pending work than allowed
    StackOverflow,
    /// Division or remainder by zero
    DivisionByZero,
    /// Evaluation failed for another reason
    RuntimeError(String),
}

/// Model of a [`JsonLogicError`].
pub enum SpecJsonLogicError {
    CompilationError(Seq<char>),
    VariableNotFound(Seq<char>),
    InvalidArgumentCount { op: Seq<char>, expected: Seq<char>, actual: nat },
    StackOverflow,
    DivisionByZero,
    RuntimeError(Seq<char>),
}

impl View for JsonLogicError {
    type V = SpecJsonLogicError;

    open spec fn view(&self) -> SpecJsonLogicError {
        match self {
            JsonLogicError::CompilationError(s) => SpecJsonLogicError::CompilationError(s@),
            JsonLogicError::VariableNotFound(s) => SpecJsonLogicError::VariableNotFound(s@),
            JsonLogicError::InvalidArgumentCount { op, expected, actual } => SpecJsonLogicError::InvalidArgumentCount {
                op: op@,
                expected: expected@,
                actual: *actual as nat,
            },
            JsonLogicError::StackOverflow => SpecJsonLogicError::StackOverflow,
            JsonLogicError::DivisionByZero => SpecJsonLogicError::DivisionByZero,
            JsonLogicError::RuntimeError(s) => SpecJsonLogicError::RuntimeError(s@),
        }
    }
}

/// Code generated so far: the bytes and the constant pool.
pub struct Gen {
    pub code: Seq<u8>,
    pub consts: Seq<SpecJson>,
}

/// What compiling comes to: a result, an error, or a panic (an empty
/// subtraction or an empty chain of comparisons, which the compiler
/// indexes or counts down past).
pub enum Outcome<T> {
    Done(T),
    Failed(SpecJsonLogicError),
    Panics,
}

/// The low byte of a 16-bit argument.
pub open spec fn lo(x: u16) -> u8 {
    (x % 256) as u8
}

/// The high byte of a 16-bit argument.
pub open spec fn hi(x: u16) -> u8 {
    (x / 256) as u8
}

/// The index of the first constant equal to `v`, from `i` on (the pool's
/// length when there is none).
pub open spec fn const_index(consts: Seq<SpecJson>, v: SpecJson, i: int) -> int
    decreases consts.len() - i,
{
    if i < 0 || i >= consts.len() {
        consts.len() as int
    } else if consts[i] == v {
        i
    } else {
        const_index(consts, v, i + 1)
    }
}

/// Add a constant to the pool unless an equal one is there, and its index.
pub open spec fn add_const(g: Gen, v: SpecJson) -> (Gen, u16) {
    let i = const_index(g.consts, v, 0);
    if i < g.consts.len() {
        (g, i as u16)
    } else {
        (Gen { code: g.code, consts: g.consts.push(v) }, g.consts.len() as u16)
    }
}

pub open spec fn emit(g: Gen, op: OpCode) -> Gen {
    Gen { code: g.code.push(opcode_byte(op)), consts: g.consts }
}

pub open spec fn emit_u16(g: Gen, op: OpCode, arg: u16) -> Gen {
    Gen { code: g.code + seq![opcode_byte(op), lo(arg), hi(arg)], consts: g.consts }
}

pub open spec fn emit_u8(g: Gen, op: OpCode, arg: u8) -> Gen {
    Gen { code: g.code + seq![opcode_byte(op), arg], consts: g.consts }
}

/// A constant loaded by its index.
pub open spec fn load_const(g: Gen, v: SpecJson) -> Gen {
    emit_u16(add_const(g, v).0, OpCode::LoadConst, add_const(g, v).1)
}

/// The index of a variable: where its name first stands in the table.
pub open spec fn var_index(names: Seq<Seq<char>>, path: Seq<char>, i: int) -> Option<u16>
    decreases names.len() - i,
{
    if i < 0 || i >= names.len() {
        None
    } else if names[i] == path {
        Some(i as u16)
    } else {
        var_index(names, path, i + 1)
    }
}

/// The offset a forward jump at `pos` takes to reach `end`.
pub open spec fn jump_offset(pos: int, end: int) -> u16 {
    (end - pos - 3) as u16
}

/// Write the offset to `end` into the jump at `pos`.
pub open spec fn patch(code: Seq<u8>, pos: int, end: int) -> Seq<u8> {
    code.update(pos + 1, lo(jump_offset(pos, end))).update(pos + 2, hi(jump_offset(pos, end)))
}

/// Write the offsets to `end` into the jumps at `jumps`, first to last.
pub open spec fn patch_all(code: Seq<u8>, jumps: Seq<int>, end: int) -> Seq<u8>
    decreases jumps.len(),
{
    if jumps.len() == 0 {
        code
    } else {
        patch(patch_all(code, jumps.drop_last(), end), jumps.last(), end)
    }
}

pub open spec fn compilation_error(msg: Seq<char>) -> SpecJsonLogicError {
    SpecJsonLogicError::CompilationError(msg)
}

/// The code of a variable read.
pub open spec fn spec_compile_var(v: VarExpr, g: Gen, names: Seq<Seq<char>>) -> Outcome<Gen> {
    if v.path@.len() == 0 {
        Outcome::Failed(compilation_error("Empty var path not supported in bytecode"@))
    } else {
        match var_index(names, v.path@, 0) {
            Some(idx) => match v.default {
                Some(d) => {
                    let g1 = add_const(g, d@).0;
                    let di = add_const(g, d@).1;
                    Outcome::Done(
                        Gen {
                            code: g1.code + seq![opcode_byte(OpCode::LoadVarWithDefault), lo(idx), hi(idx), lo(di), hi(di)],
                            consts: g1.consts,
                        },
                    )
                },
                None => Outcome::Done(emit_u16(g, OpCode::LoadVar, idx)),
            },
            None => Outcome::Failed(SpecJsonLogicError::VariableNotFound(v.path@)),
        }
    }
}

/// The nodes of the operands from the `i`-th on.
pub open spec fn rest_nodes(xs: Seq<Expr>, i: int) -> nat {
    if 0 <= i <= xs.len() {
        exprs_nodes(xs.subrange(i, xs.len() as int))
    } else {
        0
    }
}

/// The operands from the `i`-th on hold the `i`-th and those after it.
pub proof fn lemma_rest_nodes(xs: Seq<Expr>, i: int)
    requires
        0 <= i < xs.len(),
    ensures
        rest_nodes(xs, i) == expr_nodes(xs[i]) + rest_nodes(xs, i + 1),
        expr_nodes(xs[i]) >= 1,
{
    let r = xs.subrange(i, xs.len() as int);
    assert(r[0] == xs[i]);
    assert(r.subrange(1, r.len() as int) =~= xs.subrange(i + 1, xs.len() as int));
    crate::json_logic::ast::lemma_expr_nodes_positive(xs[i]);
}

/// All operands together have the nodes of the list.
pub proof fn lemma_rest_nodes_all(xs: Seq<Expr>)
    ensures
        rest_nodes(xs, 0) == exprs_nodes(xs),
{
    assert(xs.subrange(0, xs.len() as int) =~= xs);
}

/// Three operands have the nodes of each.
pub proof fn lemma_three_nodes(a: Expr, b: Expr, c: Expr)
    ensures
        exprs_nodes(seq![a, b, c]) == expr_nodes(a) + expr_nodes(b) + expr_nodes(c),
{
    let s = seq![a, b, c];
    let s1 = seq![b, c];
    let s2 = seq![c];
    let s3 = Seq::<Expr>::empty();
    assert(s.subrange(1, 3) =~= s1);
    assert(s1.subrange(1, 2) =~= s2);
    assert(s2.subrange(1, 1) =~= s3);
    assert(exprs_nodes(s3) == 0);
    assert(exprs_nodes(s2) == expr_nodes(c) + exprs_nodes(s3));
    assert(exprs_nodes(s1) == expr_nodes(b) + exprs_nodes(s2));
    assert(exprs_nodes(s) == expr_nodes(a) + exprs_nodes(s1));
}

/// The code of an expression, appended to `g`.
pub open spec fn spec_compile(e: Expr, g: Gen, names: Seq<Seq<char>>) -> Outcome<Gen>
    decreases expr_nodes(e), 0nat,
{
    match e {
        Expr::Literal(v) => Outcome::Done(load_const(g, v@)),
        Expr::Var(v) => spec_compile_var(v, g, names),
        Expr::Eq(a, b) => spec_binary(*a, *b, OpCode::Eq, g, names),
        Expr::StrictEq(a, b) => spec_binary(*a, *b, OpCode::StrictEq, g, names),
        Expr::Ne(a, b) => spec_binary(*a, *b, OpCode::Ne, g, names),
        Expr::StrictNe(a, b) => spec_binary(*a, *b, OpCode::StrictNe, g, names),
        Expr::Lt(v) => spec_chain(v@, OpCode::Lt, g, names),
        Expr::Le(v) => spec_chain(v@, OpCode::Le, g, names),
        Expr::Gt(v) => spec_chain(v@, OpCode::Gt, g, names),
        Expr::Ge(v) => spec_chain(v@, OpCode::Ge, g, names),
        Expr::Not(a) => spec_unary(*a, OpCode::Not, g, names),
        Expr::ToBool(a) => spec_unary(*a, OpCode::ToBool, g, names),
        Expr::And(v) => spec_short_circuit(v@, OpCode::JumpIfFalse, true, g, names),
        Expr::Or(v) => spec_short_circuit(v@, OpCode::JumpIfTrue, false, g, names),
        Expr::If(v) => spec_if(v@, g, names),
        Expr::Ternary(c, t, f) => {
            proof {
                lemma_three_nodes(*c, *t, *f);
            }
            spec_if(seq![*c, *t, *f], g, names)
        },
        Expr::Add(v) => spec_nary(v@, OpCode::Add, "Add"@, g, names),
        Expr::Sub(v) => if v@.len() == 1 {
            proof {
                lemma_rest_nodes_all(v@);
                lemma_rest_nodes(v@, 0);
            }
            spec_unary(v@[0], OpCode::Neg, g, names)
        } else if v@.len() >= 2 {
            spec_binary(v@[0], v@[1], OpCode::Sub, g, names)
        } else {
            Outcome::Panics
        },
        Expr::Mul(v) => spec_nary(v@, OpCode::Mul, "Mul"@, g, names),
        Expr::Div(a, b) => spec_binary(*a, *b, OpCode::Div, g, names),
        Expr::Mod(a, b) => spec_binary(*a, *b, OpCode::Mod, g, names),
        Expr::Min(v) => spec_counted(v@, OpCode::Min, g, names),
        Expr::Max(v) => spec_counted(v@, OpCode::Max, g, names),
        Expr::Cat(v) => spec_counted(v@, OpCode::Cat, g, names),
        Expr::Substr(s, start, len) => match spec_compile(*s, g, names) {
            Outcome::Done(g1) => match spec_compile(*start, g1, names) {
                Outcome::Done(g2) => match len {
                    Some(l) => match spec_compile(*l, g2, names) {
                        Outcome::Done(g3) => Outcome::Done(emit_u8(g3, OpCode::Substr, 1)),
                        Outcome::Failed(err) => Outcome::Failed(err),
                        Outcome::Panics => Outcome::Panics,
                    },
                    None => Outcome::Done(emit_u8(g2, OpCode::Substr, 0)),
                },
                Outcome::Failed(err) => Outcome::Failed(err),
                Outcome::Panics => Outcome::Panics,
            },
            Outcome::Failed(err) => Outcome::Failed(err),
            Outcome::Panics => Outcome::Panics,
        },
        Expr::In(a, b) => spec_binary(*a, *b, OpCode::In, g, names),
        _ => Outcome::Failed(compilation_error("Operation not supported in bytecode mode"@)),
    }
}

/// The operand, then the operation.
pub open spec fn spec_unary(a: Expr, op: OpCode, g: Gen, names: Seq<Seq<char>>) -> Outcome<Gen>
    decreases expr_nodes(a), 1nat,
{
    match spec_compile(a, g, names) {
        Outcome::Done(g1) => Outcome::Done(emit(g1, op)),
        Outcome::Failed(err) => Outcome::Failed(err),
        Outcome::Panics => Outcome::Panics,
    }
}

/// Both operands, then the operation.
pub open spec fn spec_binary(a: Expr, b: Expr, op: OpCode, g: Gen, names: Seq<Seq<char>>) -> Outcome<Gen>
    decreases expr_nodes(a) + expr_nodes(b), 1nat,
{
    match spec_compile(a, g, names) {
        Outcome::Done(g1) => match spec_compile(b, g1, names) {
            Outcome::Done(g2) => Outcome::Done(emit(g2, op)),
            Outcome::Failed(err) => Outcome::Failed(err),
            Outcome::Panics => Outcome::Panics,
        },
        Outcome::Failed(err) => Outcome::Failed(err),
        Outcome::Panics => Outcome::Panics,
    }
}

/// The operands from the `i`-th on, in order.
pub open spec fn spec_all(xs: Seq<Expr>, i: int, g: Gen, names: Seq<Seq<char>>) -> Outcome<Gen>
    decreases rest_nodes(xs, i), 1nat,
{
    if i < 0 || i >= xs.len() {
        Outcome::Done(g)
    } else {
        proof {
            lemma_rest_nodes(xs, i);
        }
        match spec_compile(xs[i], g, names) {
            Outcome::Done(g1) => spec_all(xs, i + 1, g1, names),
            Outcome::Failed(err) => Outcome::Failed(err),
            Outcome::Panics => Outcome::Panics,
        }
    }
}

/// All operands, then the operation with their count (as a byte).
pub open spec fn spec_counted(xs: Seq<Expr>, op: OpCode, g: Gen, names: Seq<Seq<char>>) -> Outcome<Gen>
    decreases exprs_nodes(xs), 2nat,
{
    proof {
        lemma_rest_nodes_all(xs);
    }
    match spec_all(xs, 0, g, names) {
        Outcome::Done(g1) => Outcome::Done(emit_u8(g1, op, xs.len() as u8)),
        Outcome::Failed(err) => Outcome::Failed(err),
        Outcome::Panics => Outcome::Panics,
    }
}

/// The operands from the `i`-th on, each followed by the operation.
pub open spec fn spec_nary_rest(xs: Seq<Expr>, i: int, op: OpCode, g: Gen, names: Seq<Seq<char>>) -> Outcome<Gen>
    decreases rest_nodes(xs, i), 1nat,
{
    if i < 0 || i >= xs.len() {
        Outcome::Done(g)
    } else {
        proof {
            lemma_rest_nodes(xs, i);
        }
        match spec_compile(xs[i], g, names) {
            Outcome::Done(g1) => spec_nary_rest(xs, i + 1, op, emit(g1, op), names),
            Outcome::Failed(err) => Outcome::Failed(err),
            Outcome::Panics => Outcome::Panics,
        }
    }
}

/// A left-associative operation over at least one operand.
pub open spec fn spec_nary(xs: Seq<Expr>, op: OpCode, name: Seq<char>, g: Gen, names: Seq<Seq<char>>) -> Outcome<Gen>
    decreases exprs_nodes(xs), 2nat,
{
    if xs.len() == 0 {
        Outcome::Failed(SpecJsonLogicError::InvalidArgumentCount { op: name, expected: "at least 1"@, actual: 0 })
    } else {
        proof {
            lemma_rest_nodes_all(xs);
            lemma_rest_nodes(xs, 0);
        }
        match spec_compile(xs[0], g, names) {
            Outcome::Done(g1) => spec_nary_rest(xs, 1, op, g1, names),
            Outcome::Failed(err) => Outcome::Failed(err),
            Outcome::Panics => Outcome::Panics,
        }
    }
}

/// The comparisons of neighbouring operands from the `i`-th on, each but
/// the first followed by `And`.
pub open spec fn spec_chain_rest(xs: Seq<Expr>, i: int, op: OpCode, g: Gen, names: Seq<Seq<char>>) -> Outcome<Gen>
    decreases rest_nodes(xs, i), 1nat,
{
    if i < 0 || i + 1 >= xs.len() {
        Outcome::Done(g)
    } else {
        proof {
            lemma_rest_nodes(xs, i);
            lemma_rest_nodes(xs, i + 1);
        }
        match spec_compile(xs[i], g, names) {
            Outcome::Done(g1) => match spec_compile(xs[i + 1], g1, names) {
                Outcome::Done(g2) => {
                    let g3 = emit(g2, op);
                    spec_chain_rest(xs, i + 1, op, if i > 0 { emit(g3, OpCode::And) } else { g3 }, names)
                },
                Outcome::Failed(err) => Outcome::Failed(err),
                Outcome::Panics => Outcome::Panics,
            },
            Outcome::Failed(err) => Outcome::Failed(err),
            Outcome::Panics => Outcome::Panics,
        }
    }
}

/// A comparison: of two operands, or a chain (`a < b < c` as `a < b` and
/// `b < c`); an empty chain panics.
pub open spec fn spec_chain(xs: Seq<Expr>, op: OpCode, g: Gen, names: Seq<Seq<char>>) -> Outcome<Gen>
    decreases exprs_nodes(xs), 2nat,
{
    proof {
        lemma_rest_nodes_all(xs);
    }
    if xs.len() == 0 {
        Outcome::Panics
    } else if xs.len() == 2 {
        proof {
            lemma_rest_nodes(xs, 0);
            lemma_rest_nodes(xs, 1);
        }
        spec_binary(xs[0], xs[1], op, g, names)
    } else {
        spec_chain_rest(xs, 0, op, g, names)
    }
}

/// The operands from the `i`-th on, each but the last followed by a
/// short-circuit jump; and the positions of those jumps.
pub open spec fn spec_sc_rest(
    xs: Seq<Expr>,
    i: int,
    jump: OpCode,
    g: Gen,
    jumps: Seq<int>,
    names: Seq<Seq<char>>,
) -> Outcome<(Gen, Seq<int>)>
    decreases rest_nodes(xs, i), 1nat,
{
    if i < 0 || i >= xs.len() {
        Outcome::Done((g, jumps))
    } else {
        proof {
            lemma_rest_nodes(xs, i);
        }
        match spec_compile(xs[i], g, names) {
            Outcome::Done(g1) => if i < xs.len() - 1 {
                let pos = g1.code.len() + 2int;
                let g2 = Gen {
                    code: g1.code + seq![
                        opcode_byte(OpCode::Dup),
                        opcode_byte(OpCode::ToBool),
                        opcode_byte(jump),
                        0u8,
                        0u8,
                        opcode_byte(OpCode::Pop),
                    ],
                    consts: g1.consts,
                };
                spec_sc_rest(xs, i + 1, jump, g2, jumps.push(pos), names)
            } else {
                spec_sc_rest(xs, i + 1, jump, g1, jumps, names)
            },
            Outcome::Failed(err) => Outcome::Failed(err),
            Outcome::Panics => Outcome::Panics,
        }
    }
}

/// `and` / `or`: each operand but the last jumps to the end when it decides
/// the result; no operands give the constant `empty`.
pub open spec fn spec_short_circuit(xs: Seq<Expr>, jump: OpCode, empty: bool, g: Gen, names: Seq<Seq<char>>) -> Outcome<Gen>
    decreases exprs_nodes(xs), 2nat,
{
    if xs.len() == 0 {
        Outcome::Done(load_const(g, SpecJson::Bool(empty)))
    } else {
        proof {
            lemma_rest_nodes_all(xs);
        }
        match spec_sc_rest(xs, 0, jump, g, seq![], names) {
            Outcome::Done((g1, jumps)) => Outcome::Done(Gen { code: patch_all(g1.code, jumps, g1.code.len() as int), consts: g1.consts }),
            Outcome::Failed(err) => Outcome::Failed(err),
            Outcome::Panics => Outcome::Panics,
        }
    }
}

/// The condition/branch pairs from the `i`-th operand on (a last odd
/// operand is the else branch); each condition jumps past its branch when
/// false, each branch but the last jumps to the end; and the positions of
/// those end jumps.
pub open spec fn spec_if_rest(xs: Seq<Expr>, i: int, g: Gen, ends: Seq<int>, names: Seq<Seq<char>>) -> Outcome<(Gen, Seq<int>)>
    decreases rest_nodes(xs, i), 1nat,
{
    if i < 0 || i >= xs.len() {
        Outcome::Done((g, ends))
    } else if i + 1 < xs.len() {
        proof {
            lemma_rest_nodes(xs, i);
            lemma_rest_nodes(xs, i + 1);
        }
        match spec_compile(xs[i], g, names) {
            Outcome::Done(g1) => {
                let g2 = emit(g1, OpCode::ToBool);
                let fpos = g2.code.len() as int;
                match spec_compile(xs[i + 1], emit_u16(g2, OpCode::JumpIfFalse, 0), names) {
                    Outcome::Done(g3) => {
                        let g4 = if i + 2 < xs.len() { emit_u16(g3, OpCode::Jump, 0) } else { g3 };
                        let ends2 = if i + 2 < xs.len() { ends.push(g3.code.len() as int) } else { ends };
                        spec_if_rest(
                            xs,
                            i + 2,
                            Gen { code: patch(g4.code, fpos, g4.code.len() as int), consts: g4.consts },
                            ends2,
                            names,
                        )
                    },
                    Outcome::Failed(err) => Outcome::Failed(err),
                    Outcome::Panics => Outcome::Panics,
                }
            },
            Outcome::Failed(err) => Outcome::Failed(err),
            Outcome::Panics => Outcome::Panics,
        }
    } else {
        proof {
            lemma_rest_nodes(xs, i);
        }
        match spec_compile(xs[i], g, names) {
            Outcome::Done(g1) => spec_if_rest(xs, i + 1, g1, ends, names),
            Outcome::Failed(err) => Outcome::Failed(err),
            Outcome::Panics => Outcome::Panics,
        }
    }
}

/// `if`: no operands give `null`, one is compiled alone, more are
/// condition/branch pairs with an optional else branch.
pub open spec fn spec_if(xs: Seq<Expr>, g: Gen, names: Seq<Seq<char>>) -> Outcome<Gen>
    decreases exprs_nodes(xs), 2nat,
{
    proof {
        lemma_rest_nodes_all(xs);
    }
    if xs.len() == 0 {
        Outcome::Done(load_const(g, SpecJson::Null))
    } else if xs.len() == 1 {
        proof {
            lemma_rest_nodes(xs, 0);
        }
        spec_compile(xs[0], g, names)
    } else {
        match spec_if_rest(xs, 0, g, seq![], names) {
            Outcome::Done((g1, ends)) => Outcome::Done(Gen { code: patch_all(g1.code, ends, g1.code.len() as int), consts: g1.consts }),
            Outcome::Failed(err) => Outcome::Failed(err),
            Outcome::Panics => Outcome::Panics,
        }
    }
}

// ---------------------------------------------------------------------------
// The compiler
// ---------------------------------------------------------------------------

/// The variables of an expression, each once, in the order they are first
/// met.
pub open spec fn unique_names(vars: Seq<Seq<char>>) -> Seq<Seq<char>>
    decreases vars.len(),
{
    if vars.len() == 0 {
        seq![]
    } else {
        let prev = unique_names(vars.drop_last());
        if prev.contains(vars.last()) {
            prev
        } else {
            prev.push(vars.last())
        }
    }
}

pub open spec fn empty_gen() -> Gen {
    Gen { code: seq![], consts: seq![] }
}

/// The bytecode of an expression: its code, then `Return`.
pub open spec fn spec_bytecode(e: Expr) -> Outcome<Gen> {
    match spec_compile(e, empty_gen(), unique_names(vars_of(e))) {
        Outcome::Done(g) => Outcome::Done(emit(g, OpCode::Return)),
        Outcome::Failed(err) => Outcome::Failed(err),
        Outcome::Panics => Outcome::Panics,
    }
}

pub open spec fn consts_view(v: Seq<Json>) -> Seq<SpecJson> {
    v.map_values(|j: Json| j@)
}

pub open spec fn names_view(v: Seq<String>) -> Seq<Seq<char>> {
    v.map_values(|s: String| s@)
}

pub open spec fn deref_all(v: Seq<&Expr>) -> Seq<Expr> {
    v.map_values(|e: &Expr| *e)
}

/// Compiled bytecode for a JSON Logic expression
#[derive(Debug)]
pub struct CompiledBytecode {
    /// The bytecode instructions
    pub bytecode: Vec<u8>,
    /// Constant pool
    pub constants: Vec<Json>,
    /// Variable names in order (index -> name)
    pub variable_names: Vec<String>,
}

impl CompiledBytecode {
    /// Get the size of the bytecode in bytes
    pub fn size(&self) -> (n: usize)
        ensures
            n == self.bytecode@.len(),
    {
        self.bytecode.len()
    }

    /// Get the number of variables
    pub fn variable_count(&self) -> (n: usize)
        ensures
            n == self.variable_names@.len(),
    {
        self.variable_names.len()
    }

    /// Get the number of constants
    pub fn constant_count(&self) -> (n: usize)
        ensures
            n == self.constants@.len(),
    {
        self.constants.len()
    }

    /// The index of a variable (the variable map, name to index).
    pub fn variable_index(&self, name: &str) -> (r: Option<u16>)
        ensures
            r == var_index(names_view(self.variable_names@), name@, 0),
    {
        find_variable(&self.variable_names, name)
    }
}

fn find_variable(names: &Vec<String>, path: &str) -> (r: Option<u16>)
    ensures
        r == var_index(names_view(names@), path@, 0),
{
    let p = crate::text::str_chars(path);
    let mut i: usize = 0;
    while i < names.len()
        invariant
            0 <= i <= names@.len(),
            p@ == path@,
            var_index(names_view(names@), path@, 0) == var_index(names_view(names@), path@, i as int),
        decreases names@.len() - i,
    {
        let n = crate::text::str_chars(names[i].as_str());
        if crate::text::chars_equal(n.as_slice(), p.as_slice()) {
            return Some(i as u16);
        }
        i = i + 1;
    }
    None
}

proof fn lemma_rest_nodes_le(xs: Seq<Expr>, i: int)
    requires
        0 <= i <= xs.len(),
    ensures
        rest_nodes(xs, i) <= exprs_nodes(xs),
    decreases i,
{
    if i == 0 {
        lemma_rest_nodes_all(xs);
    } else {
        lemma_rest_nodes_le(xs, i - 1);
        lemma_rest_nodes(xs, i - 1);
    }
}

/// Code being generated.
struct Emitter {
    code: Vec<u8>,
    consts: Vec<Json>,
}

impl Emitter {
    spec fn gen(&self) -> Gen {
        Gen { code: self.code@, consts: consts_view(self.consts@) }
    }

    fn add_constant(&mut self, v: &Json) -> (i: u16)
        ensures
            (final(self).gen(), i) == add_const(old(self).gen(), v@),
    {
        let ghost g = self.gen();
        let mut i: usize = 0;
        while i < self.consts.len()
            invariant
                0 <= i <= self.consts@.len(),
                self.gen() == g,
                const_index(g.consts, v@, 0) == const_index(g.consts, v@, i as int),
            decreases self.consts@.len() - i,
        {
            if self.consts[i].same(v) {
                return i as u16;
            }
            i = i + 1;
        }
        let n = self.consts.len();
        self.consts.push(v.duplicate());
        assert(consts_view(self.consts@) =~= g.consts.push(v@));
        n as u16
    }

    fn emit(&mut self, op: OpCode)
        ensures
            final(self).gen() == emit(old(self).gen(), op),
    {
        self.code.push(op.to_byte());
    }

    fn emit_u16(&mut self, op: OpCode, arg: u16)
        ensures
            final(self).gen() == emit_u16(old(self).gen(), op, arg),
    {
        let ghost c = self.code@;
        self.code.push(op.to_byte());
        self.code.push((arg % 256) as u8);
        self.code.push((arg / 256) as u8);
        assert(self.code@ =~= c + seq![opcode_byte(op), lo(arg), hi(arg)]);
    }

    fn emit_u8(&mut self, op: OpCode, arg: u8)
        ensures
            final(self).gen() == emit_u8(old(self).gen(), op, arg),
    {
        let ghost c = self.code@;
        self.code.push(op.to_byte());
        self.code.push(arg);
        assert(self.code@ =~= c + seq![opcode_byte(op), arg]);
    }

    fn load_const(&mut self, v: &Json)
        ensures
            final(self).gen() == load_const(old(self).gen(), v@),
    {
        let i = self.add_constant(v);
        self.emit_u16(OpCode::LoadConst, i);
    }

    /// Write the offset to the end of the code into the jump at `pos`.
    fn patch(&mut self, pos: usize)
        requires
            pos + 3 <= old(self).code@.len(),
        ensures
            final(self).gen() == (Gen { code: patch(old(self).code@, pos as int, old(self).code@.len() as int), consts: old(self).gen().consts }),
            final(self).code@.len() == old(self).code@.len(),
    {
        let end = self.code.len();
        let offset: u16 = (end - pos - 3) as u16;
        self.code.set(pos + 1, (offset % 256) as u8);
        self.code.set(pos + 2, (offset / 256) as u8);
    }

    /// Write the offsets to the end of the code into the jumps at `jumps`.
    fn patch_all(&mut self, jumps: &Vec<usize>)
        requires
            forall|k: int| 0 <= k < jumps@.len() ==> #[trigger] jumps@[k] + 3 <= old(self).code@.len(),
        ensures
            final(self).gen() == (Gen {
                code: patch_all(old(self).code@, jumps@.map_values(|j: usize| j as int), old(self).code@.len() as int),
                consts: old(self).gen().consts,
            }),
            final(self).code@.len() == old(self).code@.len(),
    {
        let ghost c0 = self.code@;
        let ghost js = jumps@.map_values(|j: usize| j as int);
        let mut k: usize = 0;
        while k < jumps.len()
            invariant
                0 <= k <= jumps@.len(),
                js == jumps@.map_values(|j: usize| j as int),
                self.code@.len() == c0.len(),
                self.gen().consts == old(self).gen().consts,
                c0 == old(self).code@,
                forall|q: int| 0 <= q < jumps@.len() ==> #[trigger] jumps@[q] + 3 <= c0.len(),
                self.code@ == patch_all(c0, js.subrange(0, k as int), c0.len() as int),
            decreases jumps@.len() - k,
        {
            assert(js.subrange(0, k + 1).drop_last() =~= js.subrange(0, k as int));
            self.patch(jumps[k]);
            k = k + 1;
        }
        assert(js.subrange(0, jumps@.len() as int) =~= js);
    }
}

impl Emitter {
    fn compile_var(&mut self, v: &VarExpr, names: &Vec<String>) -> (r: Result<(), JsonLogicError>)
        ensures
            match spec_compile_var(*v, old(self).gen(), names_view(names@)) {
                Outcome::Done(g) => r is Ok && final(self).gen() == g,
                Outcome::Failed(err) => r matches Err(x) && x@ == err,
                Outcome::Panics => false,
            },
            final(self).code@.len() >= old(self).code@.len(),
    {
        let path = crate::text::str_chars(v.path.as_str());
        if path.len() == 0 {
            return Err(JsonLogicError::CompilationError("Empty var path not supported in bytecode".to_owned()));
        }
        match find_variable(names, v.path.as_str()) {
            Some(idx) => {
                match &v.default {
                    Some(d) => {
                        let di = self.add_constant(d);
                        let ghost c = self.code@;
                        self.code.push(OpCode::LoadVarWithDefault.to_byte());
                        self.code.push((idx % 256) as u8);
                        self.code.push((idx / 256) as u8);
                        self.code.push((di % 256) as u8);
                        self.code.push((di / 256) as u8);
                        assert(self.code@ =~= c + seq![opcode_byte(OpCode::LoadVarWithDefault), lo(idx), hi(idx), lo(di), hi(di)]);
                    },
                    None => {
                        self.emit_u16(OpCode::LoadVar, idx);
                    },
                }
                Ok(())
            },
            None => Err(JsonLogicError::VariableNotFound(v.path.clone())),
        }
    }

    #[verifier::spinoff_prover]
    #[verifier::rlimit(60)]
    fn compile_expr(&mut self, e: &Expr, names: &Vec<String>) -> (r: Result<(), JsonLogicError>)
        requires
            !(spec_compile(*e, old(self).gen(), names_view(names@)) is Panics),
        ensures
            match spec_compile(*e, old(self).gen(), names_view(names@)) {
                Outcome::Done(g) => r is Ok && final(self).gen() == g,
                Outcome::Failed(err) => r matches Err(x) && x@ == err,
                Outcome::Panics => false,
            },
            final(self).code@.len() >= old(self).code@.len(),
        decreases expr_nodes(*e), 0nat,
    {
        match e {
            Expr::Literal(v) => {
                self.load_const(v);
                Ok(())
            },
            Expr::Var(v) => self.compile_var(v, names),
            Expr::Eq(a, b) => self.compile_binary_op(a, b, OpCode::Eq, names),
            Expr::StrictEq(a, b) => self.compile_binary_op(a, b, OpCode::StrictEq, names),
            Expr::Ne(a, b) => self.compile_binary_op(a, b, OpCode::Ne, names),
            Expr::StrictNe(a, b) => self.compile_binary_op(a, b, OpCode::StrictNe, names),
            Expr::Lt(v) => self.compile_chain_comparison(v, OpCode::Lt, names),
            Expr::Le(v) => self.compile_chain_comparison(v, OpCode::Le, names),
            Expr::Gt(v) => self.compile_chain_comparison(v, OpCode::Gt, names),
            Expr::Ge(v) => self.compile_chain_comparison(v, OpCode::Ge, names),
            Expr::Not(a) => self.compile_unary(a, OpCode::Not, names),
            Expr::ToBool(a) => self.compile_unary(a, OpCode::ToBool, names),
            Expr::And(v) => self.compile_short_circuit(v, OpCode::JumpIfFalse, true, names),
            Expr::Or(v) => self.compile_short_circuit(v, OpCode::JumpIfTrue, false, names),
            Expr::If(v) => {
                let parts = expr_refs(v);
                self.compile_if(&parts, names)
            },
            Expr::Ternary(c, t, f) => {
                let parts: Vec<&Expr> = vec![&**c, &**t, &**f];
                proof {
                    lemma_three_nodes(**c, **t, **f);
                    assert(deref_all(parts@) =~= seq![**c, **t, **f]);
                }
                self.compile_if(&parts, names)
            },
            Expr::Add(v) => self.compile_nary_op(v, OpCode::Add, "Add", names),
            Expr::Sub(v) => {
                proof {
                    lemma_rest_nodes_all(v@);
                    if v@.len() >= 1 {
                        lemma_rest_nodes(v@, 0);
                    }
                    if v@.len() >= 2 {
                        lemma_rest_nodes(v@, 1);
                    }
                }
                if v.len() == 1 {
                    self.compile_unary(&v[0], OpCode::Neg, names)
                } else {
                    self.compile_binary_op(&v[0], &v[1], OpCode::Sub, names)
                }
            },
            Expr::Mul(v) => self.compile_nary_op(v, OpCode::Mul, "Mul", names),
            Expr::Div(a, b) => self.compile_binary_op(a, b, OpCode::Div, names),
            Expr::Mod(a, b) => self.compile_binary_op(a, b, OpCode::Mod, names),
            Expr::Min(v) => self.compile_counted(v, OpCode::Min, names),
            Expr::Max(v) => self.compile_counted(v, OpCode::Max, names),
            Expr::Cat(v) => self.compile_counted(v, OpCode::Cat, names),
            Expr::Substr(st, start, len) => {
                self.compile_expr(st, names)?;
                self.compile_expr(start, names)?;
                match len {
                    Some(l) => {
                        self.compile_expr(l, names)?;
                        self.emit_u8(OpCode::Substr, 1);
                    },
                    None => {
                        self.emit_u8(OpCode::Substr, 0);
                    },
                }
                Ok(())
            },
            Expr::In(a, b) => self.compile_binary_op(a, b, OpCode::In, names),
            _ => Err(JsonLogicError::CompilationError("Operation not supported in bytecode mode".to_owned())),
        }
    }

    fn compile_unary(&mut self, a: &Expr, op: OpCode, names: &Vec<String>) -> (r: Result<(), JsonLogicError>)
        requires
            !(spec_unary(*a, op, old(self).gen(), names_view(names@)) is Panics),
        ensures
            match spec_unary(*a, op, old(self).gen(), names_view(names@)) {
                Outcome::Done(g) => r is Ok && final(self).gen() == g,
                Outcome::Failed(err) => r matches Err(x) && x@ == err,
                Outcome::Panics => false,
            },
            final(self).code@.len() >= old(self).code@.len(),
        decreases expr_nodes(*a), 1nat,
    {
        self.compile_expr(a, names)?;
        self.emit(op);
        Ok(())
    }

    fn compile_binary_op(&mut self, a: &Expr, b: &Expr, op: OpCode, names: &Vec<String>) -> (r: Result<(), JsonLogicError>)
        requires
            !(spec_binary(*a, *b, op, old(self).gen(), names_view(names@)) is Panics),
        ensures
            match spec_binary(*a, *b, op, old(self).gen(), names_view(names@)) {
                Outcome::Done(g) => r is Ok && final(self).gen() == g,
                Outcome::Failed(err) => r matches Err(x) && x@ == err,
                Outcome::Panics => false,
            },
            final(self).code@.len() >= old(self).code@.len(),
        decreases expr_nodes(*a) + expr_nodes(*b), 1nat,
    {
        self.compile_expr(a, names)?;
        self.compile_expr(b, names)?;
        self.emit(op);
        Ok(())
    }

    fn compile_counted(&mut self, xs: &Vec<Expr>, op: OpCode, names: &Vec<String>) -> (r: Result<(), JsonLogicError>)
        requires
            !(spec_counted(xs@, op, old(self).gen(), names_view(names@)) is Panics),
        ensures
            match spec_counted(xs@, op, old(self).gen(), names_view(names@)) {
                Outcome::Done(g) => r is Ok && final(self).gen() == g,
                Outcome::Failed(err) => r matches Err(x) && x@ == err,
                Outcome::Panics => false,
            },
            final(self).code@.len() >= old(self).code@.len(),
        decreases exprs_nodes(xs@), 2nat,
    {
        let ghost nv = names_view(names@);
        let ghost target = spec_all(xs@, 0, self.gen(), nv);
        let ghost start_len = self.code@.len();
        let mut i: usize = 0;
        while i < xs.len()
            invariant
                0 <= i <= xs@.len(),
                nv == names_view(names@),
                start_len == old(self).code@.len(),
                target == spec_all(xs@, 0, old(self).gen(), nv),
                spec_all(xs@, i as int, self.gen(), nv) == target,
                !(target is Panics),
                self.code@.len() >= start_len,
            decreases xs@.len() - i,
        {
            proof {
                lemma_rest_nodes(xs@, i as int);
                lemma_rest_nodes_le(xs@, i as int);
            }
            let ghost before = self.gen();
            match self.compile_expr(&xs[i], names) {
                Ok(()) => {},
                Err(err) => {
                    return Err(err);
                },
            }
            i = i + 1;
        }
        self.emit_u8(op, xs.len() as u8);
        Ok(())
    }
}

/// References to the expressions of a list.
fn expr_refs(v: &Vec<Expr>) -> (r: Vec<&Expr>)
    ensures
        deref_all(r@) == v@,
{
    let mut out: Vec<&Expr> = Vec::new();
    let mut i: usize = 0;
    while i < v.len()
        invariant
            0 <= i <= v@.len(),
            deref_all(out@) == v@.subrange(0, i as int),
        decreases v@.len() - i,
    {
        let ghost before = out@;
        let r: &Expr = &v[i];
        out.push(r);
        assert(deref_all(out@) =~= deref_all(before).push(*r));
        i = i + 1;
        assert(deref_all(out@) =~= v@.subrange(0, i as int));
    }
    assert(v@.subrange(0, v@.len() as int) =~= v@);
    out
}

impl Emitter {
    fn compile_nary_op(&mut self, xs: &Vec<Expr>, op: OpCode, name: &str, names: &Vec<String>) -> (r: Result<(), JsonLogicError>)
        requires
            !(spec_nary(xs@, op, name@, old(self).gen(), names_view(names@)) is Panics),
        ensures
            match spec_nary(xs@, op, name@, old(self).gen(), names_view(names@)) {
                Outcome::Done(g) => r is Ok && final(self).gen() == g,
                Outcome::Failed(err) => r matches Err(x) && x@ == err,
                Outcome::Panics => false,
            },
            final(self).code@.len() >= old(self).code@.len(),
        decreases exprs_nodes(xs@), 2nat,
    {
        if xs.len() == 0 {
            return Err(
                JsonLogicError::InvalidArgumentCount { op: name.to_owned(), expected: "at least 1".to_owned(), actual: 0 },
            );
        }
        let ghost nv = names_view(names@);
        proof {
            lemma_rest_nodes_all(xs@);
            lemma_rest_nodes(xs@, 0);
        }
        let ghost start_len = self.code@.len();
        self.compile_expr(&xs[0], names)?;
        let ghost target = spec_nary_rest(xs@, 1, op, self.gen(), nv);
        assert(spec_nary(xs@, op, name@, old(self).gen(), nv) == target);
        let mut i: usize = 1;
        while i < xs.len()
            invariant
                1 <= i <= xs@.len(),
                nv == names_view(names@),
                start_len == old(self).code@.len(),
                xs@.len() >= 1,
                spec_nary(xs@, op, name@, old(self).gen(), nv) == target,
                spec_nary_rest(xs@, i as int, op, self.gen(), nv) == target,
                !(target is Panics),
                self.code@.len() >= start_len,
            decreases xs@.len() - i,
        {
            proof {
                lemma_rest_nodes(xs@, i as int);
                lemma_rest_nodes_le(xs@, i as int);
            }
            match self.compile_expr(&xs[i], names) {
                Ok(()) => {},
                Err(err) => {
                    return Err(err);
                },
            }
            self.emit(op);
            i = i + 1;
        }
        Ok(())
    }

    fn compile_chain_comparison(&mut self, xs: &Vec<Expr>, op: OpCode, names: &Vec<String>) -> (r: Result<(), JsonLogicError>)
        requires
            !(spec_chain(xs@, op, old(self).gen(), names_view(names@)) is Panics),
        ensures
            match spec_chain(xs@, op, old(self).gen(), names_view(names@)) {
                Outcome::Done(g) => r is Ok && final(self).gen() == g,
                Outcome::Failed(err) => r matches Err(x) && x@ == err,
                Outcome::Panics => false,
            },
            final(self).code@.len() >= old(self).code@.len(),
        decreases exprs_nodes(xs@), 2nat,
    {
        let ghost nv = names_view(names@);
        proof {
            lemma_rest_nodes_all(xs@);
        }
        if xs.len() == 2 {
            proof {
                lemma_rest_nodes(xs@, 0);
                lemma_rest_nodes(xs@, 1);
            }
            return self.compile_binary_op(&xs[0], &xs[1], op, names);
        }
        let ghost target = spec_chain_rest(xs@, 0, op, self.gen(), nv);
        let ghost start_len = self.code@.len();
        let mut i: usize = 0;
        while i < xs.len() && i + 1 < xs.len()
            invariant
                0 <= i <= xs@.len(),
                nv == names_view(names@),
                start_len == old(self).code@.len(),
                target == spec_chain_rest(xs@, 0, op, old(self).gen(), nv),
                spec_chain_rest(xs@, i as int, op, self.gen(), nv) == target,
                !(target is Panics),
                self.code@.len() >= start_len,
            decreases xs@.len() - i,
        {
            proof {
                lemma_rest_nodes(xs@, i as int);
                lemma_rest_nodes(xs@, i + 1);
                lemma_rest_nodes_le(xs@, i as int);
            }
            match self.compile_expr(&xs[i], names) {
                Ok(()) => {},
                Err(err) => {
                    return Err(err);
                },
            }
            match self.compile_expr(&xs[i + 1], names) {
                Ok(()) => {},
                Err(err) => {
                    return Err(err);
                },
            }
            self.emit(op);
            if i > 0 {
                self.emit(OpCode::And);
            }
            i = i + 1;
        }
        Ok(())
    }

    fn compile_short_circuit(
        &mut self,
        xs: &Vec<Expr>,
        jump: OpCode,
        empty: bool,
        names: &Vec<String>,
    ) -> (r: Result<(), JsonLogicError>)
        requires
            !(spec_short_circuit(xs@, jump, empty, old(self).gen(), names_view(names@)) is Panics),
        ensures
            match spec_short_circuit(xs@, jump, empty, old(self).gen(), names_view(names@)) {
                Outcome::Done(g) => r is Ok && final(self).gen() == g,
                Outcome::Failed(err) => r matches Err(x) && x@ == err,
                Outcome::Panics => false,
            },
            final(self).code@.len() >= old(self).code@.len(),
        decreases exprs_nodes(xs@), 2nat,
    {
        if xs.len() == 0 {
            self.load_const(&Json::Bool(empty));
            return Ok(());
        }
        let ghost nv = names_view(names@);
        proof {
            lemma_rest_nodes_all(xs@);
        }
        let ghost target = spec_sc_rest(xs@, 0, jump, self.gen(), seq![], nv);
        let ghost start_len = self.code@.len();
        let mut jumps: Vec<usize> = Vec::new();
        assert(jumps@.map_values(|j: usize| j as int) =~= Seq::<int>::empty());
        let mut i: usize = 0;
        while i < xs.len()
            invariant
                0 <= i <= xs@.len(),
                nv == names_view(names@),
                start_len == old(self).code@.len(),
                target == spec_sc_rest(xs@, 0, jump, old(self).gen(), seq![], nv),
                spec_sc_rest(xs@, i as int, jump, self.gen(), jumps@.map_values(|j: usize| j as int), nv) == target,
                !(target is Panics),
                self.code@.len() >= start_len,
                forall|k: int| 0 <= k < jumps@.len() ==> #[trigger] jumps@[k] + 3 <= self.code@.len(),
            decreases xs@.len() - i,
        {
            proof {
                lemma_rest_nodes(xs@, i as int);
                lemma_rest_nodes_le(xs@, i as int);
            }
            match self.compile_expr(&xs[i], names) {
                Ok(()) => {},
                Err(err) => {
                    return Err(err);
                },
            }
            if i < xs.len() - 1 {
                let ghost c = self.code@;
                let ghost js = jumps@;
                self.code.push(OpCode::Dup.to_byte());
                self.code.push(OpCode::ToBool.to_byte());
                let pos = self.code.len();
                self.code.push(jump.to_byte());
                self.code.push(0);
                self.code.push(0);
                self.code.push(OpCode::Pop.to_byte());
                jumps.push(pos);
                assert(self.code@ =~= c + seq![
                    opcode_byte(OpCode::Dup),
                    opcode_byte(OpCode::ToBool),
                    opcode_byte(jump),
                    0u8,
                    0u8,
                    opcode_byte(OpCode::Pop),
                ]);
                assert(jumps@.map_values(|j: usize| j as int) =~= js.map_values(|j: usize| j as int).push(c.len() + 2int));
            }
            i = i + 1;
        }
        self.patch_all(&jumps);
        Ok(())
    }

    fn compile_if(&mut self, parts: &Vec<&Expr>, names: &Vec<String>) -> (r: Result<(), JsonLogicError>)
        requires
            !(spec_if(deref_all(parts@), old(self).gen(), names_view(names@)) is Panics),
        ensures
            match spec_if(deref_all(parts@), old(self).gen(), names_view(names@)) {
                Outcome::Done(g) => r is Ok && final(self).gen() == g,
                Outcome::Failed(err) => r matches Err(x) && x@ == err,
                Outcome::Panics => false,
            },
            final(self).code@.len() >= old(self).code@.len(),
        decreases exprs_nodes(deref_all(parts@)), 2nat,
    {
        let ghost xs = deref_all(parts@);
        let ghost nv = names_view(names@);
        proof {
            lemma_rest_nodes_all(xs);
        }
        let n = parts.len();
        if n == 0 {
            self.load_const(&Json::Null);
            return Ok(());
        }
        if n == 1 {
            proof {
                lemma_rest_nodes(xs, 0);
            }
            assert(xs[0] == *parts@[0]);
            return self.compile_expr(parts[0], names);
        }
        let ghost target = spec_if_rest(xs, 0, self.gen(), seq![], nv);
        let ghost start_len = self.code@.len();
        let mut ends: Vec<usize> = Vec::new();
        assert(ends@.map_values(|j: usize| j as int) =~= Seq::<int>::empty());
        let mut i: usize = 0;
        while i < n
            invariant
                0 <= i <= n,
                n >= 2,
                n == parts@.len(),
                xs == deref_all(parts@),
                xs.len() == n,
                nv == names_view(names@),
                start_len == old(self).code@.len(),
                target == spec_if_rest(xs, 0, old(self).gen(), seq![], nv),
                spec_if_rest(xs, i as int, self.gen(), ends@.map_values(|j: usize| j as int), nv) == target,
                !(target is Panics),
                self.code@.len() >= start_len,
                forall|k: int| 0 <= k < ends@.len() ==> #[trigger] ends@[k] + 3 <= self.code@.len(),
            decreases n - i,
        {
            proof {
                lemma_rest_nodes(xs, i as int);
                lemma_rest_nodes_le(xs, i as int);
            }
            assert(xs[i as int] == *parts@[i as int]);
            if i + 1 < n {
                proof {
                    lemma_rest_nodes(xs, i + 1);
                    lemma_rest_nodes_le(xs, i + 1);
                }
                assert(xs[i + 1] == *parts@[i + 1]);
                match self.compile_expr(parts[i], names) {
                    Ok(()) => {},
                    Err(err) => {
                        return Err(err);
                    },
                }
                self.emit(OpCode::ToBool);
                let fpos = self.code.len();
                self.emit_u16(OpCode::JumpIfFalse, 0);
                match self.compile_expr(parts[i + 1], names) {
                    Ok(()) => {},
                    Err(err) => {
                        return Err(err);
                    },
                }
                if i + 2 < n {
                    let epos = self.code.len();
                    let ghost es = ends@;
                    self.emit_u16(OpCode::Jump, 0);
                    ends.push(epos);
                    assert(ends@.map_values(|j: usize| j as int) =~= es.map_values(|j: usize| j as int).push(epos as int));
                }
                self.patch(fpos);
                i = i + 2;
            } else {
                match self.compile_expr(parts[i], names) {
                    Ok(()) => {},
                    Err(err) => {
                        return Err(err);
                    },
                }
                i = i + 1;
            }
        }
        self.patch_all(&ends);
        Ok(())
    }
}

/// Bytecode compiler; it keeps no state from one compilation to the next.
pub struct Compiler {
    _private: (),
}

/// The variables of an expression, each once, in the order they are first
/// met (see [`unique_names`]).
fn collect_names(expr: &Expr) -> (r: Vec<String>)
    ensures
        names_view(r@) == unique_names(vars_of(*expr)),
{
    let vars = expr.collect_variables();
    let ghost vs = crate::json_logic::ast::str_refs_view(vars@);
    let mut names: Vec<String> = Vec::new();
    let mut i: usize = 0;
    while i < vars.len()
        invariant
            0 <= i <= vars@.len(),
            vs == crate::json_logic::ast::str_refs_view(vars@),
            vs == vars_of(*expr),
            names_view(names@) == unique_names(vs.subrange(0, i as int)),
        decreases vars@.len() - i,
    {
        let v: &str = vars[i];
        assert(vs[i as int] == v@);
        assert(vs.subrange(0, i + 1).drop_last() =~= vs.subrange(0, i as int));
        let found = find_variable(&names, v);
        proof {
            lemma_var_index_contains(names_view(names@), v@);
        }
        if found.is_none() {
            let ghost before = names@;
            names.push(v.to_owned());
            assert(names_view(names@) =~= names_view(before).push(v@));
        }
        i = i + 1;
    }
    assert(vs.subrange(0, vars@.len() as int) =~= vs);
    names
}

proof fn lemma_var_index_contains(names: Seq<Seq<char>>, path: Seq<char>)
    ensures
        var_index(names, path, 0) is Some <==> names.contains(path),
{
    lemma_var_index_from(names, path, 0);
}

proof fn lemma_var_index_from(names: Seq<Seq<char>>, path: Seq<char>, i: int)
    requires
        0 <= i <= names.len(),
    ensures
        var_index(names, path, i) is Some <==> exists|k: int| i <= k < names.len() && names[k] == path,
    decreases names.len() - i,
{
    if i < names.len() {
        lemma_var_index_from(names, path, i + 1);
        if names[i] != path {
            assert forall|k: int| i <= k < names.len() && names[k] == path implies i + 1 <= k by {}
        }
    }
}

impl Compiler {
    /// Create a new compiler
    pub fn new() -> (c: Self) {
        Compiler { _private: () }
    }

    /// Compile an expression to bytecode: collect its variables, generate
    /// its code (see [`spec_compile`]) and end it with `Return`.
    pub fn compile(&mut self, expr: &Expr) -> (r: Result<CompiledBytecode, JsonLogicError>)
        requires
            !(spec_bytecode(*expr) is Panics),
        ensures
            match spec_bytecode(*expr) {
                Outcome::Done(g) => r matches Ok(b) && b.bytecode@ == g.code && consts_view(b.constants@) == g.consts
                    && names_view(b.variable_names@) == unique_names(vars_of(*expr)),
                Outcome::Failed(err) => r matches Err(x) && x@ == err,
                Outcome::Panics => false,
            },
    {
        let names = collect_names(expr);
        let mut em = Emitter { code: Vec::new(), consts: Vec::new() };
        assert(em.gen() == empty_gen()) by {
            assert(consts_view(em.consts@) =~= Seq::<SpecJson>::empty());
        }
        em.compile_expr(expr, &names)?;
        em.emit(OpCode::Return);
        Ok(CompiledBytecode { bytecode: em.code, constants: em.consts, variable_names: names })
    }
}

/// What a comparison operation of the machine answers for two numbers:
/// `<`, `<=`, `>` and `>=`; other operations compare nothing.
pub open spec fn opcode_compares(op: OpCode, a: int, b: int) -> Option<bool> {
    match op {
        OpCode::Lt => Some(a < b),
        OpCode::Le => Some(a <= b),
        OpCode::Gt => Some(a > b),
        OpCode::Ge => Some(a >= b),
        _ => None,
    }
}

/// What a comparison expression asks of two numbers: `{"<": ..}`,
/// `{"<=": ..}`, `{">": ..}`, `{">=": ..}`.
pub open spec fn expr_compares(e: Expr, a: int, b: int) -> Option<bool> {
    match e {
        Expr::Lt(_) => Some(a < b),
        Expr::Le(_) => Some(a <= b),
        Expr::Gt(_) => Some(a > b),
        Expr::Ge(_) => Some(a >= b),
        _ => None,
    }
}

/// A comparison of two operands compiles to the code of its operands
/// followed by one operation, and that operation compares two numbers
/// exactly as the expression does: `<=` is answered by an operation that
/// holds for equal numbers, `<` by one that does not, and so on.
pub proof fn lemma_comparison_opcode(e: Expr, g: Gen, names: Seq<Seq<char>>)
    requires
        match e {
            Expr::Lt(v) | Expr::Le(v) | Expr::Gt(v) | Expr::Ge(v) => v@.len() == 2,
            _ => false,
        },
    ensures
        spec_compile(e, g, names) matches Outcome::Done(g2) ==> {
            &&& g2.code.len() > 0
            &&& byte_opcode(g2.code.last()) matches Some(op)
            &&& forall|a: int, b: int| #[trigger] opcode_compares(op, a, b) == expr_compares(e, a, b)
        },
{
    let op = match e {
        Expr::Lt(_) => OpCode::Lt,
        Expr::Le(_) => OpCode::Le,
        Expr::Gt(_) => OpCode::Gt,
        _ => OpCode::Ge,
    };
    let xs = match e {
        Expr::Lt(v) | Expr::Le(v) | Expr::Gt(v) | Expr::Ge(v) => v@,
        _ => seq![],
    };
    lemma_opcode_round_trip(op);
    assert(spec_compile(e, g, names) == spec_chain(xs, op, g, names));
    assert(spec_chain(xs, op, g, names) == spec_binary(xs[0], xs[1], op, g, names));
    lemma_binary_ends_with(xs[0], xs[1], op, g, names);
}

/// The code of a binary operation ends with the operation's byte.
proof fn lemma_binary_ends_with(a: Expr, b: Expr, op: OpCode, g: Gen, names: Seq<Seq<char>>)
    ensures
        spec_binary(a, b, op, g, names) matches Outcome::Done(g2) ==> g2.code.len() > 0 && g2.code.last()
            == opcode_byte(op),
{
    match spec_compile(a, g, names) {
        Outcome::Done(g1) => match spec_compile(b, g1, names) {
            Outcome::Done(g2) => {
                assert(spec_binary(a, b, op, g, names) == Outcome::Done(emit(g2, op)));
            },
            _ => {},
        },
        _ => {},
    }
}

} // verus!
