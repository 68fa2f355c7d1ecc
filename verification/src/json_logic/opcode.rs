//! Bytecode operation codes of the JSON Logic virtual machine.

use vstd::prelude::*;

verus! {

/// Bytecode operation codes
#[derive(Debug, Clone, Copy, PartialEq, Eq, Structural)]
pub enum OpCode {
    /// No operation
    Nop,
    /// Push constant from pool: [idx_lo, idx_hi]
    LoadConst,
    /// Push variable by index: [idx_lo, idx_hi]
    LoadVar,
    /// Duplicate top of stack
    Dup,
    /// Pop top of stack
    Pop,
    /// Push variable by index with default from constant pool
    LoadVarWithDefault,
    /// Equal (==)
    Eq,
    /// Strict equal (===)
    StrictEq,
    /// Not equal (!=)
    Ne,
    /// Strict not equal (!==)
    StrictNe,
    /// Less than (<)
    Lt,
    /// Less than or equal (<=)
    Le,
    /// Greater than (>)
    Gt,
    /// Greater than or equal (>=)
    Ge,
    /// Logical NOT
    Not,
    /// To boolean
    ToBool,
    /// Logical AND (short-circuit): [jump_offset_lo, jump_offset_hi]
    And,
    /// Logical OR (short-circuit): [jump_offset_lo, jump_offset_hi]
    Or,
    /// Add two values
    Add,
    /// Subtract
    Sub,
    /// Multiply
    Mul,
    /// Divide
    Div,
    /// Modulo
    Mod,
    /// Negate
    Neg,
    /// Minimum of N values: [count]
    Min,
    /// Maximum of N values: [count]
    Max,
    /// Concatenate N strings: [count]
    Cat,
    /// Substring: [has_length]
    Substr,
    /// Unconditional jump: [offset_lo, offset_hi]
    Jump,
    /// Jump if false: [offset_lo, offset_hi]
    JumpIfFalse,
    /// Jump if true: [offset_lo, offset_hi]
    JumpIfTrue,
    /// Check if value in array
    In,
    /// Return result
    Return,
}

/// The byte that encodes an operation.
pub open spec fn opcode_byte(op: OpCode) -> u8 {
    match op {
        OpCode::Nop => 0u8,
        OpCode::LoadConst => 1u8,
        OpCode::LoadVar => 2u8,
        OpCode::Dup => 3u8,
        OpCode::Pop => 4u8,
        OpCode::LoadVarWithDefault => 5u8,
        OpCode::Eq => 10u8,
        OpCode::StrictEq => 11u8,
        OpCode::Ne => 12u8,
        OpCode::StrictNe => 13u8,
        OpCode::Lt => 14u8,
        OpCode::Le => 15u8,
        OpCode::Gt => 16u8,
        OpCode::Ge => 17u8,
        OpCode::Not => 20u8,
        OpCode::ToBool => 21u8,
        OpCode::And => 22u8,
        OpCode::Or => 23u8,
        OpCode::Add => 30u8,
        OpCode::Sub => 31u8,
        OpCode::Mul => 32u8,
        OpCode::Div => 33u8,
        OpCode::Mod => 34u8,
        OpCode::Neg => 35u8,
        OpCode::Min => 36u8,
        OpCode::Max => 37u8,
        OpCode::Cat => 40u8,
        OpCode::Substr => 41u8,
        OpCode::Jump => 50u8,
        OpCode::JumpIfFalse => 51u8,
        OpCode::JumpIfTrue => 52u8,
        OpCode::In => 60u8,
        OpCode::Return => 255u8,
    }
}

/// The operation a byte encodes, if any.
pub open spec fn byte_opcode(b: u8) -> Option<OpCode> {
    if b == 0u8 {
        Some(OpCode::Nop)
    } else if b == 1u8 {
        Some(OpCode::LoadConst)
    } else if b == 2u8 {
        Some(OpCode::LoadVar)
    } else if b == 3u8 {
        Some(OpCode::Dup)
    } else if b == 4u8 {
        Some(OpCode::Pop)
    } else if b == 5u8 {
        Some(OpCode::LoadVarWithDefault)
    } else if b == 10u8 {
        Some(OpCode::Eq)
    } else if b == 11u8 {
        Some(OpCode::StrictEq)
    } else if b == 12u8 {
        Some(OpCode::Ne)
    } else if b == 13u8 {
        Some(OpCode::StrictNe)
    } else if b == 14u8 {
        Some(OpCode::Lt)
    } else if b == 15u8 {
        Some(OpCode::Le)
    } else if b == 16u8 {
        Some(OpCode::Gt)
    } else if b == 17u8 {
        Some(OpCode::Ge)
    } else if b == 20u8 {
        Some(OpCode::Not)
    } else if b == 21u8 {
        Some(OpCode::ToBool)
    } else if b == 22u8 {
        Some(OpCode::And)
    } else if b == 23u8 {
        Some(OpCode::Or)
    } else if b == 30u8 {
        Some(OpCode::Add)
    } else if b == 31u8 {
        Some(OpCode::Sub)
    } else if b == 32u8 {
        Some(OpCode::Mul)
    } else if b == 33u8 {
        Some(OpCode::Div)
    } else if b == 34u8 {
        Some(OpCode::Mod)
    } else if b == 35u8 {
        Some(OpCode::Neg)
    } else if b == 36u8 {
        Some(OpCode::Min)
    } else if b == 37u8 {
        Some(OpCode::Max)
    } else if b == 40u8 {
        Some(OpCode::Cat)
    } else if b == 41u8 {
        Some(OpCode::Substr)
    } else if b == 50u8 {
        Some(OpCode::Jump)
    } else if b == 51u8 {
        Some(OpCode::JumpIfFalse)
    } else if b == 52u8 {
        Some(OpCode::JumpIfTrue)
    } else if b == 60u8 {
        Some(OpCode::In)
    } else if b == 255u8 {
        Some(OpCode::Return)
    } else {
        None
    }
}

impl OpCode {
    /// The byte that encodes this operation.
    pub fn to_byte(&self) -> (b: u8)
        ensures
            b == opcode_byte(*self),
    {
        match self {
            OpCode::Nop => 0,
            OpCode::LoadConst => 1,
            OpCode::LoadVar => 2,
            OpCode::Dup => 3,
            OpCode::Pop => 4,
            OpCode::LoadVarWithDefault => 5,
            OpCode::Eq => 10,
            OpCode::StrictEq => 11,
            OpCode::Ne => 12,
            OpCode::StrictNe => 13,
            OpCode::Lt => 14,
            OpCode::Le => 15,
            OpCode::Gt => 16,
            OpCode::Ge => 17,
            OpCode::Not => 20,
            OpCode::ToBool => 21,
            OpCode::And => 22,
            OpCode::Or => 23,
            OpCode::Add => 30,
            OpCode::Sub => 31,
            OpCode::Mul => 32,
            OpCode::Div => 33,
            OpCode::Mod => 34,
            OpCode::Neg => 35,
            OpCode::Min => 36,
            OpCode::Max => 37,
            OpCode::Cat => 40,
            OpCode::Substr => 41,
            OpCode::Jump => 50,
            OpCode::JumpIfFalse => 51,
            OpCode::JumpIfTrue => 52,
            OpCode::In => 60,
            OpCode::Return => 255,
        }
    }

    /// Get the opcode from a byte
    pub fn from_byte(b: u8) -> (r: Option<Self>)
        ensures
            r == byte_opcode(b),
    {
        match b {
            0 => Some(OpCode::Nop),
            1 => Some(OpCode::LoadConst),
            2 => Some(OpCode::LoadVar),
            3 => Some(OpCode::Dup),
            4 => Some(OpCode::Pop),
            5 => Some(OpCode::LoadVarWithDefault),
            10 => Some(OpCode::Eq),
            11 => Some(OpCode::StrictEq),
            12 => Some(OpCode::Ne),
            13 => Some(OpCode::StrictNe),
            14 => Some(OpCode::Lt),
            15 => Some(OpCode::Le),
            16 => Some(OpCode::Gt),
            17 => Some(OpCode::Ge),
            20 => Some(OpCode::Not),
            21 => Some(OpCode::ToBool),
            22 => Some(OpCode::And),
            23 => Some(OpCode::Or),
            30 => Some(OpCode::Add),
            31 => Some(OpCode::Sub),
            32 => Some(OpCode::Mul),
            33 => Some(OpCode::Div),
            34 => Some(OpCode::Mod),
            35 => Some(OpCode::Neg),
            36 => Some(OpCode::Min),
            37 => Some(OpCode::Max),
            40 => Some(OpCode::Cat),
            41 => Some(OpCode::Substr),
            50 => Some(OpCode::Jump),
            51 => Some(OpCode::JumpIfFalse),
            52 => Some(OpCode::JumpIfTrue),
            60 => Some(OpCode::In),
            255 => Some(OpCode::Return),
            _ => None,
        }
    }
}

/// Decoding the byte of an operation gives the operation back.
pub proof fn lemma_opcode_round_trip(op: OpCode)
    ensures
        byte_opcode(opcode_byte(op)) == Some(op),
{
}

/// A byte that decodes to an operation is that operation's byte: no two
/// operations share a byte.
pub proof fn lemma_opcode_decode_encodes(b: u8)
    ensures
        match byte_opcode(b) {
            Some(op) => opcode_byte(op) == b,
            None => forall|op: OpCode| #[trigger] opcode_byte(op) != b,
        },
{
}

} // verus!
