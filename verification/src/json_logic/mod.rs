//! JSON Logic runtime settings: evaluation limits and tier promotion
//! configuration, bytecode operation codes and the rule-cache statistics.
//! Parsing and evaluating JSON Logic happens outside the library.

use vstd::prelude::*;

pub mod ast;
pub mod compiler;
pub mod config;
pub mod opcode;
pub mod tiered;
pub mod evaluator;

verus! {
} // verus!
