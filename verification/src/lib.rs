//! Rule engine: the FarmScript expression language and its compiler to
//! JSON Logic, together with the rule dependency graph and its execution
//! plan.

use vstd::prelude::*;

pub mod text;
pub mod json;
pub mod json_logic;
pub mod farmscript;
pub mod engine;
pub mod llm;

verus! {
} // verus!
