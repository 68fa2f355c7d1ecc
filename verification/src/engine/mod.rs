//! Rule engine with DAG-based execution
//!
//! - DAG construction from rule dependencies
//! - Topological sorting for execution order
//! - Execution levels: the rules of one level can run in parallel

use vstd::prelude::*;

pub mod graph;
pub mod error;
pub mod dag;
pub mod context;
pub mod executor;
pub mod number_text;
pub mod pattern_analyzer;

verus! {
} // verus!
