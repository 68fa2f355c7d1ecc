//! LLM-based rule evaluation: the parts that decide
//!
//! Parsing of model answers, evaluator settings and prompt rendering,
//! rule metadata, and the retry and level decisions of the executor.  Sending requests and waiting
//! for answers happens outside the library.

use vstd::prelude::*;

pub mod error;
pub mod parsing;
pub mod response;
pub mod config;
pub mod env_config;
pub mod anthropic;
pub mod ollama;
pub mod prompt;
pub mod metadata;
pub mod executor;

verus! {
} // verus!
