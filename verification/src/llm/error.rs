//! Error types for LLM evaluation

use vstd::prelude::*;
use crate::text::{push_str, string_from_chars};

verus! {

/// Errors that can occur during LLM evaluation
#[derive(Debug)]
pub enum LlmEvaluatorError {
    ConfigError(String),
    ApiError(String),
    ParseError(String),
    FeatureNotEnabled(String),
}

/// Model of an [`LlmEvaluatorError`]: its kind and its message.
pub enum SpecLlmError {
    ConfigError(Seq<char>),
    ApiError(Seq<char>),
    ParseError(Seq<char>),
    FeatureNotEnabled(Seq<char>),
}

impl View for LlmEvaluatorError {
    type V = SpecLlmError;

    open spec fn view(&self) -> SpecLlmError {
        match self {
            LlmEvaluatorError::ConfigError(s) => SpecLlmError::ConfigError(s@),
            LlmEvaluatorError::ApiError(s) => SpecLlmError::ApiError(s@),
            LlmEvaluatorError::ParseError(s) => SpecLlmError::ParseError(s@),
            LlmEvaluatorError::FeatureNotEnabled(s) => SpecLlmError::FeatureNotEnabled(s@),
        }
    }
}

/// The message of an error (its `Display` text).
pub open spec fn llm_error_text(e: SpecLlmError) -> Seq<char> {
    match e {
        SpecLlmError::ConfigError(s) => "Configuration error: "@ + s,
        SpecLlmError::ApiError(s) => "API error: "@ + s,
        SpecLlmError::ParseError(s) => "Parse error: "@ + s,
        SpecLlmError::FeatureNotEnabled(s) => "Feature not enabled: "@ + s,
    }
}

impl LlmEvaluatorError {
    /// The message of this error.
    pub fn to_text(&self) -> (r: String)
        ensures
            r@ == llm_error_text(self@),
    {
        let mut v: Vec<char> = Vec::new();
        match self {
            LlmEvaluatorError::ConfigError(s) => {
                push_str(&mut v, "Configuration error: ");
                push_str(&mut v, s.as_str());
            },
            LlmEvaluatorError::ApiError(s) => {
                push_str(&mut v, "API error: ");
                push_str(&mut v, s.as_str());
            },
            LlmEvaluatorError::ParseError(s) => {
                push_str(&mut v, "Parse error: ");
                push_str(&mut v, s.as_str());
            },
            LlmEvaluatorError::FeatureNotEnabled(s) => {
                push_str(&mut v, "Feature not enabled: ");
                push_str(&mut v, s.as_str());
            },
        }
        string_from_chars(v.as_slice())
    }
}

} // verus!
