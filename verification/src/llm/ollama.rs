//! Ollama LLM Evaluator: evaluator settings and responses.

use vstd::prelude::*;
use crate::llm::error::LlmEvaluatorError;

verus! {

/// A response of the generate API
#[derive(Debug, Clone)]
pub struct OllamaResponse {
    pub response: String,
    pub done: bool,
    pub total_duration: Option<u64>,
    pub eval_count: Option<u64>,
}

/// Ollama-based LLM evaluator for local rule evaluation.
///
/// This evaluator uses a local Ollama instance for LLM inference,
/// making it ideal for development, testing, and privacy-sensitive deployments.
pub struct OllamaLlmEvaluator {
    base_url: String,
    default_model: String,
}

impl OllamaLlmEvaluator {
    pub closed spec fn url(&self) -> Seq<char> {
        self.base_url@
    }

    pub closed spec fn model(&self) -> Seq<char> {
        self.default_model@
    }

    /// Create a new Ollama LLM evaluator.
    ///
    /// * `base_url` - Ollama API base URL (e.g., "http://localhost:11434")
    /// * `model` - Default model to use (e.g., "qwen2.5:7b", "llama3.2")
    pub fn new(base_url: &str, model: &str) -> (e: Self)
        ensures
            e.url() == base_url@,
            e.model() == model@,
    {
        OllamaLlmEvaluator { base_url: base_url.to_owned(), default_model: model.to_owned() }
    }

    /// Create with the base URL the environment configures (its default
    /// is the local server), for the model `model`.
    pub fn localhost(base_url: String, model: &str) -> (e: Self)
        ensures
            e.url() == base_url@,
            e.model() == model@,
    {
        OllamaLlmEvaluator { base_url, default_model: model.to_owned() }
    }

    /// Create from the environment's settings: the base URL
    /// (`RULE_ENGINE_OLLAMA_BASE_URL`) and the model (`RULE_ENGINE_OLLAMA_MODEL`).
    pub fn from_env(base_url: String, model: String) -> (r: Result<Self, LlmEvaluatorError>)
        ensures
            r matches Ok(e) && e.url() == base_url@ && e.model() == model@,
    {
        Ok(OllamaLlmEvaluator { base_url, default_model: model })
    }

    /// Create with the environment's settings (Ollama is the default provider).
    pub fn default_from_env(base_url: String, model: String) -> (e: Self)
        ensures
            e.url() == base_url@,
            e.model() == model@,
    {
        OllamaLlmEvaluator { base_url, default_model: model }
    }

    /// The server's base URL.
    pub fn base_url(&self) -> (r: &str)
        ensures
            r@ == self.url(),
    {
        self.base_url.as_str()
    }

    /// The default model.
    pub fn default_model(&self) -> (r: &str)
        ensures
            r@ == self.model(),
    {
        self.default_model.as_str()
    }

    /// The evaluator's name.
    pub fn name(&self) -> (r: &'static str)
        ensures
            r@ == "ollama-llm-evaluator"@,
    {
        "ollama-llm-evaluator"
    }

    /// Whether a server URL and a model are set.
    pub fn is_ready(&self) -> (r: bool)
        ensures
            r == (self.url().len() > 0 && self.model().len() > 0),
    {
        !self.base_url.as_str().is_empty() && !self.default_model.as_str().is_empty()
    }
}

} // verus!
