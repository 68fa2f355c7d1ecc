//! Evaluator for the Anthropic messages API: responses and evaluator settings.

use vstd::prelude::*;
use crate::llm::error::{LlmEvaluatorError, SpecLlmError};

verus! {

/// A chat message
#[derive(Debug, Clone)]
pub struct Message {
    pub role: String,
    pub content: String,
}

/// A response of the messages API
#[derive(Debug)]
pub struct ClaudeResponse {
    pub content: Vec<ContentBlock>,
}

/// One block of a response
#[derive(Debug, Clone)]
pub struct ContentBlock {
    pub block_type: String,
    pub text: Option<String>,
}

/// The text of the first block, from the `k`-th on, that has one.
pub open spec fn first_text(blocks: Seq<ContentBlock>, k: int) -> Option<Seq<char>>
    decreases blocks.len() - k,
{
    if k < 0 || k >= blocks.len() {
        None
    } else {
        match blocks[k].text {
            Some(t) => Some(t@),
            None => first_text(blocks, k + 1),
        }
    }
}

impl ClaudeResponse {
    /// The text of the first block that has one.
    pub fn text(&self) -> (r: Option<String>)
        ensures
            match r {
                Some(t) => first_text(self.content@, 0) == Some(t@),
                None => first_text(self.content@, 0) is None,
            },
    {
        let mut i: usize = 0;
        while i < self.content.len()
            invariant
                0 <= i <= self.content@.len(),
                first_text(self.content@, 0) == first_text(self.content@, i as int),
            decreases self.content@.len() - i,
        {
            match &self.content[i].text {
                Some(t) => {
                    return Some(t.clone());
                },
                None => {},
            }
            i = i + 1;
        }
        None
    }
}

/// LLM evaluator for rule evaluation over the Anthropic messages API.
///
/// It evaluates rules that require AI-based reasoning rather than
/// deterministic logic.
pub struct ClaudeLlmEvaluator {
    api_key: String,
    api_url: String,
    api_version: String,
}

impl ClaudeLlmEvaluator {
    /// Default Anthropic API URL (can be overridden for proxies)
    pub open spec fn default_api_url() -> Seq<char> {
        "https://api.anthropic.com/v1/messages"@
    }

    /// Default API version
    pub open spec fn default_api_version() -> Seq<char> {
        "2023-06-01"@
    }

    pub closed spec fn key(&self) -> Seq<char> {
        self.api_key@
    }

    pub closed spec fn url(&self) -> Seq<char> {
        self.api_url@
    }

    pub closed spec fn version(&self) -> Seq<char> {
        self.api_version@
    }

    /// Create a new evaluator with the given API key, the default
    /// API URL and the default API version.
    pub fn new(api_key: &str) -> (e: Self)
        ensures
            e.key() == api_key@,
            e.url() == Self::default_api_url(),
            e.version() == Self::default_api_version(),
    {
        ClaudeLlmEvaluator {
            api_key: api_key.to_owned(),
            api_url: "https://api.anthropic.com/v1/messages".to_owned(),
            api_version: "2023-06-01".to_owned(),
        }
    }

    /// Create with custom API URL (for proxies like AWS Bedrock, Azure, etc.)
    pub fn with_api_url(self, url: &str) -> (e: Self)
        ensures
            e.key() == self.key(),
            e.url() == url@,
            e.version() == self.version(),
    {
        ClaudeLlmEvaluator { api_key: self.api_key, api_url: url.to_owned(), api_version: self.api_version }
    }

    /// Create with custom API version
    pub fn with_api_version(self, version: &str) -> (e: Self)
        ensures
            e.key() == self.key(),
            e.url() == self.url(),
            e.version() == version@,
    {
        ClaudeLlmEvaluator { api_key: self.api_key, api_url: self.api_url, api_version: version.to_owned() }
    }

    /// Create a new evaluator from the environment's settings: the API key
    /// (`RULE_ENGINE_ANTHROPIC_API_KEY`, else `ANTHROPIC_API_KEY`), the API
    /// URL and the API version.  Fails when no key is set.
    pub fn from_env(api_key: Option<String>, api_url: String, api_version: String) -> (r: Result<
        Self,
        LlmEvaluatorError,
    >)
        ensures
            match api_key {
                Some(k) => r matches Ok(e) && e.key() == k@ && e.url() == api_url@ && e.version() == api_version@,
                None => r matches Err(err) && err@ == SpecLlmError::ConfigError(
                    "RULE_ENGINE_ANTHROPIC_API_KEY not set"@,
                ),
            },
    {
        match api_key {
            Some(api_key) => Ok(ClaudeLlmEvaluator { api_key, api_url, api_version }),
            None => Err(LlmEvaluatorError::ConfigError("RULE_ENGINE_ANTHROPIC_API_KEY not set".to_owned())),
        }
    }

    /// The API key.
    pub fn api_key(&self) -> (r: &str)
        ensures
            r@ == self.key(),
    {
        self.api_key.as_str()
    }

    /// The API URL.
    pub fn api_url(&self) -> (r: &str)
        ensures
            r@ == self.url(),
    {
        self.api_url.as_str()
    }

    /// The API version.
    pub fn api_version(&self) -> (r: &str)
        ensures
            r@ == self.version(),
    {
        self.api_version.as_str()
    }

    /// The evaluator's name.
    pub fn name(&self) -> (r: &'static str)
        ensures
            r@ == "anthropic-llm-evaluator"@,
    {
        "anthropic-llm-evaluator"
    }

    /// Whether the evaluator has an API key.
    pub fn is_ready(&self) -> (r: bool)
        ensures
            r == (self.key().len() > 0),
    {
        !self.api_key.as_str().is_empty()
    }
}

} // verus!
