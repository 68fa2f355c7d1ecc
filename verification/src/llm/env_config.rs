//! Environment-based configuration for LLM evaluators.
//!
//! All configuration can be loaded from environment variables with the
//! `RULE_ENGINE_` prefix.  The environment is handed in as a list of
//! (name, value) pairs; a variable that is missing, or that does not read
//! as a number where a number is expected, leaves the default in place.
//! Timeouts are kept in milliseconds.  The sampling temperatures are
//! floating-point settings and are kept beside this configuration by its
//! caller.

use vstd::prelude::*;
use crate::json_logic::config::{env_lookup, env_value, parse_unsigned, parsed_unsigned};
use crate::text::{str_to_lowercase, unicode_lowercase};

verus! {

/// The value of the variable `key`, where the environment sets it.
pub open spec fn env_var(env: Seq<(String, String)>, key: Seq<char>) -> Option<Seq<char>> {
    env_value(env, key, 0)
}

/// The number the variable `key` reads as, where it is set and reads as an
/// unsigned number of at most `max`.
pub open spec fn env_number(env: Seq<(String, String)>, key: Seq<char>, max: nat) -> Option<nat> {
    match env_var(env, key) {
        Some(v) => parsed_unsigned(v, max),
        None => None,
    }
}

/// `n` where it is given, else `default`.
pub open spec fn or_default(n: Option<nat>, default: nat) -> nat {
    match n {
        Some(v) => v,
        None => default,
    }
}

/// The first of `a` and `b` that is set.
pub open spec fn first_set(a: Option<Seq<char>>, b: Option<Seq<char>>) -> Option<Seq<char>> {
    match a {
        Some(v) => Some(v),
        None => b,
    }
}

/// The provider families a provider name can select.
#[derive(Debug, Clone, Copy, PartialEq, Eq, Structural)]
pub enum ProviderKind {
    Anthropic,
    Ollama,
    Other,
}

/// The family a provider name selects, its letters compared without case.
pub open spec fn spec_provider_kind(name: Seq<char>) -> ProviderKind {
    let l = unicode_lowercase(name);
    if l == "anthropic"@ {
        ProviderKind::Anthropic
    } else if l == "ollama"@ {
        ProviderKind::Ollama
    } else {
        ProviderKind::Other
    }
}

fn chars_match(a: &str, b: &str) -> (r: bool)
    ensures
        r == (a@ == b@),
{
    let ac = crate::text::str_chars(a);
    crate::text::chars_eq_str(ac.as_slice(), b)
}

/// The family the provider name `name` selects.
pub fn provider_kind(name: &str) -> (k: ProviderKind)
    ensures
        k == spec_provider_kind(name@),
{
    let l = str_to_lowercase(name);
    if chars_match(l.as_str(), "anthropic") {
        ProviderKind::Anthropic
    } else if chars_match(l.as_str(), "ollama") {
        ProviderKind::Ollama
    } else {
        proof {
            reveal_strlit("anthropic");
            reveal_strlit("ollama");
        }
        ProviderKind::Other
    }
}

fn env_string(env: &Vec<(String, String)>, key: &str) -> (r: Option<String>)
    ensures
        match r {
            Some(v) => env_var(env@, key@) == Some(v@),
            None => env_var(env@, key@) is None,
        },
{
    match env_lookup(env, key) {
        Some(v) => Some(v.clone()),
        None => None,
    }
}

fn env_u64(env: &Vec<(String, String)>, key: &str, max: u64) -> (r: Option<u64>)
    ensures
        match r {
            Some(n) => env_number(env@, key@, max as nat) == Some(n as nat) && n <= max,
            None => env_number(env@, key@, max as nat) is None,
        },
{
    match env_lookup(env, key) {
        Some(v) => parse_unsigned(v.as_str(), max),
        None => None,
    }
}

fn env_u32(env: &Vec<(String, String)>, key: &str) -> (r: Option<u32>)
    ensures
        match r {
            Some(n) => env_number(env@, key@, u32::MAX as nat) == Some(n as nat),
            None => env_number(env@, key@, u32::MAX as nat) is None,
        },
{
    match env_u64(env, key, 0xffff_ffff) {
        Some(n) => Some(n as u32),
        None => None,
    }
}

fn env_usize(env: &Vec<(String, String)>, key: &str) -> (r: Option<usize>)
    ensures
        match r {
            Some(n) => env_number(env@, key@, usize::MAX as nat) == Some(n as nat),
            None => env_number(env@, key@, usize::MAX as nat) is None,
        },
{
    let umax = usize::MAX as u64;
    match env_u64(env, key, umax) {
        Some(n) => Some(n as usize),
        None => None,
    }
}

/// Global LLM configuration defaults
#[derive(Debug, Clone)]
pub struct GlobalLlmConfig {
    /// Default provider: "ollama" or "anthropic"
    pub provider: String,
    /// Maximum tokens in LLM response (not input, this is output limit)
    pub max_output_tokens: u32,
    /// Request timeout, in milliseconds
    pub timeout_ms: u64,
}

impl Default for GlobalLlmConfig {
    fn default() -> (c: Self)
        ensures
            c.provider@ == "ollama"@,
            c.max_output_tokens == 1024,
            c.timeout_ms == 30_000,
    {
        GlobalLlmConfig { provider: "ollama".to_owned(), max_output_tokens: 1024, timeout_ms: 30_000 }
    }
}

/// What GlobalLlmConfig::from_env gives for the environment `env`.
pub open spec fn global_matches_env(c: GlobalLlmConfig, env: Seq<(String, String)>) -> bool {
    &&& c.provider@ == match env_var(env, "RULE_ENGINE_LLM_PROVIDER"@) {
            Some(v) => unicode_lowercase(v),
            None => "ollama"@,
        }
    &&& c.max_output_tokens == or_default(
            env_number(env, "RULE_ENGINE_LLM_MAX_OUTPUT_TOKENS"@, u32::MAX as nat),
            1024,
        )
    &&& c.timeout_ms == or_default(
            env_number(env, "RULE_ENGINE_LLM_TIMEOUT_MS"@, u64::MAX as nat),
            30_000,
        )
}

impl GlobalLlmConfig {
    /// Load configuration from environment variables
    pub fn from_env(env: &Vec<(String, String)>) -> (c: Self)
        ensures
            global_matches_env(c, env@),
    {
        let mut config = GlobalLlmConfig::default();
        if let Some(v) = env_lookup(env, "RULE_ENGINE_LLM_PROVIDER") {
            config.provider = str_to_lowercase(v.as_str());
        }
        if let Some(t) = env_u32(env, "RULE_ENGINE_LLM_MAX_OUTPUT_TOKENS") {
            config.max_output_tokens = t;
        }
        if let Some(t) = env_u64(env, "RULE_ENGINE_LLM_TIMEOUT_MS", u64::MAX) {
            config.timeout_ms = t;
        }
        config
    }
}

/// Anthropic provider configuration
#[derive(Debug, Clone)]
pub struct AnthropicConfig {
    /// API key (required)
    pub api_key: Option<String>,
    /// API endpoint URL
    pub api_url: String,
    /// API version string
    pub api_version: String,
    /// Maximum concurrent requests (conservative for rate limits)
    pub max_concurrency: usize,
    /// Max output tokens (provider-specific override)
    pub max_output_tokens: Option<u32>,
    /// Timeout in milliseconds (provider-specific override)
    pub timeout_ms: Option<u64>,
}

/// The view of an optional text setting.
pub open spec fn opt_view(s: Option<String>) -> Option<Seq<char>> {
    match s {
        Some(v) => Some(v@),
        None => None,
    }
}

impl Default for AnthropicConfig {
    fn default() -> (c: Self)
        ensures
            c.api_key is None,
            c.api_url@ == "https://api.anthropic.com/v1/messages"@,
            c.api_version@ == "2023-06-01"@,
            c.max_concurrency == 5,
            c.max_output_tokens is None,
            c.timeout_ms is None,
    {
        AnthropicConfig {
            api_key: None,
            api_url: "https://api.anthropic.com/v1/messages".to_owned(),
            api_version: "2023-06-01".to_owned(),
            max_concurrency: 5,
            max_output_tokens: None,
            timeout_ms: None,
        }
    }
}

/// What AnthropicConfig::from_env gives for the environment `env`.
pub open spec fn anthropic_matches_env(c: AnthropicConfig, env: Seq<(String, String)>) -> bool {
    &&& opt_view(c.api_key) == first_set(
            env_var(env, "RULE_ENGINE_ANTHROPIC_API_KEY"@),
            env_var(env, "ANTHROPIC_API_KEY"@),
        )
    &&& c.api_url@ == match env_var(env, "RULE_ENGINE_ANTHROPIC_API_URL"@) {
            Some(v) => v,
            None => "https://api.anthropic.com/v1/messages"@,
        }
    &&& c.api_version@ == match env_var(env, "RULE_ENGINE_ANTHROPIC_API_VERSION"@) {
            Some(v) => v,
            None => "2023-06-01"@,
        }
    &&& c.max_concurrency == or_default(
            env_number(env, "RULE_ENGINE_ANTHROPIC_MAX_CONCURRENCY"@, usize::MAX as nat),
            5,
        )
    &&& c.max_output_tokens == match env_number(
            env,
            "RULE_ENGINE_ANTHROPIC_MAX_OUTPUT_TOKENS"@,
            u32::MAX as nat,
        ) {
            Some(n) => Some(n as u32),
            None => None::<u32>,
        }
    &&& c.timeout_ms == match env_number(env, "RULE_ENGINE_ANTHROPIC_TIMEOUT_MS"@, u64::MAX as nat) {
            Some(n) => Some(n as u64),
            None => None::<u64>,
        }
}

impl AnthropicConfig {
    /// Load from environment variables
    pub fn from_env(env: &Vec<(String, String)>) -> (c: Self)
        ensures
            anthropic_matches_env(c, env@),
    {
        let mut config = AnthropicConfig::default();
        config.api_key = match env_string(env, "RULE_ENGINE_ANTHROPIC_API_KEY") {
            Some(k) => Some(k),
            None => env_string(env, "ANTHROPIC_API_KEY"),
        };
        if let Some(v) = env_string(env, "RULE_ENGINE_ANTHROPIC_API_URL") {
            config.api_url = v;
        }
        if let Some(v) = env_string(env, "RULE_ENGINE_ANTHROPIC_API_VERSION") {
            config.api_version = v;
        }
        if let Some(c) = env_usize(env, "RULE_ENGINE_ANTHROPIC_MAX_CONCURRENCY") {
            config.max_concurrency = c;
        }
        if let Some(t) = env_u32(env, "RULE_ENGINE_ANTHROPIC_MAX_OUTPUT_TOKENS") {
            config.max_output_tokens = Some(t);
        }
        if let Some(ms) = env_u64(env, "RULE_ENGINE_ANTHROPIC_TIMEOUT_MS", u64::MAX) {
            config.timeout_ms = Some(ms);
        }
        config
    }

    /// Check if API key is available
    pub fn is_configured(&self) -> (b: bool)
        ensures
            b == (self.api_key matches Some(k) && k@.len() > 0),
    {
        match &self.api_key {
            Some(k) => crate::text::str_chars(k.as_str()).len() > 0,
            None => false,
        }
    }

    /// Get effective max output tokens
    pub fn effective_max_output_tokens(&self, global: &GlobalLlmConfig) -> (t: u32)
        ensures
            t == match self.max_output_tokens {
                Some(v) => v,
                None => global.max_output_tokens,
            },
    {
        match self.max_output_tokens {
            Some(v) => v,
            None => global.max_output_tokens,
        }
    }

    /// Get effective timeout, in milliseconds
    pub fn effective_timeout(&self, global: &GlobalLlmConfig) -> (t: u64)
        ensures
            t == match self.timeout_ms {
                Some(v) => v,
                None => global.timeout_ms,
            },
    {
        match self.timeout_ms {
            Some(v) => v,
            None => global.timeout_ms,
        }
    }
}

/// Ollama provider configuration
#[derive(Debug, Clone)]
pub struct OllamaConfig {
    /// Ollama server URL
    pub base_url: String,
    /// Default model name
    pub model: String,
    /// Maximum concurrent requests (higher for local)
    pub max_concurrency: usize,
    /// Max output tokens (provider-specific override)
    pub max_output_tokens: Option<u32>,
    /// Timeout in milliseconds (provider-specific override)
    pub timeout_ms: Option<u64>,
}

impl Default for OllamaConfig {
    fn default() -> (c: Self)
        ensures
            c.base_url@ == "http://localhost:11434"@,
            c.model@ == "qwen2.5:7b"@,
            c.max_concurrency == 10,
            c.max_output_tokens is None,
            c.timeout_ms is None,
    {
        OllamaConfig {
            base_url: "http://localhost:11434".to_owned(),
            model: "qwen2.5:7b".to_owned(),
            max_concurrency: 10,
            max_output_tokens: None,
            timeout_ms: None,
        }
    }
}

/// What OllamaConfig::from_env gives for the environment `env`.
pub open spec fn ollama_matches_env(c: OllamaConfig, env: Seq<(String, String)>) -> bool {
    &&& c.base_url@ == match first_set(
            env_var(env, "RULE_ENGINE_OLLAMA_BASE_URL"@),
            env_var(env, "OLLAMA_BASE_URL"@),
        ) {
            Some(v) => v,
            None => "http://localhost:11434"@,
        }
    &&& c.model@ == match first_set(
            env_var(env, "RULE_ENGINE_OLLAMA_MODEL"@),
            env_var(env, "OLLAMA_MODEL"@),
        ) {
            Some(v) => v,
            None => "qwen2.5:7b"@,
        }
    &&& c.max_concurrency == or_default(
            env_number(env, "RULE_ENGINE_OLLAMA_MAX_CONCURRENCY"@, usize::MAX as nat),
            10,
        )
    &&& c.max_output_tokens == match env_number(
            env,
            "RULE_ENGINE_OLLAMA_MAX_OUTPUT_TOKENS"@,
            u32::MAX as nat,
        ) {
            Some(n) => Some(n as u32),
            None => None::<u32>,
        }
    &&& c.timeout_ms == match env_number(env, "RULE_ENGINE_OLLAMA_TIMEOUT_MS"@, u64::MAX as nat) {
            Some(n) => Some(n as u64),
            None => None::<u64>,
        }
}

impl OllamaConfig {
    /// Load from environment variables; the base URL and the model also
    /// fall back on the legacy `OLLAMA_BASE_URL` and `OLLAMA_MODEL`.
    pub fn from_env(env: &Vec<(String, String)>) -> (c: Self)
        ensures
            ollama_matches_env(c, env@),
    {
        let mut config = OllamaConfig::default();
        if let Some(v) = env_string(env, "RULE_ENGINE_OLLAMA_BASE_URL") {
            config.base_url = v;
        } else if let Some(v) = env_string(env, "OLLAMA_BASE_URL") {
            config.base_url = v;
        }
        if let Some(v) = env_string(env, "RULE_ENGINE_OLLAMA_MODEL") {
            config.model = v;
        } else if let Some(v) = env_string(env, "OLLAMA_MODEL") {
            config.model = v;
        }
        if let Some(c) = env_usize(env, "RULE_ENGINE_OLLAMA_MAX_CONCURRENCY") {
            config.max_concurrency = c;
        }
        if let Some(t) = env_u32(env, "RULE_ENGINE_OLLAMA_MAX_OUTPUT_TOKENS") {
            config.max_output_tokens = Some(t);
        }
        if let Some(ms) = env_u64(env, "RULE_ENGINE_OLLAMA_TIMEOUT_MS", u64::MAX) {
            config.timeout_ms = Some(ms);
        }
        config
    }

    /// Get effective max output tokens
    pub fn effective_max_output_tokens(&self, global: &GlobalLlmConfig) -> (t: u32)
        ensures
            t == match self.max_output_tokens {
                Some(v) => v,
                None => global.max_output_tokens,
            },
    {
        match self.max_output_tokens {
            Some(v) => v,
            None => global.max_output_tokens,
        }
    }

    /// Get effective timeout, in milliseconds
    pub fn effective_timeout(&self, global: &GlobalLlmConfig) -> (t: u64)
        ensures
            t == match self.timeout_ms {
                Some(v) => v,
                None => global.timeout_ms,
            },
    {
        match self.timeout_ms {
            Some(v) => v,
            None => global.timeout_ms,
        }
    }
}

/// Complete LLM evaluator configuration loaded from environment
#[derive(Debug, Clone)]
pub struct RuleEngineLlmConfig {
    /// Global settings (defaults)
    pub global: GlobalLlmConfig,
    /// Anthropic-specific settings
    pub anthropic: AnthropicConfig,
    /// Ollama-specific settings
    pub ollama: OllamaConfig,
}

impl Default for RuleEngineLlmConfig {
    fn default() -> (c: Self)
        ensures
            c.global.provider@ == "ollama"@,
            c.global.max_output_tokens == 1024,
            c.global.timeout_ms == 30_000,
            c.anthropic.api_key is None,
            c.anthropic.max_concurrency == 5,
            c.anthropic.max_output_tokens is None,
            c.anthropic.timeout_ms is None,
            c.ollama.base_url@ == "http://localhost:11434"@,
            c.ollama.model@ == "qwen2.5:7b"@,
            c.ollama.max_concurrency == 10,
            c.ollama.max_output_tokens is None,
            c.ollama.timeout_ms is None,
    {
        RuleEngineLlmConfig {
            global: GlobalLlmConfig::default(),
            anthropic: AnthropicConfig::default(),
            ollama: OllamaConfig::default(),
        }
    }
}

impl RuleEngineLlmConfig {
    /// Load complete configuration from environment
    pub fn from_env(env: &Vec<(String, String)>) -> (c: Self)
        ensures
            global_matches_env(c.global, env@),
            anthropic_matches_env(c.anthropic, env@),
            ollama_matches_env(c.ollama, env@),
    {
        RuleEngineLlmConfig {
            global: GlobalLlmConfig::from_env(env),
            anthropic: AnthropicConfig::from_env(env),
            ollama: OllamaConfig::from_env(env),
        }
    }

    /// Get the configured default provider name
    pub fn default_provider(&self) -> (p: &str)
        ensures
            p@ == self.global.provider@,
    {
        self.global.provider.as_str()
    }

    /// Check if Anthropic is configured (has API key)
    pub fn is_anthropic_configured(&self) -> (b: bool)
        ensures
            b == (self.anthropic.api_key matches Some(k) && k@.len() > 0),
    {
        self.anthropic.is_configured()
    }

    /// Get max concurrency for the specified provider; a provider that is
    /// not known takes Ollama's setting.
    pub fn max_concurrency_for(&self, provider: &str) -> (n: usize)
        ensures
            n == match spec_provider_kind(provider@) {
                ProviderKind::Anthropic => self.anthropic.max_concurrency,
                _ => self.ollama.max_concurrency,
            },
    {
        match provider_kind(provider) {
            ProviderKind::Anthropic => self.anthropic.max_concurrency,
            ProviderKind::Ollama => self.ollama.max_concurrency,
            ProviderKind::Other => self.ollama.max_concurrency,
        }
    }

    /// Get effective timeout (milliseconds) for the specified provider; a
    /// provider that is not known takes the global timeout.
    pub fn timeout_for(&self, provider: &str) -> (t: u64)
        ensures
            t == match spec_provider_kind(provider@) {
                ProviderKind::Anthropic => match self.anthropic.timeout_ms {
                    Some(v) => v,
                    None => self.global.timeout_ms,
                },
                ProviderKind::Ollama => match self.ollama.timeout_ms {
                    Some(v) => v,
                    None => self.global.timeout_ms,
                },
                ProviderKind::Other => self.global.timeout_ms,
            },
    {
        match provider_kind(provider) {
            ProviderKind::Anthropic => self.anthropic.effective_timeout(&self.global),
            ProviderKind::Ollama => self.ollama.effective_timeout(&self.global),
            ProviderKind::Other => self.global.timeout_ms,
        }
    }

    /// Get effective max output tokens for the specified provider; a
    /// provider that is not known takes the global setting.
    pub fn max_output_tokens_for(&self, provider: &str) -> (t: u32)
        ensures
            t == match spec_provider_kind(provider@) {
                ProviderKind::Anthropic => match self.anthropic.max_output_tokens {
                    Some(v) => v,
                    None => self.global.max_output_tokens,
                },
                ProviderKind::Ollama => match self.ollama.max_output_tokens {
                    Some(v) => v,
                    None => self.global.max_output_tokens,
                },
                ProviderKind::Other => self.global.max_output_tokens,
            },
    {
        match provider_kind(provider) {
            ProviderKind::Anthropic => self.anthropic.effective_max_output_tokens(&self.global),
            ProviderKind::Ollama => self.ollama.effective_max_output_tokens(&self.global),
            ProviderKind::Other => self.global.max_output_tokens,
        }
    }
}

/// An environment that sets no variable gives the default configuration.
pub proof fn lemma_empty_environment_defaults(c: RuleEngineLlmConfig, env: Seq<(String, String)>)
    requires
        env.len() == 0,
        global_matches_env(c.global, env),
        anthropic_matches_env(c.anthropic, env),
        ollama_matches_env(c.ollama, env),
    ensures
        c.global.provider@ == "ollama"@,
        c.global.max_output_tokens == 1024,
        c.global.timeout_ms == 30_000,
        c.anthropic.api_key is None,
        c.anthropic.api_url@ == "https://api.anthropic.com/v1/messages"@,
        c.anthropic.api_version@ == "2023-06-01"@,
        c.anthropic.max_concurrency == 5,
        c.anthropic.max_output_tokens is None,
        c.anthropic.timeout_ms is None,
        c.ollama.base_url@ == "http://localhost:11434"@,
        c.ollama.model@ == "qwen2.5:7b"@,
        c.ollama.max_concurrency == 10,
        c.ollama.max_output_tokens is None,
        c.ollama.timeout_ms is None,
{
}

} // verus!
