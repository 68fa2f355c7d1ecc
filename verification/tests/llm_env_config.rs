use rule_engine::llm::env_config::{
    AnthropicConfig, GlobalLlmConfig, OllamaConfig, RuleEngineLlmConfig,
};

fn env(pairs: &[(&str, &str)]) -> Vec<(String, String)> {
    pairs.iter().map(|(k, v)| (k.to_string(), v.to_string())).collect()
}

#[test]
fn test_default_provider_is_ollama() {
    let config = GlobalLlmConfig::default();
    assert_eq!(config.provider, "ollama");
}

#[test]
fn test_default_concurrency() {
    let config = RuleEngineLlmConfig::default();
    assert_eq!(config.anthropic.max_concurrency, 5);
    assert_eq!(config.ollama.max_concurrency, 10);
}

#[test]
fn test_max_concurrency_for_provider() {
    let config = RuleEngineLlmConfig::default();

    assert_eq!(config.max_concurrency_for("anthropic"), 5);
    assert_eq!(config.max_concurrency_for("ollama"), 10);
    assert_eq!(config.max_concurrency_for("unknown"), 10); // Defaults to ollama
}

#[test]
fn env_config_provider_names_ignore_case() {
    let config = RuleEngineLlmConfig::default();
    assert_eq!(config.max_concurrency_for("ANTHROPIC"), 5);
    assert_eq!(config.max_concurrency_for("Ollama"), 10);
}

#[test]
fn env_config_empty_environment_gives_defaults() {
    let config = RuleEngineLlmConfig::from_env(&env(&[]));
    assert_eq!(config.default_provider(), "ollama");
    assert_eq!(config.global.max_output_tokens, 1024);
    assert_eq!(config.global.timeout_ms, 30_000);
    assert!(config.anthropic.api_key.is_none());
    assert_eq!(config.anthropic.api_url, "https://api.anthropic.com/v1/messages");
    assert_eq!(config.anthropic.api_version, "2023-06-01");
    assert_eq!(config.ollama.base_url, "http://localhost:11434");
    assert_eq!(config.ollama.model, "qwen2.5:7b");
    assert!(!config.is_anthropic_configured());
}

#[test]
fn env_config_reads_overrides() {
    let config = RuleEngineLlmConfig::from_env(&env(&[
        ("RULE_ENGINE_LLM_PROVIDER", "Anthropic"),
        ("RULE_ENGINE_LLM_MAX_OUTPUT_TOKENS", "2048"),
        ("RULE_ENGINE_LLM_TIMEOUT_MS", "5000"),
        ("RULE_ENGINE_ANTHROPIC_API_KEY", "sk-test"),
        ("RULE_ENGINE_ANTHROPIC_MAX_CONCURRENCY", "7"),
        ("RULE_ENGINE_ANTHROPIC_TIMEOUT_MS", "9000"),
        ("RULE_ENGINE_OLLAMA_MAX_OUTPUT_TOKENS", "512"),
    ]));
    assert_eq!(config.default_provider(), "anthropic");
    assert!(config.is_anthropic_configured());
    assert_eq!(config.max_concurrency_for("anthropic"), 7);
    assert_eq!(config.timeout_for("anthropic"), 9000);
    assert_eq!(config.timeout_for("ollama"), 5000);
    assert_eq!(config.timeout_for("other"), 5000);
    assert_eq!(config.max_output_tokens_for("anthropic"), 2048);
    assert_eq!(config.max_output_tokens_for("ollama"), 512);
    assert_eq!(config.max_output_tokens_for("other"), 2048);
}

#[test]
fn env_config_unreadable_numbers_keep_defaults() {
    let config = RuleEngineLlmConfig::from_env(&env(&[
        ("RULE_ENGINE_LLM_TIMEOUT_MS", "soon"),
        ("RULE_ENGINE_OLLAMA_MAX_CONCURRENCY", "-3"),
        ("RULE_ENGINE_LLM_MAX_OUTPUT_TOKENS", "99999999999"),
    ]));
    assert_eq!(config.global.timeout_ms, 30_000);
    assert_eq!(config.ollama.max_concurrency, 10);
    assert_eq!(config.global.max_output_tokens, 1024);
}

#[test]
fn env_config_legacy_variables_are_fallbacks() {
    let legacy = OllamaConfig::from_env(&env(&[
        ("OLLAMA_BASE_URL", "http://gpu:11434"),
        ("OLLAMA_MODEL", "llama3.2"),
    ]));
    assert_eq!(legacy.base_url, "http://gpu:11434");
    assert_eq!(legacy.model, "llama3.2");
    let both = OllamaConfig::from_env(&env(&[
        ("OLLAMA_BASE_URL", "http://gpu:11434"),
        ("RULE_ENGINE_OLLAMA_BASE_URL", "http://main:11434"),
    ]));
    assert_eq!(both.base_url, "http://main:11434");
    let key = AnthropicConfig::from_env(&env(&[("ANTHROPIC_API_KEY", "legacy-key")]));
    assert_eq!(key.api_key.as_deref(), Some("legacy-key"));
    let empty_key = AnthropicConfig::from_env(&env(&[("RULE_ENGINE_ANTHROPIC_API_KEY", "")]));
    assert!(!empty_key.is_configured());
}

#[test]
fn env_config_effective_settings_prefer_provider_override() {
    let global = GlobalLlmConfig::default();
    let mut anthropic = AnthropicConfig::default();
    assert_eq!(anthropic.effective_timeout(&global), 30_000);
    anthropic.timeout_ms = Some(1_000);
    anthropic.max_output_tokens = Some(64);
    assert_eq!(anthropic.effective_timeout(&global), 1_000);
    assert_eq!(anthropic.effective_max_output_tokens(&global), 64);
}
