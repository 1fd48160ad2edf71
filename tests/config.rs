use committo::config::{
    get_config_value, parse_candidate_count, setup_models, setup_providers, Config, ConfigError,
    ConfigProvider, DEFAULT_OPENAI_MODEL, GPT4_MODEL,
};

fn full_config() -> Config {
    Config {
        api_key: Some("test_key".to_string()),
        candidate_count: Some(5),
        llm_provider: Some("openai".to_string()),
        llm_model: Some("gpt-4".to_string()),
    }
}

#[test]
fn provider_unit_tests_test_api_key_masking() {
    let config = Config {
        api_key: Some("test_key".to_string()),
        candidate_count: Some(1),
        llm_provider: Some("mock".to_string()),
        llm_model: Some("mock-model".to_string()),
    };
    assert_eq!(config.mask_api_key("sk-1234567890"), "sk-12********");
    assert_eq!(config.mask_api_key("abcd"), "****");
    assert_eq!(config.mask_api_key("12345"), "12345");
    assert_eq!(config.mask_api_key("123456789012345"), "12345**********");
}

#[test]
fn test_config_dry_run_output() {
    let config = full_config();
    let output = config.show_masking_config();
    assert!(output.contains("--- Configuration ---"));
    assert!(output.contains("Candidate Count : 5"));
    assert!(output.contains("LLM Provider : \"openai\""));
    assert!(output.contains("LLM Model : \"gpt-4\""));
    assert!(output.contains("(masked)"));
}

#[test]
fn masking_config_text_is_exact() {
    let output = full_config().show_masking_config();
    assert_eq!(
        output,
        "--- Configuration ---\nApi Key : \"test_***\" (masked)\nCandidate Count : 5\nLLM Provider : \"openai\"\nLLM Model : \"gpt-4\"\n"
    );
    assert_eq!(Config::default().show_masking_config(), "--- Configuration ---\n");
}

#[test]
fn masking_counts_characters() {
    let c = Config::default();
    assert_eq!(c.mask_api_key(""), "");
    assert_eq!(c.mask_api_key("äöüßé"), "äöüßé");
    assert_eq!(c.mask_api_key("äöüßéx"), "äöüßé*");
}

#[test]
fn set_each_key() {
    let mut c = Config::default();
    assert!(c.set_value("api-key", "sk-abc").is_ok());
    assert!(c.set_value("candidate-count", "3").is_ok());
    assert!(c.set_value("llm-provider", "openai").is_ok());
    assert!(c.set_value("llm-model", "gpt-4").is_ok());
    assert_eq!(c.api_key.as_deref(), Some("sk-abc"));
    assert_eq!(c.candidate_count, Some(3));
    assert_eq!(c.llm_provider.as_deref(), Some("openai"));
    assert_eq!(c.llm_model.as_deref(), Some("gpt-4"));
}

#[test]
fn set_candidate_count_rejects_non_numbers() {
    let mut c = full_config();
    let e = c.set_value("candidate-count", "five").unwrap_err();
    assert!(matches!(e, ConfigError::InvalidCount));
    assert_eq!(e.message(), "candidate-count must be a number");
    assert_eq!(c.candidate_count, Some(5));
    assert!(c.set_value("candidate-count", "-1").is_err());
    assert!(c.set_value("candidate-count", "4294967296").is_err());
    assert!(c.set_value("candidate-count", " 3").is_err());
    assert!(c.set_value("candidate-count", "").is_err());
    assert_eq!(c.candidate_count, Some(5));
}

#[test]
fn set_unknown_key_is_refused() {
    let mut c = full_config();
    let e = c.set_value("colour", "blue").unwrap_err();
    match &e {
        ConfigError::InvalidKey(k) => assert_eq!(k, "colour"),
        _ => panic!("wrong error"),
    }
    assert_eq!(
        e.message(),
        "Invalid config key 'colour'. Valid keys are: api-key, candidate-count, llm-provider, llm-model, committo-dev"
    );
    assert_eq!(c.api_key.as_deref(), Some("test_key"));
}

#[test]
fn count_parsing_follows_u32_rules() {
    assert_eq!(parse_candidate_count("0"), Some(0));
    assert_eq!(parse_candidate_count("+7"), Some(7));
    assert_eq!(parse_candidate_count("007"), Some(7));
    assert_eq!(parse_candidate_count("4294967295"), Some(u32::MAX));
    assert_eq!(parse_candidate_count("4294967296"), None);
    assert_eq!(parse_candidate_count("99999999999999999999999"), None);
    assert_eq!(parse_candidate_count("+"), None);
    assert_eq!(parse_candidate_count("1a"), None);
    for s in ["12", "+3", "abc", "", "-0", "42 "] {
        assert_eq!(parse_candidate_count(s), s.parse::<u32>().ok());
    }
}

#[test]
fn handle_set_command_starts_from_loaded_or_empty() {
    let c = Config::handle_set_command(None, "llm-model", "gpt-4").unwrap();
    assert_eq!(c.llm_model.as_deref(), Some("gpt-4"));
    assert!(c.api_key.is_none());
    let c = Config::handle_set_command(Some(full_config()), "candidate-count", "1").unwrap();
    assert_eq!(c.candidate_count, Some(1));
    assert_eq!(c.api_key.as_deref(), Some("test_key"));
    assert!(Config::handle_set_command(None, "bad", "x").is_err());
}

#[test]
fn get_config_value_reads_each_key() {
    let c = full_config();
    assert_eq!(get_config_value(&c, "api-key").as_deref(), Some("test_key"));
    assert_eq!(get_config_value(&c, "candidate-count").as_deref(), Some("5"));
    assert_eq!(get_config_value(&c, "llm-provider").as_deref(), Some("openai"));
    assert_eq!(get_config_value(&c, "llm-model").as_deref(), Some("gpt-4"));
    assert_eq!(get_config_value(&c, "other"), None);
    assert_eq!(get_config_value(&Config::default(), "api-key"), None);
}

#[test]
fn config_provider_reads_fields() {
    let c = full_config();
    assert_eq!(c.get_api_key().as_deref(), Some("test_key"));
    assert_eq!(c.get_llm_provider().as_deref(), Some("openai"));
    assert_eq!(c.get_llm_model().as_deref(), Some("gpt-4"));
    assert_eq!(c.get_candidate_count(), Some(5));
    assert_eq!(DEFAULT_OPENAI_MODEL, "gpt-3.5-turbo");
    assert_eq!(GPT4_MODEL, "gpt-4");
}

#[test]
fn setup_offers_models_per_provider() {
    assert_eq!(setup_providers(), vec!["openai"]);
    assert_eq!(setup_models("openai"), vec!["gpt-3.5-turbo", "gpt-4", "gpt-4.1-mini-2025-04-14"]);
    assert_eq!(setup_models("other"), vec!["gpt-3.5-turbo"]);
}
