use committo::config::{Config, DEFAULT_OPENAI_MODEL, GPT4_MODEL};
use committo::prompt::build_system_prompt;
use committo::provider::{
    first_choice_text, handle_response, interpret_response, Generation, LlmError, OpenAiProvider,
    ProviderFactory, DRY_RUN_COMPLETE,
};

fn keyed(key: Option<&str>, count: Option<u32>) -> Config {
    Config {
        api_key: key.map(|k| k.to_string()),
        candidate_count: count,
        llm_provider: None,
        llm_model: None,
    }
}

#[test]
fn provider_unit_tests_test_openai_provider_config() {
    let app_config = Config::default();
    let provider = OpenAiProvider::new(app_config);
    let config = provider.get_config();
    assert_eq!(config.model, DEFAULT_OPENAI_MODEL);
    assert_eq!(config.endpoint, "https://api.openai.com/v1/chat/completions");
    assert_eq!(provider.get_provider_name(), "OpenAI");
}

#[test]
fn provider_unit_tests_test_openai_provider_with_custom_model() {
    let app_config = Config::default();
    let provider = OpenAiProvider::with_model(app_config, "gpt-4");
    let config = provider.get_config();
    assert_eq!(config.model, GPT4_MODEL);
    assert_eq!(provider.get_provider_name(), "OpenAI");
}

#[test]
fn provider_unit_tests_test_provider_factory_default() {
    let config = Config::default();
    let provider = ProviderFactory::create_provider(config);
    assert_eq!(provider.get_provider_name(), "OpenAI");
}

#[test]
fn provider_unit_tests_test_provider_factory_specific_methods() {
    let config = Config::default();
    let provider = ProviderFactory::create_openai(config.clone());
    assert_eq!(provider.get_provider_name(), "OpenAI");
    assert_eq!(provider.get_config().model, DEFAULT_OPENAI_MODEL);

    let provider = ProviderFactory::create_openai_with_model(config, "gpt-4-turbo");
    assert_eq!(provider.get_provider_name(), "OpenAI");
    assert_eq!(provider.get_config().model, "gpt-4-turbo");
}

#[test]
fn factory_uses_configured_model_for_openai_only() {
    let mut c = Config::default();
    c.llm_model = Some("gpt-4".to_string());
    assert_eq!(ProviderFactory::create_provider(c.clone()).get_config().model, "gpt-4");
    c.llm_provider = Some("openai".to_string());
    let p = ProviderFactory::create_provider(c.clone());
    assert_eq!(p.get_config().model, "gpt-4");
    assert_eq!(p.get_provider_name(), "openai");
    c.llm_provider = Some("unknown".to_string());
    let p = ProviderFactory::create_provider(c);
    assert_eq!(p.get_config().model, DEFAULT_OPENAI_MODEL);
    assert_eq!(p.get_provider_name(), "unknown");
}

#[test]
fn missing_or_empty_key_is_a_config_error() {
    for c in [keyed(None, None), keyed(Some(""), None)] {
        let p = OpenAiProvider::new(c);
        match p.get_api_key() {
            Err(LlmError::ConfigError(m)) => assert_eq!(m, "API key not found in config"),
            other => panic!("unexpected {:?}", other),
        }
        match p.prepare_generation("", "diff content", true) {
            Err(e) => assert!(e.message().contains("API key not found")),
            Ok(g) => panic!("unexpected {:?}", g),
        }
    }
    let p = OpenAiProvider::new(keyed(Some("sk-1"), None));
    assert_eq!(p.get_api_key().unwrap(), "sk-1");
}

#[test]
fn candidate_count_defaults_to_one() {
    assert_eq!(OpenAiProvider::new(keyed(Some("k"), None)).get_candidate_count(), 1);
    assert_eq!(OpenAiProvider::new(keyed(Some("k"), Some(4))).get_candidate_count(), 4);
}

#[test]
fn dry_run_previews_without_request() {
    let p = OpenAiProvider::new(keyed(Some("sk-test123456789"), Some(3)));
    let g = p.prepare_generation("1. Use Korean", "diff --git a/x b/x\n+line", true).unwrap();
    let prompt = build_system_prompt("1. Use Korean", 3);
    match g {
        Generation::DryRun(preview) => {
            assert_eq!(
                preview,
                format!(
                    "--- Dry Run ---\n--- Configuration ---\nApi Key : \"sk-te***********\" (masked)\nCandidate Count : 3\n\n--- Prompt ---\n{}\n\n--- Git Diff ---\ndiff --git a/x b/x\n+line\n--- End Dry Run ---\n",
                    prompt
                )
            );
        }
        other => panic!("unexpected {:?}", other),
    }
    assert_eq!(DRY_RUN_COMPLETE, "Dry run complete.");
}

#[test]
fn live_run_requests_with_prompt() {
    let p = OpenAiProvider::new(keyed(Some("k"), None));
    match p.prepare_generation("", "diff", false).unwrap() {
        Generation::Request(prompt) => assert_eq!(prompt, build_system_prompt("", 1)),
        other => panic!("unexpected {:?}", other),
    }
}

#[test]
fn server_error_is_api_error_with_status() {
    let body = r#"{"choices":[{"message":{"content":"feat: x"}}]}"#;
    match handle_response(500, body) {
        Err(LlmError::ApiError(m)) => {
            assert!(m.contains("500"));
            assert_eq!(m, "API request failed with status: 500");
        }
        other => panic!("unexpected {:?}", other),
    }
    match interpret_response(404, Some("x".to_string())) {
        Err(e) => assert_eq!(e.message(), "API Error: API request failed with status: 404"),
        other => panic!("unexpected {:?}", other),
    }
}

#[test]
fn success_gives_first_choice_content() {
    let body = r#"{"id":"1","choices":[{"message":{"role":"assistant","content":"feat: add login"}},{"message":{"content":"other"}}]}"#;
    assert_eq!(handle_response(200, body).unwrap(), "feat: add login");
    assert_eq!(first_choice_text(body).as_deref(), Some("feat: add login"));
    assert_eq!(interpret_response(201, Some("ok".to_string())).unwrap(), "ok");
}

#[test]
fn malformed_bodies_are_shape_errors() {
    let bodies = [
        "not json",
        r#"{"choices":[]}"#,
        r#"{"choices":{"message":{"content":"x"}}}"#,
        r#"{"choices":[{"message":{"content":5}}]}"#,
        r#"{"choices":[{"text":"x"}]}"#,
        r#"[1,2]"#,
    ];
    for b in bodies {
        assert_eq!(first_choice_text(b), None);
        match handle_response(200, b) {
            Err(LlmError::ApiError(m)) => assert_eq!(m, "Invalid response format from OpenAI API"),
            other => panic!("unexpected {:?}", other),
        }
    }
}

#[test]
fn error_messages_name_their_kind() {
    assert_eq!(LlmError::ApiError("a".to_string()).message(), "API Error: a");
    assert_eq!(LlmError::ConfigError("b".to_string()).message(), "Configuration Error: b");
    assert_eq!(LlmError::NetworkError("c".to_string()).message(), "Network Error: c");
}
