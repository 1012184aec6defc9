use sentio_memory::config::{Config, LogLevel};

#[test]
fn test_default_prompts() {
    let config = Config::from_env(Vec::new()).unwrap();

    let prompt = config.get_prompt("introduction.default").unwrap();
    assert!(prompt.system.contains("专业的邮件助手"));
    assert!(prompt.user.contains("请简单介绍一下自己"));

    let prompt = config.get_prompt("email_analysis.classify").unwrap();
    assert!(prompt.system.contains("邮件分类专家"));
    assert!(prompt.user.contains("{email_content}"));

    let prompt = config.get_prompt("email_reply.generate_response").unwrap();
    assert!(prompt.system.contains("邮件回复助手"));
    assert!(prompt.user.contains("{original_email}"));
}

#[test]
fn test_get_prompt_not_found() {
    let config = Config::from_env(Vec::new()).unwrap();
    let result = config.get_prompt("non_existent.prompt");
    assert!(result.is_err());
    assert_eq!(
        result.unwrap_err().to_string(),
        "Prompt 'non_existent.prompt' not found"
    );
}

#[test]
fn test_get_prompt_invalid_format() {
    let config = Config::from_env(Vec::new()).unwrap();
    let result = config.get_prompt("invalid_format");
    assert!(result.is_err());
    assert_eq!(
        result.unwrap_err().to_string(),
        "Invalid prompt name format: 'invalid_format'. Expected 'category.name'."
    );
}

#[test]
fn test_config_from_env() {
    let vars = vec![
        ("SENTIO_SERVER__HOST".to_string(), "test-host".to_string()),
        ("SENTIO_SERVER__PORT".to_string(), "9999".to_string()),
    ];
    let config = Config::from_env(vars).unwrap();
    assert_eq!(config.server.host, "test-host");
    assert_eq!(config.server.port, 9999);
}

#[test]
fn test_llm_config_from_env() {
    let vars = vec![
        ("SENTIO_LLM__API_KEY".to_string(), "test-api-key-12345".to_string()),
        ("SENTIO_LLM__BASE_URL".to_string(), "https://test.api.com".to_string()),
        ("SENTIO_LLM__MODEL".to_string(), "test-model".to_string()),
    ];
    let config = Config::from_env(vars).unwrap();
    assert_eq!(config.llm.api_key, "test-api-key-12345");
    assert_eq!(config.llm.base_url, "https://test.api.com");
    assert_eq!(config.llm.model, "test-model");
}

#[test]
fn defaults_hold_without_environment() {
    let config = Config::from_env(Vec::new()).unwrap();
    assert_eq!(config.email.smtp.host, "smtp.gmail.com");
    assert_eq!(config.email.smtp.port, 587);
    assert_eq!(config.llm.timeout, 120);
    assert_eq!(config.llm.max_retries, 3);
    assert_eq!(config.telemetry.log_level, LogLevel::Info);
    assert_eq!(config.server.workers, 4);
}

#[test]
fn env_overrides_numbers_flags_and_levels() {
    let vars = vec![
        ("SENTIO_LLM__TIMEOUT".to_string(), "30".to_string()),
        ("SENTIO_TELEMETRY__JSON_FORMAT".to_string(), "true".to_string()),
        ("SENTIO_TELEMETRY__LOG_LEVEL".to_string(), "debug".to_string()),
        ("SENTIO_TELEMETRY__LOG_FILE".to_string(), "app.log".to_string()),
        ("OTHER_VARIABLE".to_string(), "ignored".to_string()),
    ];
    let config = Config::from_env(vars).unwrap();
    assert_eq!(config.llm.timeout, 30);
    assert!(config.telemetry.json_format);
    assert_eq!(config.telemetry.log_level, LogLevel::Debug);
    assert_eq!(config.telemetry.log_file.as_deref(), Some("app.log"));
}

#[test]
fn env_rejects_values_that_do_not_fit() {
    let too_big = vec![("SENTIO_SERVER__PORT".to_string(), "70000".to_string())];
    assert_eq!(
        Config::from_env(too_big).unwrap_err(),
        "invalid value '70000' for SENTIO_SERVER__PORT"
    );
    let not_a_flag = vec![("SENTIO_TELEMETRY__CONSOLE".to_string(), "maybe".to_string())];
    assert!(Config::from_env(not_a_flag).is_err());
    let not_a_level = vec![("SENTIO_TELEMETRY__LOG_LEVEL".to_string(), "loud".to_string())];
    assert!(Config::from_env(not_a_level).is_err());
}

#[test]
fn prompt_lookup_rejects_two_dots() {
    let config = Config::from_env(Vec::new()).unwrap();
    assert!(config.get_prompt("a.b.c").is_err());
    let p = config.get_prompt("email_reply.suggest_actions").unwrap();
    assert!(p.user.contains("{email_content}"));
}

#[test]
fn fixed_prompts_of_the_application() {
    let config = Config::from_env(Vec::new()).unwrap();
    let (system, user) = config.get_email_analysis_prompt();
    assert!(system.contains("邮件分类专家"));
    assert!(user.contains("{email_content}"));
    let (system, user) = config.get_email_reply_prompt();
    assert!(system.contains("邮件回复助手"));
    assert!(user.contains("{analysis_result}"));
}

#[test]
fn default_settings_have_no_prompts() {
    let config = Config::default();
    assert_eq!(config.llm.api_key, "your-api-key");
    assert_eq!(config.server.port, 8080);
    assert!(config.prompts.prompts.is_empty());
    assert!(config.get_prompt("introduction.default").is_err());
}
