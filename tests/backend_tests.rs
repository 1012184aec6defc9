use sentio_memory::config::SmtpConfig;
use sentio_memory::email::{validate_smtp_config, EmailError};
use sentio_memory::llm::{completion_endpoint, error_for_status, render_template, LlmError, TokenUsage};
use sentio_memory::text::replace_all;
use sentio_memory::validate::{
    check_user_id, database_name, database_name_from_path, validate_config, validate_user_id, DatabaseConfig,
};
use sentio_memory::MemoryError;

#[test]
fn database_name_comes_from_the_url_path() {
    assert_eq!(database_name("mongodb://localhost:27017/mydb?retryWrites=true").unwrap(), "mydb");
    assert_eq!(database_name("mongodb+srv://cluster.example.com/app").unwrap(), "app");
    assert_eq!(database_name("mongodb://localhost:27017").unwrap(), "sentio");
    assert!(matches!(database_name("not a url"), Err(MemoryError::ConfigurationError { .. })));
}

#[test]
fn database_name_from_raw_paths() {
    assert_eq!(database_name_from_path("//store?x=1"), "store");
    assert_eq!(database_name_from_path("/"), "sentio");
    assert_eq!(database_name_from_path(""), "sentio");
    assert_eq!(database_name_from_path("/?x"), "");
}

#[test]
fn connection_settings_are_checked() {
    let good = DatabaseConfig { url: "mongodb://localhost".to_string(), max_connections: 5, connect_timeout: 3 };
    assert!(validate_config(&good).is_ok());
    let srv = DatabaseConfig { url: "mongodb+srv://h".to_string(), max_connections: 1, connect_timeout: 3 };
    assert!(validate_config(&srv).is_ok());
    let empty = DatabaseConfig { url: String::new(), max_connections: 5, connect_timeout: 3 };
    assert!(matches!(validate_config(&empty), Err(MemoryError::ConfigurationError { .. })));
    let http = DatabaseConfig { url: "http://localhost".to_string(), max_connections: 5, connect_timeout: 3 };
    assert!(validate_config(&http).is_err());
    let no_pool = DatabaseConfig { url: "mongodb://localhost".to_string(), max_connections: 0, connect_timeout: 3 };
    assert!(validate_config(&no_pool).is_err());
}

#[test]
fn user_ids_are_checked() {
    assert!(validate_user_id("alice@example.com").is_ok());
    assert!(validate_user_id("plain-id").is_ok());
    assert!(validate_user_id("").is_err());
    match validate_user_id("a@b") {
        Err(MemoryError::ValidationError { field, .. }) => assert_eq!(field, "user_id"),
        other => panic!("unexpected {:?}", other),
    }
    assert!(check_user_id("a@b").is_ok());
    assert!(check_user_id(&"x".repeat(256)).is_err());
}

#[test]
fn endpoint_under_base_url() {
    assert_eq!(completion_endpoint("https://api.deepseek.com"), "https://api.deepseek.com/chat/completions");
    assert_eq!(completion_endpoint("https://api.deepseek.com/"), "https://api.deepseek.com/chat/completions");
    assert_eq!(
        completion_endpoint("https://x.test/v1/chat/completions"),
        "https://x.test/v1/chat/completions"
    );
}

#[test]
fn http_status_classification() {
    assert_eq!(
        error_for_status(401, "bad key".to_string(), None),
        LlmError::AuthenticationFailed { reason: "bad key".to_string() }
    );
    assert_eq!(
        error_for_status(429, "slow down".to_string(), Some(7)),
        LlmError::RateLimited { retry_after_seconds: 7 }
    );
    assert_eq!(error_for_status(429, String::new(), None), LlmError::RateLimited { retry_after_seconds: 0 });
    assert_eq!(
        error_for_status(400, "over the token limit".to_string(), None),
        LlmError::TokenLimitExceeded { limit: 0 }
    );
    assert_eq!(
        error_for_status(400, "content filtered by policy".to_string(), None),
        LlmError::ContentFiltered { reason: "content filtered by policy".to_string() }
    );
    assert_eq!(
        error_for_status(500, "token limit".to_string(), None),
        LlmError::ApiRequestFailed { message: "token limit".to_string() }
    );
    assert!(error_for_status(503, "down".to_string(), None).is_retryable());
    assert_eq!(LlmError::Timeout { seconds: 1 }.error_code(), "TIMEOUT");
    assert!(!LlmError::ContentFiltered { reason: String::new() }.is_retryable());
}

#[test]
fn token_totals_saturate() {
    assert_eq!(TokenUsage::new(10, 20).total_tokens, 30);
    assert_eq!(TokenUsage::new(u32::MAX, 1).total_tokens, u32::MAX);
}

#[test]
fn smtp_settings_are_checked() {
    let good = SmtpConfig {
        host: "smtp.example.com".to_string(),
        port: 587,
        username: "test@example.com".to_string(),
        password: "password".to_string(),
        use_tls: true,
    };
    assert!(validate_smtp_config(&good).is_ok());
    let mut no_host = good.clone();
    no_host.host = String::new();
    assert!(matches!(
        validate_smtp_config(&no_host),
        Err(EmailError::ConfigurationError { ref field, .. }) if field == "smtp.host"
    ));
    let mut no_port = good.clone();
    no_port.port = 0;
    assert!(matches!(
        validate_smtp_config(&no_port),
        Err(EmailError::ConfigurationError { ref field, .. }) if field == "smtp.port"
    ));
    let mut no_password = good.clone();
    no_password.password = String::new();
    assert!(validate_smtp_config(&no_password).is_err());
}

#[test]
fn templates_are_filled_from_context() {
    let context = vec![
        ("email_content".to_string(), "Hi there".to_string()),
        ("name".to_string(), "Ann".to_string()),
    ];
    assert_eq!(
        render_template("Dear {name}: {email_content} / {email_content} {other}", &context),
        "Dear Ann: Hi there / Hi there {other}"
    );
    assert_eq!(render_template("plain", &Vec::new()), "plain");
}

#[test]
fn replacement_is_left_to_right_without_overlap() {
    assert_eq!(replace_all("aaaa", "aa", "b"), "bb");
    assert_eq!(replace_all("abcabc", "bc", "X"), "aXaX");
    assert_eq!(replace_all("abc", "", "X"), "abc");
    assert_eq!(replace_all("ab", "abc", "X"), "ab");
    assert_eq!(replace_all("日本語の日本", "日本", "J"), "J語のJ");
}
