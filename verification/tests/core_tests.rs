use llamapackageservice::config::{ApiKeys, Config, OutputConfig, ProcessingConfig, RateLimits};
use llamapackageservice::error::{ProcessorError, Result};
use llamapackageservice::logging::{parse_log_level, LevelFilter};

#[test]
fn test_github_token() -> Result<()> {
    let config = Config::default();
    assert!(config.github_token().is_err());

    let config = Config {
        github_token: Some("test_token".to_string()),
        output_dir: "output".to_string(),
        processing: ProcessingConfig::default(),
        rate_limits: RateLimits::default(),
        output_config: OutputConfig::default(),
        api_keys: ApiKeys::default(),
        excluded_files: vec![],
    };
    assert_eq!(config.github_token()?, "test_token");

    Ok(())
}

#[test]
fn test_parse_log_level() {
    assert_eq!(parse_log_level("error"), LevelFilter::Error);
    assert_eq!(parse_log_level("warn"), LevelFilter::Warn);
    assert_eq!(parse_log_level("info"), LevelFilter::Info);
    assert_eq!(parse_log_level("debug"), LevelFilter::Debug);
    assert_eq!(parse_log_level("trace"), LevelFilter::Trace);
    assert_eq!(parse_log_level("invalid"), LevelFilter::Info);
}

#[test]
fn test_error_creation() {
    let error = ProcessorError::new("test error");
    assert!(matches!(error, ProcessorError::Message(_)));

    if let ProcessorError::Message(msg) = error {
        assert_eq!(msg, "test error");
    }
}

#[test]
fn test_is_transient() {
    let transient = ProcessorError::Network("connection timeout".into());
    let fatal = ProcessorError::Validation("invalid input".into());

    assert!(transient.is_transient());
    assert!(!fatal.is_transient());
}

#[test]
fn log_level_ignores_case() {
    assert_eq!(parse_log_level("DEBUG"), LevelFilter::Debug);
    assert_eq!(parse_log_level("Warn"), LevelFilter::Warn);
    assert_eq!(parse_log_level(""), LevelFilter::Info);
}

#[test]
fn error_kinds_and_messages() {
    assert!(ProcessorError::Http("x".into()).is_transient());
    assert!(ProcessorError::RateLimitExceeded("x".into()).is_transient());
    assert!(ProcessorError::IO("x".into()).is_transient());
    assert!(!ProcessorError::Message("x".into()).is_transient());
    assert!(ProcessorError::Validation("x".into()).is_fatal());
    assert_eq!(ProcessorError::Network("down".into()).to_string(), "Network error: down");
    assert_eq!(ProcessorError::new("plain").to_string(), "plain");
}

#[test]
fn test_file_exclusions() {
    let config = Config::default();

    let test_path = "test.exe";
    assert!(config.is_excluded_file(test_path));

    let test_path = "node_modules/test.js";
    assert!(config.is_excluded_file(test_path));

    let test_path = "src/main.rs";
    assert!(!config.is_excluded_file(test_path));
}

#[test]
fn default_config_and_exclusions() {
    let config = Config::default();
    assert_eq!(config.output_dir, "output");
    assert!(config.github_token.is_none());
    assert!(config.is_excluded_file("repo/.git/config"));
    assert!(config.is_excluded_file("web/node_modules/x.js"));
    assert!(config.is_excluded_file("app/.env"));
    assert!(!config.is_excluded_file("src/main.rs"));
    assert!(!config.is_excluded_file("docs/exec.md"));
    assert!(config.ensure_tokens().is_ok());
}

#[test]
fn blank_token_is_refused() {
    let mut config = Config::default();
    config.github_token = Some("   ".to_string());
    match config.ensure_tokens() {
        Err(ProcessorError::Message(m)) => assert_eq!(m, "GitHub token is empty"),
        other => panic!("unexpected: {:?}", other),
    }
    config.github_token = Some("abc".to_string());
    assert!(config.ensure_tokens().is_ok());
    assert_eq!(config.github_token().unwrap(), "abc");
}

#[test]
fn missing_token_message() {
    let config = Config::default();
    match config.github_token() {
        Err(ProcessorError::Message(m)) => assert_eq!(m, "GitHub token not configured"),
        other => panic!("unexpected: {:?}", other),
    }
}

#[test]
fn mod_test_config_validation() -> Result<()> {
    let temp_dir = tempfile::TempDir::new().map_err(|e| ProcessorError::IO(e.to_string()))?;
    let config = Config::new(temp_dir.path().display().to_string());
    assert!(config.ensure_tokens().is_ok());
    Ok(())
}

#[test]
fn log_levels_ignore_case() {
    assert_eq!(parse_log_level("WARN"), parse_log_level("warn"));
    assert_eq!(parse_log_level("off"), LevelFilter::Info);
}
