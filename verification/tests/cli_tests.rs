use llamapackageservice::commands::{analysis_file_names, batch_urls, extract_repo_name, prompt_command, PromptCommand};
use llamapackageservice::github_api::{authorization_value, repository_url};
use llamapackageservice::llama_ui::{parse_menu_selection, LlamaMenuOption};
use llamapackageservice::package_processor::{BasicPackageProcessor, SimpleProcessor};
use llamapackageservice::telemetry::setup_telemetry;
use llamapackageservice::config::Config;

#[test]
fn test_simple_processor() {
    let processor = SimpleProcessor::new("test_package".to_string());
    assert_eq!(processor.package_name, "test_package");
    assert_eq!(processor.start_message(), "Processing package: test_package");
}

#[test]
fn basic_processor_record() {
    let p = BasicPackageProcessor {
        name: "left-pad".to_string(),
        source_url: "https://www.npmjs.com/package/left-pad".to_string(),
        processor_type: "npm".to_string(),
    };
    assert_eq!(p.start_message(), "Processing npm package: left-pad");
    assert_eq!(p.record_file_name(1700000000), "left-pad_1700000000.txt");
    assert_eq!(p.record_file_name(-5), "left-pad_-5.txt");
    assert_eq!(p.record_file_name(i64::MIN), "left-pad_-9223372036854775808.txt");
    assert_eq!(
        p.record_content("2024-01-01"),
        "Package: left-pad\nType: npm\nSource: https://www.npmjs.com/package/left-pad\nProcessed: 2024-01-01\n"
    );
    assert_eq!(p.done_message(), "npm package left-pad processed successfully");
}

#[test]
fn menu_selection() {
    assert_eq!(parse_menu_selection("1").unwrap(), LlamaMenuOption::ProcessGithub);
    assert_eq!(parse_menu_selection(" 4 ").unwrap(), LlamaMenuOption::ProcessCrate);
    assert_eq!(parse_menu_selection("+7").unwrap(), LlamaMenuOption::Exit);
    assert_eq!(parse_menu_selection("007").unwrap(), LlamaMenuOption::Exit);
    assert_eq!(parse_menu_selection("6").unwrap(), LlamaMenuOption::Settings);
    for bad in ["0", "8", "12", "", "+", "-1", "a", "3x", "99999999999999999999999"] {
        assert_eq!(parse_menu_selection(bad).unwrap_err().to_string(), "Invalid menu option");
    }
}

#[test]
fn prompt_commands() {
    assert!(matches!(prompt_command("   "), PromptCommand::Empty));
    assert!(matches!(prompt_command(" Q "), PromptCommand::Quit));
    assert!(matches!(prompt_command("exit"), PromptCommand::Quit));
    assert!(matches!(prompt_command("HELP"), PromptCommand::Help));
    assert!(matches!(prompt_command("?"), PromptCommand::Help));
    assert!(matches!(prompt_command("Examples"), PromptCommand::Examples));
    match prompt_command("  https://pypi.org/project/requests  ") {
        PromptCommand::Process(u) => assert_eq!(u, "https://pypi.org/project/requests"),
        _ => panic!("expected a URL"),
    }
}

#[test]
fn batch_file_lines() {
    let content = "# list\nhttps://a\n\n   \nhttps://b\r\n#skip\n https://c";
    assert_eq!(batch_urls(content), vec!["https://a".to_string(), "https://b".to_string(), " https://c".to_string()]);
    assert!(batch_urls("").is_empty());
}

#[test]
fn repository_names_and_outputs() {
    assert_eq!(extract_repo_name("https://github.com/user/repo.git"), Some("repo".to_string()));
    assert_eq!(extract_repo_name("https://gitlab.com/user/tool"), Some("tool".to_string()));
    assert_eq!(extract_repo_name("https://github.com/user"), None);
    assert_eq!(extract_repo_name("https://example.com/a/b/c"), None);
    let (raw, processed) = analysis_file_names("20240101_000000", "repo");
    assert_eq!(raw, "20240101_000000_repo_github_repo.txt");
    assert_eq!(processed, "20240101_000000_repo_github_repo_processed.txt");
}

#[test]
fn github_api_requests() {
    assert_eq!(repository_url("owner/repo"), "https://api.github.com/repos/owner/repo");
    assert_eq!(authorization_value("abc"), "token abc");
}

#[test]
fn telemetry_starts() {
    assert!(setup_telemetry(&Config::default()).is_ok());
}
