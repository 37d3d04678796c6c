use llamapackageservice::agents::{
    build_system_prompt, calculate_risk_score, continue_conversation, extract_examples, mock_analysis_content,
    parse_analysis_type, parse_recommendations, parse_vulnerabilities, repository_context, AnalysisType,
    CodeAnalysisTools, ConversationContext, ConversationManager, RepositoryTools,
};

fn strings(v: &[&str]) -> Vec<String> {
    v.iter().map(|s| s.to_string()).collect()
}

#[test]
fn analysis_types_and_prompts() {
    assert!(matches!(parse_analysis_type("security"), AnalysisType::SecurityAudit));
    assert!(matches!(parse_analysis_type("api_docs"), AnalysisType::ApiDocumentation));
    match parse_analysis_type("explain the build") {
        AnalysisType::Custom(p) => assert_eq!(p, "explain the build"),
        _ => panic!("an unknown name is a custom prompt"),
    }
    assert_eq!(
        build_system_prompt("Base", &AnalysisType::Examples),
        "Base\n\nSpecific Instructions: Create practical, working examples of how to use this code."
    );
    assert_eq!(
        build_system_prompt("Base", &AnalysisType::Custom("Do X".to_string())),
        "Base\n\nSpecific Instructions: Do X"
    );
    assert_eq!(mock_analysis_content("r"), "Mock analysis for repository: r");
    assert_eq!(repository_context("r"), "Repository: r\nLoaded basic context");
}

#[test]
fn answers_parsed() {
    assert_eq!(extract_examples("a```x```b```y```c"), strings(&["x", "y"]));
    assert_eq!(extract_examples("a```x"), strings(&["x"]));
    assert!(extract_examples("no code").is_empty());
    assert_eq!(
        parse_vulnerabilities("Line one\nA Security issue\nno\nvulnerability here"),
        strings(&["A Security issue", "vulnerability here"])
    );
    assert_eq!(parse_recommendations("We recommend X\nYou SHOULD do y\nok"), strings(&["We recommend X", "You SHOULD do y"]));
    assert_eq!(calculate_risk_score("critical high"), 40);
    assert_eq!(calculate_risk_score("Critical exploit vulnerability high high"), 100);
    assert_eq!(calculate_risk_score("all fine"), 0);
    assert_eq!(calculate_risk_score(&"high ".repeat(13)), 100);
    assert_eq!(calculate_risk_score(&"high ".repeat(256)), 100);
}

#[test]
fn conversations_record_both_messages() {
    let mut c = ConversationContext {
        id: "c1".to_string(),
        messages: Vec::new(),
        repository_context: "ctx".to_string(),
        session_state: Vec::new(),
    };
    let answer = continue_conversation(&mut c, "hi", "t1", "t2");
    assert_eq!(answer, "Mock response to: hi");
    assert_eq!(c.messages.len(), 2);
    assert_eq!(c.messages[0].role, "user");
    assert_eq!(c.messages[0].content, "hi");
    assert_eq!(c.messages[0].timestamp, "t1");
    assert_eq!(c.messages[1].role, "assistant");
    assert_eq!(c.messages[1].content, "Mock response to: hi");
    assert_eq!(c.messages[1].timestamp, "t2");
}

#[test]
fn repository_and_code_metrics() {
    let exts = vec![Some("rs".to_string()), Some("py".to_string()), Some("rs".to_string()), None, Some("md".to_string())];
    assert_eq!(RepositoryTools::detect_primary_language(&exts), "Rust");
    assert_eq!(RepositoryTools::detect_primary_language(&vec![Some("md".to_string())]), "Unknown");
    assert_eq!(
        RepositoryTools::identify_key_files(&strings(&["src", "README.md", "Cargo.toml", "x"])),
        strings(&["README.md", "Cargo.toml"])
    );
    assert_eq!(CodeAnalysisTools::estimate_cyclomatic_complexity("if a {\n} else {\n}\nfor x in y?"), 5);
    let m = CodeAnalysisTools::calculate_complexity("// c\nfn a() {\n\n  # x\n}");
    assert_eq!(m.total_lines, 5);
    assert_eq!(m.code_lines, 2);
    assert_eq!(m.comment_lines, 2);
    assert_eq!(m.cyclomatic_complexity, 1);
}

#[test]
fn complexity_of_joined_text_adds_up() {
    let f = CodeAnalysisTools::estimate_cyclomatic_complexity;
    assert_eq!(f("if x"), 2);
    assert_eq!(f("while y?\r"), 3);
    assert_eq!(f("if x\nwhile y?\r") + 1, f("if x") + f("while y?\r"));
}

fn context(id: &str, repo: &str) -> ConversationContext {
    ConversationContext {
        id: id.to_string(),
        messages: Vec::new(),
        repository_context: repo.to_string(),
        session_state: Vec::new(),
    }
}

#[test]
fn conversation_manager_keeps_conversations_by_id() {
    let mut m = ConversationManager::new();
    assert_eq!(m.start_conversation(context("a", "r1")), "a");
    assert_eq!(m.start_conversation(context("b", "r2")), "b");
    assert_eq!(m.list_conversations(), strings(&["a", "b"]));
    assert_eq!(m.send_message("a", "hi", "t1", "t2").unwrap(), "Mock response to: hi");
    assert_eq!(m.get_conversation("a").unwrap().messages.len(), 2);
    assert_eq!(m.get_conversation("b").unwrap().messages.len(), 0);
    assert_eq!(m.send_message("zz", "hi", "t1", "t2").unwrap_err().to_string(), "Conversation not found");
    m.start_conversation(context("a", "r3"));
    assert_eq!(m.list_conversations(), strings(&["a", "b"]));
    assert_eq!(m.get_conversation("a").unwrap().repository_context, "r3");
    assert!(m.end_conversation("a"));
    assert!(!m.end_conversation("a"));
    assert!(m.get_conversation("a").is_none());
    assert_eq!(m.list_conversations(), strings(&["b"]));
}
