use llamapackageservice::processors::github::{
    classify_github_target, extract_code_sections, extract_dependency_info, extract_readme_sections,
    github_url_segments, is_code_extension, org_probe_url, skips_code_dir, repository_content_at, select_important_files, GitHubUrlType,
    OutputStructure,
};

fn strings(v: &[&str]) -> Vec<String> {
    v.iter().map(|s| s.to_string()).collect()
}

#[test]
fn url_segments_and_targets() {
    assert_eq!(github_url_segments("https://github.com/rust-lang//rust/").unwrap(), strings(&["rust-lang", "rust"]));
    assert_eq!(github_url_segments("https://gitlab.com/a/b").unwrap_err().to_string(), "Validation error: Not a GitHub URL");
    assert_eq!(github_url_segments("https://github.com/").unwrap_err().to_string(), "Validation error: Invalid GitHub URL");
    assert_eq!(github_url_segments("nonsense").unwrap_err().to_string(), "Validation error: Invalid URL format");
    assert_eq!(org_probe_url("acme"), "https://api.github.com/orgs/acme");

    let segs = strings(&["acme", "tool"]);
    match classify_github_target(&segs, true, true).unwrap() {
        GitHubUrlType::Repository { owner, repo } => {
            assert_eq!(owner, "acme");
            assert_eq!(repo, "tool");
        },
        GitHubUrlType::Organization { .. } => panic!("a repository wins over an organization"),
    }
    match classify_github_target(&segs, false, true).unwrap() {
        GitHubUrlType::Organization { org } => assert_eq!(org, "acme"),
        GitHubUrlType::Repository { .. } => panic!("no repository was found"),
    }
    match classify_github_target(&strings(&["acme"]), true, true).unwrap() {
        GitHubUrlType::Organization { org } => assert_eq!(org, "acme"),
        GitHubUrlType::Repository { .. } => panic!("one segment cannot name a repository"),
    }
    assert_eq!(
        classify_github_target(&segs, false, false).err().unwrap().to_string(),
        "Validation error: Invalid GitHub URL or resource not found"
    );
}

#[test]
fn output_layout() {
    let o = OutputStructure::new("/out");
    assert_eq!(o.individual_repos_dir, "/out/github_individual_repos");
    assert_eq!(o.organizations_dir, "/out/github_organizations");
    assert_eq!(o.get_org_dir("my org"), "/out/github_organizations/my_org");
    assert_eq!(
        o.repo_output_path_at("o", "tool.rs", "TS"),
        "/out/github_individual_repos/TS_o_tool_rs_rs_analysis.txt"
    );
    assert_eq!(o.repo_overview_path_at("o", "r", "TS"), "/out/github_individual_repos/TS_o_r_overview.txt");
    assert_eq!(
        o.org_overview_path_at("acme", "TS"),
        "/out/github_organizations/acme/TS_acme_organization_overview.txt"
    );
    assert_eq!(
        o.org_repo_path_at("acme", "tool", Some("Rust"), "TS"),
        "/out/github_organizations/acme/TS_acme_tool_Rust_analysis.txt"
    );
    assert_eq!(
        o.org_repo_path_at("acme", "tool", None, "TS"),
        "/out/github_organizations/acme/TS_acme_tool_unknown_analysis.txt"
    );
}

#[test]
fn content_sections() {
    let content = "intro\n# Title\nfn x\n  def f():\n## Usage\nplain\n```rust\nsee Cargo.toml\n";
    assert_eq!(extract_code_sections(content), "  def f():\n```rust\n");
    assert_eq!(extract_readme_sections(content), "# Title\n## Usage\n");
    assert_eq!(extract_dependency_info(content), "Rust dependencies found\n");
    assert_eq!(extract_dependency_info("pom.xml and package.json"), "Node.js dependencies found\nJava dependencies found\n");
    assert_eq!(
        repository_content_at(content, "D"),
        "# Repository Analysis\nAnalysis Date: D\n\n## Repository Content\n\n## Code Sections\n\n  def f():\n```rust\n\
         \n## README Content\n\n# Title\n## Usage\n\n## Dependencies\n\nRust dependencies found\n"
    );
    assert_eq!(
        repository_content_at("nothing", "D"),
        "# Repository Analysis\nAnalysis Date: D\n\n## Repository Content\n\n"
    );
}

#[test]
fn important_files_are_chosen_by_score_and_spread() {
    let few = strings(&["b.txt", "a.txt"]);
    assert_eq!(select_important_files(&few, 5), few);
    let files = strings(&["a/x.txt", "src/main.rs", "docs/b.md", "zz/y.txt"]);
    assert_eq!(select_important_files(&files, 2), strings(&["src/main.rs", "docs/b.md"]));
}

#[test]
fn important_files_are_a_bounded_choice_of_inputs() {
    let files = strings(&["a/x.txt", "src/main.rs", "docs/b.md", "zz/y.txt", "src/lib.rs"]);
    for max in 0..7 {
        let r = select_important_files(&files, max);
        assert!(r.len() <= max.max(0));
        assert!(r.iter().all(|f| files.contains(f)));
        assert_eq!(r.len(), max.min(files.len()));
        for (i, f) in r.iter().enumerate() {
            assert!(!r[i + 1..].contains(f));
        }
    }
}

#[test]
fn code_search_skips_hidden_and_build_directories() {
    assert!(skips_code_dir("node_modules"));
    assert!(skips_code_dir("target"));
    assert!(skips_code_dir(".cache"));
    assert!(skips_code_dir("__pycache__"));
    assert!(!skips_code_dir("src"));
    assert!(!skips_code_dir("targets"));
}

#[test]
fn code_extensions_are_recognised_without_their_dot() {
    assert!(is_code_extension("rs"));
    assert!(is_code_extension("py"));
    assert!(!is_code_extension("txt"));
    assert!(!is_code_extension(""));
}
