use llamapackageservice::processors::crates::{
    crate_download_url, crate_page, crate_page_file, extract_crate_name_from_url, should_include_file, CrateInfo,
    CratesProcessor,
};
use llamapackageservice::processors::github::{
    extract_github_details, get_repo_language, repo_probe_url, sanitize_filename, GitHubProcessor,
};
use llamapackageservice::processors::local::LocalProcessor;
use llamapackageservice::processors::npm::{extract_npm_package_name, NpmProcessor};
use llamapackageservice::processors::pypi::PyPiProcessor;
use llamapackageservice::processors::pypi_profile::PyPiProfileProcessor;
use llamapackageservice::processors::{ProcessorFactory, ProcessorKind};

#[test]
fn test_extract_package_name() {
    let processor = PyPiProcessor::new();

    assert_eq!(processor.extract_package_name("https://pypi.org/project/requests/").unwrap(), "requests");

    assert_eq!(processor.extract_package_name("pip install numpy").unwrap(), "numpy");

    assert_eq!(processor.extract_package_name("pandas").unwrap(), "pandas");
}

#[test]
fn pypi_test_pypi_processor() {
    let processor = PyPiProcessor::new();
    let package_name = processor.extract_package_name("requests").unwrap();
    assert_eq!(package_name, "requests");
}

#[test]
fn npm_test_npm_processor() {
    let processor = NpmProcessor::new();
    assert!(processor.accepts("https://www.npmjs.com/package/express"));
    assert!(!processor.accepts("https://pypi.org/project/requests"));
}

#[test]
fn test_validation() {
    let processor = NpmProcessor::new();
    let result1 = processor.validate("https://www.npmjs.com/package/express");
    assert!(result1.is_ok());

    let result2 = processor.validate("https://www.npmjs.com/user/express");
    assert!(result2.is_err());

    let result3 = processor.validate("https://pypi.org/project/requests");
    assert!(result3.is_err());
}

#[test]
fn test_crates_processor() {
    let processor = CratesProcessor::new();
    assert!(processor.accepts("https://crates.io/crates/tokio"));
    assert!(!processor.accepts("https://invalid.com/crates"));
    assert!(processor.validate_url("https://crates.io/crates/tokio").is_ok());
}

#[test]
fn pypi_names_and_errors() {
    let p = PyPiProcessor::new();
    assert_eq!(p.extract_package_name("http://pypi.org/project/Flask").unwrap(), "Flask");
    assert_eq!(p.extract_package_name("pip   install   django==4.2").unwrap(), "django==4.2");
    let e = p.extract_package_name("some/path").unwrap_err();
    assert_eq!(e.to_string(), "Validation error: Could not extract PyPI package name from: some/path");
    assert!(p.accepts("requests"));
    assert!(!p.accepts("a.b"));
    assert!(p.accepts("https://pypi.org/project/x"));
}

#[test]
fn npm_names_and_errors() {
    assert_eq!(NpmProcessor::new().name(), "NPM");
    assert!(NpmProcessor::new().accepts("npm install left-pad"));
    assert_eq!(extract_npm_package_name("https://www.npmjs.com/package/express").unwrap(), "express");
    assert_eq!(extract_npm_package_name("npm install lodash --save").unwrap(), "lodash");
    assert_eq!(extract_npm_package_name("react").unwrap(), "react");
    assert_eq!(
        extract_npm_package_name("npmjs.com/package/").unwrap_err().to_string(),
        "Validation error: Invalid NPM URL format"
    );
    let p = NpmProcessor::new();
    assert_eq!(p.validate_url("not a url").unwrap_err().to_string(), "Invalid URL format");
    assert_eq!(p.validate_url("https://npmjs.com/package/x").unwrap_err().to_string(), "Not a valid NPM package URL");
}

#[test]
fn profile_users() {
    let p = PyPiProfileProcessor::new();
    assert_eq!(p.extract_username("https://pypi.org/user/alice/").unwrap(), "alice");
    assert_eq!(p.extract_username("https://pypi.org/user/bob").unwrap(), "bob");
    assert_eq!(
        p.extract_username("https://pypi.org/user/").unwrap_err().to_string(),
        "Invalid PyPI profile URL: https://pypi.org/user/"
    );
    assert!(p.accepts("https://pypi.org/user/x"));
    assert!(p.validate("https://pypi.org/project/x").is_err());
}

#[test]
fn crate_names_pages_and_files() {
    assert_eq!(extract_crate_name_from_url("https://crates.io/crates/serde").unwrap(), "serde");
    let info = CrateInfo::from_url("https://crates.io/crates/rand").unwrap();
    assert_eq!(info.name, "rand");
    assert_eq!(info.download_url, "https://crates.io/crates/rand");
    assert!(should_include_file("Cargo.toml"));
    assert!(should_include_file("src/util/mod.txt"));
    assert!(should_include_file("benches/b.rs"));
    assert!(!should_include_file("docs/guide.md"));
    assert_eq!(crate_page_file("serde"), "serde.md");
    assert_eq!(crate_download_url("serde", "1.0.0"), "https://crates.io/api/v1/crates/serde/1.0.0/download");
    let page = crate_page("serde", true, false);
    assert!(page.starts_with("# Rust Crate: serde\n\n## Package Information\n\n- **Name:** serde\n\n## Links\n\n"));
    assert!(page.contains("- **Documentation:** https://docs.rs/serde\n- **Crate Page:**"));
    assert!(!page.contains("Lib.rs"));
    assert!(page.contains("[dependencies]\nserde = \"*\"\n"));
    assert!(page.ends_with("    println!(\"Hello from {}!\");\n}\n```\n"));
    assert_eq!(
        CratesProcessor::new().validate_url("https://crates.io/").unwrap_err().to_string(),
        "Not a valid Crates.io URL"
    );
}

#[test]
fn github_names_and_urls() {
    let p = GitHubProcessor::new();
    assert!(p.validate_url("https://github.com/owner/repo").is_ok());
    assert_eq!(p.validate_url("https://gitlab.com/a/b").unwrap_err().to_string(), "Not a GitHub URL");
    assert_eq!(p.validate_url("::").unwrap_err().to_string(), "Invalid URL format");
    let (owner, repo) = p.extract_repo_info("https://github.com/rust-lang/rust").unwrap();
    assert_eq!(owner, "rust-lang");
    assert_eq!(repo, "rust");
    assert_eq!(
        p.extract_repo_info("https://github.com/only").unwrap_err().to_string(),
        "Invalid GitHub repository URL"
    );
    assert!(p.validate("https://github.com/rust-lang/rust").is_ok());
    assert!(p.validate("https://invalid.com/repo").is_err());
    let d = extract_github_details("https://github.com/o/r").unwrap();
    assert_eq!(d.owner, "o");
    assert_eq!(d.repo, "r");
    assert!(extract_github_details("https://github.com/o").is_err());
    assert_eq!(sanitize_filename("my repo/v1.0"), "my_repo_v1_0");
    assert_eq!(get_repo_language("Tool.RS"), "rs");
    assert_eq!(get_repo_language("tool"), "unknown");
    assert_eq!(repo_probe_url("o", "r"), "https://api.github.com/repos/o/r");
}

#[test]
fn factory_choices() {
    let k = |u: &str| ProcessorFactory::create_processor(u, false);
    assert!(matches!(k("https://github.com/owner/repo"), Ok(ProcessorKind::GitHub)));
    assert!(matches!(k("https://www.npmjs.com/package/test"), Ok(ProcessorKind::Npm)));
    assert!(matches!(k("https://pypi.org/project/test"), Ok(ProcessorKind::PyPi)));
    assert!(matches!(k("https://pypi.org/user/username"), Ok(ProcessorKind::PyPiProfile)));
    assert!(matches!(k("https://crates.io/crates/test"), Ok(ProcessorKind::Crates)));
    assert!(matches!(k("https://pkg.go.dev/fmt"), Ok(ProcessorKind::Go)));
    assert!(matches!(k("./here"), Ok(ProcessorKind::Local)));
    assert!(matches!(k("https://gitlab.com/a/b"), Ok(ProcessorKind::GitHub)));
    assert!(matches!(ProcessorFactory::create_processor("words", true), Ok(ProcessorKind::Local)));
    let e = k("https://invalid.com").unwrap_err();
    assert!(e.to_string().starts_with("Unsupported URL: https://invalid.com. Please use"));
    assert_eq!(ProcessorFactory::detect_url_type("https://PyPI.org/project/x", false), "PyPI Package");
    assert_eq!(ProcessorFactory::detect_url_type("C:\\code", false), "Local File/Directory");
    assert_eq!(ProcessorFactory::detect_url_type("hello", false), "Unknown");
    assert_eq!(
        ProcessorFactory::detect_url_type("https://pkg.go.dev/github.com/gofiber/fiber", false),
        "Go Package"
    );
    assert!(LocalProcessor::is_local_path("../x", false));
    assert!(!LocalProcessor::is_local_path("x", false));
}
