use llamapackageservice::json::Json;
use llamapackageservice::processors::go::{
    api_documentation, dependencies_of, examples_of, extract_package_path, generate_go_package_index,
    go_package_content, go_package_name, go_page_findings, repository_reply, repository_step, GoModule,
    GoPageFindings, GoProcessor, RepositoryReply, RepositoryStep,
};

#[test]
fn package_paths_from_urls() {
    assert_eq!(extract_package_path(" https://pkg.go.dev/github.com/spf13/cobra ").unwrap(), "github.com/spf13/cobra");
    assert_eq!(extract_package_path("http://pkg.go.dev/net/http#section-readme").unwrap(), "net/http");
    assert_eq!(extract_package_path("https://pkg.go.dev/fmt?tab=doc").unwrap(), "fmt");
    match extract_package_path("https://example.com/fmt") {
        Err(e) => assert_eq!(e.to_string(), "Not a valid pkg.go.dev URL: https://example.com/fmt"),
        Ok(_) => panic!("accepted a foreign URL"),
    }
    match extract_package_path("https://pkg.go.dev/") {
        Err(e) => assert_eq!(e.to_string(), "Empty package path"),
        Ok(_) => panic!("accepted an empty path"),
    }
    assert_eq!(go_package_name("github.com/spf13/cobra"), "cobra");
    assert_eq!(go_package_name("fmt"), "fmt");
}

#[test]
fn go_processor_basics() {
    let p = GoProcessor::new().unwrap();
    assert_eq!(p.name(), "go");
    assert!(p.accepts("https://pkg.go.dev/fmt"));
    assert!(!p.accepts("https://crates.io/crates/x"));
    assert!(p.validate("https://pkg.go.dev/fmt").is_ok());
    assert_eq!(p.validate("nope").unwrap_err().to_string(), "Not a valid pkg.go.dev URL: nope");
}

#[test]
fn module_from_version_list() {
    let m = GoModule::from_version_list("example.com/m", "v1.0.0\nv1.1.0\nv1.2.0\n").unwrap();
    assert_eq!(m.name, "example.com/m");
    assert_eq!(m.version, "v1.2.0");
    assert_eq!(m.go_version, "1.16");
    assert!(m.dependencies.is_empty());
    assert_eq!(GoModule::from_version_list("x", "").unwrap_err().to_string(), "No versions found");
}

const PAGE: &str = r#"<html><body>
<div class="Documentation-overview"><p> A package overview. </p></div>
<span class="DetailsHeader-version">v1.2.3</span>
<span class="DetailsHeader-license">MIT</span>
<div class="Documentation-types">
  <div class="js-typeDetails">
    <h3 class="Documentation-typeHeader"> type Thing </h3>
    <p class="Documentation-typeDescription">A thing.</p>
    <div class="Documentation-typeMethods">
      <div class="Documentation-function">
        <h4 class="Documentation-functionHeader">func (Thing) Go()</h4>
        <p class="Documentation-functionDoc">Goes.</p>
      </div>
    </div>
  </div>
</div>
<div id="example"><pre>fmt.Println(1)</pre><pre>x := 2</pre></div>
<ul class="Imports-list"><a href="/fmt">fmt</a><a href="https://x.org/y">y</a><a href="//net/http">http</a></ul>
<a data-test-id="UnitDirectoryHeader-repoURL" href="https://github.com/o/r">repo</a>
</body></html>"#;

#[test]
fn page_findings() {
    let f = go_page_findings(PAGE);
    assert_eq!(f.description, Some(" A package overview. ".to_string()));
    assert_eq!(f.version, Some("v1.2.3".to_string()));
    assert_eq!(f.license, Some("MIT".to_string()));
    assert_eq!(f.dependencies, vec!["fmt".to_string(), "net/http".to_string()]);
    assert_eq!(f.repository_url, Some("https://github.com/o/r".to_string()));
    assert_eq!(f.examples, "### Example 1\n\n```go\nfmt.Println(1)\n```\n\n### Example 2\n\n```go\nx := 2\n```\n\n");
    assert_eq!(
        f.api_docs,
        "### Type: type Thing\n\nA thing.\n\n#### Method: `func (Thing) Go()`\n\nGoes.\n\n\n\
### Function: `func (Thing) Go()`\n\nGoes.\n\n"
    );
}

#[test]
fn api_documentation_without_functions() {
    let types = Some(vec![]);
    let fns = Some(vec![]);
    assert_eq!(api_documentation(&types, &None, &fns), "No functions found in documentation.\n");
    assert_eq!(api_documentation(&None, &None, &None), "");
    let fns = Some(vec![(Some(" f() ".to_string()), None)]);
    assert_eq!(api_documentation(&None, &None, &fns), "### Function: `f()`\n\n");
}

#[test]
fn examples_and_dependencies() {
    assert_eq!(examples_of(&vec![]), "");
    assert_eq!(
        dependencies_of(&vec!["/a".to_string(), "b".to_string(), "///c/d".to_string()]),
        vec!["a".to_string(), "c/d".to_string()]
    );
}

fn findings() -> GoPageFindings {
    GoPageFindings {
        description: Some("  Desc  ".to_string()),
        version: None,
        license: Some("BSD".to_string()),
        api_docs: String::new(),
        examples: "EX".to_string(),
        dependencies: vec![],
        repository_url: None,
    }
}

#[test]
fn package_content() {
    let c = go_package_content("github.com/a/b", &findings(), "REPO");
    assert_eq!(
        c,
        "## Package Information\n\n- **Name**: b\n- **Import Path**: github.com/a/b\n- **Description**: Desc\n\
- **License**: BSD\n\n## Examples\n\nEXNo dependency information found.\nREPO"
    );
    let mut f = findings();
    f.dependencies = vec!["fmt".to_string()];
    f.api_docs = "API".to_string();
    let c = go_package_content("p", &f, "");
    assert!(c.contains("\n## API Documentation\n\nAPI"));
    assert!(c.ends_with("\n## Dependencies\n\n- fmt\n"));
}

#[test]
fn repository_steps_and_replies() {
    match repository_step("https://gitlab.com/a/b") {
        RepositoryStep::Link(t) => assert_eq!(t, "\n## Repository\n\nhttps://gitlab.com/a/b\n"),
        _ => panic!("expected a link"),
    }
    match repository_step("https://github.com/owner/repo.git.git") {
        RepositoryStep::Fetch(u) => assert_eq!(u, "https://api.github.com/repos/owner/repo"),
        _ => panic!("expected a fetch"),
    }
    assert!(matches!(repository_step("github.com/x"), RepositoryStep::Skip));

    let info = Json::Object(vec![
        ("stargazers_count".to_string(), Json::UInt(5)),
        ("forks_count".to_string(), Json::UInt(2)),
        ("description".to_string(), Json::Str("D".to_string())),
        ("homepage".to_string(), Json::Str("".to_string())),
    ]);
    assert_eq!(
        repository_reply(&RepositoryReply::Info(info)),
        "\n### Repository Information\n\n- **Stars**: 5\n- **Forks**: 2\n- **Description**: D\n"
    );
    assert_eq!(repository_reply(&RepositoryReply::Unusable), "");
    assert_eq!(
        repository_reply(&RepositoryReply::Failed("timeout".to_string())),
        "\nFailed to fetch repository information: timeout\n"
    );
}

#[test]
fn package_index_text() {
    let idx = generate_go_package_index("m", &vec!["a.go".to_string(), "go.mod".to_string()], &Some(Some("module m".to_string())));
    assert_eq!(
        idx,
        "# Go Package: m\n\n## Package Information\n\n## Files\n\n- a.go\n- go.mod\n\n## Dependencies (from go.mod)\n\n```\nmodule m\n```\n"
    );
    let idx = generate_go_package_index("m", &vec![], &Some(None));
    assert_eq!(idx, "# Go Package: m\n\n## Package Information\n\n## Files\n\n\n## Dependencies (from go.mod)\n\n");
    let idx = generate_go_package_index("m", &vec![], &None);
    assert_eq!(idx, "# Go Package: m\n\n## Package Information\n\n## Files\n\n");
}
