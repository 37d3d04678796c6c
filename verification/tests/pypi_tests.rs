use llamapackageservice::json::Json;
use llamapackageservice::processors::pypi::{
    get_repository_url, package_contents_text, package_format, package_summary, release_file, summary_file_name,
    ArchiveFormat, PyPiProcessor,
};

fn s(t: &str) -> Json {
    Json::Str(t.to_string())
}

fn obj(members: Vec<(&str, Json)>) -> Json {
    Json::Object(members.into_iter().map(|(k, v)| (k.to_string(), v)).collect())
}

fn release(kind: &str, url: &str, name: &str) -> Json {
    obj(vec![("packagetype", s(kind)), ("url", s(url)), ("filename", s(name))])
}

fn document(files: Vec<Json>) -> Json {
    obj(vec![
        ("info", obj(vec![("version", s("1.0"))])),
        ("releases", obj(vec![("1.0", Json::Array(files))])),
    ])
}

#[test]
fn pypi_references() {
    let p = PyPiProcessor::new();
    assert_eq!(p.name(), "PyPI");
    assert_eq!(p.extract_from_pypi_url("https://pypi.org/project/requests/2.0/"), Some("requests".to_string()));
    assert_eq!(p.extract_from_pypi_url("https://example.org/project/x"), None);
    assert_eq!(p.extract_from_pip_command("pip   install  flask==2"), Some("flask==2".to_string()));
    assert!(p.accepts("numpy"));
    assert!(!p.accepts("some/path"));
    assert_eq!(
        p.extract_package_name("not a package/").unwrap_err().to_string(),
        "Validation error: Could not extract PyPI package name from: not a package/"
    );
}

#[test]
fn release_file_choice() {
    let wheel = || release("bdist_wheel", "u1", "a.whl");
    let sdist = release("sdist", "u2", "a.tar.gz");
    assert_eq!(release_file(&document(vec![wheel(), sdist])).unwrap(), ("u2".to_string(), "a.tar.gz".to_string()));
    assert_eq!(release_file(&document(vec![wheel()])).unwrap(), ("u1".to_string(), "a.whl".to_string()));
    assert_eq!(
        release_file(&document(vec![release("bdist_egg", "u3", "a.egg")])).unwrap_err().to_string(),
        "Processing error: No suitable distribution file found"
    );
    assert_eq!(release_file(&document(vec![])).unwrap_err().to_string(), "Processing error: No release files found for version 1.0");
    assert_eq!(release_file(&obj(vec![])).unwrap_err().to_string(), "Processing error: Unable to determine package version");
}

#[test]
fn archive_formats_and_names() {
    assert!(matches!(package_format("x.tar.gz"), Ok(ArchiveFormat::TarGz)));
    assert!(matches!(package_format("x.tgz"), Ok(ArchiveFormat::TarGz)));
    assert!(matches!(package_format("x.whl"), Ok(ArchiveFormat::Zip)));
    assert_eq!(package_format("x.rar").err().unwrap().to_string(), "Processing error: Unsupported package format: x.rar");
    assert_eq!(summary_file_name("TS", "a/b\\c", "_pypi.txt"), "TS_a_b_c_pypi.txt");
}

#[test]
fn summary_and_contents() {
    let info = obj(vec![(
        "info",
        obj(vec![
            ("version", s("2.0")),
            ("summary", s("S")),
            ("author", s("A")),
            ("author_email", s("a@x")),
            ("license", s("MIT")),
            ("home_page", s("https://github.com/a/p")),
            ("description", s("D")),
            ("requires_dist", Json::Array(vec![s("r1")])),
            ("classifiers", Json::Array(vec![s("c1"), Json::Null])),
        ]),
    )]);
    assert_eq!(get_repository_url(&info), Some("https://github.com/a/p".to_string()));
    assert_eq!(
        package_summary("p", &info, "C"),
        "# PyPI Package: p\n\nVersion: 2.0\nSummary: S\nAuthor: A (a@x)\nLicense: MIT\n\
         Project URL: https://github.com/a/p\nRepository: https://github.com/a/p\n\n## Description\n\nD\
         \n\n## Dependencies\n\n- r1\n\n\n## Classifiers\n\n- c1\n\n\n## Package Content\nC"
    );
    let labelled = obj(vec![(
        "info",
        obj(vec![
            ("home_page", s("https://example.org")),
            ("project_urls", obj(vec![("Docs", s("https://d")), ("Source Code", s("https://src"))])),
        ]),
    )]);
    assert_eq!(get_repository_url(&labelled), Some("https://src".to_string()));
    assert_eq!(
        package_summary("q", &obj(vec![]), ""),
        "# PyPI Package: q\n\nVersion: unknown\nSummary: \nAuthor: Unknown\nLicense: Unknown\n\n## Description\n\n\
         \n\n## Package Content\n"
    );
    assert_eq!(
        package_contents_text(
            &vec![("m.py".to_string(), Some("x".to_string()))],
            &vec![("README.md".to_string(), None)]
        ),
        "\n\n## File: m.py\n```python\nx\n```\n\n\n\n## Metadata File: README.md\n```\nCould not read file content.\n"
    );
}

use llamapackageservice::processors::pypi_docs::{archive_suffix, download_url, extract_code_blocks, extract_python_api_docs};

#[test]
fn readme_code_blocks() {
    assert_eq!(
        extract_code_blocks("Intro\n```python\nprint(1)\n```\ntext\n```\n```\n"),
        "```python\nprint(1)\n```\n\n"
    );
    assert_eq!(extract_code_blocks("none"), "No code examples found in README.\n");
}

#[test]
fn python_api_notes() {
    assert_eq!(
        extract_python_api_docs("def top(a):\n    \"\"\"\n    Top level.\n    \"\"\"\n    pass\n"),
        "#### Function: `top(a)`\n\nTop level.\n\n"
    );
    assert_eq!(
        extract_python_api_docs("class Foo(Base):\n    def bar(self):\n        return 1\n"),
        "#### Class: `Foo`\n\n##### Method: `bar(self)`\n\n"
    );
    assert_eq!(extract_python_api_docs("x = 1\n"), "No API documentation found in this file.\n");
}

#[test]
fn download_choices() {
    let file = |kind: &str, url: &str| {
        Json::Object(vec![("packagetype".to_string(), s(kind)), ("url".to_string(), s(url))])
    };
    let info = |files: Vec<Json>| Json::Object(vec![("urls".to_string(), Json::Array(files))]);
    assert_eq!(download_url(&info(vec![file("bdist_wheel", "w"), file("sdist", "s")])).unwrap(), "s");
    assert_eq!(download_url(&info(vec![file("bdist_wheel", "w")])).unwrap(), "w");
    assert_eq!(download_url(&info(vec![])).unwrap_err().to_string(), "Validation error: Could not find download URL");
    assert_eq!(archive_suffix("https://x/a.whl"), ".zip");
    assert_eq!(archive_suffix("https://x/a.tgz"), ".tar.gz");
    assert_eq!(archive_suffix("https://x/a.bin"), ".tar.gz");
}
