use llamapackageservice::json::Json;
use llamapackageservice::processors::npm::{
    count_items, is_npm_source_extension, npm_main_entry, npm_skips_dir, npm_package_contents, npm_package_info, npm_tarball_url, NpmSource,
};

fn s(t: &str) -> Json {
    Json::Str(t.to_string())
}

fn obj(members: Vec<(&str, Json)>) -> Json {
    Json::Object(members.into_iter().map(|(k, v)| (k.to_string(), v)).collect())
}

fn registry_document() -> Json {
    obj(vec![
        ("name", s("demo")),
        ("description", s("A demo")),
        ("dist-tags", obj(vec![("latest", s("1.1.0"))])),
        ("author", obj(vec![("name", s("Ann")), ("email", s("ann@x.io"))])),
        ("repository", s("https://github.com/ann/demo")),
        ("license", s("MIT")),
        ("keywords", Json::Array(vec![s("a"), s("b")])),
        (
            "versions",
            obj(vec![
                ("1.0.0", obj(vec![("description", s("first"))])),
                (
                    "1.1.0",
                    obj(vec![
                        ("main", s("lib/main.js")),
                        ("dist", obj(vec![("tarball", s("https://r/demo-1.1.0.tgz"))])),
                        ("dependencies", obj(vec![("zeta", s("^1")), ("alpha", Json::UInt(2))])),
                    ]),
                ),
            ]),
        ),
        ("time", obj(vec![("1.0.0", s("2020-01-01")), ("1.1.0", s("2021-01-01"))])),
    ])
}

#[test]
fn package_information_from_the_registry() {
    let info = registry_document();
    assert_eq!(
        npm_package_info("demo", &info),
        "## Package Information\n\n- **Name:** demo\n- **Latest Version:** 1.1.0\n- **Description:** A demo\n\
         - **Author:** Ann <ann@x.io>\n- **Repository:** https://github.com/ann/demo\n- **License:** MIT\n\
         - **Keywords:** a, b\n- **NPM URL:** https://www.npmjs.com/package/demo\n- **Total Versions:** 2\n\n\
         ### Version History\n\n| Version | Published | Description |\n|---------|-----------|-------------|\n\
         | 1.1.0 | 2021-01-01 |  |\n| 1.0.0 | 2020-01-01 | first |\n\n## Dependencies\n\n\
         ### Runtime Dependencies\n\n| Package | Version Requirement |\n|---------|---------------------|\n\
         | alpha | unknown |\n| zeta | ^1 |\n\n"
    );
    assert_eq!(npm_tarball_url(&info).unwrap(), "https://r/demo-1.1.0.tgz");
    assert_eq!(npm_main_entry(&info), "lib/main.js");
}

#[test]
fn bare_registry_document() {
    let info = obj(vec![("name", s("bare"))]);
    assert_eq!(npm_tarball_url(&info).unwrap_err().to_string(), "Tarball URL not found in package info");
    assert_eq!(npm_main_entry(&info), "index.js");
    assert_eq!(
        npm_package_info("bare", &info),
        "## Package Information\n\n- **Name:** bare\n- **Latest Version:** unknown\n- **Author:** Unknown\n\
         - **Repository:** Not specified\n- **NPM URL:** https://www.npmjs.com/package/bare\n## Dependencies\n\n"
    );
}

#[test]
fn package_contents() {
    let counts = count_items(&vec!["js".to_string(), "ts".to_string(), "js".to_string()]);
    assert_eq!(counts, vec![("js".to_string(), 2), ("ts".to_string(), 1)]);
    let sources = vec![
        NpmSource { rel_path: "a.js".to_string(), ext: Some("js".to_string()), content: "1".to_string() },
        NpmSource { rel_path: "README".to_string(), ext: None, content: "r".to_string() },
    ];
    assert_eq!(
        npm_package_contents(&Some("{}".to_string()), &None, &Some(("main.js".to_string(), "x".to_string())), &sources),
        "## Package.json\n\n```json\n{}\n```\n\n## Documentation\n\n*No README found*\n\n## Source Code\n\n\
         ### Main Entry Point: main.js\n\n```javascript\nx\n```\n\n### File Types\n\n- **js**: 1 files\n\n\
         ### Key Source Files\n\n#### a.js\n\n```javascript\n1\n```\n\n#### README\n\n```\nr\n```\n\n"
    );
    assert_eq!(
        npm_package_contents(&None, &Some("hi".to_string()), &None, &Vec::new()),
        "## Documentation\n\n### README\n\nhi\n\n## Source Code\n\n*No source files found*\n\n"
    );
}

#[test]
fn npm_source_search_filters() {
    assert!(npm_skips_dir("node_modules"));
    assert!(npm_skips_dir("dist"));
    assert!(npm_skips_dir(".github"));
    assert!(!npm_skips_dir("lib"));
    assert!(is_npm_source_extension("tsx"));
    assert!(is_npm_source_extension("md"));
    assert!(!is_npm_source_extension("py"));
    assert!(!is_npm_source_extension(""));
}
