use llamapackageservice::json::Json;
use llamapackageservice::processors::github_report::{
    code_size_table, org_output_file_name, org_report, pick_doc_files, repos_by_stars, tree_entry, tree_entry_order, CodeFileStat,
};

fn stat(ext: &str, size: Option<u64>, lines: Option<usize>) -> CodeFileStat {
    CodeFileStat { ext: ext.to_string(), size, lines }
}

#[test]
fn code_size_table_groups_sorts_and_totals() {
    let files = vec![
        stat("rs", Some(100), Some(10)),
        stat("py", Some(50), Some(5)),
        stat("rs", Some(30), Some(3)),
        stat("png", Some(999), None),
        stat("RS", Some(1), Some(1)),
        stat("go", None, Some(7)),
    ];
    let table = code_size_table(&files);
    // `RS` is not listed (the list is matched exactly), `png` is not code.
    assert_eq!(table.files, 4);
    assert_eq!(table.size, 180);
    assert_eq!(table.lines, 18);
    let rows: Vec<(String, usize, u64, usize)> =
        table.rows.iter().map(|r| (r.lang.clone(), r.files, r.size, r.lines)).collect();
    assert_eq!(
        rows,
        vec![
            ("go".to_string(), 1, 0, 0),
            ("py".to_string(), 1, 50, 5),
            ("rs".to_string(), 2, 130, 13),
        ]
    );
}

#[test]
fn code_size_table_of_no_code_is_empty() {
    let table = code_size_table(&vec![stat("png", Some(5), None)]);
    assert_eq!(table.files, 0);
    assert!(table.rows.is_empty());
}

#[test]
fn tree_lists_directories_first_then_names() {
    let entries = vec![
        ("zeta.rs".to_string(), false),
        ("src".to_string(), true),
        ("Cargo.toml".to_string(), false),
        ("docs".to_string(), true),
    ];
    assert_eq!(tree_entry_order(&entries), vec![3, 1, 2, 0]);
    assert_eq!(tree_entry("    ", "src", true), "    └── src/\n");
    assert_eq!(tree_entry("", "main.rs", false), "└── main.rs\n");
}

#[test]
fn doc_files_sorted_and_capped_at_five() {
    let names: Vec<String> =
        ["g.md", "image.png", "a.rst", "f.txt", "e.md", "d.md", "c.md", "b.md"].iter().map(|s| s.to_string()).collect();
    assert_eq!(pick_doc_files(&names), vec!["a.rst", "b.md", "c.md", "d.md", "e.md"]);
}

fn repo(stars: u64) -> Json {
    Json::Object(vec![("stargazers_count".to_string(), Json::UInt(stars))])
}

#[test]
fn repositories_by_stars_keep_ties_in_order() {
    let repos = vec![repo(5), repo(10), Json::Null, repo(10), repo(0)];
    assert_eq!(repos_by_stars(&repos), vec![1, 3, 0, 2, 4]);
    assert_eq!(org_output_file_name("acme", "20240101"), "acme_github_org_20240101.txt");
}

#[test]
fn org_report_cuts_long_texts_between_characters() {
    let repo = Json::Object(vec![
        ("name".to_string(), Json::Str("tool".to_string())),
        ("description".to_string(), Json::Str("é".repeat(100))),
    ]);
    let readme = format!("{}{}", "a".repeat(1999), "é".repeat(10));
    let text = org_report("acme", "P", &Json::Null, &vec![repo], &Vec::new(), &vec![Some(readme)]);
    assert!(text.contains(&format!("| [tool](https://github.com/acme) | {}... |", "é".repeat(38))));
    assert!(text.contains(&format!("{}... (truncated)", "a".repeat(1999))));
    assert!(!text.contains(&format!("{}é", "a".repeat(1999))));
}
