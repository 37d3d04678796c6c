use llamapackageservice::processors::local::{
    count_languages, directory_analysis, empty_directory_analysis, most_frequent_index, tree_descends, tree_level, tree_line,
    LocalProcessor,
    SourceFile,
};

fn strings(v: &[&str]) -> Vec<String> {
    v.iter().map(|s| s.to_string()).collect()
}

#[test]
fn local_path_syntax() {
    assert!(LocalProcessor::has_path_syntax("  ./foo "));
    assert!(LocalProcessor::has_path_syntax("../up"));
    assert!(LocalProcessor::has_path_syntax("/abs"));
    assert!(LocalProcessor::has_path_syntax("C:\\code"));
    assert!(!LocalProcessor::has_path_syntax("foo"));
    assert!(!LocalProcessor::has_path_syntax("a:"));
    assert!(!LocalProcessor::has_path_syntax("https://github.com/a/b"));
    assert!(LocalProcessor::is_local_path("foo", true));
    assert!(!LocalProcessor::is_local_path("foo", false));
}

#[test]
fn ignored_paths() {
    let p = LocalProcessor::new();
    assert!(p.should_ignore("/p/node_modules/x.js"));
    assert!(p.should_ignore("/p/src/App.LOG"));
    assert!(p.should_ignore("/p/target/debug/a"));
    assert!(!p.should_ignore("/p/src/main.rs"));
    assert!(!p.should_ignore("/p/README.md"));
    assert!(p.should_ignore("x/.DS_Store"));
    assert!(!p.should_ignore("src/layout.rs"));
    assert!(!p.should_ignore("docs/catalog"));
    assert!(p.should_ignore("web/node_modules/x.js"));
    assert!(p.should_ignore("run/app.log"));
}

#[test]
fn file_kinds_and_languages() {
    let p = LocalProcessor::new();
    assert_eq!(p.detect_file_type("a/b.MD"), "Documentation");
    assert_eq!(p.detect_file_type("x.json"), "Configuration");
    assert_eq!(p.detect_file_type("x.rs"), "Code");
    assert_eq!(p.detect_file_type("x.bin"), "Other");
    assert_eq!(p.detect_file_type("Makefile"), "Other");
    assert_eq!(p.extension_to_language("RS"), "Rust");
    assert_eq!(p.extension_to_language("hpp"), "C/C++ Header");
    assert_eq!(p.extension_to_language("zzz"), "Other");
}

#[test]
fn languages_counted_in_order_of_first_occurrence() {
    let (langs, primary) = count_languages(&strings(&["a.rs", "b.py", "c.rs", "Makefile", "d.RS"]));
    assert_eq!(langs, vec![("Rust".to_string(), 3), ("Python".to_string(), 1)]);
    assert_eq!(primary, Some("Rust".to_string()));
    let (langs, primary) = count_languages(&strings(&["a.py", "b.rs"]));
    assert_eq!(langs.len(), 2);
    assert_eq!(primary, Some("Rust".to_string()));
    let (langs, primary) = count_languages(&strings(&["README"]));
    assert!(langs.is_empty());
    assert_eq!(primary, None);
    let t = vec![("a".to_string(), 2), ("b".to_string(), 3), ("c".to_string(), 3)];
    assert_eq!(most_frequent_index(&t), Some(2));
    assert_eq!(most_frequent_index(&Vec::new()), None);
}

#[test]
fn repository_and_file_reports() {
    let p = LocalProcessor::new();
    let info = p.analyze_repository("/home/me/proj", &strings(&["/home/me/proj/a.rs"]), 123, "now".to_string());
    assert_eq!(info.name, "proj");
    assert_eq!(info.path, "/home/me/proj");
    assert_eq!(info.size_bytes, 123);
    assert_eq!(info.file_count, 1);
    assert_eq!(info.primary_language, Some("Rust".to_string()));
    assert_eq!(info.created_at, "now");

    let report = p.analyze_single_file("/p/notes.md", "line1\nline2", "Documentation", "G");
    assert_eq!(
        report,
        "# File Analysis: notes.md\n\n**Author:** Nik Jois <nikjois@llamasearch.ai>\n**Generated:** G\n\n\
         ## File Information\n\n- **Path:** /p/notes.md\n- **Type:** Documentation\n- **Size:** 11 bytes\n\
         - **Lines:** 2\n- **Language:** Markdown\n\n## File Content\n\n```\nline1\nline2\n```\n"
    );

    assert_eq!(
        empty_directory_analysis("d", "G"),
        "# Local Repository Analysis: d\n\n**Author:** Nik Jois <nikjois@llamasearch.ai>\n**Generated:** G\n\n\
         ## Status\n\nNo accessible files found.\n\
         All files may be inaccessible due to permissions or the directory may be empty.\n"
    );

    let files = vec![
        SourceFile { rel_path: "a.rs".to_string(), lang_hint: "Code".to_string(), content: Some("fn a() {}".to_string()) },
        SourceFile { rel_path: "b.bin".to_string(), lang_hint: "Other".to_string(), content: None },
    ];
    let tree = format!("{}{}", tree_line(0, false, "a.rs"), tree_line(0, false, "b.bin"));
    assert_eq!(
        directory_analysis("proj", "G", &info, &tree, &files),
        "# Local Repository Analysis: proj\n\n**Author:** Nik Jois <nikjois@llamasearch.ai>\n**Generated:** G\n\n\
         ## Repository Overview\n\n- **Name:** proj\n- **Path:** /home/me/proj\n- **Size:** 123 bytes\n\
         - **Files:** 1\n- **Primary Language:** Rust\n\n## Language Distribution\n\n- **Rust:** 1 files\n\n\
         ## Directory Structure\n\n```\n[FILE] a.rs\n[FILE] b.bin\n```\n\n## Full Source Files\n\n\
         ### `a.rs`\n\n```Code\nfn a() {}\n```\n\n### `b.bin`\n\n```Other\n/* Unable to read file */\n```\n\n"
    );
}

#[test]
fn tree_lines_indent_two_spaces_a_level() {
    assert_eq!(tree_line(2, true, "src"), "    [DIR] src/\n");
    assert_eq!(tree_line(0, false, "a.rs"), "[FILE] a.rs\n");
}

#[test]
fn tree_level_lists_directories_first_by_name() {
    let entries = vec![
        ("zeta.rs".to_string(), false),
        ("src".to_string(), true),
        ("alpha.md".to_string(), false),
        ("docs".to_string(), true),
    ];
    assert_eq!(tree_level(&entries), vec![3, 1, 2, 0]);
    let many: Vec<(String, bool)> = (0..60).map(|i| (format!("f{:02}", i), false)).collect();
    let shown = tree_level(&many);
    assert_eq!(shown.len(), 50);
    assert_eq!(shown[0], 0);
    assert_eq!(shown[49], 49);
}

#[test]
fn tree_descends_only_into_directories_above_the_cut() {
    assert!(tree_descends(0, 3, true));
    assert!(tree_descends(1, 3, true));
    assert!(!tree_descends(2, 3, true));
    assert!(!tree_descends(0, 3, false));
}
