use llamapackageservice::output_organizer::{
    extract_description, extract_package_name, output_category, placement, OutputPaths,
    Placement,
};
use llamapackageservice::package_index::{
    entry_kind, html_index_at, index_dirs, index_row, index_rows, markdown_index_at, md_package_name, md_source,
    newest_first, txt_entry, EntryKind, PackageInfo,
};

#[test]
fn output_paths_layout_and_lookup() {
    let paths = OutputPaths::new("/out");
    assert_eq!(paths.base_dir, "/out");
    assert_eq!(paths.github_repos_dir, "/out/github_repos");
    assert_eq!(paths.crates_dir, "/out/rust_crates");
    assert_eq!(paths.index_dir, "/out/_index");
    assert_eq!(paths.get_dir_for_type("PyPI"), "/out/pypi_packages");
    assert_eq!(paths.get_dir_for_type("rust"), "/out/rust_crates");
    assert_eq!(paths.get_dir_for_type("crate"), "/out/rust_crates");
    assert_eq!(paths.get_dir_for_type("local_repo"), "/out/local_repositories");
    assert_eq!(paths.get_dir_for_type("unknown"), "/out");
    let dirs = paths.all_dirs();
    assert_eq!(dirs.len(), 11);
    assert_eq!(dirs[0], "/out");
    assert_eq!(dirs[10], "/out/_downloads");
}

#[test]
fn package_names_from_file_names() {
    assert_eq!(extract_package_name("20250301_193131_duckduckgo-search_pypi.txt"), "duckduckgo-search");
    assert_eq!(extract_package_name("20250301_193131_requests_pypi.md"), "requests");
    assert_eq!(extract_package_name("notes.txt"), "notes.txt");
    assert_eq!(extract_package_name("2025_1931_x_y"), "2025_1931_x_y");
}

#[test]
fn categories_of_file_names() {
    assert_eq!(output_category("proj_analysis.txt"), Some("local_repositories"));
    assert_eq!(output_category("a_github_repo.txt"), Some("github_repos"));
    assert_eq!(output_category("x_github_org.txt"), Some("github_orgs"));
    assert_eq!(output_category("u_pypi_profile.txt"), Some("pypi_profiles"));
    assert_eq!(output_category("numpy_pypi.txt"), Some("pypi_packages"));
    assert_eq!(output_category("cobra_go.txt"), Some("go_packages"));
    assert_eq!(output_category("serde_crate.txt"), Some("crates"));
    assert_eq!(output_category("left-pad_npm.txt"), Some("npm_packages"));
    assert_eq!(output_category("readme.md"), None);
}

#[test]
fn placement_of_files() {
    match placement("/out", "/out/a_github_repo.txt", "a_github_repo.txt") {
        Placement::Copy(t) => assert_eq!(t, "/out/github_repos/a_github_repo.txt"),
        _ => panic!("expected a copy"),
    }
    match placement("/out", "/out/numpy_pypi.txt", "numpy_pypi.txt") {
        Placement::Move(t) => assert_eq!(t, "/out/pypi_packages/numpy_pypi.txt"),
        _ => panic!("expected a move"),
    }
    assert!(matches!(placement("/out", "/out/.hidden_pypi", ".hidden_pypi"), Placement::Stay));
    assert!(matches!(placement("/out", "/out/readme.md", "readme.md"), Placement::Stay));
    assert!(matches!(
        placement("/out", "/out/pypi_packages/numpy_pypi.txt", "numpy_pypi.txt"),
        Placement::Stay
    ));
}

#[test]
fn descriptions_from_file_text() {
    assert_eq!(extract_description("# Title\nDescription: A fast tool  \nmore"), Some("A fast tool".to_string()));
    assert_eq!(extract_description("x\n**Summary**: short one\n"), Some("short one".to_string()));
    assert_eq!(extract_description("- **Description**: bullet text\n"), Some("bullet text".to_string()));
    assert_eq!(
        extract_description("intro\n# Heading\n- item\n\n  First plain line  \nnext"),
        Some("First plain line".to_string())
    );
    assert_eq!(extract_description("no heading here"), None);
    // A marker with nothing after it is passed over for the next one.
    assert_eq!(extract_description("Description:\nSummary: the summary"), Some("the summary".to_string()));
    let long = format!("Description: {}", "a".repeat(200));
    assert_eq!(extract_description(&long), Some(format!("{}...", "a".repeat(147))));
}

#[test]
fn index_entries() {
    assert!(entry_kind("a.txt") == EntryKind::Text);
    assert!(entry_kind("a.md") == EntryKind::Markdown);
    assert!(entry_kind("a.json") == EntryKind::Other);
    let e = txt_entry("20240102_030405_requests_pypi_package.txt", 7).unwrap();
    assert_eq!(e.name, "requests");
    assert_eq!(e.source, "pypi (package)");
    assert_eq!(e.timestamp, 1_704_164_645_000_000_000);
    let bad_date = txt_entry("20241399_030405_requests_pypi_package.txt", 7).unwrap();
    assert_eq!(bad_date.timestamp, 7);
    assert!(txt_entry("requests_pypi.txt", 7).is_none());
    assert_eq!(md_package_name("serde.md"), "serde");
    assert_eq!(md_package_name("x.md.md"), "x");
    assert_eq!(md_source("rust_crates"), "crate");
    assert_eq!(md_source("elsewhere"), "unknown");
    assert_eq!(md_source("crates"), "crate");
    assert_eq!(index_dirs().len(), 9);
    assert!(index_dirs().contains(&"crates"));
}

fn package(name: &str, ts: i64, source: &str) -> PackageInfo {
    PackageInfo {
        name: name.to_string(),
        version: None,
        timestamp: ts,
        source: source.to_string(),
        description: Some(format!("about {}", name)),
        file_path: format!("/out/dir/{} file.txt", name),
        file_size: 10,
    }
}

#[test]
fn newest_first_is_stable() {
    assert_eq!(newest_first(&vec![5, 9, 5, 1, 9]), vec![1, 4, 0, 2, 3]);
    assert_eq!(newest_first(&vec![]), Vec::<usize>::new());
}

#[test]
fn index_rows_and_pages() {
    let packages = vec![package("a", 0, "pypi (package)"), package("b", 60_000_000_000, "npm"), package("c", 1, "pypi")];
    let sizes = vec!["1B".to_string(), "2B".to_string(), "3B".to_string()];
    let order = newest_first(&packages.iter().map(|p| p.timestamp).collect());
    assert_eq!(order, vec![1, 2, 0]);
    let row = index_row("/out", &packages[0], "1B");
    assert_eq!(row.link, "dir/a%20file.txt");
    assert_eq!(row.processed, "1970-01-01 00:00");
    assert_eq!(row.source, "pypi");
    let rows = index_rows("/out", &packages, &order, &sizes);
    let md = markdown_index_at("NOW", &rows);
    let expected = "# Package Index\n\nGenerated: NOW\n\nTotal Packages: 3\n\n\
## npm Packages (1)\n\n| Package | Processed | Size | Description |\n|---------|-----------|------|-------------|\n\
| [b](dir/b%20file.txt) | 1970-01-01 00:01 | 2B | about b |\n\n\
## pypi Packages (2)\n\n| Package | Processed | Size | Description |\n|---------|-----------|------|-------------|\n\
| [c](dir/c%20file.txt) | 1970-01-01 00:00 | 3B | about c |\n\
| [a](dir/a%20file.txt) | 1970-01-01 00:00 | 1B | about a |\n\n";
    assert_eq!(md, expected);
    let html = html_index_at("NOW", &rows);
    assert!(html.starts_with("<!DOCTYPE html>"));
    assert!(html.contains("<p>Generated: NOW</p>"));
    assert!(html.contains("Total Packages: 3</p>"));
    assert!(html.contains("<button class=\"source-filter\" data-source=\"npm\">npm</button>\n        <button class=\"source-filter\" data-source=\"pypi\">pypi</button>"));
    assert!(html.contains("<td><a href=\"dir/b%20file.txt\">b</a></td>"));
    assert!(html.ends_with("</html>\n"));
}

#[test]
fn long_sections_are_cut_at_a_hundred() {
    let packages: Vec<PackageInfo> = (0..102).map(|i| package("p", i, "go")).collect();
    let sizes: Vec<String> = (0..102).map(|_| "1B".to_string()).collect();
    let order = newest_first(&packages.iter().map(|p| p.timestamp).collect());
    let rows = index_rows("/out", &packages, &order, &sizes);
    let md = markdown_index_at("g", &rows);
    assert!(md.contains("## go Packages (102)"));
    assert_eq!(md.matches("| [p](").count(), 100);
    assert!(md.ends_with("| ... and 2 more | | | |\n\n"));
}

#[test]
fn descriptions_are_cut_at_a_character_boundary() {
    let split = format!("Description: {}é{}", "a".repeat(146), "a".repeat(10));
    assert_eq!(extract_description(&split), Some(format!("{}...", "a".repeat(146))));
    let accents = format!("Description: {}\n", "é".repeat(200));
    let d = extract_description(&accents).unwrap();
    assert_eq!(d, format!("{}...", "é".repeat(73)));
    assert!(d.len() <= 150);
    let short = format!("Description: {}é", "a".repeat(146));
    assert_eq!(extract_description(&short), Some(short[13..].to_string()));
}
