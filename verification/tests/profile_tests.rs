use llamapackageservice::processors::pypi_profile::{
    extract_package_info, extract_package_urls_from_search, packages_named_after, profile_summary, project_url,
    sort_unique,
};

#[test]
fn search_results_use_the_first_selector_that_finds_links() {
    let html = r#"<html><body>
        <div class="package-snippet"><a href="/project/beta/">beta</a></div>
        <div class="package-snippet"><a href="/project/alpha/">alpha</a></div>
        <div class="package-snippet"><a href="/project/beta/">beta again</a></div>
        <a href="/project/ignored/">not in a snippet</a>
    </body></html>"#;
    assert_eq!(
        extract_package_urls_from_search(html),
        vec!["https://pypi.org/project/alpha/".to_string(), "https://pypi.org/project/beta/".to_string()]
    );
}

#[test]
fn search_results_fall_back_to_any_project_link() {
    let html = r#"<html><body>
        <a href="https://mirror.example/project/zeta/">zeta</a>
        <a href="/help/">help</a>
        <a href="/project/eta/">eta</a>
    </body></html>"#;
    assert_eq!(
        extract_package_urls_from_search(html),
        vec!["https://mirror.example/project/zeta/".to_string(), "https://pypi.org/project/eta/".to_string()]
    );
    assert!(extract_package_urls_from_search("<p>nothing</p>").is_empty());
}

#[test]
fn packages_named_after_a_user() {
    let html = "<html><body><a>alice-tools</a><a>numpy</a><a>ALICEpkg</a></body></html>";
    assert_eq!(
        packages_named_after(html, "alice"),
        vec!["https://pypi.org/project/alice-tools/".to_string(), "https://pypi.org/project/ALICEpkg/".to_string()]
    );
    assert!(packages_named_after("<a>Alice</a>", "alice").is_empty());
}

#[test]
fn profile_summary_lists_urls() {
    let urls = sort_unique(vec!["b".to_string(), "a".to_string(), "b".to_string()]);
    assert_eq!(urls, vec!["a".to_string(), "b".to_string()]);
    assert_eq!(
        profile_summary("bob", &urls),
        "PyPI Profile: bob\nSource: https://pypi.org/user/bob/\nTotal Packages: 2\n\nPackages:\n- a\n- b\n"
    );
    assert_eq!(project_url("x"), "https://pypi.org/project/x/");
}

#[test]
fn package_page_facts() {
    let html = r#"<html><body>
        <p class="package-description__summary">  A fine package </p>
        <h1 class="package-header__name">fine 1.0</h1>
        <p class="package-header__version">   </p>
    </body></html>"#;
    assert_eq!(
        extract_package_info(html, "https://pypi.org/project/fine/", "fine"),
        "PyPI Package: fine\nSource: https://pypi.org/project/fine/\nProfile Package: true\nDescription: A fine package\nName: fine 1.0\n"
    );
}
