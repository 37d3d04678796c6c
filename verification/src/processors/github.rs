//! GitHub repositories and organizations: naming of output files, URL
//! classification, the choice of important files and the report texts.

use vstd::prelude::*;
use crate::bindings::{
    alphanumeric, is_alphanumeric, path_join, join_path, path_parent, parent_of, path_equal,
    same_path, url_host, url_segments, parse_url_host, parse_url_segments, utc_now_formatted,
};
use crate::error::{ProcessorError, Result, detail};
use crate::order::{sorted_desc, sort_desc, lemma_sorted_desc_indices};
use crate::text::{
    push_char, push_chars, chars_of, chars_eq, string_of, starts_with, ends_with, tail_from,
    has_prefix, has_suffix, has_sub, lowercase_of, to_lowercase, contains, count_matches,
    count_occurrences, trim, trim_chars, lines, lines_of, split_of, split_char,
    lemma_count_matches_bound,
};

verus! {

/// The character a repository file name uses in place of `c`.
pub open spec fn repo_safe_char(c: char) -> char {
    if alphanumeric(c) || c == '-' || c == '_' {
        c
    } else {
        '_'
    }
}

/// `name` with every character other than alphanumerics, `-` and `_`
/// replaced by `_`.
pub open spec fn repo_safe_name(name: Seq<char>) -> Seq<char> {
    Seq::new(name.len(), |i: int| repo_safe_char(name[i]))
}

/// Makes a name safe for use in a file name: alphanumerics, `-` and `_`
/// stay, everything else becomes `_`.
pub fn sanitize_filename(name: &str) -> (r: String)
    ensures
        r@ == repo_safe_name(name@),
{
    let v = chars_of(name);
    let mut out = String::new();
    let mut i: usize = 0;
    while i < v.len()
        invariant
            i <= v@.len(),
            v@ == name@,
            out@ == repo_safe_name(name@).take(i as int),
        decreases v@.len() - i,
    {
        let c = v[i];
        let d = if is_alphanumeric(c) || c == '-' || c == '_' {
            c
        } else {
            '_'
        };
        push_char(&mut out, d);
        assert(repo_safe_name(name@).take(i + 1) =~= repo_safe_name(name@).take(i as int).push(d));
        i = i + 1;
    }
    assert(repo_safe_name(name@).take(v@.len() as int) =~= repo_safe_name(name@));
    out
}

/// File extensions (with their dot) that count as code in a GitHub repository.
pub open spec fn code_extensions() -> Seq<Seq<char>> {
    seq![
        ".rs"@,
        ".go"@,
        ".c"@,
        ".cpp"@,
        ".h"@,
        ".hpp"@,
        ".js"@,
        ".ts"@,
        ".jsx"@,
        ".tsx"@,
        ".html"@,
        ".css"@,
        ".scss"@,
        ".sass"@,
        ".py"@,
        ".rb"@,
        ".php"@,
        ".sh"@,
        ".bash"@,
        ".zsh"@,
        ".java"@,
        ".kt"@,
        ".scala"@,
        ".groovy"@,
        ".clj"@,
        ".cs"@,
        ".fs"@,
        ".vb"@,
        ".swift"@,
        ".m"@,
        ".mm"@,
        ".json"@,
        ".yml"@,
        ".yaml"@,
        ".toml"@,
        ".md"@,
    ]
}

/// Executable `code_extensions`.
pub fn code_extension_list() -> (r: Vec<Vec<char>>)
    ensures
        r@.len() == code_extensions().len(),
        forall|i: int| 0 <= i < r@.len() ==> #[trigger] r@[i]@ == code_extensions()[i],
{
    let mut r: Vec<Vec<char>> = Vec::new();
    r.push(chars_of(".rs"));
    r.push(chars_of(".go"));
    r.push(chars_of(".c"));
    r.push(chars_of(".cpp"));
    r.push(chars_of(".h"));
    r.push(chars_of(".hpp"));
    r.push(chars_of(".js"));
    r.push(chars_of(".ts"));
    r.push(chars_of(".jsx"));
    r.push(chars_of(".tsx"));
    r.push(chars_of(".html"));
    r.push(chars_of(".css"));
    r.push(chars_of(".scss"));
    r.push(chars_of(".sass"));
    r.push(chars_of(".py"));
    r.push(chars_of(".rb"));
    r.push(chars_of(".php"));
    r.push(chars_of(".sh"));
    r.push(chars_of(".bash"));
    r.push(chars_of(".zsh"));
    r.push(chars_of(".java"));
    r.push(chars_of(".kt"));
    r.push(chars_of(".scala"));
    r.push(chars_of(".groovy"));
    r.push(chars_of(".clj"));
    r.push(chars_of(".cs"));
    r.push(chars_of(".fs"));
    r.push(chars_of(".vb"));
    r.push(chars_of(".swift"));
    r.push(chars_of(".m"));
    r.push(chars_of(".mm"));
    r.push(chars_of(".json"));
    r.push(chars_of(".yml"));
    r.push(chars_of(".yaml"));
    r.push(chars_of(".toml"));
    r.push(chars_of(".md"));
    assert(r@.map_values(|v: Vec<char>| v@) =~= code_extensions());
    r
}

/// Path fragments that mark a file as important, most important first.
pub open spec fn priority_patterns() -> Seq<Seq<char>> {
    seq![
        "main.rs"@,
        "main.go"@,
        "main.py"@,
        "index.js"@,
        "index.ts"@,
        "app.js"@,
        "app.ts"@,
        "server.js"@,
        "server.ts"@,
        "app.py"@,
        "main.cpp"@,
        "main.c"@,
        "Cargo.toml"@,
        "package.json"@,
        "requirements.txt"@,
        "go.mod"@,
        "Makefile"@,
        "CMakeLists.txt"@,
        "Dockerfile"@,
        "docker-compose.yml"@,
        ".github/workflows"@,
        "README"@,
        "LICENSE"@,
        "CONTRIBUTING"@,
        "CHANGELOG"@,
        "API.md"@,
        "docs/"@,
        "src/"@,
        "lib/"@,
        "core/"@,
        "internal/"@,
        "pkg/"@,
        "utils/"@,
        "helpers/"@,
        "tests/"@,
        "test_"@,
        "_test.go"@,
        "spec.js"@,
        "spec.ts"@,
        ".test.js"@,
        ".test.ts"@,
        "pytest"@,
        "unittest"@,
    ]
}

/// Executable `priority_patterns`.
pub fn priority_pattern_list() -> (r: Vec<Vec<char>>)
    ensures
        r@.len() == priority_patterns().len(),
        forall|i: int| 0 <= i < r@.len() ==> #[trigger] r@[i]@ == priority_patterns()[i],
{
    let mut r: Vec<Vec<char>> = Vec::new();
    r.push(chars_of("main.rs"));
    r.push(chars_of("main.go"));
    r.push(chars_of("main.py"));
    r.push(chars_of("index.js"));
    r.push(chars_of("index.ts"));
    r.push(chars_of("app.js"));
    r.push(chars_of("app.ts"));
    r.push(chars_of("server.js"));
    r.push(chars_of("server.ts"));
    r.push(chars_of("app.py"));
    r.push(chars_of("main.cpp"));
    r.push(chars_of("main.c"));
    r.push(chars_of("Cargo.toml"));
    r.push(chars_of("package.json"));
    r.push(chars_of("requirements.txt"));
    r.push(chars_of("go.mod"));
    r.push(chars_of("Makefile"));
    r.push(chars_of("CMakeLists.txt"));
    r.push(chars_of("Dockerfile"));
    r.push(chars_of("docker-compose.yml"));
    r.push(chars_of(".github/workflows"));
    r.push(chars_of("README"));
    r.push(chars_of("LICENSE"));
    r.push(chars_of("CONTRIBUTING"));
    r.push(chars_of("CHANGELOG"));
    r.push(chars_of("API.md"));
    r.push(chars_of("docs/"));
    r.push(chars_of("src/"));
    r.push(chars_of("lib/"));
    r.push(chars_of("core/"));
    r.push(chars_of("internal/"));
    r.push(chars_of("pkg/"));
    r.push(chars_of("utils/"));
    r.push(chars_of("helpers/"));
    r.push(chars_of("tests/"));
    r.push(chars_of("test_"));
    r.push(chars_of("_test.go"));
    r.push(chars_of("spec.js"));
    r.push(chars_of("spec.ts"));
    r.push(chars_of(".test.js"));
    r.push(chars_of(".test.ts"));
    r.push(chars_of("pytest"));
    r.push(chars_of("unittest"));
    assert(r@.map_values(|v: Vec<char>| v@) =~= priority_patterns());
    r
}

/// Every code extension starts with a dot.
proof fn lemma_code_extensions_dotted()
    ensures
        forall|k: int| 0 <= k < code_extensions().len() ==> #[trigger] code_extensions()[k].len() > 0 && code_extensions()[k][0] == '.',
{
    reveal_strlit(".rs");
    reveal_strlit(".go");
    reveal_strlit(".c");
    reveal_strlit(".cpp");
    reveal_strlit(".h");
    reveal_strlit(".hpp");
    reveal_strlit(".js");
    reveal_strlit(".ts");
    reveal_strlit(".jsx");
    reveal_strlit(".tsx");
    reveal_strlit(".html");
    reveal_strlit(".css");
    reveal_strlit(".scss");
    reveal_strlit(".sass");
    reveal_strlit(".py");
    reveal_strlit(".rb");
    reveal_strlit(".php");
    reveal_strlit(".sh");
    reveal_strlit(".bash");
    reveal_strlit(".zsh");
    reveal_strlit(".java");
    reveal_strlit(".kt");
    reveal_strlit(".scala");
    reveal_strlit(".groovy");
    reveal_strlit(".clj");
    reveal_strlit(".cs");
    reveal_strlit(".fs");
    reveal_strlit(".vb");
    reveal_strlit(".swift");
    reveal_strlit(".m");
    reveal_strlit(".mm");
    reveal_strlit(".json");
    reveal_strlit(".yml");
    reveal_strlit(".yaml");
    reveal_strlit(".toml");
    reveal_strlit(".md");
}

/// The extension (without its dot) of the first entry of `exts` that
/// `lower` ends with; `unknown` when there is none.
pub open spec fn suffix_language(lower: Seq<char>, exts: Seq<Seq<char>>) -> Seq<char>
    decreases exts.len(),
{
    if exts.len() == 0 {
        "unknown"@
    } else if has_suffix(lower, exts[0]) {
        exts[0].skip(1)
    } else {
        suffix_language(lower, exts.drop_first())
    }
}

/// The language a repository's name suggests: the code extension that its
/// lowercased name ends with, or `unknown`.
pub fn get_repo_language(repo: &str) -> (r: String)
    ensures
        r@ == suffix_language(lowercase_of(repo@), code_extensions()),
{
    let lower = to_lowercase(repo);
    let l = chars_of(lower.as_str());
    let exts = code_extension_list();
    let ghost all = code_extensions();
    let mut i: usize = 0;
    assert(all.skip(0) =~= all);
    proof {
        lemma_code_extensions_dotted();
    }
    while i < exts.len()
        invariant
            i <= exts@.len(),
            exts@.len() == all.len(),
            forall|k: int| 0 <= k < exts@.len() ==> #[trigger] exts@[k]@ == all[k],
            l@ == lowercase_of(repo@),
            all == code_extensions(),
            forall|k: int| 0 <= k < all.len() ==> #[trigger] all[k].len() > 0,
            suffix_language(l@, all) == suffix_language(l@, all.skip(i as int)),
        decreases exts@.len() - i,
    {
        assert(all.skip(i as int)[0] == all[i as int]);
        assert(all.skip(i as int).drop_first() =~= all.skip(i + 1));
        if ends_with(&l, &exts[i]) {
            assert(exts@[i as int]@.len() >= 1);
            return string_of(&tail_from(&exts[i], 1));
        }
        i = i + 1;
    }
    String::from_str("unknown")
}

/// Where the processed GitHub output goes under a base directory.
pub struct OutputStructure {
    /// The base output directory
    pub base_dir: String,
    /// Directory for single repositories
    pub individual_repos_dir: String,
    /// Directory for organizations
    pub organizations_dir: String,
}

/// File name of a repository analysis written at `ts`.
pub open spec fn repo_output_name(owner: Seq<char>, repo: Seq<char>, ts: Seq<char>) -> Seq<char> {
    ts + "_"@ + repo_safe_name(owner) + "_"@ + repo_safe_name(repo) + "_"@ + suffix_language(
        lowercase_of(repo),
        code_extensions(),
    ) + "_analysis.txt"@
}

/// File name of an organization overview written at `ts`.
pub open spec fn org_overview_name(org: Seq<char>, ts: Seq<char>) -> Seq<char> {
    ts + "_"@ + repo_safe_name(org) + "_organization_overview.txt"@
}

/// File name of a repository overview written at `ts`.
pub open spec fn repo_overview_name(owner: Seq<char>, repo: Seq<char>, ts: Seq<char>) -> Seq<char> {
    ts + "_"@ + repo_safe_name(owner) + "_"@ + repo_safe_name(repo) + "_overview.txt"@
}

/// The text of an optional string slice.
pub open spec fn opt_text(o: Option<&str>) -> Option<Seq<char>> {
    match o {
        Some(l) => Some(l@),
        None => None,
    }
}

/// File name of an organization's repository analysis written at `ts`.
pub open spec fn org_repo_name(
    org: Seq<char>,
    repo: Seq<char>,
    language: Option<Seq<char>>,
    ts: Seq<char>,
) -> Seq<char> {
    let lang = match language {
        Some(l) => l,
        None => "unknown"@,
    };
    ts + "_"@ + repo_safe_name(org) + "_"@ + repo_safe_name(repo) + "_"@ + lang + "_analysis.txt"@
}

impl OutputStructure {
    /// The layout under `base_dir`. Creating the directories is left to the caller.
    pub fn new(base_dir: &str) -> (r: Self)
        ensures
            r.base_dir@ == base_dir@,
            r.individual_repos_dir@ == path_join(base_dir@, "github_individual_repos"@),
            r.organizations_dir@ == path_join(base_dir@, "github_organizations"@),
    {
        OutputStructure {
            base_dir: String::from_str(base_dir),
            individual_repos_dir: join_path(base_dir, "github_individual_repos"),
            organizations_dir: join_path(base_dir, "github_organizations"),
        }
    }

    /// The directory of organization `org`.
    pub fn get_org_dir(&self, org: &str) -> (r: String)
        ensures
            r@ == path_join(self.organizations_dir@, repo_safe_name(org@)),
    {
        let name = sanitize_filename(org);
        join_path(self.organizations_dir.as_str(), name.as_str())
    }

    /// The analysis path of `owner/repo` for timestamp `ts`.
    pub fn repo_output_path_at(&self, owner: &str, repo: &str, ts: &str) -> (r: String)
        ensures
            r@ == path_join(self.individual_repos_dir@, repo_output_name(owner@, repo@, ts@)),
    {
        let mut name = String::from_str(ts);
        name.append("_");
        name.append(sanitize_filename(owner).as_str());
        name.append("_");
        name.append(sanitize_filename(repo).as_str());
        name.append("_");
        name.append(get_repo_language(repo).as_str());
        name.append("_analysis.txt");
        join_path(self.individual_repos_dir.as_str(), name.as_str())
    }

    /// The analysis path of `owner/repo`, stamped with the current time.
    pub fn get_repo_output_path(&self, owner: &str, repo: &str) -> (r: String)
        ensures
            exists|ts: Seq<char>|
                r@ == path_join(self.individual_repos_dir@, #[trigger] repo_output_name(owner@, repo@, ts)),
    {
        let ts = utc_now_formatted("%Y%m%d_%H%M%S");
        self.repo_output_path_at(owner, repo, ts.as_str())
    }

    /// The overview path of organization `org` for timestamp `ts`.
    pub fn org_overview_path_at(&self, org: &str, ts: &str) -> (r: String)
        ensures
            r@ == path_join(path_join(self.organizations_dir@, repo_safe_name(org@)), org_overview_name(org@, ts@)),
    {
        let mut name = String::from_str(ts);
        name.append("_");
        name.append(sanitize_filename(org).as_str());
        name.append("_organization_overview.txt");
        let dir = self.get_org_dir(org);
        join_path(dir.as_str(), name.as_str())
    }

    /// The overview path of organization `org`, stamped with the current time.
    pub fn get_org_overview_path(&self, org: &str) -> (r: String)
        ensures
            exists|ts: Seq<char>|
                r@ == path_join(path_join(self.organizations_dir@, repo_safe_name(org@)), #[trigger] org_overview_name(org@, ts)),
    {
        let ts = utc_now_formatted("%Y%m%d_%H%M%S");
        self.org_overview_path_at(org, ts.as_str())
    }

    /// The overview path of `owner/repo` for timestamp `ts`.
    pub fn repo_overview_path_at(&self, owner: &str, repo: &str, ts: &str) -> (r: String)
        ensures
            r@ == path_join(self.individual_repos_dir@, repo_overview_name(owner@, repo@, ts@)),
    {
        let mut name = String::from_str(ts);
        name.append("_");
        name.append(sanitize_filename(owner).as_str());
        name.append("_");
        name.append(sanitize_filename(repo).as_str());
        name.append("_overview.txt");
        join_path(self.individual_repos_dir.as_str(), name.as_str())
    }

    /// The overview path of `owner/repo`, stamped with the current time.
    pub fn get_repo_overview_path(&self, owner: &str, repo: &str) -> (r: String)
        ensures
            exists|ts: Seq<char>|
                r@ == path_join(self.individual_repos_dir@, #[trigger] repo_overview_name(owner@, repo@, ts)),
    {
        let ts = utc_now_formatted("%Y%m%d_%H%M%S");
        self.repo_overview_path_at(owner, repo, ts.as_str())
    }

    /// The analysis path of repository `repo` of organization `org` for timestamp `ts`.
    pub fn org_repo_path_at(&self, org: &str, repo: &str, language: Option<&str>, ts: &str) -> (r: String)
        ensures
            r@ == path_join(
                path_join(self.organizations_dir@, repo_safe_name(org@)),
                org_repo_name(org@, repo@, opt_text(language), ts@),
            ),
    {
        let mut name = String::from_str(ts);
        name.append("_");
        name.append(sanitize_filename(org).as_str());
        name.append("_");
        name.append(sanitize_filename(repo).as_str());
        name.append("_");
        match language {
            Some(l) => name.append(l),
            None => name.append("unknown"),
        }
        name.append("_analysis.txt");
        let dir = self.get_org_dir(org);
        join_path(dir.as_str(), name.as_str())
    }

    /// The analysis path of repository `repo` of organization `org`, stamped
    /// with the current time.
    pub fn get_org_repo_path(&self, org: &str, repo: &str, language: Option<&str>) -> (r: String)
        ensures
            exists|ts: Seq<char>|
                r@ == path_join(
                    path_join(self.organizations_dir@, repo_safe_name(org@)),
                    #[trigger] org_repo_name(org@, repo@, opt_text(language), ts),
                ),
    {
        let ts = utc_now_formatted("%Y%m%d_%H%M%S");
        self.org_repo_path_at(org, repo, language, ts.as_str())
    }
}


/// What a GitHub URL points at.
pub enum GitHubUrlType {
    /// A single repository
    Repository { owner: String, repo: String },
    /// An organization
    Organization { org: String },
}

/// The non-empty path segments of `segs`, in order.
pub open spec fn non_empty_segments(segs: Seq<Seq<char>>) -> Seq<Seq<char>>
    decreases segs.len(),
{
    if segs.len() == 0 {
        segs
    } else if segs.last().len() == 0 {
        non_empty_segments(segs.drop_last())
    } else {
        non_empty_segments(segs.drop_last()).push(segs.last())
    }
}

/// The non-empty path segments of a GitHub URL, or the message of the
/// validation error that rejects it.
pub open spec fn github_target(url: Seq<char>) -> core::result::Result<Seq<Seq<char>>, Seq<char>> {
    match url_host(url) {
        None => Err("Invalid URL format"@),
        Some(host) => if host != Some("github.com"@) {
            Err("Not a GitHub URL"@)
        } else {
            match url_segments(url) {
                None => Err("Invalid URL format"@),
                Some(None) => Err("Invalid URL path"@),
                Some(Some(segs)) => if non_empty_segments(segs).len() == 0 {
                    Err("Invalid GitHub URL"@)
                } else {
                    Ok(non_empty_segments(segs))
                },
            }
        },
    }
}

/// The non-empty path segments of a `github.com` URL; a validation error for
/// a URL that does not parse, is not on `github.com`, or has no path.
pub fn github_url_segments(url: &str) -> (r: Result<Vec<String>>)
    ensures
        match github_target(url@) {
            Ok(segs) => r matches Ok(v) && v@.map_values(|s: String| s@) == segs,
            Err(m) => r matches Err(e) && e is Validation && detail(e) == m,
        },
{
    match parse_url_host(url) {
        None => Err(ProcessorError::Validation(String::from_str("Invalid URL format"))),
        Some(host) => {
            let on_github = match &host {
                Some(h) => chars_eq(&chars_of(h.as_str()), &chars_of("github.com")),
                None => false,
            };
            proof {
                reveal_strlit("github.com");
            }
            if !on_github {
                return Err(ProcessorError::Validation(String::from_str("Not a GitHub URL")));
            }
            match parse_url_segments(url) {
                None => Err(ProcessorError::Validation(String::from_str("Invalid URL format"))),
                Some(None) => Err(ProcessorError::Validation(String::from_str("Invalid URL path"))),
                Some(Some(segs)) => {
                    let ghost all = segs@.map_values(|s: String| s@);
                    let mut kept: Vec<String> = Vec::new();
                    let mut i: usize = 0;
                    while i < segs.len()
                        invariant
                            i <= segs@.len(),
                            all == segs@.map_values(|s: String| s@),
                            kept@.map_values(|s: String| s@) == non_empty_segments(all.take(i as int)),
                        decreases segs@.len() - i,
                    {
                        assert(all.take(i + 1).drop_last() =~= all.take(i as int));
                        let ghost before = kept@;
                        if !segs[i].as_str().is_empty() {
                            kept.push(segs[i].clone());
                            assert(kept@.map_values(|s: String| s@) =~= before.map_values(|s: String| s@).push(all[i as int]));
                        }
                        i = i + 1;
                    }
                    assert(all.take(segs@.len() as int) =~= all);
                    if kept.len() == 0 {
                        Err(ProcessorError::Validation(String::from_str("Invalid GitHub URL")))
                    } else {
                        Ok(kept)
                    }
                },
            }
        },
    }
}

/// The API URL probed to see whether `owner/repo` is a repository.
pub fn repo_probe_url(owner: &str, repo: &str) -> (r: String)
    ensures
        r@ == "https://api.github.com/repos/"@ + owner@ + "/"@ + repo@,
{
    let mut u = String::from_str("https://api.github.com/repos/");
    u.append(owner);
    u.append("/");
    u.append(repo);
    u
}

/// The API URL probed to see whether `org` is an organization.
pub fn org_probe_url(org: &str) -> (r: String)
    ensures
        r@ == "https://api.github.com/orgs/"@ + org@,
{
    let mut u = String::from_str("https://api.github.com/orgs/");
    u.append(org);
    u
}

/// Decides what the segments of a GitHub URL name, given whether the
/// repository probe (made only with at least two segments) and the
/// organization probe answered `200 OK`. A repository wins over an
/// organization.
pub fn classify_github_target(segments: &Vec<String>, repo_found: bool, org_found: bool) -> (r: Result<GitHubUrlType>)
    requires
        segments@.len() > 0,
    ensures
        segments@.len() >= 2 && repo_found ==> (r matches Ok(GitHubUrlType::Repository { owner, repo })
            && owner@ == segments@[0]@ && repo@ == segments@[1]@),
        !(segments@.len() >= 2 && repo_found) && org_found ==> (r matches Ok(GitHubUrlType::Organization { org })
            && org@ == segments@[0]@),
        !(segments@.len() >= 2 && repo_found) && !org_found ==> (r matches Err(e) && e is Validation
            && detail(e) == "Invalid GitHub URL or resource not found"@),
{
    if segments.len() >= 2 && repo_found {
        Ok(GitHubUrlType::Repository { owner: segments[0].clone(), repo: segments[1].clone() })
    } else if org_found {
        Ok(GitHubUrlType::Organization { org: segments[0].clone() })
    } else {
        Err(ProcessorError::Validation(String::from_str("Invalid GitHub URL or resource not found")))
    }
}

/// Owner and name of a repository.
pub struct GitHubRepoDetails {
    /// The owner
    pub owner: String,
    /// The repository name
    pub repo: String,
}

/// Splits a repository URL at `/`: the fourth and fifth parts are owner and
/// name; fewer than five parts is a validation error.
pub fn extract_github_details(url: &str) -> (r: Result<GitHubRepoDetails>)
    ensures
        split_of(url@, '/').len() < 5 ==> (r matches Err(e) && e is Validation && detail(e)
            == "Invalid GitHub URL format"@),
        split_of(url@, '/').len() >= 5 ==> (r matches Ok(d) && d.owner@ == split_of(url@, '/')[3]
            && d.repo@ == split_of(url@, '/')[4]),
{
    let parts = split_char(&chars_of(url), '/');
    if parts.len() < 5 {
        return Err(ProcessorError::Validation(String::from_str("Invalid GitHub URL format")));
    }
    Ok(GitHubRepoDetails { owner: string_of(&parts[3]), repo: string_of(&parts[4]) })
}

/// GitHub repository and organization processor.
pub struct GitHubProcessor;

impl GitHubProcessor {
    /// Creates a new GitHub processor.
    pub fn new() -> (p: Self) {
        GitHubProcessor
    }

    /// Validates that `url` parses and is on `github.com`.
    pub fn validate_url(&self, url: &str) -> (r: Result<()>)
        ensures
            match url_host(url@) {
                None => r matches Err(e) && e is Message && detail(e) == "Invalid URL format"@,
                Some(h) => if h == Some("github.com"@) {
                    r is Ok
                } else {
                    r matches Err(e) && e is Message && detail(e) == "Not a GitHub URL"@
                },
            },
    {
        match parse_url_host(url) {
            None => Err(ProcessorError::new("Invalid URL format")),
            Some(host) => {
                let ok = match &host {
                    Some(h) => chars_eq(&chars_of(h.as_str()), &chars_of("github.com")),
                    None => false,
                };
                proof {
                    reveal_strlit("github.com");
                }
                if ok {
                    Ok(())
                } else {
                    Err(ProcessorError::new("Not a GitHub URL"))
                }
            },
        }
    }

    /// Owner and repository name of `url`: the first two path segments.
    pub fn extract_repo_info(&self, url: &str) -> (r: Result<(String, String)>)
        ensures
            match url_segments(url@) {
                None => r matches Err(e) && e is Message && detail(e) == "Invalid URL format"@,
                Some(None) => r matches Err(e) && e is Message && detail(e) == "Invalid URL path"@,
                Some(Some(segs)) => if segs.len() < 2 {
                    r matches Err(e) && e is Message && detail(e) == "Invalid GitHub repository URL"@
                } else {
                    r matches Ok(p) && p.0@ == segs[0] && p.1@ == segs[1]
                },
            },
    {
        match parse_url_segments(url) {
            None => Err(ProcessorError::new("Invalid URL format")),
            Some(None) => Err(ProcessorError::new("Invalid URL path")),
            Some(Some(segs)) => {
                if segs.len() < 2 {
                    Err(ProcessorError::new("Invalid GitHub repository URL"))
                } else {
                    Ok((segs[0].clone(), segs[1].clone()))
                }
            },
        }
    }

    /// The processor's name.
    pub fn name(&self) -> (r: &'static str)
        ensures
            r@ == "GitHub"@,
    {
        "GitHub"
    }

    /// Whether `url` mentions `github.com`.
    pub fn accepts(&self, url: &str) -> (b: bool)
        ensures
            b == has_sub(url@, "github.com"@),
    {
        contains(&chars_of(url), &chars_of("github.com"))
    }

    /// Rejects a URL that does not mention `github.com`.
    pub fn validate(&self, url: &str) -> (r: Result<()>)
        ensures
            has_sub(url@, "github.com"@) ==> r is Ok,
            !has_sub(url@, "github.com"@) ==> (r matches Err(e) && e is Message && detail(e)
                == "Not a GitHub URL"@),
    {
        if contains(&chars_of(url), &chars_of("github.com")) {
            Ok(())
        } else {
            Err(ProcessorError::Message(String::from_str("Not a GitHub URL")))
        }
    }
}


/// Whether a line looks like code: it holds a code fence, or its trimmed
/// text starts a definition.
pub open spec fn code_marker_line(l: Seq<char>) -> bool {
    let t = trim(l);
    ||| has_sub(l, "```"@)
    ||| has_prefix(t, "def "@)
    ||| has_prefix(t, "func "@)
    ||| has_prefix(t, "function "@)
    ||| has_prefix(t, "class "@)
    ||| has_prefix(t, "struct "@)
    ||| has_prefix(t, "impl "@)
    ||| has_prefix(t, "trait "@)
}

/// The lines of `ls` that look like code, each followed by a newline.
pub open spec fn code_lines_text(ls: Seq<Seq<char>>) -> Seq<char>
    decreases ls.len(),
{
    if ls.len() == 0 {
        Seq::empty()
    } else if code_marker_line(ls.last()) {
        code_lines_text(ls.drop_last()) + ls.last() + "\n"@
    } else {
        code_lines_text(ls.drop_last())
    }
}

fn is_code_marker_line(l: &[char]) -> (b: bool)
    ensures
        b == code_marker_line(l@),
{
    let t = trim_chars(l);
    contains(l, &chars_of("```")) || starts_with(&t, &chars_of("def ")) || starts_with(
        &t,
        &chars_of("func "),
    ) || starts_with(&t, &chars_of("function ")) || starts_with(&t, &chars_of("class "))
        || starts_with(&t, &chars_of("struct ")) || starts_with(&t, &chars_of("impl "))
        || starts_with(&t, &chars_of("trait "))
}

/// The lines of `content` that look like code, each followed by a newline.
pub fn extract_code_sections(content: &str) -> (r: String)
    ensures
        r@ == code_lines_text(lines_of(content@)),
{
    let ls = lines(&chars_of(content));
    let ghost all = lines_of(content@);
    let mut out = String::new();
    let mut i: usize = 0;
    while i < ls.len()
        invariant
            i <= ls@.len(),
            ls@.len() == all.len(),
            forall|k: int| 0 <= k < ls@.len() ==> #[trigger] ls@[k]@ == all[k],
            out@ == code_lines_text(all.take(i as int)),
        decreases ls@.len() - i,
    {
        assert(all.take(i + 1).drop_last() =~= all.take(i as int));
        assert(all.take(i + 1).last() == all[i as int]);
        if is_code_marker_line(&ls[i]) {
            push_chars(&mut out, &ls[i]);
            out.append("\n");
        }
        i = i + 1;
    }
    assert(all.take(ls@.len() as int) =~= all);
    out
}

/// Whether a line starts the README part of a text.
pub open spec fn readme_start(l: Seq<char>) -> bool {
    has_sub(l, "README"@) || has_sub(l, "# "@)
}

/// Whether a line of the README part is kept: a heading or a line naming a
/// usual section.
pub open spec fn readme_kept(l: Seq<char>) -> bool {
    ||| has_prefix(l, "#"@)
    ||| has_sub(l, "Usage"@)
    ||| has_sub(l, "Installation"@)
    ||| has_sub(l, "Features"@)
    ||| has_sub(l, "Overview"@)
}

/// Scanning lines: the kept text so far and whether the README part has begun.
pub open spec fn readme_scan(ls: Seq<Seq<char>>) -> (Seq<char>, bool)
    decreases ls.len(),
{
    if ls.len() == 0 {
        (Seq::empty(), false)
    } else {
        let (text, started) = readme_scan(ls.drop_last());
        let l = ls.last();
        let now = started || readme_start(l);
        if now && readme_kept(l) {
            (text + l + "\n"@, now)
        } else {
            (text, now)
        }
    }
}

/// From the first line that mentions `README` or holds `# ` on, the lines
/// that are headings or name a usual section, each followed by a newline.
pub fn extract_readme_sections(content: &str) -> (r: String)
    ensures
        r@ == readme_scan(lines_of(content@)).0,
{
    let ls = lines(&chars_of(content));
    let ghost all = lines_of(content@);
    let mut out = String::new();
    let mut in_readme = false;
    let mut i: usize = 0;
    while i < ls.len()
        invariant
            i <= ls@.len(),
            ls@.len() == all.len(),
            forall|k: int| 0 <= k < ls@.len() ==> #[trigger] ls@[k]@ == all[k],
            (out@, in_readme) == readme_scan(all.take(i as int)),
        decreases ls@.len() - i,
    {
        assert(all.take(i + 1).drop_last() =~= all.take(i as int));
        assert(all.take(i + 1).last() == all[i as int]);
        let l = &ls[i];
        if contains(l, &chars_of("README")) || contains(l, &chars_of("# ")) {
            in_readme = true;
        }
        if in_readme && (starts_with(l, &chars_of("#")) || contains(l, &chars_of("Usage"))
            || contains(l, &chars_of("Installation")) || contains(l, &chars_of("Features"))
            || contains(l, &chars_of("Overview"))) {
            push_chars(&mut out, l);
            out.append("\n");
        }
        i = i + 1;
    }
    assert(all.take(ls@.len() as int) =~= all);
    out
}

/// The dependency ecosystems that `content` mentions, one line each.
pub open spec fn dependency_lines(content: Seq<char>) -> Seq<char> {
    (if has_sub(content, "package.json"@) || has_sub(content, "\"dependencies\":"@) {
        "Node.js dependencies found\n"@
    } else {
        Seq::empty()
    }) + (if has_sub(content, "Cargo.toml"@) || has_sub(content, "[dependencies]"@) {
        "Rust dependencies found\n"@
    } else {
        Seq::empty()
    }) + (if has_sub(content, "requirements.txt"@) || has_sub(content, "setup.py"@) {
        "Python dependencies found\n"@
    } else {
        Seq::empty()
    }) + (if has_sub(content, "build.gradle"@) || has_sub(content, "pom.xml"@) {
        "Java dependencies found\n"@
    } else {
        Seq::empty()
    })
}

/// Each ecosystem whose manifest `content` mentions is reported by its line:
/// Node.js for `package.json` or `"dependencies":`, Rust for `Cargo.toml`
/// or `[dependencies]`, Python for `requirements.txt` or `setup.py`, Java
/// for `build.gradle` or `pom.xml`; a content mentioning none of them gives
/// no dependency information, and nothing but these lines is reported (the
/// length is that of the lines due).
pub proof fn law_manifests_are_reported(content: Seq<char>)
    ensures
        dependency_lines(content).len() == (if has_sub(content, "package.json"@) || has_sub(
            content,
            "\"dependencies\":"@,
        ) {
            27int
        } else {
            0
        }) + (if has_sub(content, "Cargo.toml"@) || has_sub(content, "[dependencies]"@) {
            24int
        } else {
            0
        }) + (if has_sub(content, "requirements.txt"@) || has_sub(content, "setup.py"@) {
            26int
        } else {
            0
        }) + (if has_sub(content, "build.gradle"@) || has_sub(content, "pom.xml"@) {
            24int
        } else {
            0
        }),
        has_sub(content, "package.json"@) || has_sub(content, "\"dependencies\":"@) ==> has_sub(
            dependency_lines(content),
            "Node.js dependencies found\n"@,
        ),
        has_sub(content, "Cargo.toml"@) || has_sub(content, "[dependencies]"@) ==> has_sub(
            dependency_lines(content),
            "Rust dependencies found\n"@,
        ),
        has_sub(content, "requirements.txt"@) || has_sub(content, "setup.py"@) ==> has_sub(
            dependency_lines(content),
            "Python dependencies found\n"@,
        ),
        has_sub(content, "build.gradle"@) || has_sub(content, "pom.xml"@) ==> has_sub(
            dependency_lines(content),
            "Java dependencies found\n"@,
        ),
        !has_sub(content, "package.json"@) && !has_sub(content, "\"dependencies\":"@) && !has_sub(
            content,
            "Cargo.toml"@,
        ) && !has_sub(content, "[dependencies]"@) && !has_sub(content, "requirements.txt"@) && !has_sub(
            content,
            "setup.py"@,
        ) && !has_sub(content, "build.gradle"@) && !has_sub(content, "pom.xml"@) ==> dependency_lines(
            content,
        ).len() == 0,
{
    reveal_strlit("Node.js dependencies found\n");
    reveal_strlit("Rust dependencies found\n");
    reveal_strlit("Python dependencies found\n");
    reveal_strlit("Java dependencies found\n");
    let e = Seq::<char>::empty();
    let node = if has_sub(content, "package.json"@) || has_sub(content, "\"dependencies\":"@) {
        "Node.js dependencies found\n"@
    } else {
        e
    };
    let rust = if has_sub(content, "Cargo.toml"@) || has_sub(content, "[dependencies]"@) {
        "Rust dependencies found\n"@
    } else {
        e
    };
    let py = if has_sub(content, "requirements.txt"@) || has_sub(content, "setup.py"@) {
        "Python dependencies found\n"@
    } else {
        e
    };
    let java = if has_sub(content, "build.gradle"@) || has_sub(content, "pom.xml"@) {
        "Java dependencies found\n"@
    } else {
        e
    };
    let d = dependency_lines(content);
    assert(d == node + rust + py + java);
    crate::text::lemma_sub_between(e, node, rust + py + java);
    assert(e + node + (rust + py + java) =~= d);
    crate::text::lemma_sub_between(node, rust, py + java);
    assert(node + rust + (py + java) =~= d);
    crate::text::lemma_sub_between(node + rust, py, java);
    crate::text::lemma_sub_between(node + rust + py, java, e);
    assert(node + rust + py + java + e =~= d);
}

/// Names the dependency ecosystems whose manifest files `content` mentions.
pub fn extract_dependency_info(content: &str) -> (r: String)
    ensures
        r@ == dependency_lines(content@),
{
    let c = chars_of(content);
    let mut out = String::new();
    if contains(&c, &chars_of("package.json")) || contains(&c, &chars_of("\"dependencies\":")) {
        out.append("Node.js dependencies found\n");
    }
    if contains(&c, &chars_of("Cargo.toml")) || contains(&c, &chars_of("[dependencies]")) {
        out.append("Rust dependencies found\n");
    }
    if contains(&c, &chars_of("requirements.txt")) || contains(&c, &chars_of("setup.py")) {
        out.append("Python dependencies found\n");
    }
    if contains(&c, &chars_of("build.gradle")) || contains(&c, &chars_of("pom.xml")) {
        out.append("Java dependencies found\n");
    }
    proof {
        reveal_strlit("");
    }
    assert(out@ =~= dependency_lines(content@));
    out
}

/// The repository analysis of `content` dated `date`.
pub open spec fn repository_content_report(content: Seq<char>, date: Seq<char>) -> Seq<char> {
    let code = code_lines_text(lines_of(content));
    let readme = readme_scan(lines_of(content)).0;
    let deps = dependency_lines(content);
    "# Repository Analysis\n"@ + "Analysis Date: "@ + date + "\n\n"@ + "## Repository Content\n\n"@
        + (if code.len() > 0 {
        "## Code Sections\n\n"@ + code
    } else {
        Seq::empty()
    }) + (if readme.len() > 0 {
        "\n## README Content\n\n"@ + readme
    } else {
        Seq::empty()
    }) + (if deps.len() > 0 {
        "\n## Dependencies\n\n"@ + deps
    } else {
        Seq::empty()
    })
}

/// The repository analysis of `content`, dated `date`: code lines, README
/// lines and dependency ecosystems, each part only when it is not empty.
pub fn repository_content_at(content: &str, date: &str) -> (r: String)
    ensures
        r@ == repository_content_report(content@, date@),
{
    let mut out = String::from_str("# Repository Analysis\n");
    out.append("Analysis Date: ");
    out.append(date);
    out.append("\n\n");
    out.append("## Repository Content\n\n");
    let ghost p1 = out@;
    let code = extract_code_sections(content);
    if !code.as_str().is_empty() {
        out.append("## Code Sections\n\n");
        out.append(code.as_str());
    }
    let ghost p2 = out@;
    let readme = extract_readme_sections(content);
    if !readme.as_str().is_empty() {
        out.append("\n## README Content\n\n");
        out.append(readme.as_str());
    }
    let ghost p3 = out@;
    let deps = extract_dependency_info(content);
    if !deps.as_str().is_empty() {
        out.append("\n## Dependencies\n\n");
        out.append(deps.as_str());
    }
    proof {
        reveal_strlit("");
    }
    assert(out@ =~= repository_content_report(content@, date@));
    out
}

/// Processes repository content into an analysis dated with the current
/// time. It never fails.
pub fn process_repository_content(content: &str) -> (r: Result<String>)
    ensures
        r matches Ok(s) && exists|date: Seq<char>| s@ == #[trigger] repository_content_report(content@, date),
{
    let date = utc_now_formatted("%Y-%m-%d %H:%M:%S");
    let s = repository_content_at(content, date.as_str());
    Ok(s)
}


/// The weight of the patterns of `pats` that occur in `p`: the pattern at
/// position `k` of a list of `n` weighs `5 * (n - k)`.
pub open spec fn pattern_weight(p: Seq<char>, pats: Seq<Seq<char>>) -> int
    decreases pats.len(),
{
    if pats.len() == 0 {
        0
    } else {
        (if has_sub(p, pats[0]) {
            5 * pats.len()
        } else {
            0
        }) + pattern_weight(p, pats.drop_first())
    }
}

/// The importance score of a path: its pattern weight less its depth.
pub open spec fn file_score(p: Seq<char>) -> int {
    pattern_weight(p, priority_patterns()) - count_matches(p, "/"@)
}

/// Each file's score paired with its index.
pub open spec fn score_index(files: Seq<String>) -> Seq<(i64, usize)> {
    Seq::new(files.len(), |i: int| (file_score(files[i]@) as i64, i as usize))
}

/// The files, highest score first; equal scores keep their order.
pub open spec fn ranked(files: Seq<String>) -> Seq<Seq<char>> {
    sorted_desc(score_index(files)).map_values(|e: (i64, usize)| files[e.1 as int]@)
}

/// Whether `s` holds a path equal to `p`.
pub open spec fn has_path(s: Seq<Seq<char>>, p: Seq<char>) -> bool {
    exists|k: int| 0 <= k < s.len() && #[trigger] path_equal(s[k], p)
}

/// The parents of the paths of `fs` that have one, in order.
pub open spec fn parents_of(fs: Seq<Seq<char>>) -> Seq<Seq<char>>
    decreases fs.len(),
{
    if fs.len() == 0 {
        Seq::empty()
    } else {
        match path_parent(fs.last()) {
            Some(d) => parents_of(fs.drop_last()).push(d),
            None => parents_of(fs.drop_last()),
        }
    }
}

/// Adding the files of `fs` while fewer than `max` are chosen, each only when
/// its directory is not yet represented (a file without a parent is always
/// added): the chosen files and the represented directories.
pub open spec fn spread(
    sel: Seq<Seq<char>>,
    dirs: Seq<Seq<char>>,
    fs: Seq<Seq<char>>,
    max: int,
) -> (Seq<Seq<char>>, Seq<Seq<char>>)
    decreases fs.len(),
{
    if fs.len() == 0 {
        (sel, dirs)
    } else {
        let (s, d) = spread(sel, dirs, fs.drop_last(), max);
        let f = fs.last();
        if s.len() >= max {
            (s, d)
        } else {
            match path_parent(f) {
                Some(p) => if has_path(d, p) {
                    (s, d)
                } else {
                    (s.push(f), d.push(p))
                },
                None => (s.push(f), d),
            }
        }
    }
}

/// Adding the files of `fs` not yet chosen while fewer than `max` are chosen.
pub open spec fn fill(sel: Seq<Seq<char>>, fs: Seq<Seq<char>>, max: int) -> Seq<Seq<char>>
    decreases fs.len(),
{
    if fs.len() == 0 {
        sel
    } else {
        let s = fill(sel, fs.drop_last(), max);
        if s.len() >= max || has_path(s, fs.last()) {
            s
        } else {
            s.push(fs.last())
        }
    }
}

/// The files chosen as important: all of them when there are at most `max`;
/// else the best half of `max` by score, then files from directories not yet
/// represented, then the best of the rest, up to `max`.
pub open spec fn important_files(files: Seq<String>, max: int) -> Seq<Seq<char>> {
    if files.len() <= max {
        files.map_values(|s: String| s@)
    } else {
        let r = ranked(files);
        let half = max / 2;
        let st = spread(r.take(half), parents_of(r.take(half)), r.skip(half), max);
        if st.0.len() < max {
            fill(st.0, r, max)
        } else {
            st.0
        }
    }
}

fn contains_path(v: &Vec<String>, p: &str) -> (b: bool)
    ensures
        b == has_path(v@.map_values(|s: String| s@), p@),
{
    let ghost vs = v@.map_values(|s: String| s@);
    let mut k: usize = 0;
    while k < v.len()
        invariant
            k <= v@.len(),
            vs == v@.map_values(|s: String| s@),
            forall|j: int| 0 <= j < k ==> !#[trigger] path_equal(vs[j], p@),
        decreases v@.len() - k,
    {
        if same_path(v[k].as_str(), p) {
            assert(path_equal(vs[k as int], p@));
            return true;
        }
        k = k + 1;
    }
    false
}

fn score_of(p: &str, pats: &Vec<Vec<char>>) -> (s: i64)
    requires
        p@.len() <= 0x7fff_ffff,
        pats@.len() == priority_patterns().len(),
        forall|k: int| 0 <= k < pats@.len() ==> #[trigger] pats@[k]@ == priority_patterns()[k],
    ensures
        s == file_score(p@),
{
    let c = chars_of(p);
    let ghost all = priority_patterns();
    let n = pats.len();
    let mut w: i64 = 0;
    let mut k: usize = 0;
    assert(all.skip(0) =~= all);
    while k < n
        invariant
            k <= n == pats@.len() == all.len(),
            n == 43,
            forall|j: int| 0 <= j < pats@.len() ==> #[trigger] pats@[j]@ == all[j],
            0 <= w <= 215 * k,
            pattern_weight(c@, all) == w + pattern_weight(c@, all.skip(k as int)),
        decreases n - k,
    {
        assert(all.skip(k as int)[0] == all[k as int]);
        assert(all.skip(k as int).drop_first() =~= all.skip(k + 1));
        assert(n - k <= 43);
        if contains(&c, &pats[k]) {
            w = w + 5 * ((n - k) as i64);
        }
        k = k + 1;
    }
    assert(all.skip(n as int).len() == 0);
    proof {
        reveal_strlit("/");
    }
    let slashes = count_occurrences(&c, &chars_of("/"));
    proof {
        lemma_count_matches_bound(c@, "/"@);
    }
    w - (slashes as i64)
}


/// Chooses up to `max_files` important files: all of them when there are no
/// more; else the best half by score (pattern weight less depth), then files
/// from directories not yet represented, then the best of the rest.
/// Scores are `i32` arithmetic, so each path is shorter than `i32::MAX`.
pub fn select_important_files(files: &Vec<String>, max_files: usize) -> (r: Vec<String>)
    requires
        forall|i: int| 0 <= i < files@.len() ==> (#[trigger] files@[i])@.len() <= 0x7fff_ffff,
    ensures
        r@.map_values(|s: String| s@) == important_files(files@, max_files as int),
{
    let ghost fv = files@.map_values(|s: String| s@);
    if files.len() <= max_files {
        let mut all: Vec<String> = Vec::new();
        let mut i: usize = 0;
        while i < files.len()
            invariant
                i <= files@.len(),
                fv == files@.map_values(|s: String| s@),
                all@.map_values(|s: String| s@) == fv.take(i as int),
            decreases files@.len() - i,
        {
            let ghost before = all@;
            all.push(files[i].clone());
            assert(all@.map_values(|s: String| s@) =~= before.map_values(|s: String| s@).push(fv[i as int]));
            assert(fv.take(i + 1) =~= fv.take(i as int).push(fv[i as int]));
            i = i + 1;
        }
        assert(fv.take(files@.len() as int) =~= fv);
        return all;
    }
    let pats = priority_pattern_list();
    let mut scored: Vec<(i64, usize)> = Vec::new();
    let mut i: usize = 0;
    while i < files.len()
        invariant
            i <= files@.len(),
            pats@.len() == priority_patterns().len(),
            forall|k: int| 0 <= k < pats@.len() ==> #[trigger] pats@[k]@ == priority_patterns()[k],
            forall|j: int| 0 <= j < files@.len() ==> (#[trigger] files@[j])@.len() <= 0x7fff_ffff,
            scored@ == score_index(files@).take(i as int),
        decreases files@.len() - i,
    {
        let s = score_of(files[i].as_str(), &pats);
        scored.push((s, i));
        assert(scored@ =~= score_index(files@).take(i + 1));
        i = i + 1;
    }
    assert(scored@ =~= score_index(files@));
    let sorted = sort_desc(scored);
    let ghost rk = ranked(files@);
    proof {
        lemma_sorted_desc_indices(score_index(files@));
    }
    assert forall|k: int| 0 <= k < rk.len() implies #[trigger] rk[k] == files@[sorted@[k].1 as int]@ by {}
    let n = files.len();
    let half = max_files / 2;
    let mut sel: Vec<String> = Vec::new();
    let mut dirs: Vec<String> = Vec::new();
    let mut k: usize = 0;
    while k < half
        invariant
            k <= half < n == files@.len() == sorted@.len() == rk.len(),
            forall|j: int| 0 <= j < n ==> #[trigger] sorted@[j].1 < n,
            forall|j: int| 0 <= j < rk.len() ==> #[trigger] rk[j] == files@[sorted@[j].1 as int]@,
            sel@.map_values(|s: String| s@) == rk.take(k as int),
            dirs@.map_values(|s: String| s@) == parents_of(rk.take(k as int)),
        decreases half - k,
    {
        let f = &files[sorted[k].1];
        assert(rk.take(k + 1).drop_last() =~= rk.take(k as int));
        let ghost sb = sel@;
        let ghost db = dirs@;
        sel.push(f.clone());
        assert(sel@.map_values(|s: String| s@) =~= sb.map_values(|s: String| s@).push(rk[k as int]));
        match parent_of(f.as_str()) {
            Some(d) => {
                dirs.push(d);
                assert(dirs@.map_values(|s: String| s@) =~= db.map_values(|s: String| s@).push(
                    path_parent(rk[k as int])->0,
                ));
            },
            None => {},
        }
        k = k + 1;
    }
    let ghost s0 = rk.take(half as int);
    let ghost d0 = parents_of(rk.take(half as int));
    let ghost rest = rk.skip(half as int);
    let mut k: usize = half;
    assert(rest.take(0) =~= Seq::<Seq<char>>::empty());
    while k < n
        invariant
            half <= k <= n == files@.len() == sorted@.len() == rk.len(),
            forall|j: int| 0 <= j < n ==> #[trigger] sorted@[j].1 < n,
            forall|j: int| 0 <= j < rk.len() ==> #[trigger] rk[j] == files@[sorted@[j].1 as int]@,
            rest == rk.skip(half as int),
            (sel@.map_values(|s: String| s@), dirs@.map_values(|s: String| s@)) == spread(
                s0,
                d0,
                rest.take(k - half),
                max_files as int,
            ),
        decreases n - k,
    {
        assert(rest.take(k + 1 - half).drop_last() =~= rest.take(k - half));
        assert(rest.take(k + 1 - half).last() == rk[k as int]);
        let f = &files[sorted[k].1];
        if sel.len() < max_files {
            let ghost sb = sel@;
            let ghost db = dirs@;
            match parent_of(f.as_str()) {
                Some(d) => {
                    if !contains_path(&dirs, d.as_str()) {
                        sel.push(f.clone());
                        dirs.push(d);
                        assert(sel@.map_values(|s: String| s@) =~= sb.map_values(|s: String| s@).push(rk[k as int]));
                        assert(dirs@.map_values(|s: String| s@) =~= db.map_values(|s: String| s@).push(
                            path_parent(rk[k as int])->0,
                        ));
                    }
                },
                None => {
                    sel.push(f.clone());
                    assert(sel@.map_values(|s: String| s@) =~= sb.map_values(|s: String| s@).push(rk[k as int]));
                },
            }
        }
        k = k + 1;
    }
    assert(rest.take(n - half) =~= rest);
    if sel.len() < max_files {
        let ghost s1 = sel@.map_values(|s: String| s@);
        let mut k: usize = 0;
        assert(rk.take(0) =~= Seq::<Seq<char>>::empty());
        while k < n
            invariant
                k <= n == files@.len() == sorted@.len() == rk.len(),
                forall|j: int| 0 <= j < n ==> #[trigger] sorted@[j].1 < n,
                forall|j: int| 0 <= j < rk.len() ==> #[trigger] rk[j] == files@[sorted@[j].1 as int]@,
                sel@.map_values(|s: String| s@) == fill(s1, rk.take(k as int), max_files as int),
            decreases n - k,
        {
            assert(rk.take(k + 1).drop_last() =~= rk.take(k as int));
            assert(rk.take(k + 1).last() == rk[k as int]);
            let f = &files[sorted[k].1];
            if sel.len() < max_files && !contains_path(&sel, f.as_str()) {
                let ghost sb = sel@;
                sel.push(f.clone());
                assert(sel@.map_values(|s: String| s@) =~= sb.map_values(|s: String| s@).push(rk[k as int]));
            }
            k = k + 1;
        }
        assert(rk.take(n as int) =~= rk);
    }
    sel
}


/// Information about a GitHub repository: owner, name, description, main
/// language and engagement.
pub struct RepositoryInfo {
    owner: String,
    repo: String,
    description: Option<String>,
    language: Option<String>,
    stars: u64,
    forks: u64,
}

/// Information about a GitHub organization and its repositories.
pub struct OrganizationInfo {
    name: String,
    description: Option<String>,
    repo_count: usize,
    total_stars: u64,
}

/// The arguments a language model passes to process a GitHub URL.
pub struct ProcessGitHubArgs {
    /// The repository or organization URL
    pub url: String,
    /// Where the output is saved
    pub output_path: String,
}


/// A repository file name is made only of alphanumerics, `-` and `_`, has
/// as many characters as the name, and sanitizing it again changes nothing.
pub proof fn law_repo_names_are_safe(name: Seq<char>)
    ensures
        forall|i: int|
            0 <= i < name.len() ==> {
                let c = #[trigger] repo_safe_name(name)[i];
                alphanumeric(c) || c == '-' || c == '_'
            },
        repo_safe_name(repo_safe_name(name)) == repo_safe_name(name),
        repo_safe_name(name).len() == name.len(),
{
    assert(repo_safe_name(repo_safe_name(name)) =~= repo_safe_name(name));
}


/// Whether every text of `r` is one of the texts of `pool`.
pub open spec fn drawn_from(r: Seq<Seq<char>>, pool: Seq<Seq<char>>) -> bool {
    forall|i: int| 0 <= i < r.len() ==> pool.contains(#[trigger] r[i])
}

proof fn lemma_spread_drawn(sel: Seq<Seq<char>>, dirs: Seq<Seq<char>>, fs: Seq<Seq<char>>, max: int, pool: Seq<Seq<char>>)
    requires
        sel.len() <= max,
        drawn_from(sel, pool),
        drawn_from(fs, pool),
    ensures
        spread(sel, dirs, fs, max).0.len() <= max,
        drawn_from(spread(sel, dirs, fs, max).0, pool),
    decreases fs.len(),
{
    if fs.len() > 0 {
        let p = fs.drop_last();
        assert forall|i: int| 0 <= i < p.len() implies pool.contains(#[trigger] p[i]) by {
            assert(p[i] == fs[i]);
        }
        lemma_spread_drawn(sel, dirs, p, max, pool);
        let s0 = spread(sel, dirs, p, max).0;
        let f = fs.last();
        assert(pool.contains(fs[fs.len() - 1]));
        assert forall|i: int| 0 <= i < s0.push(f).len() implies pool.contains(#[trigger] s0.push(f)[i]) by {
            if i < s0.len() {
                assert(s0.push(f)[i] == s0[i]);
            }
        }
    }
}

proof fn lemma_fill_drawn(sel: Seq<Seq<char>>, fs: Seq<Seq<char>>, max: int, pool: Seq<Seq<char>>)
    requires
        sel.len() <= max,
        drawn_from(sel, pool),
        drawn_from(fs, pool),
    ensures
        fill(sel, fs, max).len() <= max,
        drawn_from(fill(sel, fs, max), pool),
    decreases fs.len(),
{
    if fs.len() > 0 {
        let p = fs.drop_last();
        assert forall|i: int| 0 <= i < p.len() implies pool.contains(#[trigger] p[i]) by {
            assert(p[i] == fs[i]);
        }
        lemma_fill_drawn(sel, p, max, pool);
        let s0 = fill(sel, p, max);
        let f = fs.last();
        assert(pool.contains(fs[fs.len() - 1]));
        assert forall|i: int| 0 <= i < s0.push(f).len() implies pool.contains(#[trigger] s0.push(f)[i]) by {
            if i < s0.len() {
                assert(s0.push(f)[i] == s0[i]);
            }
        }
    }
}

/// The important files are at most `max` of the given files, each one of
/// them; when there are no more than `max`, they are all kept in order.
pub proof fn law_important_files_are_chosen_inputs(files: Seq<String>, max: int)
    requires
        max >= 0,
    ensures
        important_files(files, max).len() <= max,
        drawn_from(important_files(files, max), files.map_values(|s: String| s@)),
        files.len() <= max ==> important_files(files, max) == files.map_values(|s: String| s@),
{
    let pool = files.map_values(|s: String| s@);
    if files.len() <= max {
        assert forall|i: int| 0 <= i < pool.len() implies pool.contains(#[trigger] pool[i]) by {}
    } else {
        lemma_sorted_desc_indices(score_index(files));
        let r = ranked(files);
        assert forall|i: int| 0 <= i < r.len() implies pool.contains(#[trigger] r[i]) by {
            let j = sorted_desc(score_index(files))[i].1 as int;
            assert(r[i] == files[j]@);
            assert(pool[j] == files[j]@);
        }
        let half = max / 2;
        let t = r.take(half);
        assert forall|i: int| 0 <= i < t.len() implies pool.contains(#[trigger] t[i]) by {
            assert(t[i] == r[i]);
        }
        let k = r.skip(half);
        assert forall|i: int| 0 <= i < k.len() implies pool.contains(#[trigger] k[i]) by {
            assert(k[i] == r[i + half]);
        }
        lemma_spread_drawn(t, parents_of(t), k, max, pool);
        let st = spread(t, parents_of(t), k, max);
        if st.0.len() < max {
            lemma_fill_drawn(st.0, r, max, pool);
        }
    }
}


/// No two of the paths of `pool` are equal paths, each being equal to itself
/// (path equality is reflexive, `Path` being `Eq`).
pub open spec fn paths_distinct(pool: Seq<Seq<char>>) -> bool {
    forall|i: int, j: int|
        0 <= i < pool.len() && 0 <= j < pool.len() ==> (#[trigger] path_equal(pool[i], pool[j]) <==> i == j)
}

proof fn lemma_distinct_pool(pool: Seq<Seq<char>>)
    requires
        paths_distinct(pool),
    ensures
        pool.no_duplicates(),
        forall|x: Seq<char>| pool.contains(x) ==> #[trigger] path_equal(x, x),
        forall|x: Seq<char>, y: Seq<char>|
            pool.contains(x) && pool.contains(y) && #[trigger] path_equal(x, y) ==> x == y,
{
    assert forall|i: int, j: int| 0 <= i < pool.len() && 0 <= j < pool.len() && i != j implies pool[i] != pool[j] by {
        if pool[i] == pool[j] {
            assert(path_equal(pool[i], pool[i]));
            assert(path_equal(pool[i], pool[j]));
        }
    }
    assert forall|x: Seq<char>| pool.contains(x) implies #[trigger] path_equal(x, x) by {
        let i = choose|i: int| 0 <= i < pool.len() && pool[i] == x;
        assert(path_equal(pool[i], pool[i]));
    }
    assert forall|x: Seq<char>, y: Seq<char>|
        pool.contains(x) && pool.contains(y) && #[trigger] path_equal(x, y) implies x == y by {
        let i = choose|i: int| 0 <= i < pool.len() && pool[i] == x;
        let j = choose|j: int| 0 <= j < pool.len() && pool[j] == y;
        assert(path_equal(pool[i], pool[j]));
    }
}

proof fn lemma_spread_distinct(sel: Seq<Seq<char>>, dirs: Seq<Seq<char>>, fs: Seq<Seq<char>>, max: int)
    requires
        sel.no_duplicates(),
        fs.no_duplicates(),
        forall|x: Seq<char>| sel.contains(x) ==> !fs.contains(x),
    ensures
        spread(sel, dirs, fs, max).0.no_duplicates(),
        forall|x: Seq<char>| #[trigger] spread(sel, dirs, fs, max).0.contains(x) ==> sel.contains(x) || fs.contains(x),
    decreases fs.len(),
{
    if fs.len() > 0 {
        let p = fs.drop_last();
        let f = fs.last();
        assert forall|x: Seq<char>| p.contains(x) implies fs.contains(x) by {
            let i = choose|i: int| 0 <= i < p.len() && p[i] == x;
            assert(fs[i] == x);
        }
        assert(!p.contains(f)) by {
            if p.contains(f) {
                let i = choose|i: int| 0 <= i < p.len() && p[i] == f;
                assert(fs[i] == fs[fs.len() - 1]);
            }
        }
        lemma_spread_distinct(sel, dirs, p, max);
        let s0 = spread(sel, dirs, p, max).0;
        assert(!s0.contains(f)) by {
            assert(fs.contains(f) && fs[fs.len() - 1] == f);
        }
        assert forall|x: Seq<char>| #[trigger] s0.push(f).contains(x) implies sel.contains(x) || fs.contains(x) by {
            let i = choose|i: int| 0 <= i < s0.push(f).len() && s0.push(f)[i] == x;
            if i < s0.len() {
                assert(s0[i] == x);
                assert(s0.contains(x));
            } else {
                assert(fs[fs.len() - 1] == x);
            }
        }
        assert forall|i: int, j: int| 0 <= i < j < s0.push(f).len() implies s0.push(f)[i] != s0.push(f)[j] by {
            if j == s0.len() {
                assert(s0.contains(s0[i]));
            }
        }
    }
}

proof fn lemma_fill_distinct(sel: Seq<Seq<char>>, fs: Seq<Seq<char>>, max: int, pool: Seq<Seq<char>>)
    requires
        paths_distinct(pool),
        sel.len() <= max,
        sel.no_duplicates(),
        drawn_from(sel, pool),
        drawn_from(fs, pool),
    ensures
        fill(sel, fs, max).no_duplicates(),
        fill(sel, fs, max).len() < max ==> forall|i: int| 0 <= i < fs.len() ==> fill(sel, fs, max).contains(#[trigger] fs[i]),
    decreases fs.len(),
{
    lemma_distinct_pool(pool);
    if fs.len() > 0 {
        let p = fs.drop_last();
        assert forall|i: int| 0 <= i < p.len() implies pool.contains(#[trigger] p[i]) by {
            assert(p[i] == fs[i]);
        }
        lemma_fill_distinct(sel, p, max, pool);
        lemma_fill_drawn(sel, p, max, pool);
        let s0 = fill(sel, p, max);
        let f = fs.last();
        assert(pool.contains(fs[fs.len() - 1]));
        if s0.len() < max {
            if has_path(s0, f) {
                let k = choose|k: int| 0 <= k < s0.len() && #[trigger] path_equal(s0[k], f);
                assert(pool.contains(s0[k]));
                assert(s0[k] == f);
                assert forall|i: int| 0 <= i < fs.len() implies s0.contains(#[trigger] fs[i]) by {
                    if i < p.len() {
                        assert(p[i] == fs[i]);
                    }
                }
            } else {
                let r = s0.push(f);
                assert(!s0.contains(f)) by {
                    if s0.contains(f) {
                        let k = choose|k: int| 0 <= k < s0.len() && s0[k] == f;
                        assert(path_equal(f, f));
                        assert(path_equal(s0[k], f));
                    }
                }
                assert forall|i: int, j: int| 0 <= i < j < r.len() implies r[i] != r[j] by {
                    if j == s0.len() {
                        assert(s0.contains(s0[i]));
                    }
                }
                assert forall|i: int| 0 <= i < fs.len() implies r.contains(#[trigger] fs[i]) by {
                    if i < p.len() {
                        assert(p[i] == fs[i]);
                        let k = choose|k: int| 0 <= k < s0.len() && s0[k] == fs[i];
                        assert(r[k] == fs[i]);
                    } else {
                        assert(r[s0.len() as int] == fs[i]);
                    }
                }
            }
        }
    }
}

proof fn lemma_ranked_distinct(files: Seq<String>)
    requires
        files.len() <= usize::MAX,
        files.map_values(|s: String| s@).no_duplicates(),
    ensures
        ranked(files).len() == files.len(),
        ranked(files).no_duplicates(),
        forall|i: int| 0 <= i < files.len() ==> ranked(files).contains(#[trigger] files[i]@),
{
    broadcast use vstd::seq_lib::group_to_multiset_ensures;

    let pool = files.map_values(|s: String| s@);
    let si = score_index(files);
    crate::order::lemma_sorted_desc(si);
    lemma_sorted_desc_indices(si);
    let t = sorted_desc(si);
    let r = ranked(files);
    assert(si.no_duplicates()) by {
        assert forall|i: int, j: int| 0 <= i < j < si.len() implies si[i] != si[j] by {
            assert(si[i].1 == i && si[j].1 == j);
        }
    }
    si.lemma_multiset_has_no_duplicates();
    assert forall|x: (i64, usize)| t.to_multiset().contains(x) implies t.to_multiset().count(x) == 1 by {}
    t.lemma_multiset_has_no_duplicates_conv();
    assert forall|a: int| 0 <= a < t.len() implies #[trigger] t[a] == si[t[a].1 as int] by {
        assert(t.contains(t[a]));
        assert(t.to_multiset().count(t[a]) > 0);
        assert(si.contains(t[a]));
        let m = choose|m: int| 0 <= m < si.len() && si[m] == t[a];
        assert(si[m].1 == m);
    }
    assert forall|a: int, b: int| 0 <= a < b < r.len() implies r[a] != r[b] by {
        assert(r[a] == files[t[a].1 as int]@);
        assert(r[b] == files[t[b].1 as int]@);
        assert(pool[t[a].1 as int] == files[t[a].1 as int]@);
        assert(pool[t[b].1 as int] == files[t[b].1 as int]@);
        if r[a] == r[b] {
            assert(t[a].1 == t[b].1);
            assert(t[a] == si[t[a].1 as int]);
            assert(t[b] == si[t[b].1 as int]);
        }
    }
    assert forall|i: int| 0 <= i < files.len() implies r.contains(#[trigger] files[i]@) by {
        assert(si[i] == (file_score(files[i]@) as i64, i as usize));
        assert(si.contains(si[i]));
        assert(si.to_multiset().count(si[i]) > 0);
        assert(t.contains(si[i]));
        let a = choose|a: int| 0 <= a < t.len() && t[a] == si[i];
        assert(r[a] == files[i]@);
    }
}

/// When no two of the files are the same path, the important files are
/// `max` of them (all of them when there are fewer), none chosen twice.
pub proof fn law_important_files_are_distinct(files: Seq<String>, max: int)
    requires
        max >= 0,
        files.len() <= usize::MAX,
        paths_distinct(files.map_values(|s: String| s@)),
    ensures
        important_files(files, max).len() == (if files.len() < max { files.len() as int } else { max }),
        important_files(files, max).no_duplicates(),
{
    let pool = files.map_values(|s: String| s@);
    lemma_distinct_pool(pool);
    if files.len() > max {
        lemma_ranked_distinct(files);
        lemma_sorted_desc_indices(score_index(files));
        let r = ranked(files);
        assert forall|i: int| 0 <= i < r.len() implies pool.contains(#[trigger] r[i]) by {
            let j = sorted_desc(score_index(files))[i].1 as int;
            assert(r[i] == files[j]@);
            assert(pool[j] == files[j]@);
        }
        let half = max / 2;
        let t = r.take(half);
        let k = r.skip(half);
        assert forall|i: int| 0 <= i < t.len() implies pool.contains(#[trigger] t[i]) by {
            assert(t[i] == r[i]);
        }
        assert forall|i: int| 0 <= i < k.len() implies pool.contains(#[trigger] k[i]) by {
            assert(k[i] == r[i + half]);
        }
        assert forall|x: Seq<char>| t.contains(x) implies !k.contains(x) by {
            let a = choose|a: int| 0 <= a < t.len() && t[a] == x;
            if k.contains(x) {
                let b = choose|b: int| 0 <= b < k.len() && k[b] == x;
                assert(r[a] == r[b + half]);
            }
        }
        lemma_spread_distinct(t, parents_of(t), k, max);
        lemma_spread_drawn(t, parents_of(t), k, max, pool);
        let st = spread(t, parents_of(t), k, max);
        if st.0.len() < max {
            assert forall|i: int| 0 <= i < r.len() implies pool.contains(#[trigger] r[i]) by {}
            lemma_fill_distinct(st.0, r, max, pool);
            lemma_fill_drawn(st.0, r, max, pool);
            let res = fill(st.0, r, max);
            if res.len() < max {
                assert(r.to_set().subset_of(res.to_set())) by {
                    assert forall|x: Seq<char>| r.to_set().contains(x) implies res.to_set().contains(x) by {
                        let a = choose|a: int| 0 <= a < r.len() && r[a] == x;
                        assert(res.contains(r[a]));
                    }
                }
                r.unique_seq_to_set();
                res.lemma_cardinality_of_set();
                vstd::seq_lib::seq_to_set_is_finite(res);
                vstd::set_lib::lemma_len_subset(r.to_set(), res.to_set());
                assert(false);
            }
        }
    }
}

/// The directories never searched for code files.
pub open spec fn skipped_code_dirs() -> Seq<Seq<char>> {
    seq!["node_modules"@, "target"@, "build"@, "dist"@, "venv"@, "__pycache__"@, ".git"@, ".github"@]
}

/// Whether the search for code files skips a directory named `name`: a
/// hidden one or one of `skipped_code_dirs`.
pub fn skips_code_dir(name: &str) -> (b: bool)
    ensures
        b == (has_prefix(name@, "."@) || skipped_code_dirs().contains(name@)),
{
    let n = chars_of(name);
    let mut list: Vec<Vec<char>> = Vec::new();
    list.push(chars_of("node_modules"));
    list.push(chars_of("target"));
    list.push(chars_of("build"));
    list.push(chars_of("dist"));
    list.push(chars_of("venv"));
    list.push(chars_of("__pycache__"));
    list.push(chars_of(".git"));
    list.push(chars_of(".github"));
    assert(list@.map_values(|v: Vec<char>| v@) =~= skipped_code_dirs());
    starts_with(&n, &chars_of(".")) || crate::processors::local::listed(&list, &n)
}

/// Whether a file with extension `ext` is a code file: `.ext` is one of
/// `code_extensions`.
pub fn is_code_extension(ext: &str) -> (b: bool)
    ensures
        b == code_extensions().contains(seq!['.'] + ext@),
{
    let e = chars_of(ext);
    let mut dotted: Vec<char> = Vec::new();
    dotted.push('.');
    let mut i: usize = 0;
    while i < e.len()
        invariant
            i <= e@.len(),
            dotted@ == seq!['.'] + e@.take(i as int),
        decreases e@.len() - i,
    {
        dotted.push(e[i]);
        assert(seq!['.'] + e@.take(i + 1) =~= (seq!['.'] + e@.take(i as int)).push(e@[i as int]));
        i = i + 1;
    }
    assert(e@.take(e@.len() as int) =~= e@);
    let exts = code_extension_list();
    assert(exts@.map_values(|v: Vec<char>| v@) =~= code_extensions());
    crate::processors::local::listed(&exts, &dotted)
}

} // verus!
