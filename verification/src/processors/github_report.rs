//! The texts written for GitHub repositories and organizations, built from
//! the API's JSON answers and from what was found in a downloaded repository.

use vstd::prelude::*;
use crate::json::{at, at_ref, field, opt_line, str_field, str_of, strings_in, u64_field, u64_of, u64_or_zero, Json};
use crate::text::{
    dec, push_dec, push_char, push_chars, chars_of, chars_eq, lowercase_of, to_lowercase, head,
    utf8_len, byte_len_exceeds, chars_within_bytes, prefix_within,
};
use crate::bindings::{path_extension, extension_of};
use crate::order::{
    sort_by_text, sorted_text, text_keyed, lemma_sorted_text_indices, sorted_desc, sort_desc,
    lemma_sorted_desc_indices,
};
use crate::processors::local::{tally, tally_view, lemma_tally_bound};
use crate::processors::npm::count_items;
use crate::processors::common::{organized, organize_content_at};
use crate::processors::github::code_extensions;

verus! {

/// A `- text` line for each text of `ws`.
pub open spec fn bullet_lines(ws: Seq<Seq<char>>) -> Seq<char>
    decreases ws.len(),
{
    if ws.len() == 0 {
        Seq::empty()
    } else {
        bullet_lines(ws.drop_last()) + "- "@ + ws.last() + "\n"@
    }
}

/// The text of a string value, or `dflt`.
pub open spec fn text_or(v: Json, dflt: Seq<char>) -> Seq<char> {
    match str_of(v) {
        Some(t) => t,
        None => dflt,
    }
}

/// A `label` line with the number of a value that `as_u64` reads.
pub open spec fn num_line(label: Seq<char>, v: Json) -> Seq<char> {
    match u64_of(v) {
        Some(n) => label + dec(n as nat) + "\n"@,
        None => Seq::empty(),
    }
}

fn push_bullets(out: &mut String, a: &Vec<Json>)
    ensures
        final(out)@ == old(out)@ + bullet_lines(strings_in(a@)),
{
    let ghost start = out@;
    let mut i: usize = 0;
    assert(a@.take(0) =~= Seq::<Json>::empty());
    while i < a.len()
        invariant
            i <= a@.len(),
            out@ == start + bullet_lines(strings_in(a@.take(i as int))),
        decreases a@.len() - i,
    {
        assert(a@.take(i + 1).drop_last() =~= a@.take(i as int));
        assert(a@.take(i + 1).last() == a@[i as int]);
        match a[i].as_str() {
            Some(t) => {
                proof {
                    let ws = strings_in(a@.take(i as int));
                    assert(strings_in(a@.take(i + 1)) == ws.push(t@));
                    assert(ws.push(t@).drop_last() =~= ws);
                }
                out.append("- ");
                out.append(t.as_str());
                out.append("\n");
            },
            None => {},
        }
        i = i + 1;
    }
    assert(a@.take(a@.len() as int) =~= a@);
}

fn push_text_or(out: &mut String, v: &Json, dflt: &str)
    ensures
        final(out)@ == old(out)@ + text_or(*v, dflt@),
{
    match v.as_str() {
        Some(t) => out.append(t.as_str()),
        None => out.append(dflt),
    }
}

fn push_opt(out: &mut String, label: &str, v: &Json)
    ensures
        final(out)@ == old(out)@ + opt_line(label@, *v),
{
    match v.as_str() {
        Some(t) => {
            out.append(label);
            out.append(t.as_str());
            out.append("\n");
        },
        None => {
            assert(old(out)@ + opt_line(label@, *v) =~= old(out)@);
        },
    }
}

fn push_num_line(out: &mut String, label: &str, v: &Json)
    ensures
        final(out)@ == old(out)@ + num_line(label@, *v),
{
    match v.as_u64() {
        Some(n) => {
            out.append(label);
            push_dec(out, n);
            out.append("\n");
        },
        None => {
            assert(old(out)@ + num_line(label@, *v) =~= old(out)@);
        },
    }
}

fn push_count(out: &mut String, v: &Json)
    ensures
        final(out)@ == old(out)@ + dec(u64_or_zero(*v) as nat),
{
    match v.as_u64() {
        Some(n) => push_dec(out, n),
        None => push_dec(out, 0),
    }
}

/// The repository summary written next to an analysis: header, the
/// details of the first answer, and the topics of the second.
pub open spec fn repo_content_text(owner: Seq<char>, repo: Seq<char>, info: Json, details: Json) -> Seq<char> {
    "# Repository: "@ + owner + "/"@ + repo + "\n\n"@ + (match str_of(at(info, "description"@)) {
        Some(d) => "Description: "@ + d + "\n\n"@,
        None => Seq::empty(),
    }) + num_line("Stars: "@, at(info, "stargazers_count"@)) + num_line(
        "Forks: "@,
        at(info, "forks_count"@),
    ) + opt_line("Primary Language: "@, at(info, "language"@)) + "\n---\n\n"@ + (match at(
        details,
        "topics"@,
    ) {
        Json::Array(a) => "\n## Topics\n"@ + bullet_lines(strings_in(a@)),
        _ => Seq::empty(),
    })
}

/// The summary of `owner/repo` from its API record `info` and the topics of
/// a second fetch `details`.
pub fn process_single_repo_content(owner: &str, repo: &str, info: &Json, details: &Json) -> (r: String)
    ensures
        r@ == repo_content_text(owner@, repo@, *info, *details),
{
    let mut out = String::from_str("# Repository: ");
    out.append(owner);
    out.append("/");
    out.append(repo);
    out.append("\n\n");
    let ghost p0 = out@;
    match str_field(info, "description") {
        Some(d) => {
            out.append("Description: ");
            out.append(d.as_str());
            out.append("\n\n");
        },
        None => {},
    }
    let ghost p1 = out@;
    push_num_line(&mut out, "Stars: ", at_ref(info, "stargazers_count"));
    push_num_line(&mut out, "Forks: ", at_ref(info, "forks_count"));
    push_opt(&mut out, "Primary Language: ", at_ref(info, "language"));
    out.append("\n---\n\n");
    let ghost p2 = out@;
    match at_ref(details, "topics") {
        Json::Array(a) => {
            out.append("\n## Topics\n");
            push_bullets(&mut out, a);
        },
        _ => {},
    }
    assert(out@ =~= repo_content_text(owner@, repo@, *info, *details));
    out
}

/// The license part of a repository overview.
pub open spec fn overview_license(l: Json) -> Seq<char> {
    match l {
        Json::Object(_) => match str_of(at(l, "name"@)) {
            Some(n) => n + "\n"@,
            None => Seq::empty(),
        },
        _ => "No license information available\n"@,
    }
}

/// The overview file of `owner/repo` from its API record `d`.
pub open spec fn repo_overview_text(owner: Seq<char>, repo: Seq<char>, d: Json) -> Seq<char> {
    "# Repository: "@ + owner + "/"@ + repo + "\n\n"@ + "URL: https://github.com/"@ + owner + "/"@
        + repo + "\n"@ + "Description: "@ + text_or(at(d, "description"@), "No description"@)
        + "\n"@ + "Primary Language: "@ + text_or(at(d, "language"@), "unknown"@) + "\n"@
        + "Stars: "@ + dec(u64_or_zero(at(d, "stargazers_count"@)) as nat) + "\n"@ + "Forks: "@
        + dec(u64_or_zero(at(d, "forks_count"@)) as nat) + "\n"@ + "Default Branch: "@ + text_or(
        at(d, "default_branch"@),
        "main"@,
    ) + "\n\n"@ + "## Topics\n\n"@ + (match at(d, "topics"@) {
        Json::Array(a) => bullet_lines(strings_in(a@)),
        _ => "No topics found\n"@,
    }) + "\n## License\n\n"@ + overview_license(at(d, "license"@))
}

fn push_overview_license(out: &mut String, l: &Json)
    ensures
        final(out)@ == old(out)@ + overview_license(*l),
{
    match l {
        Json::Object(_) => match str_field(l, "name") {
            Some(n) => {
                out.append(n.as_str());
                out.append("\n");
            },
            None => {
                assert(old(out)@ + overview_license(*l) =~= old(out)@);
            },
        },
        _ => out.append("No license information available\n"),
    }
}

/// The overview of `owner/repo`: URL, description, language, counts,
/// default branch, topics and license, with a default for each absent field.
pub fn repo_overview(owner: &str, repo: &str, d: &Json) -> (r: String)
    ensures
        r@ == repo_overview_text(owner@, repo@, *d),
{
    let mut out = String::from_str("# Repository: ");
    out.append(owner);
    out.append("/");
    out.append(repo);
    out.append("\n\n");
    out.append("URL: https://github.com/");
    out.append(owner);
    out.append("/");
    out.append(repo);
    out.append("\n");
    out.append("Description: ");
    push_text_or(&mut out, at_ref(d, "description"), "No description");
    out.append("\n");
    out.append("Primary Language: ");
    push_text_or(&mut out, at_ref(d, "language"), "unknown");
    out.append("\n");
    out.append("Stars: ");
    push_count(&mut out, at_ref(d, "stargazers_count"));
    out.append("\n");
    out.append("Forks: ");
    push_count(&mut out, at_ref(d, "forks_count"));
    out.append("\n");
    out.append("Default Branch: ");
    push_text_or(&mut out, at_ref(d, "default_branch"), "main");
    out.append("\n\n");
    out.append("## Topics\n\n");
    match at_ref(d, "topics") {
        Json::Array(a) => push_bullets(&mut out, a),
        _ => out.append("No topics found\n"),
    }
    out.append("\n## License\n\n");
    push_overview_license(&mut out, at_ref(d, "license"));
    assert(out@ =~= repo_overview_text(owner@, repo@, *d));
    out
}

/// The license line of a repository's information section.
pub open spec fn license_line(l: Json) -> Seq<char> {
    match l {
        Json::Object(_) => match str_of(at(l, "name"@)) {
            Some(n) => "- **License:** "@ + n + "\n"@,
            None => Seq::empty(),
        },
        _ => Seq::empty(),
    }
}

/// The topics block of a repository's information section.
pub open spec fn topics_block(t: Json) -> Seq<char> {
    match t {
        Json::Array(a) => if a@.len() > 0 {
            "\n### Topics\n\n"@ + bullet_lines(strings_in(a@))
        } else {
            Seq::empty()
        },
        _ => Seq::empty(),
    }
}

/// The information section of the full report of `owner/repo`, processed at
/// `processed`, from its API record `info`.
pub open spec fn repo_info_section(owner: Seq<char>, repo: Seq<char>, processed: Seq<char>, info: Json) -> Seq<char> {
    "## Repository Information\n\n"@ + "- **Repository:** "@ + owner + "/"@ + repo + "\n"@
        + "- **URL:** https://github.com/"@ + owner + "/"@ + repo + "\n"@ + "- **Processed:** "@
        + processed + "\n"@ + (match str_of(at(info, "description"@)) {
        Some(d) => "- **Description:** "@ + d + "\n\n"@,
        None => Seq::empty(),
    }) + "- **Default Branch:** "@ + text_or(at(info, "default_branch"@), "main"@) + "\n"@
        + "- **Stars:** "@ + dec(u64_or_zero(at(info, "stargazers_count"@)) as nat) + "\n"@
        + "- **Forks:** "@ + dec(u64_or_zero(at(info, "forks_count"@)) as nat) + "\n"@
        + "- **Issues:** "@ + dec(u64_or_zero(at(info, "open_issues_count"@)) as nat) + "\n"@
        + "- **Last Updated:** "@ + text_or(at(info, "updated_at"@), "Unknown"@) + "\n"@ + opt_line(
        "- **Primary Language:** "@,
        at(info, "language"@),
    ) + license_line(at(info, "license"@)) + topics_block(at(info, "topics"@))
}

fn push_license_line(out: &mut String, l: &Json)
    ensures
        final(out)@ == old(out)@ + license_line(*l),
{
    match l {
        Json::Object(_) => match str_field(l, "name") {
            Some(n) => {
                out.append("- **License:** ");
                out.append(n.as_str());
                out.append("\n");
            },
            None => {
                assert(old(out)@ + license_line(*l) =~= old(out)@);
            },
        },
        _ => {
            assert(old(out)@ + license_line(*l) =~= old(out)@);
        },
    }
}

fn push_topics_block(out: &mut String, t: &Json)
    ensures
        final(out)@ == old(out)@ + topics_block(*t),
{
    match t {
        Json::Array(a) => {
            if a.len() > 0 {
                out.append("\n### Topics\n\n");
                push_bullets(out, a);
            } else {
                assert(old(out)@ + topics_block(*t) =~= old(out)@);
            }
        },
        _ => {
            assert(old(out)@ + topics_block(*t) =~= old(out)@);
        },
    }
}

/// The information section of the full report of `owner/repo`.
pub fn repo_information(owner: &str, repo: &str, processed: &str, info: &Json) -> (r: String)
    ensures
        r@ == repo_info_section(owner@, repo@, processed@, *info),
{
    let mut out = String::from_str("## Repository Information\n\n");
    out.append("- **Repository:** ");
    out.append(owner);
    out.append("/");
    out.append(repo);
    out.append("\n");
    out.append("- **URL:** https://github.com/");
    out.append(owner);
    out.append("/");
    out.append(repo);
    out.append("\n");
    out.append("- **Processed:** ");
    out.append(processed);
    out.append("\n");
    let ghost p0 = out@;
    match str_field(info, "description") {
        Some(d) => {
            out.append("- **Description:** ");
            out.append(d.as_str());
            out.append("\n\n");
        },
        None => {},
    }
    let ghost p1 = out@;
    out.append("- **Default Branch:** ");
    push_text_or(&mut out, at_ref(info, "default_branch"), "main");
    out.append("\n");
    out.append("- **Stars:** ");
    push_count(&mut out, at_ref(info, "stargazers_count"));
    out.append("\n");
    out.append("- **Forks:** ");
    push_count(&mut out, at_ref(info, "forks_count"));
    out.append("\n");
    out.append("- **Issues:** ");
    push_count(&mut out, at_ref(info, "open_issues_count"));
    out.append("\n");
    out.append("- **Last Updated:** ");
    push_text_or(&mut out, at_ref(info, "updated_at"), "Unknown");
    out.append("\n");
    push_opt(&mut out, "- **Primary Language:** ", at_ref(info, "language"));
    push_license_line(&mut out, at_ref(info, "license"));
    push_topics_block(&mut out, at_ref(info, "topics"));
    assert(out@ =~= repo_info_section(owner@, repo@, processed@, *info));
    out
}

/// The README names looked for, in order of preference.
pub open spec fn readme_names() -> Seq<Seq<char>> {
    seq![
        "README.md"@,
        "README.txt"@,
        "README.rst"@,
        "README"@,
    ]
}

/// Executable `readme_names`.
pub fn readme_name_list() -> (r: Vec<Vec<char>>)
    ensures
        r@.len() == readme_names().len(),
        forall|i: int| 0 <= i < r@.len() ==> #[trigger] r@[i]@ == readme_names()[i],
{
    let mut r: Vec<Vec<char>> = Vec::new();
    r.push(chars_of("README.md"));
    r.push(chars_of("README.txt"));
    r.push(chars_of("README.rst"));
    r.push(chars_of("README"));
    assert(r@.map_values(|v: Vec<char>| v@) =~= readme_names());
    r
}

/// The dependency manifests looked for, in report order.
pub open spec fn package_file_names() -> Seq<Seq<char>> {
    seq![
        "package.json"@,
        "Cargo.toml"@,
        "pyproject.toml"@,
        "requirements.txt"@,
        "go.mod"@,
        "pom.xml"@,
        "build.gradle"@,
        "Gemfile"@,
    ]
}

/// Executable `package_file_names`.
pub fn package_file_name_list() -> (r: Vec<Vec<char>>)
    ensures
        r@.len() == package_file_names().len(),
        forall|i: int| 0 <= i < r@.len() ==> #[trigger] r@[i]@ == package_file_names()[i],
{
    let mut r: Vec<Vec<char>> = Vec::new();
    r.push(chars_of("package.json"));
    r.push(chars_of("Cargo.toml"));
    r.push(chars_of("pyproject.toml"));
    r.push(chars_of("requirements.txt"));
    r.push(chars_of("go.mod"));
    r.push(chars_of("pom.xml"));
    r.push(chars_of("build.gradle"));
    r.push(chars_of("Gemfile"));
    assert(r@.map_values(|v: Vec<char>| v@) =~= package_file_names());
    r
}

/// The documentation directories looked for, in report order.
pub open spec fn doc_dir_names() -> Seq<Seq<char>> {
    seq![
        "docs"@,
        "doc"@,
        "documentation"@,
        "wiki"@,
        "guide"@,
    ]
}

/// Executable `doc_dir_names`.
pub fn doc_dir_name_list() -> (r: Vec<Vec<char>>)
    ensures
        r@.len() == doc_dir_names().len(),
        forall|i: int| 0 <= i < r@.len() ==> #[trigger] r@[i]@ == doc_dir_names()[i],
{
    let mut r: Vec<Vec<char>> = Vec::new();
    r.push(chars_of("docs"));
    r.push(chars_of("doc"));
    r.push(chars_of("documentation"));
    r.push(chars_of("wiki"));
    r.push(chars_of("guide"));
    assert(r@.map_values(|v: Vec<char>| v@) =~= doc_dir_names());
    r
}

/// The documentation files looked for, in report order.
pub open spec fn doc_file_names() -> Seq<Seq<char>> {
    seq![
        "CONTRIBUTING.md"@,
        "CHANGELOG.md"@,
        "DEVELOPMENT.md"@,
        "API.md"@,
        "INSTALL.md"@,
        "USAGE.md"@,
        "CODE_OF_CONDUCT.md"@,
    ]
}

/// Executable `doc_file_names`.
pub fn doc_file_name_list() -> (r: Vec<Vec<char>>)
    ensures
        r@.len() == doc_file_names().len(),
        forall|i: int| 0 <= i < r@.len() ==> #[trigger] r@[i]@ == doc_file_names()[i],
{
    let mut r: Vec<Vec<char>> = Vec::new();
    r.push(chars_of("CONTRIBUTING.md"));
    r.push(chars_of("CHANGELOG.md"));
    r.push(chars_of("DEVELOPMENT.md"));
    r.push(chars_of("API.md"));
    r.push(chars_of("INSTALL.md"));
    r.push(chars_of("USAGE.md"));
    r.push(chars_of("CODE_OF_CONDUCT.md"));
    assert(r@.map_values(|v: Vec<char>| v@) =~= doc_file_names());
    r
}

/// The code fence language for a file extension.
pub open spec fn fence_language_of(e: Seq<char>) -> Seq<char> {
    if e == "js"@ {
        "javascript"@
    } else if e == "ts"@ {
        "typescript"@
    } else if e == "py"@ {
        "python"@
    } else if e == "rs"@ {
        "rust"@
    } else if e == "go"@ {
        "go"@
    } else if e == "java"@ {
        "java"@
    } else if e == "c"@ || e == "cpp"@ || e == "h"@ || e == "hpp"@ {
        "cpp"@
    } else if e == "cs"@ {
        "csharp"@
    } else if e == "rb"@ {
        "ruby"@
    } else if e == "php"@ {
        "php"@
    } else if e == "swift"@ {
        "swift"@
    } else if e == "kt"@ {
        "kotlin"@
    } else if e == "md"@ {
        "markdown"@
    } else if e == "json"@ {
        "json"@
    } else if e == "yml"@ || e == "yaml"@ {
        "yaml"@
    } else if e == "toml"@ {
        "toml"@
    } else {
        ""@
    }
}

/// Executable `fence_language_of`.
pub fn fence_language_chars(e: &[char]) -> (r: String)
    ensures
        r@ == fence_language_of(e@),
{
    if chars_eq(e, &chars_of("js")) {
        String::from_str("javascript")
    } else if chars_eq(e, &chars_of("ts")) {
        String::from_str("typescript")
    } else if chars_eq(e, &chars_of("py")) {
        String::from_str("python")
    } else if chars_eq(e, &chars_of("rs")) {
        String::from_str("rust")
    } else if chars_eq(e, &chars_of("go")) {
        String::from_str("go")
    } else if chars_eq(e, &chars_of("java")) {
        String::from_str("java")
    } else if chars_eq(e, &chars_of("c")) || chars_eq(e, &chars_of("cpp")) || chars_eq(e, &chars_of("h")) || chars_eq(e, &chars_of("hpp")) {
        String::from_str("cpp")
    } else if chars_eq(e, &chars_of("cs")) {
        String::from_str("csharp")
    } else if chars_eq(e, &chars_of("rb")) {
        String::from_str("ruby")
    } else if chars_eq(e, &chars_of("php")) {
        String::from_str("php")
    } else if chars_eq(e, &chars_of("swift")) {
        String::from_str("swift")
    } else if chars_eq(e, &chars_of("kt")) {
        String::from_str("kotlin")
    } else if chars_eq(e, &chars_of("md")) {
        String::from_str("markdown")
    } else if chars_eq(e, &chars_of("json")) {
        String::from_str("json")
    } else if chars_eq(e, &chars_of("yml")) || chars_eq(e, &chars_of("yaml")) {
        String::from_str("yaml")
    } else if chars_eq(e, &chars_of("toml")) {
        String::from_str("toml")
    } else {
        String::from_str("")
    }
}


/// The first text found among `c`, in order.
pub open spec fn first_found(c: Seq<Option<String>>) -> Option<Seq<char>>
    decreases c.len(),
{
    if c.len() == 0 {
        None
    } else {
        match c[0] {
            Some(t) => Some(t@),
            None => first_found(c.drop_first()),
        }
    }
}

/// The README part of the full report, from the texts found for each name
/// of `readme_names`.
pub open spec fn readme_block(found: Seq<Option<String>>) -> Seq<char> {
    "## README Content\n\n"@ + (match first_found(found) {
        Some(t) => t,
        None => "No README found in repository.\n"@,
    }) + "\n\n"@
}

/// The README part of the full report: the first README found, in the
/// order of `readme_names`.
pub fn readme_section(found: &Vec<Option<String>>) -> (r: String)
    ensures
        r@ == readme_block(found@),
{
    let mut out = String::from_str("## README Content\n\n");
    let mut i: usize = 0;
    assert(found@.skip(0) =~= found@);
    while i < found.len()
        invariant
            i <= found@.len(),
            out@ == "## README Content\n\n"@,
            first_found(found@) == first_found(found@.skip(i as int)),
        decreases found@.len() - i,
    {
        assert(found@.skip(i as int)[0] == found@[i as int]);
        assert(found@.skip(i as int).drop_first() =~= found@.skip(i + 1));
        match &found[i] {
            Some(t) => {
                out.append(t.as_str());
                out.append("\n\n");
                return out;
            },
            None => {},
        }
        i = i + 1;
    }
    out.append("No README found in repository.\n");
    out.append("\n\n");
    out
}

/// The manifest entries of the dependency part: one fenced block for each
/// manifest of `names` whose text was found.
pub open spec fn package_entries(names: Seq<Seq<char>>, found: Seq<Option<String>>) -> Seq<char>
    decreases found.len(),
{
    if found.len() == 0 {
        Seq::empty()
    } else {
        package_entries(names, found.drop_last()) + match found.last() {
            Some(c) => "### Package File: "@ + names[found.len() - 1] + "\n\n```\n"@ + c@
                + "\n```\n\n"@,
            None => Seq::empty(),
        }
    }
}

/// Whether any text was found.
pub open spec fn any_found(found: Seq<Option<String>>) -> bool {
    exists|i: int| 0 <= i < found.len() && #[trigger] found[i] is Some
}

/// The dependency part of the full report, from the texts found for each
/// name of `package_file_names`.
pub open spec fn dependencies_part(found: Seq<Option<String>>) -> Seq<char> {
    "## Dependencies\n\n"@ + package_entries(package_file_names(), found) + if any_found(found) {
        Seq::empty()
    } else {
        "No dependency files found.\n\n"@
    }
}

/// The dependency part of the full report: each manifest found, in the
/// order of `package_file_names`.
pub fn dependencies_section(found: &Vec<Option<String>>) -> (r: String)
    requires
        found@.len() == package_file_names().len(),
    ensures
        r@ == dependencies_part(found@),
{
    let names = package_file_name_list();
    let mut out = String::from_str("## Dependencies\n\n");
    let ghost start = out@;
    let mut any = false;
    let mut i: usize = 0;
    assert(found@.take(0) =~= Seq::<Option<String>>::empty());
    while i < found.len()
        invariant
            i <= found@.len() == names@.len() == package_file_names().len(),
            forall|k: int| 0 <= k < names@.len() ==> #[trigger] names@[k]@ == package_file_names()[k],
            out@ == start + package_entries(package_file_names(), found@.take(i as int)),
            any == any_found(found@.take(i as int)),
        decreases found@.len() - i,
    {
        assert(found@.take(i + 1).drop_last() =~= found@.take(i as int));
        assert(found@.take(i + 1).last() == found@[i as int]);
        match &found[i] {
            Some(c) => {
                out.append("### Package File: ");
                push_chars(&mut out, &names[i]);
                out.append("\n\n```\n");
                out.append(c.as_str());
                out.append("\n```\n\n");
                any = true;
                assert(found@.take(i + 1)[i as int] is Some);
            },
            None => {
                assert(any_found(found@.take(i + 1)) == any_found(found@.take(i as int))) by {
                    if any_found(found@.take(i + 1)) {
                        let k = choose|k: int| 0 <= k < i + 1 && #[trigger] found@.take(i + 1)[k] is Some;
                        assert(found@.take(i as int)[k] is Some);
                    }
                    if any_found(found@.take(i as int)) {
                        let k = choose|k: int| 0 <= k < i && #[trigger] found@.take(i as int)[k] is Some;
                        assert(found@.take(i + 1)[k] is Some);
                    }
                }
            },
        }
        i = i + 1;
    }
    assert(found@.take(found@.len() as int) =~= found@);
    if !any {
        out.append("No dependency files found.\n\n");
    }
    proof {
        reveal_strlit("");
    }
    assert(out@ =~= dependencies_part(found@));
    out
}

/// A code file of a downloaded repository.
pub struct RepoSourceFile {
    /// Full path of the file
    pub path: String,
    /// Directory of the file, relative to the extraction directory
    pub rel_dir: String,
    /// Path of the file, relative to the extraction directory
    pub rel_path: String,
    /// The file's text, `None` when it could not be read
    pub content: Option<String>,
}

/// The key that orders paths as `Path` values do: each `/` becomes the
/// smallest character, so paths compare component by component.
pub open spec fn path_key(p: Seq<char>) -> Seq<char> {
    Seq::new(p.len(), |i: int| if p[i] == '/' { '\0' } else { p[i] })
}

/// Executable `path_key`.
pub fn path_order_key(p: &str) -> (r: String)
    ensures
        r@ == path_key(p@),
{
    let v = chars_of(p);
    let mut out = String::new();
    let mut i: usize = 0;
    while i < v.len()
        invariant
            i <= v@.len(),
            v@ == p@,
            out@ == path_key(p@).take(i as int),
        decreases v@.len() - i,
    {
        let c = if v[i] == '/' { '\0' } else { v[i] };
        push_char(&mut out, c);
        assert(path_key(p@).take(i + 1) =~= path_key(p@).take(i as int).push(c));
        i = i + 1;
    }
    assert(path_key(p@).take(v@.len() as int) =~= path_key(p@));
    out
}

/// Each file's path key paired with its index.
pub open spec fn path_keys(files: Seq<RepoSourceFile>) -> Seq<(Seq<char>, usize)> {
    Seq::new(files.len(), |i: int| (path_key(files[i].path@), i as usize))
}

/// The indices of the files in path order; equal paths keep their order.
pub open spec fn path_order(files: Seq<RepoSourceFile>) -> Seq<usize> {
    sorted_text(path_keys(files), false).map_values(|e: (Seq<char>, usize)| e.1)
}

/// Sorts index-keyed pairs by text key, returning the indices in order.
pub(crate) fn order_by_keys(keyed: Vec<(String, usize)>, Ghost(n): Ghost<nat>) -> (r: Vec<usize>)
    requires
        keyed@.len() == n,
        forall|k: int| 0 <= k < keyed@.len() ==> #[trigger] keyed@[k].1 < n,
    ensures
        r@ == sorted_text(text_keyed(keyed@), false).map_values(|e: (Seq<char>, usize)| e.1),
        r@.len() == n,
        forall|k: int| 0 <= k < r@.len() ==> #[trigger] r@[k] < n,
{
    let ghost kv = text_keyed(keyed@);
    assert forall|k: int| 0 <= k < kv.len() implies #[trigger] kv[k].1 < kv.len() by {}
    let sorted = sort_by_text(keyed, false);
    proof {
        lemma_sorted_text_indices(kv, false);
    }
    let ghost order = sorted_text(kv, false);
    let mut r: Vec<usize> = Vec::new();
    let mut k: usize = 0;
    while k < sorted.len()
        invariant
            k <= sorted@.len(),
            text_keyed(sorted@) == order,
            order.len() == n,
            r@ == order.take(k as int).map_values(|e: (Seq<char>, usize)| e.1),
        decreases sorted@.len() - k,
    {
        assert(text_keyed(sorted@)[k as int].1 == sorted@[k as int].1);
        r.push(sorted[k].1);
        assert(order.take(k + 1) =~= order.take(k as int).push(order[k as int]));
        assert(r@ =~= order.take(k + 1).map_values(|e: (Seq<char>, usize)| e.1));
        k = k + 1;
    }
    assert(order.take(order.len() as int) =~= order);
    r
}

/// The indices of `files` in path order.
pub fn files_in_path_order(files: &Vec<RepoSourceFile>) -> (r: Vec<usize>)
    ensures
        r@ == path_order(files@),
        forall|k: int| 0 <= k < r@.len() ==> #[trigger] r@[k] < files@.len(),
        r@.len() == files@.len(),
{
    let mut keyed: Vec<(String, usize)> = Vec::new();
    let mut i: usize = 0;
    while i < files.len()
        invariant
            i <= files@.len(),
            text_keyed(keyed@) == path_keys(files@).take(i as int),
            keyed@.len() == i,
            forall|k: int| 0 <= k < keyed@.len() ==> #[trigger] keyed@[k].1 < files@.len(),
        decreases files@.len() - i,
    {
        let k = path_order_key(files[i].path.as_str());
        keyed.push((k, i));
        assert(text_keyed(keyed@) =~= path_keys(files@).take(i + 1));
        i = i + 1;
    }
    assert(text_keyed(keyed@) =~= path_keys(files@));
    order_by_keys(keyed, Ghost(files@.len() as nat))
}

/// The indices of `paths` in path order; equal paths keep their order.
pub open spec fn order_of_paths(paths: Seq<Seq<char>>) -> Seq<usize> {
    sorted_text(Seq::new(paths.len(), |i: int| (path_key(paths[i]), i as usize)), false).map_values(
        |e: (Seq<char>, usize)| e.1,
    )
}

/// The indices of `paths` in path order.
pub fn paths_in_order(paths: &Vec<String>) -> (r: Vec<usize>)
    ensures
        r@ == order_of_paths(paths@.map_values(|p: String| p@)),
        r@.len() == paths@.len(),
        forall|k: int| 0 <= k < r@.len() ==> #[trigger] r@[k] < paths@.len(),
{
    let ghost pv = paths@.map_values(|p: String| p@);
    let ghost keys = Seq::new(pv.len(), |i: int| (path_key(pv[i]), i as usize));
    let mut keyed: Vec<(String, usize)> = Vec::new();
    let mut i: usize = 0;
    while i < paths.len()
        invariant
            i <= paths@.len(),
            pv == paths@.map_values(|p: String| p@),
            keys == Seq::new(pv.len(), |i: int| (path_key(pv[i]), i as usize)),
            keyed@.len() == i,
            text_keyed(keyed@) == keys.take(i as int),
            forall|k: int| 0 <= k < keyed@.len() ==> #[trigger] keyed@[k].1 < paths@.len(),
        decreases paths@.len() - i,
    {
        let k = path_order_key(paths[i].as_str());
        keyed.push((k, i));
        assert(text_keyed(keyed@) =~= keys.take(i + 1));
        i = i + 1;
    }
    assert(text_keyed(keyed@) =~= keys);
    order_by_keys(keyed, Ghost(paths@.len() as nat))
}

/// The lowercased extension of each file, in path order, for the files that
/// have one.
pub open spec fn ext_list(files: Seq<RepoSourceFile>, idx: Seq<usize>) -> Seq<Seq<char>>
    decreases idx.len(),
{
    if idx.len() == 0 {
        Seq::empty()
    } else {
        let earlier = ext_list(files, idx.drop_last());
        match path_extension(files[idx.last() as int].path@) {
            Some(e) => earlier.push(lowercase_of(e)),
            None => earlier,
        }
    }
}

/// Each count of a tally paired with its position.
pub open spec fn count_keys(t: Seq<(Seq<char>, nat)>) -> Seq<(i64, usize)> {
    Seq::new(t.len(), |i: int| (t[i].1 as i64, i as usize))
}

/// Extensions and how many files have each, most frequent first; equal
/// counts keep the order in which the extensions first occur in path order.
pub open spec fn ext_distribution(files: Seq<RepoSourceFile>) -> Seq<(Seq<char>, nat)> {
    let t = tally(ext_list(files, path_order(files)));
    sorted_desc(count_keys(t)).map_values(|e: (i64, usize)| t[e.1 as int])
}

/// The extensions of the code files and their file counts, most frequent
/// first. A `Vec` holds at most `isize::MAX` items, hence the bound.
pub fn language_distribution(files: &Vec<RepoSourceFile>) -> (r: Vec<(String, usize)>)
    requires
        files@.len() <= i64::MAX,
    ensures
        tally_view(r@) == ext_distribution(files@),
{
    let order = files_in_path_order(files);
    let ghost po = path_order(files@);
    let mut exts: Vec<String> = Vec::new();
    let mut k: usize = 0;
    while k < order.len()
        invariant
            k <= order@.len() == files@.len(),
            order@ == po,
            forall|m: int| 0 <= m < order@.len() ==> #[trigger] order@[m] < files@.len(),
            exts@.map_values(|s: String| s@) == ext_list(files@, po.take(k as int)),
            exts@.len() <= k,
        decreases order@.len() - k,
    {
        assert(po.take(k + 1).drop_last() =~= po.take(k as int));
        assert(po.take(k + 1).last() == po[k as int]);
        match extension_of(files[order[k]].path.as_str()) {
            Some(e) => {
                let ghost before = exts@;
                exts.push(to_lowercase(e.as_str()));
                assert(exts@.map_values(|s: String| s@) =~= before.map_values(|s: String| s@).push(
                    exts@.last()@,
                ));
            },
            None => {},
        }
        k = k + 1;
    }
    assert(po.take(order@.len() as int) =~= po);
    let counts = count_items(&exts);
    let ghost t = tally(ext_list(files@, po));
    proof {
        lemma_tally_bound(ext_list(files@, po));
    }
    let mut keyed: Vec<(i64, usize)> = Vec::new();
    let mut i: usize = 0;
    while i < counts.len()
        invariant
            i <= counts@.len(),
            tally_view(counts@) == t,
            forall|m: int| 0 <= m < t.len() ==> #[trigger] t[m].1 <= files@.len(),
            files@.len() <= i64::MAX,
            keyed@ == count_keys(t).take(i as int),
        decreases counts@.len() - i,
    {
        assert(t[i as int].1 == counts@[i as int].1);
        keyed.push((counts[i].1 as i64, i));
        assert(keyed@ =~= count_keys(t).take(i + 1));
        i = i + 1;
    }
    assert(keyed@ =~= count_keys(t));
    let sorted = sort_desc(keyed);
    proof {
        lemma_sorted_desc_indices(count_keys(t));
    }
    let ghost sv = sorted_desc(count_keys(t));
    let mut r: Vec<(String, usize)> = Vec::new();
    let mut j: usize = 0;
    while j < sorted.len()
        invariant
            j <= sorted@.len() == t.len(),
            sorted@ == sv,
            tally_view(counts@) == t,
            forall|m: int| 0 <= m < sv.len() ==> #[trigger] sv[m].1 < t.len(),
            tally_view(r@) == sv.take(j as int).map_values(|e: (i64, usize)| t[e.1 as int]),
        decreases sorted@.len() - j,
    {
        let idx = sorted[j].1;
        let ghost rb = r@;
        r.push((counts[idx].0.clone(), counts[idx].1));
        assert(tally_view(r@) =~= tally_view(rb).push(t[idx as int]));
        assert(sv.take(j + 1) =~= sv.take(j as int).push(sv[j as int]));
        assert(tally_view(r@) =~= sv.take(j + 1).map_values(|e: (i64, usize)| t[e.1 as int]));
        j = j + 1;
    }
    assert(sv.take(sv.len() as int) =~= sv);
    r
}

/// The code fence language for an optional extension.
pub open spec fn fence_lang(e: Option<Seq<char>>) -> Seq<char> {
    match e {
        Some(x) => fence_language_of(x),
        None => ""@,
    }
}

/// The block reproducing one code file.
pub open spec fn file_block(f: RepoSourceFile) -> Seq<char> {
    "##### File: `"@ + f.rel_path@ + "`\n\n"@ + match f.content {
        Some(c) => "```"@ + fence_lang(path_extension(f.path@)) + "\n"@ + c@ + "\n```\n\n"@,
        None => "*Unable to read file content*\n\n"@,
    }
}

/// The key source files, visited in the order `idx`: a directory heading
/// where the directory changes (none for the top directory), then each file.
pub open spec fn key_files_text(files: Seq<RepoSourceFile>, idx: Seq<usize>) -> Seq<char>
    decreases idx.len(),
{
    if idx.len() == 0 {
        Seq::empty()
    } else {
        let k = idx.len() - 1;
        let f = files[idx[k] as int];
        key_files_text(files, idx.drop_last()) + (if (k == 0 || files[idx[k - 1] as int].rel_dir@
            != f.rel_dir@) && f.rel_dir@.len() > 0 {
            "#### Directory: `"@ + f.rel_dir@ + "`\n\n"@
        } else {
            Seq::empty()
        }) + file_block(f)
    }
}

/// Each file's directory key, in path order, paired with its index.
pub open spec fn dir_keys(files: Seq<RepoSourceFile>, po: Seq<usize>) -> Seq<(Seq<char>, usize)> {
    Seq::new(po.len(), |k: int| (path_key(files[po[k] as int].rel_dir@), po[k]))
}

/// The indices of the files grouped by directory, directories in path
/// order, the files of a directory in path order.
pub open spec fn dir_order(files: Seq<RepoSourceFile>) -> Seq<usize> {
    sorted_text(dir_keys(files, path_order(files)), false).map_values(|e: (Seq<char>, usize)| e.1)
}

fn push_file_block(out: &mut String, f: &RepoSourceFile)
    ensures
        final(out)@ == old(out)@ + file_block(*f),
{
    out.append("##### File: `");
    out.append(f.rel_path.as_str());
    out.append("`\n\n");
    match &f.content {
        Some(c) => {
            out.append("```");
            match extension_of(f.path.as_str()) {
                Some(e) => out.append(fence_language_chars(&chars_of(e.as_str())).as_str()),
                None => out.append(""),
            }
            out.append("\n");
            out.append(c.as_str());
            out.append("\n```\n\n");
        },
        None => out.append("*Unable to read file content*\n\n"),
    }
}

/// Appends the key source files, grouped by directory.
fn push_key_files(out: &mut String, files: &Vec<RepoSourceFile>)
    ensures
        final(out)@ == old(out)@ + key_files_text(files@, dir_order(files@)),
{
    let po = files_in_path_order(files);
    let mut keyed: Vec<(String, usize)> = Vec::new();
    let mut k: usize = 0;
    while k < po.len()
        invariant
            k <= po@.len() == files@.len(),
            po@ == path_order(files@),
            forall|m: int| 0 <= m < po@.len() ==> #[trigger] po@[m] < files@.len(),
            keyed@.len() == k,
            text_keyed(keyed@) == dir_keys(files@, po@).take(k as int),
            forall|m: int| 0 <= m < keyed@.len() ==> #[trigger] keyed@[m].1 < files@.len(),
        decreases po@.len() - k,
    {
        let key = path_order_key(files[po[k]].rel_dir.as_str());
        keyed.push((key, po[k]));
        assert(text_keyed(keyed@) =~= dir_keys(files@, po@).take(k + 1));
        k = k + 1;
    }
    assert(text_keyed(keyed@) =~= dir_keys(files@, po@));
    let order = order_by_keys(keyed, Ghost(files@.len() as nat));
    let ghost idx = order@;
    let ghost start = out@;
    let mut j: usize = 0;
    assert(idx.take(0) =~= Seq::<usize>::empty());
    while j < order.len()
        invariant
            j <= order@.len(),
            idx == order@,
            idx == dir_order(files@),
            forall|m: int| 0 <= m < order@.len() ==> #[trigger] order@[m] < files@.len(),
            out@ == start + key_files_text(files@, idx.take(j as int)),
        decreases order@.len() - j,
    {
        assert(idx.take(j + 1).drop_last() =~= idx.take(j as int));
        assert(idx.take(j + 1)[j as int] == idx[j as int]);
        let f = &files[order[j]];
        let heading = if j == 0 {
            true
        } else {
            !chars_eq(&chars_of(files[order[j - 1]].rel_dir.as_str()), &chars_of(f.rel_dir.as_str()))
        };
        if heading && !f.rel_dir.as_str().is_empty() {
            out.append("#### Directory: `");
            out.append(f.rel_dir.as_str());
            out.append("`\n\n");
        }
        push_file_block(out, f);
        j = j + 1;
    }
    assert(idx.take(idx.len() as int) =~= idx);
}

/// The language distribution lines, each with its percentage text.
pub open spec fn dist_lines(d: Seq<(Seq<char>, nat)>, pct: Seq<String>) -> Seq<char>
    decreases d.len(),
{
    if d.len() == 0 {
        Seq::empty()
    } else {
        dist_lines(d.drop_last(), pct) + "- **"@ + d.last().0 + "**: "@ + dec(d.last().1) + " files ("@
            + pct[d.len() - 1]@ + "%)\n"@
    }
}

/// The code part of the full report. `pct` holds the rendered percentage of
/// each line of the language distribution and `size` the code size analysis.
pub open spec fn code_part(files: Seq<RepoSourceFile>, pct: Seq<String>, size: Option<String>) -> Seq<char> {
    "## Code Files\n\n"@ + if files.len() == 0 {
        "No code files found in the repository.\n\n"@
    } else {
        let d = ext_distribution(files);
        (if d.len() > 0 {
            "### Language Distribution\n\n"@ + dist_lines(d, pct) + "\n"@
        } else {
            Seq::empty()
        }) + (match size {
            Some(s) => s@,
            None => Seq::empty(),
        }) + "### Key Source Files\n\n"@ + key_files_text(files, dir_order(files))
    }
}

/// The code part of the full report: the language distribution (with the
/// given percentage texts, one per line of `language_distribution`), the
/// size analysis when there is one, and every code file grouped by directory.
pub fn code_files_section(
    files: &Vec<RepoSourceFile>,
    percents: &Vec<String>,
    size_analysis: &Option<String>,
) -> (r: String)
    requires
        files@.len() <= i64::MAX,
        percents@.len() == ext_distribution(files@).len(),
    ensures
        r@ == code_part(files@, percents@, *size_analysis),
{
    let mut out = String::from_str("## Code Files\n\n");
    if files.len() == 0 {
        out.append("No code files found in the repository.\n\n");
        return out;
    }
    let dist = language_distribution(files);
    let ghost d = ext_distribution(files@);
    let ghost p0 = out@;
    if dist.len() > 0 {
        out.append("### Language Distribution\n\n");
        let ghost start = out@;
        let mut i: usize = 0;
        assert(d.take(0) =~= Seq::<(Seq<char>, nat)>::empty());
        while i < dist.len()
            invariant
                i <= dist@.len() == d.len() == percents@.len(),
                tally_view(dist@) == d,
                out@ == start + dist_lines(d.take(i as int), percents@),
            decreases dist@.len() - i,
        {
            assert(d.take(i + 1).drop_last() =~= d.take(i as int));
            assert(d.take(i + 1).last() == d[i as int]);
            out.append("- **");
            out.append(dist[i].0.as_str());
            out.append("**: ");
            push_dec(&mut out, dist[i].1 as u64);
            out.append(" files (");
            out.append(percents[i].as_str());
            out.append("%)\n");
            i = i + 1;
        }
        assert(d.take(d.len() as int) =~= d);
        out.append("\n");
    }
    let ghost p1 = out@;
    match size_analysis {
        Some(s) => out.append(s.as_str()),
        None => {},
    }
    out.append("### Key Source Files\n\n");
    push_key_files(&mut out, files);
    assert(out@ =~= code_part(files@, percents@, *size_analysis));
    out
}

/// Whether a file name has a documentation extension (`md`, `rst`, `txt`).
pub open spec fn doc_ext(n: Seq<char>) -> bool {
    match path_extension(n) {
        Some(e) => e == "md"@ || e == "rst"@ || e == "txt"@,
        None => false,
    }
}

/// The names of `names` with a documentation extension, in order, each paired
/// with nothing (ready for sorting).
pub open spec fn doc_candidates(names: Seq<String>) -> Seq<(Seq<char>, ())>
    decreases names.len(),
{
    if names.len() == 0 {
        Seq::empty()
    } else if doc_ext(names.last()@) {
        doc_candidates(names.drop_last()).push((names.last()@, ()))
    } else {
        doc_candidates(names.drop_last())
    }
}

/// The documentation files shown for a directory holding files `names`:
/// those with a documentation extension, sorted, at most five.
pub open spec fn picked_docs(names: Seq<String>) -> Seq<Seq<char>> {
    let s = sorted_text(doc_candidates(names), false);
    s.take(if s.len() < 5 { s.len() as int } else { 5 }).map_values(|e: (Seq<char>, ())| e.0)
}

/// Chooses the documentation files of a directory whose files are `names`.
pub fn pick_doc_files(names: &Vec<String>) -> (r: Vec<String>)
    ensures
        r@.map_values(|s: String| s@) == picked_docs(names@),
{
    let mut cands: Vec<(String, ())> = Vec::new();
    let mut i: usize = 0;
    while i < names.len()
        invariant
            i <= names@.len(),
            text_keyed(cands@) == doc_candidates(names@.take(i as int)),
        decreases names@.len() - i,
    {
        assert(names@.take(i + 1).drop_last() =~= names@.take(i as int));
        assert(names@.take(i + 1).last() == names@[i as int]);
        let keep = match extension_of(names[i].as_str()) {
            Some(e) => {
                let c = chars_of(e.as_str());
                chars_eq(&c, &chars_of("md")) || chars_eq(&c, &chars_of("rst")) || chars_eq(&c, &chars_of("txt"))
            },
            None => false,
        };
        if keep {
            let ghost before = cands@;
            cands.push((names[i].clone(), ()));
            assert(text_keyed(cands@) =~= text_keyed(before).push((names@[i as int]@, ())));
        }
        i = i + 1;
    }
    assert(names@.take(names@.len() as int) =~= names@);
    let sorted = sort_by_text(cands, false);
    let ghost s = sorted_text(doc_candidates(names@), false);
    let n = if sorted.len() < 5 { sorted.len() } else { 5 };
    let mut r: Vec<String> = Vec::new();
    let mut k: usize = 0;
    while k < n
        invariant
            k <= n <= sorted@.len(),
            text_keyed(sorted@) == s,
            n == (if s.len() < 5 { s.len() as int } else { 5 }),
            r@.map_values(|x: String| x@) == s.take(k as int).map_values(|e: (Seq<char>, ())| e.0),
        decreases n - k,
    {
        assert(text_keyed(sorted@)[k as int].0 == sorted@[k as int].0@);
        let ghost rb = r@;
        r.push(sorted[k].0.clone());
        assert(r@.map_values(|x: String| x@) =~= rb.map_values(|x: String| x@).push(s[k as int].0));
        assert(s.take(k + 1) =~= s.take(k as int).push(s[k as int]));
        assert(r@.map_values(|x: String| x@) =~= s.take(k + 1).map_values(|e: (Seq<char>, ())| e.0));
        k = k + 1;
    }
    r
}

/// The entries of a documentation directory: each file's heading and text.
pub open spec fn doc_file_entries(fs: Seq<(String, Option<String>)>) -> Seq<char>
    decreases fs.len(),
{
    if fs.len() == 0 {
        Seq::empty()
    } else {
        doc_file_entries(fs.drop_last()) + "#### "@ + fs.last().0@ + "\n\n"@ + match fs.last().1 {
            Some(t) => t@ + "\n\n"@,
            None => Seq::empty(),
        }
    }
}

/// The parts for the documentation directories, in the order of `names`.
pub open spec fn doc_dirs_text(
    names: Seq<Seq<char>>,
    dirs: Seq<Option<Vec<(String, Option<String>)>>>,
) -> Seq<char>
    decreases dirs.len(),
{
    if dirs.len() == 0 {
        Seq::empty()
    } else {
        doc_dirs_text(names, dirs.drop_last()) + match dirs.last() {
            Some(fs) => "### Documentation Directory: "@ + names[dirs.len() - 1] + "\n\n"@
                + doc_file_entries(fs@),
            None => Seq::empty(),
        }
    }
}

/// The parts for the documentation files, in the order of `names`.
pub open spec fn doc_files_text(names: Seq<Seq<char>>, files: Seq<Option<Option<String>>>) -> Seq<char>
    decreases files.len(),
{
    if files.len() == 0 {
        Seq::empty()
    } else {
        doc_files_text(names, files.drop_last()) + match files.last() {
            Some(c) => "### "@ + names[files.len() - 1] + "\n\n"@ + match c {
                Some(t) => t@ + "\n\n"@,
                None => Seq::empty(),
            },
            None => Seq::empty(),
        }
    }
}

/// Whether any documentation was found: a documentation directory with files
/// to show, or a documentation file.
pub open spec fn docs_found(
    dirs: Seq<Option<Vec<(String, Option<String>)>>>,
    files: Seq<Option<Option<String>>>,
) -> bool {
    ||| exists|i: int| 0 <= i < dirs.len() && (#[trigger] dirs[i] matches Some(fs) && fs@.len() > 0)
    ||| exists|j: int| 0 <= j < files.len() && #[trigger] files[j] is Some
}

/// The documentation part of the full report. `dirs` holds, for each name of
/// `doc_dir_names`, `None` when there is no such directory, else its chosen
/// files with their texts; `files` holds, for each name of `doc_file_names`,
/// `None` when there is no such file, else its text when it could be read.
pub open spec fn docs_part(
    dirs: Seq<Option<Vec<(String, Option<String>)>>>,
    files: Seq<Option<Option<String>>>,
) -> Seq<char> {
    "## Documentation\n\n"@ + doc_dirs_text(doc_dir_names(), dirs) + doc_files_text(doc_file_names(), files)
        + if docs_found(dirs, files) {
        Seq::empty()
    } else {
        "No additional documentation found.\n\n"@
    }
}

fn push_doc_entries(out: &mut String, fs: &Vec<(String, Option<String>)>)
    ensures
        final(out)@ == old(out)@ + doc_file_entries(fs@),
{
    let ghost start = out@;
    let mut i: usize = 0;
    assert(fs@.take(0) =~= Seq::<(String, Option<String>)>::empty());
    while i < fs.len()
        invariant
            i <= fs@.len(),
            out@ == start + doc_file_entries(fs@.take(i as int)),
        decreases fs@.len() - i,
    {
        assert(fs@.take(i + 1).drop_last() =~= fs@.take(i as int));
        assert(fs@.take(i + 1).last() == fs@[i as int]);
        out.append("#### ");
        out.append(fs[i].0.as_str());
        out.append("\n\n");
        match &fs[i].1 {
            Some(t) => {
                out.append(t.as_str());
                out.append("\n\n");
            },
            None => {},
        }
        i = i + 1;
    }
    assert(fs@.take(fs@.len() as int) =~= fs@);
}

/// The documentation part of the full report.
pub fn documentation_section(
    dirs: &Vec<Option<Vec<(String, Option<String>)>>>,
    files: &Vec<Option<Option<String>>>,
) -> (r: String)
    requires
        dirs@.len() == doc_dir_names().len(),
        files@.len() == doc_file_names().len(),
    ensures
        r@ == docs_part(dirs@, files@),
{
    let dnames = doc_dir_name_list();
    let fnames = doc_file_name_list();
    let mut out = String::from_str("## Documentation\n\n");
    let ghost s0 = out@;
    let mut found = false;
    let mut i: usize = 0;
    assert(dirs@.take(0) =~= Seq::<Option<Vec<(String, Option<String>)>>>::empty());
    while i < dirs.len()
        invariant
            i <= dirs@.len() == dnames@.len() == doc_dir_names().len(),
            forall|k: int| 0 <= k < dnames@.len() ==> #[trigger] dnames@[k]@ == doc_dir_names()[k],
            out@ == s0 + doc_dirs_text(doc_dir_names(), dirs@.take(i as int)),
            found == exists|m: int| 0 <= m < i && (#[trigger] dirs@[m] matches Some(fs) && fs@.len() > 0),
        decreases dirs@.len() - i,
    {
        assert(dirs@.take(i + 1).drop_last() =~= dirs@.take(i as int));
        assert(dirs@.take(i + 1).last() == dirs@[i as int]);
        match &dirs[i] {
            Some(fs) => {
                out.append("### Documentation Directory: ");
                push_chars(&mut out, &dnames[i]);
                out.append("\n\n");
                push_doc_entries(&mut out, fs);
                if fs.len() > 0 {
                    found = true;
                }
            },
            None => {},
        }
        i = i + 1;
    }
    assert(dirs@.take(dirs@.len() as int) =~= dirs@);
    let ghost s1 = out@;
    let ghost dfound = found;
    let mut j: usize = 0;
    assert(files@.take(0) =~= Seq::<Option<Option<String>>>::empty());
    while j < files.len()
        invariant
            j <= files@.len() == fnames@.len() == doc_file_names().len(),
            forall|k: int| 0 <= k < fnames@.len() ==> #[trigger] fnames@[k]@ == doc_file_names()[k],
            out@ == s1 + doc_files_text(doc_file_names(), files@.take(j as int)),
            found == (dfound || exists|m: int| 0 <= m < j && #[trigger] files@[m] is Some),
        decreases files@.len() - j,
    {
        assert(files@.take(j + 1).drop_last() =~= files@.take(j as int));
        assert(files@.take(j + 1).last() == files@[j as int]);
        match &files[j] {
            Some(c) => {
                out.append("### ");
                push_chars(&mut out, &fnames[j]);
                out.append("\n\n");
                match c {
                    Some(t) => {
                        out.append(t.as_str());
                        out.append("\n\n");
                    },
                    None => {},
                }
                found = true;
            },
            None => {},
        }
        j = j + 1;
    }
    assert(files@.take(files@.len() as int) =~= files@);
    if !found {
        out.append("No additional documentation found.\n\n");
    }
    proof {
        reveal_strlit("");
    }
    assert(out@ =~= docs_part(dirs@, files@));
    out
}

/// A line of the repository tree: `prefix`, a branch, the name, and a `/`
/// after a directory's name.
pub open spec fn tree_entry_text(prefix: Seq<char>, name: Seq<char>, is_dir: bool) -> Seq<char> {
    prefix + "└── "@ + name + (if is_dir {
        "/"@
    } else {
        Seq::empty()
    }) + "\n"@
}

/// A line of the repository tree.
pub fn tree_entry(prefix: &str, name: &str, is_dir: bool) -> (r: String)
    ensures
        r@ == tree_entry_text(prefix@, name@, is_dir),
{
    let mut out = String::from_str(prefix);
    out.append("└── ");
    out.append(name);
    if is_dir {
        out.append("/");
    }
    out.append("\n");
    proof {
        reveal_strlit("");
    }
    assert(out@ =~= tree_entry_text(prefix@, name@, is_dir));
    out
}

/// The key that puts directories before files, then orders by name.
pub open spec fn tree_key(name: Seq<char>, is_dir: bool) -> Seq<char> {
    (if is_dir {
        "0"@
    } else {
        "1"@
    }) + name
}

/// Each entry's tree key paired with its index.
pub open spec fn tree_keys(entries: Seq<(String, bool)>) -> Seq<(Seq<char>, usize)> {
    Seq::new(entries.len(), |i: int| (tree_key(entries[i].0@, entries[i].1), i as usize))
}

/// The order in which a directory's entries (name, is a directory) are
/// listed: directories first, then by name.
pub fn tree_entry_order(entries: &Vec<(String, bool)>) -> (r: Vec<usize>)
    ensures
        r@ == sorted_text(tree_keys(entries@), false).map_values(|e: (Seq<char>, usize)| e.1),
        forall|k: int| 0 <= k < r@.len() ==> #[trigger] r@[k] < entries@.len(),
        r@.len() == entries@.len(),
{
    let mut keyed: Vec<(String, usize)> = Vec::new();
    let mut i: usize = 0;
    while i < entries.len()
        invariant
            i <= entries@.len(),
            keyed@.len() == i,
            text_keyed(keyed@) == tree_keys(entries@).take(i as int),
            forall|k: int| 0 <= k < keyed@.len() ==> #[trigger] keyed@[k].1 < entries@.len(),
        decreases entries@.len() - i,
    {
        let mut key = if entries[i].1 {
            String::from_str("0")
        } else {
            String::from_str("1")
        };
        key.append(entries[i].0.as_str());
        keyed.push((key, i));
        assert(text_keyed(keyed@) =~= tree_keys(entries@).take(i + 1));
        i = i + 1;
    }
    assert(text_keyed(keyed@) =~= tree_keys(entries@));
    order_by_keys(keyed, Ghost(entries@.len() as nat))
}

/// What was found in a downloaded repository for its full report.
pub struct RepoFindings {
    /// The rendered file tree
    pub tree: String,
    /// The text found for each name of `readme_names`
    pub readmes: Vec<Option<String>>,
    /// The text found for each name of `package_file_names`
    pub package_files: Vec<Option<String>>,
    /// The code files
    pub code_files: Vec<RepoSourceFile>,
    /// The rendered percentage of each line of the language distribution
    pub percents: Vec<String>,
    /// The rendered code size analysis, when it could be made
    pub size_analysis: Option<String>,
    /// For each name of `doc_dir_names`: absent, or its chosen files and texts
    pub doc_dirs: Vec<Option<Vec<(String, Option<String>)>>>,
    /// For each name of `doc_file_names`: absent, or its text when readable
    pub doc_files: Vec<Option<Option<String>>>,
}

/// The body of the full report of `owner/repo`.
pub open spec fn repo_report_body(
    owner: Seq<char>,
    repo: Seq<char>,
    processed: Seq<char>,
    info: Json,
    f: RepoFindings,
) -> Seq<char> {
    repo_info_section(owner, repo, processed, info) + "\n## Repository Structure\n\n```\n"@ + f.tree@
        + "```\n\n"@ + readme_block(f.readmes@) + dependencies_part(f.package_files@) + code_part(
        f.code_files@,
        f.percents@,
        f.size_analysis,
    ) + docs_part(f.doc_dirs@, f.doc_files@)
}

/// The full report of `owner/repo`, processed at `processed` and organized
/// as a document generated at `generated`.
pub fn github_repo_document(
    owner: &str,
    repo: &str,
    processed: &str,
    generated: &str,
    info: &Json,
    f: &RepoFindings,
) -> (r: String)
    requires
        f.package_files@.len() == package_file_names().len(),
        f.code_files@.len() <= i64::MAX,
        f.percents@.len() == ext_distribution(f.code_files@).len(),
        f.doc_dirs@.len() == doc_dir_names().len(),
        f.doc_files@.len() == doc_file_names().len(),
    ensures
        r@ == organized(
            repo_report_body(owner@, repo@, processed@, *info, *f),
            owner@ + "/"@ + repo@,
            "github"@,
            generated@,
        ),
{
    let mut body = repo_information(owner, repo, processed, info);
    body.append("\n## Repository Structure\n\n```\n");
    body.append(f.tree.as_str());
    body.append("```\n\n");
    body.append(readme_section(&f.readmes).as_str());
    body.append(dependencies_section(&f.package_files).as_str());
    body.append(code_files_section(&f.code_files, &f.percents, &f.size_analysis).as_str());
    body.append(documentation_section(&f.doc_dirs, &f.doc_files).as_str());
    assert(body@ =~= repo_report_body(owner@, repo@, processed@, *info, *f));
    let mut name = String::from_str(owner);
    name.append("/");
    name.append(repo);
    organize_content_at(body.as_str(), name.as_str(), "github", generated)
}


/// `s` with each `|` escaped as `\|`.
pub open spec fn escape_pipes(s: Seq<char>) -> Seq<char>
    decreases s.len(),
{
    if s.len() == 0 {
        s
    } else {
        escape_pipes(s.drop_last()) + if s.last() == '|' {
            "\\|"@
        } else {
            seq![s.last()]
        }
    }
}

/// A description as shown in the repository table: pipes escaped, and cut
/// at the last character boundary within 77 bytes plus `...` when longer
/// than 80 bytes.
pub open spec fn table_description(d: Seq<char>) -> Seq<char> {
    let e = escape_pipes(d);
    if utf8_len(e) > 80 {
        prefix_within(e, 77) + "..."@
    } else {
        e
    }
}

/// A README as excerpted: cut at the last character boundary within 2000
/// bytes plus `... (truncated)` when longer.
pub open spec fn readme_excerpt(r: Seq<char>) -> Seq<char> {
    if utf8_len(r) > 2000 {
        prefix_within(r, 2000) + "... (truncated)"@
    } else {
        r
    }
}

/// The star count of a repository record as a sort key that orders as the
/// count does.
pub open spec fn star_key(repo: Json) -> i64 {
    (u64_or_zero(at(repo, "stargazers_count"@)) - 0x8000_0000_0000_0000) as i64
}

/// The repositories' star keys paired with their indices.
pub open spec fn star_keys(repos: Seq<Json>) -> Seq<(i64, usize)> {
    Seq::new(repos.len(), |i: int| (star_key(repos[i]), i as usize))
}

/// The indices of the repositories, most stars first; equal counts keep
/// their order.
pub open spec fn star_order(repos: Seq<Json>) -> Seq<usize> {
    sorted_desc(star_keys(repos)).map_values(|e: (i64, usize)| e.1)
}

/// The languages of the repositories that name one, in order.
pub open spec fn repo_languages(repos: Seq<Json>) -> Seq<Seq<char>>
    decreases repos.len(),
{
    if repos.len() == 0 {
        Seq::empty()
    } else {
        match str_of(at(repos.last(), "language"@)) {
            Some(l) => repo_languages(repos.drop_last()).push(l),
            None => repo_languages(repos.drop_last()),
        }
    }
}

/// Languages and how many repositories use each, most used first; equal
/// counts keep the order in which the languages first occur.
pub open spec fn org_language_distribution(repos: Seq<Json>) -> Seq<(Seq<char>, nat)> {
    let t = tally(repo_languages(repos));
    sorted_desc(count_keys(t)).map_values(|e: (i64, usize)| t[e.1 as int])
}

/// The sum of a numeric member over the repositories (missing counts as 0).
pub open spec fn member_sum(repos: Seq<Json>, key: Seq<char>) -> nat
    decreases repos.len(),
{
    if repos.len() == 0 {
        0
    } else {
        member_sum(repos.drop_last(), key) + u64_or_zero(at(repos.last(), key)) as nat
    }
}

/// A row of the top repositories table.
pub open spec fn top_row(org: Seq<char>, r: Json) -> Seq<char> {
    "| ["@ + text_or(at(r, "name"@), "Unknown"@) + "](https://github.com/"@ + org + ") | "@
        + table_description(text_or(at(r, "description"@), ""@)) + " | "@ + dec(
        u64_or_zero(at(r, "stargazers_count"@)) as nat,
    ) + " | "@ + dec(u64_or_zero(at(r, "forks_count"@)) as nat) + " | "@ + text_or(
        at(r, "language"@),
        "Unknown"@,
    ) + " |\n"@
}

/// The rows for the repositories at indices `idx`.
pub open spec fn top_rows(org: Seq<char>, repos: Seq<Json>, idx: Seq<usize>) -> Seq<char>
    decreases idx.len(),
{
    if idx.len() == 0 {
        Seq::empty()
    } else {
        top_rows(org, repos, idx.drop_last()) + top_row(org, repos[idx.last() as int])
    }
}

/// The facts part of a repository's detailed entry.
pub open spec fn detail_facts(org: Seq<char>, r: Json) -> Seq<char> {
    detail_head(r) + detail_links(org, r)
}

/// The heading of a repository's detailed entry, with its description.
pub open spec fn detail_head(r: Json) -> Seq<char> {
    let name = text_or(at(r, "name"@), "unknown"@);
    "### "@ + name + "\n\n"@ + (match str_of(at(r, "description"@)) {
        Some(d) => "**Description:** "@ + d + "\n\n"@,
        None => Seq::empty(),
    })
}

/// The link, counts, language and license lines of a repository's entry.
pub open spec fn detail_links(org: Seq<char>, r: Json) -> Seq<char> {
    let name = text_or(at(r, "name"@), "unknown"@);
    "**URL:** https://github.com/"@ + org + "/"@ + name + "\n"@ + "**Stars:** "@ + dec(
        u64_or_zero(at(r, "stargazers_count"@)) as nat,
    ) + "\n"@ + "**Forks:** "@ + dec(u64_or_zero(at(r, "forks_count"@)) as nat) + "\n"@ + opt_line(
        "**Primary Language:** "@,
        at(r, "language"@),
    ) + (match at(r, "license"@) {
        Json::Object(_) => opt_line("**License:** "@, at(at(r, "license"@), "name"@)),
        _ => Seq::empty(),
    })
}

/// The README part of a repository's detailed entry.
pub open spec fn detail_readme(readme: Option<String>) -> Seq<char> {
    match readme {
        Some(t) => "\n#### README Excerpt\n\n"@ + readme_excerpt(t@) + "\n\n"@,
        None => Seq::empty(),
    }
}

/// The detailed entry of a repository, with its README when one was fetched.
pub open spec fn repo_detail(org: Seq<char>, r: Json, readme: Option<String>) -> Seq<char> {
    detail_facts(org, r) + detail_readme(readme) + "\n---\n\n"@
}

/// The detailed entries for the repositories at indices `idx`, with their
/// READMEs `rs`.
pub open spec fn repo_details(org: Seq<char>, repos: Seq<Json>, idx: Seq<usize>, rs: Seq<Option<String>>) -> Seq<char>
    decreases idx.len(),
{
    if idx.len() == 0 {
        Seq::empty()
    } else {
        repo_details(org, repos, idx.drop_last(), rs) + repo_detail(
            org,
            repos[idx.last() as int],
            rs[idx.len() - 1],
        )
    }
}

/// The language distribution lines of an organization, each with its
/// percentage text.
pub open spec fn org_language_lines(d: Seq<(Seq<char>, nat)>, pct: Seq<String>) -> Seq<char>
    decreases d.len(),
{
    if d.len() == 0 {
        Seq::empty()
    } else {
        org_language_lines(d.drop_last(), pct) + "- **"@ + d.last().0 + "**: "@ + dec(d.last().1)
            + " repositories ("@ + pct[d.len() - 1]@ + "%)\n"@
    }
}

/// The number of leading entries shown, at most `n`.
pub open spec fn shown(len: nat, n: nat) -> nat {
    if len < n {
        len
    } else {
        n
    }
}

/// The organization part of the report: header and details.
pub open spec fn org_header(org: Seq<char>, processed: Seq<char>, info: Json) -> Seq<char> {
    "## GitHub Organization: "@ + org + "\n\n"@ + "- **URL:** https://github.com/"@ + org + "\n"@
        + "- **Processed:** "@ + processed + "\n\n"@ + opt_line("- **Description:** "@, at(info, "description"@))
        + opt_line("- **Location:** "@, at(info, "location"@)) + opt_line("- **Website:** "@, at(info, "blog"@))
        + opt_line("- **Twitter:** @"@, at(info, "twitter_username"@)) + opt_line(
        "- **Email:** "@,
        at(info, "email"@),
    ) + "\n"@
}

/// The report on organization `org`, processed at `processed`, from its
/// record `info` and its repositories `repos`. `pct` holds the rendered
/// percentage of each language line and `readmes` the README fetched for
/// each of the five repositories with the most stars.
pub open spec fn org_report_text(
    org: Seq<char>,
    processed: Seq<char>,
    info: Json,
    repos: Seq<Json>,
    pct: Seq<String>,
    readmes: Seq<Option<String>>,
) -> Seq<char> {
    let order = star_order(repos);
    org_header(org, processed, info) + "- **Total Public Repositories:** "@ + dec(repos.len()) + "\n\n"@
        + "- **Total Stars:** "@ + dec(member_sum(repos, "stargazers_count"@)) + "\n"@
        + "- **Total Forks:** "@ + dec(member_sum(repos, "forks_count"@)) + "\n\n"@
        + "## Language Distribution\n\n"@ + org_language_lines(org_language_distribution(repos), pct)
        + "\n"@ + "## Top Repositories\n\n"@ + "| Repository | Description | Stars | Forks | Language |\n"@
        + "|------------|-------------|-------|-------|----------|\n"@ + top_rows(
        org,
        repos,
        order.take(shown(repos.len(), 20) as int),
    ) + "\n"@ + "## Detailed Repository Information\n\n"@ + repo_details(
        org,
        repos,
        order.take(shown(repos.len(), 5) as int),
        readmes,
    )
}

fn escape_pipe_chars(s: &[char]) -> (r: Vec<char>)
    ensures
        r@ == escape_pipes(s@),
{
    let mut r: Vec<char> = Vec::new();
    let mut i: usize = 0;
    while i < s.len()
        invariant
            i <= s@.len(),
            r@ == escape_pipes(s@.take(i as int)),
        decreases s@.len() - i,
    {
        assert(s@.take(i + 1).drop_last() =~= s@.take(i as int));
        assert(s@.take(i + 1).last() == s@[i as int]);
        let ghost before = r@;
        if s[i] == '|' {
            r.push('\\');
            r.push('|');
            proof {
                reveal_strlit("\\|");
            }
            assert(r@ =~= before + "\\|"@);
        } else {
            r.push(s[i]);
            assert(r@ =~= before + seq![s@[i as int]]);
        }
        i = i + 1;
    }
    assert(s@.take(s@.len() as int) =~= s@);
    r
}

fn push_table_description(out: &mut String, d: &[char])
    ensures
        final(out)@ == old(out)@ + table_description(d@),
{
    let e = escape_pipe_chars(d);
    if byte_len_exceeds(&e, 80) {
        let k = chars_within_bytes(&e, 77);
        push_chars(out, &head(&e, k));
        out.append("...");
    } else {
        push_chars(out, &e);
    }
}

/// The `Str` text of member `key`, or `dflt`, as characters.
fn text_or_chars(j: &Json, key: &str, dflt: &str) -> (r: Vec<char>)
    ensures
        r@ == text_or(at(*j, key@), dflt@),
{
    match str_field(j, key) {
        Some(t) => chars_of(t.as_str()),
        None => chars_of(dflt),
    }
}

#[verifier::rlimit(80)]
#[verifier::spinoff_prover]
fn push_top_row(out: &mut String, org: &str, r: &Json)
    ensures
        final(out)@ == old(out)@ + top_row(org@, *r),
{
    out.append("| [");
    push_text_or(out, at_ref(r, "name"), "Unknown");
    out.append("](https://github.com/");
    out.append(org);
    out.append(") | ");
    let d = text_or_chars(r, "description", "");
    push_table_description(out, &d);
    out.append(" | ");
    push_count(out, at_ref(r, "stargazers_count"));
    out.append(" | ");
    push_count(out, at_ref(r, "forks_count"));
    out.append(" | ");
    push_text_or(out, at_ref(r, "language"), "Unknown");
    out.append(" |\n");
    assert(out@ =~= old(out)@ + top_row(org@, *r));
}

fn push_readme_excerpt(out: &mut String, t: &String)
    ensures
        final(out)@ == old(out)@ + readme_excerpt(t@),
{
    let c = chars_of(t.as_str());
    if byte_len_exceeds(&c, 2000) {
        let k = chars_within_bytes(&c, 2000);
        push_chars(out, &head(&c, k));
        out.append("... (truncated)");
    } else {
        out.append(t.as_str());
    }
}

fn push_detail_head(out: &mut String, r: &Json)
    ensures
        final(out)@ == old(out)@ + detail_head(*r),
{
    let name = text_or_chars(r, "name", "unknown");
    out.append("### ");
    push_chars(out, &name);
    out.append("\n\n");
    match str_field(r, "description") {
        Some(d) => {
            out.append("**Description:** ");
            out.append(d.as_str());
            out.append("\n\n");
        },
        None => {},
    }
    assert(out@ =~= old(out)@ + detail_head(*r));
}

#[verifier::rlimit(60)]
#[verifier::spinoff_prover]
fn push_detail_links(out: &mut String, org: &str, r: &Json)
    ensures
        final(out)@ == old(out)@ + detail_links(org@, *r),
{
    let name = text_or_chars(r, "name", "unknown");
    out.append("**URL:** https://github.com/");
    out.append(org);
    out.append("/");
    push_chars(out, &name);
    out.append("\n");
    out.append("**Stars:** ");
    push_count(out, at_ref(r, "stargazers_count"));
    out.append("\n");
    out.append("**Forks:** ");
    push_count(out, at_ref(r, "forks_count"));
    out.append("\n");
    push_opt(out, "**Primary Language:** ", at_ref(r, "language"));
    let ghost p2 = out@;
    match at_ref(r, "license") {
        Json::Object(_) => push_opt(out, "**License:** ", at_ref(at_ref(r, "license"), "name")),
        _ => {},
    }
    assert(out@ =~= old(out)@ + detail_links(org@, *r));
}

fn push_detail_facts(out: &mut String, org: &str, r: &Json)
    ensures
        final(out)@ == old(out)@ + detail_facts(org@, *r),
{
    push_detail_head(out, r);
    push_detail_links(out, org, r);
    assert(out@ =~= old(out)@ + detail_facts(org@, *r));
}

fn push_repo_detail(out: &mut String, org: &str, r: &Json, readme: &Option<String>)
    ensures
        final(out)@ == old(out)@ + repo_detail(org@, *r, *readme),
{
    push_detail_facts(out, org, r);
    let ghost p3 = out@;
    match readme {
        Some(t) => {
            out.append("\n#### README Excerpt\n\n");
            push_readme_excerpt(out, t);
            out.append("\n\n");
        },
        None => {},
    }
    assert(out@ =~= p3 + detail_readme(*readme));
    out.append("\n---\n\n");
    assert(out@ =~= old(out)@ + repo_detail(org@, *r, *readme));
}

/// The indices of the repositories, most stars first.
pub fn repos_by_stars(repos: &Vec<Json>) -> (r: Vec<usize>)
    ensures
        r@ == star_order(repos@),
        r@.len() == repos@.len(),
        forall|k: int| 0 <= k < r@.len() ==> #[trigger] r@[k] < repos@.len(),
{
    let mut keyed: Vec<(i64, usize)> = Vec::new();
    let mut i: usize = 0;
    while i < repos.len()
        invariant
            i <= repos@.len(),
            keyed@ == star_keys(repos@).take(i as int),
        decreases repos@.len() - i,
    {
        let stars: u64 = match u64_field(&repos[i], "stargazers_count") {
            Some(n) => n,
            None => 0,
        };
        let key = ((stars as i128) - 0x8000_0000_0000_0000i128) as i64;
        keyed.push((key, i));
        assert(keyed@ =~= star_keys(repos@).take(i + 1));
        i = i + 1;
    }
    assert(keyed@ =~= star_keys(repos@));
    let sorted = sort_desc(keyed);
    proof {
        lemma_sorted_desc_indices(star_keys(repos@));
    }
    let ghost sv = sorted_desc(star_keys(repos@));
    let mut r: Vec<usize> = Vec::new();
    let mut j: usize = 0;
    while j < sorted.len()
        invariant
            j <= sorted@.len() == repos@.len(),
            sorted@ == sv,
            r@ == sv.take(j as int).map_values(|e: (i64, usize)| e.1),
        decreases sorted@.len() - j,
    {
        r.push(sorted[j].1);
        assert(sv.take(j + 1) =~= sv.take(j as int).push(sv[j as int]));
        assert(r@ =~= sv.take(j + 1).map_values(|e: (i64, usize)| e.1));
        j = j + 1;
    }
    assert(sv.take(sv.len() as int) =~= sv);
    r
}

/// The languages of an organization's repositories and how many use each,
/// most used first. A `Vec` holds at most `isize::MAX` items, hence the bound.
pub fn org_languages(repos: &Vec<Json>) -> (r: Vec<(String, usize)>)
    requires
        repos@.len() <= i64::MAX,
    ensures
        tally_view(r@) == org_language_distribution(repos@),
{
    let mut langs: Vec<String> = Vec::new();
    let mut i: usize = 0;
    while i < repos.len()
        invariant
            i <= repos@.len(),
            langs@.map_values(|s: String| s@) == repo_languages(repos@.take(i as int)),
            langs@.len() <= i,
        decreases repos@.len() - i,
    {
        assert(repos@.take(i + 1).drop_last() =~= repos@.take(i as int));
        assert(repos@.take(i + 1).last() == repos@[i as int]);
        match str_field(&repos[i], "language") {
            Some(l) => {
                let ghost before = langs@;
                langs.push(l.clone());
                assert(langs@.map_values(|s: String| s@) =~= before.map_values(|s: String| s@).push(l@));
            },
            None => {},
        }
        i = i + 1;
    }
    assert(repos@.take(repos@.len() as int) =~= repos@);
    let counts = count_items(&langs);
    let ghost t = tally(repo_languages(repos@));
    proof {
        lemma_tally_bound(repo_languages(repos@));
    }
    let mut keyed: Vec<(i64, usize)> = Vec::new();
    let mut k: usize = 0;
    while k < counts.len()
        invariant
            k <= counts@.len(),
            tally_view(counts@) == t,
            langs@.len() <= repos@.len() <= i64::MAX,
            repo_languages(repos@).len() == langs@.len(),
            forall|m: int| 0 <= m < t.len() ==> #[trigger] t[m].1 <= repo_languages(repos@).len(),
            keyed@ == count_keys(t).take(k as int),
        decreases counts@.len() - k,
    {
        assert(t[k as int].1 == counts@[k as int].1);
        keyed.push((counts[k].1 as i64, k));
        assert(keyed@ =~= count_keys(t).take(k + 1));
        k = k + 1;
    }
    assert(keyed@ =~= count_keys(t));
    let sorted = sort_desc(keyed);
    proof {
        lemma_sorted_desc_indices(count_keys(t));
    }
    let ghost sv = sorted_desc(count_keys(t));
    let mut r: Vec<(String, usize)> = Vec::new();
    let mut j: usize = 0;
    while j < sorted.len()
        invariant
            j <= sorted@.len() == t.len(),
            sorted@ == sv,
            tally_view(counts@) == t,
            forall|m: int| 0 <= m < sv.len() ==> #[trigger] sv[m].1 < t.len(),
            tally_view(r@) == sv.take(j as int).map_values(|e: (i64, usize)| t[e.1 as int]),
        decreases sorted@.len() - j,
    {
        let idx = sorted[j].1;
        let ghost rb = r@;
        r.push((counts[idx].0.clone(), counts[idx].1));
        assert(tally_view(r@) =~= tally_view(rb).push(t[idx as int]));
        assert(sv.take(j + 1) =~= sv.take(j as int).push(sv[j as int]));
        assert(tally_view(r@) =~= sv.take(j + 1).map_values(|e: (i64, usize)| t[e.1 as int]));
        j = j + 1;
    }
    assert(sv.take(sv.len() as int) =~= sv);
    r
}

fn member_total(repos: &Vec<Json>, key: &str) -> (n: u64)
    requires
        member_sum(repos@, key@) <= u64::MAX,
    ensures
        n == member_sum(repos@, key@),
{
    let mut total: u64 = 0;
    let mut i: usize = 0;
    while i < repos.len()
        invariant
            i <= repos@.len(),
            total == member_sum(repos@.take(i as int), key@),
            member_sum(repos@, key@) <= u64::MAX,
        decreases repos@.len() - i,
    {
        assert(repos@.take(i + 1).drop_last() =~= repos@.take(i as int));
        assert(repos@.take(i + 1).last() == repos@[i as int]);
        proof {
            lemma_member_sum_prefix(repos@, key@, i + 1);
        }
        let v: u64 = match u64_field(&repos[i], key) {
            Some(n) => n,
            None => 0,
        };
        total = total + v;
        i = i + 1;
    }
    assert(repos@.take(repos@.len() as int) =~= repos@);
    total
}

/// A prefix's sum is at most the whole sum.
proof fn lemma_member_sum_prefix(repos: Seq<Json>, key: Seq<char>, k: int)
    requires
        0 <= k <= repos.len(),
    ensures
        member_sum(repos.take(k), key) <= member_sum(repos, key),
    decreases repos.len() - k,
{
    if k < repos.len() {
        lemma_member_sum_prefix(repos, key, k + 1);
        assert(repos.take(k + 1).drop_last() =~= repos.take(k));
    } else {
        assert(repos.take(k) =~= repos);
    }
}

fn push_org_header(out: &mut String, org: &str, processed: &str, info: &Json)
    ensures
        final(out)@ == old(out)@ + org_header(org@, processed@, *info),
{
    out.append("## GitHub Organization: ");
    out.append(org);
    out.append("\n\n");
    out.append("- **URL:** https://github.com/");
    out.append(org);
    out.append("\n");
    out.append("- **Processed:** ");
    out.append(processed);
    out.append("\n\n");
    push_opt(out, "- **Description:** ", at_ref(info, "description"));
    push_opt(out, "- **Location:** ", at_ref(info, "location"));
    push_opt(out, "- **Website:** ", at_ref(info, "blog"));
    push_opt(out, "- **Twitter:** @", at_ref(info, "twitter_username"));
    push_opt(out, "- **Email:** ", at_ref(info, "email"));
    out.append("\n");
    assert(out@ =~= old(out)@ + org_header(org@, processed@, *info));
}

fn push_org_languages(out: &mut String, repos: &Vec<Json>, pct: &Vec<String>)
    requires
        repos@.len() <= i64::MAX,
        pct@.len() == org_language_distribution(repos@).len(),
    ensures
        final(out)@ == old(out)@ + org_language_lines(org_language_distribution(repos@), pct@),
{
    let dist = org_languages(repos);
    let ghost d = org_language_distribution(repos@);
    let ghost start = out@;
    let mut i: usize = 0;
    assert(d.take(0) =~= Seq::<(Seq<char>, nat)>::empty());
    while i < dist.len()
        invariant
            i <= dist@.len() == d.len() == pct@.len(),
            tally_view(dist@) == d,
            out@ == start + org_language_lines(d.take(i as int), pct@),
        decreases dist@.len() - i,
    {
        assert(d.take(i + 1).drop_last() =~= d.take(i as int));
        assert(d.take(i + 1).last() == d[i as int]);
        out.append("- **");
        out.append(dist[i].0.as_str());
        out.append("**: ");
        push_dec(out, dist[i].1 as u64);
        out.append(" repositories (");
        out.append(pct[i].as_str());
        out.append("%)\n");
        i = i + 1;
    }
    assert(d.take(d.len() as int) =~= d);
}

/// The report on an organization: details, totals, language distribution
/// (with the given percentage texts), the twenty repositories with the most
/// stars, and details of the first five with their READMEs.
pub fn org_report(
    org: &str,
    processed: &str,
    info: &Json,
    repos: &Vec<Json>,
    percents: &Vec<String>,
    readmes: &Vec<Option<String>>,
) -> (r: String)
    requires
        repos@.len() <= i64::MAX,
        percents@.len() == org_language_distribution(repos@).len(),
        readmes@.len() == shown(repos@.len() as nat, 5),
        member_sum(repos@, "stargazers_count"@) <= u64::MAX,
        member_sum(repos@, "forks_count"@) <= u64::MAX,
    ensures
        r@ == org_report_text(org@, processed@, *info, repos@, percents@, readmes@),
{
    let mut out = String::new();
    push_org_header(&mut out, org, processed, info);
    out.append("- **Total Public Repositories:** ");
    push_dec(&mut out, repos.len() as u64);
    out.append("\n\n");
    out.append("- **Total Stars:** ");
    push_dec(&mut out, member_total(repos, "stargazers_count"));
    out.append("\n");
    out.append("- **Total Forks:** ");
    push_dec(&mut out, member_total(repos, "forks_count"));
    out.append("\n\n");
    out.append("## Language Distribution\n\n");
    push_org_languages(&mut out, repos, percents);
    out.append("\n");
    out.append("## Top Repositories\n\n");
    out.append("| Repository | Description | Stars | Forks | Language |\n");
    out.append("|------------|-------------|-------|-------|----------|\n");
    let ghost p1 = out@;
    let order = repos_by_stars(repos);
    let ghost ov = order@;
    let top = if order.len() < 20 { order.len() } else { 20 };
    let mut k: usize = 0;
    assert(ov.take(0) =~= Seq::<usize>::empty());
    while k < top
        invariant
            k <= top <= order@.len() == repos@.len(),
            top == shown(repos@.len() as nat, 20),
            ov == order@,
            ov == star_order(repos@),
            forall|m: int| 0 <= m < order@.len() ==> #[trigger] order@[m] < repos@.len(),
            out@ == p1 + top_rows(org@, repos@, ov.take(k as int)),
        decreases top - k,
    {
        assert(ov.take(k + 1).drop_last() =~= ov.take(k as int));
        assert(ov.take(k + 1).last() == ov[k as int]);
        push_top_row(&mut out, org, &repos[order[k]]);
        k = k + 1;
    }
    out.append("\n");
    out.append("## Detailed Repository Information\n\n");
    let ghost p2 = out@;
    let five = if order.len() < 5 { order.len() } else { 5 };
    let mut k: usize = 0;
    assert(ov.take(0) =~= Seq::<usize>::empty());
    while k < five
        invariant
            k <= five <= order@.len() == repos@.len(),
            five == shown(repos@.len() as nat, 5) == readmes@.len(),
            ov == order@,
            forall|m: int| 0 <= m < order@.len() ==> #[trigger] order@[m] < repos@.len(),
            out@ == p2 + repo_details(org@, repos@, ov.take(k as int), readmes@),
        decreases five - k,
    {
        assert(ov.take(k + 1).drop_last() =~= ov.take(k as int));
        assert(ov.take(k + 1).last() == ov[k as int]);
        assert(readmes@[k as int] == readmes@[k as int]);
        push_repo_detail(&mut out, org, &repos[order[k]], &readmes[k]);
        k = k + 1;
    }
    assert(out@ =~= org_report_text(org@, processed@, *info, repos@, percents@, readmes@));
    out
}

/// The name of the text output written for organization `org` at `ts`.
pub fn org_output_file_name(org: &str, ts: &str) -> (r: String)
    ensures
        r@ == org@ + "_github_org_"@ + ts@ + ".txt"@,
{
    let mut s = String::from_str(org);
    s.append("_github_org_");
    s.append(ts);
    s.append(".txt");
    s
}


/// What is measured of one file that has an extension, for the code size
/// table: its extension as written, its size when its metadata could be
/// read, and its line count when it could then be read as text.
pub struct CodeFileStat {
    /// The file's extension, without the dot
    pub ext: String,
    /// The file's size in bytes
    pub size: Option<u64>,
    /// The file's number of lines
    pub lines: Option<usize>,
}

/// One language (lowercased extension) of the code size table.
pub struct CodeSizeRow {
    /// The lowercased extension
    pub lang: String,
    /// How many code files have it
    pub files: usize,
    /// Their total size in bytes
    pub size: u64,
    /// Their total number of lines
    pub lines: usize,
}

/// The code size table: a row per language, sorted by language, and the
/// totals over all code files.
pub struct CodeSizeTable {
    /// The rows
    pub rows: Vec<CodeSizeRow>,
    /// The number of code files
    pub files: usize,
    /// Their total size in bytes
    pub size: u64,
    /// Their total number of lines
    pub lines: usize,
}

/// Whether a file counts as code: its extension, with a dot before it, is
/// one of `code_extensions` exactly.
pub open spec fn is_code_stat(f: CodeFileStat) -> bool {
    code_extensions().contains(seq!['.'] + f.ext@)
}

/// The bytes a file adds to its language: its size when known.
pub open spec fn stat_size(f: CodeFileStat) -> nat {
    match f.size {
        Some(s) => s as nat,
        None => 0,
    }
}

/// The lines a file adds to its language: counted only when its size is
/// known and its text could be read.
pub open spec fn stat_lines(f: CodeFileStat) -> nat {
    match (f.size, f.lines) {
        (Some(_), Some(l)) => l as nat,
        _ => 0,
    }
}

/// `t` with one more file of `k`, of `s` bytes and `l` lines; `k` appended
/// when absent.
pub open spec fn add_stat(t: Seq<(Seq<char>, (nat, nat, nat))>, k: Seq<char>, s: nat, l: nat) -> Seq<
    (Seq<char>, (nat, nat, nat)),
>
    decreases t.len(),
{
    if t.len() == 0 {
        seq![(k, (1nat, s, l))]
    } else if t[0].0 == k {
        seq![(k, (t[0].1.0 + 1, t[0].1.1 + s, t[0].1.2 + l))] + t.drop_first()
    } else {
        seq![t[0]] + add_stat(t.drop_first(), k, s, l)
    }
}

/// Files, bytes and lines of the code files of `fs` per lowercased
/// extension, extensions in order of first occurrence.
pub open spec fn code_groups(fs: Seq<CodeFileStat>) -> Seq<(Seq<char>, (nat, nat, nat))>
    decreases fs.len(),
{
    if fs.len() == 0 {
        Seq::empty()
    } else {
        let t = code_groups(fs.drop_last());
        let f = fs.last();
        if is_code_stat(f) {
            add_stat(t, lowercase_of(f.ext@), stat_size(f), stat_lines(f))
        } else {
            t
        }
    }
}

/// Files, bytes and lines of all code files of `fs`.
pub open spec fn code_totals(fs: Seq<CodeFileStat>) -> (nat, nat, nat)
    decreases fs.len(),
{
    if fs.len() == 0 {
        (0nat, 0nat, 0nat)
    } else {
        let t = code_totals(fs.drop_last());
        let f = fs.last();
        if is_code_stat(f) {
            (t.0 + 1, t.1 + stat_size(f), t.2 + stat_lines(f))
        } else {
            t
        }
    }
}

/// The groups of `fs` sorted by language.
pub open spec fn code_size_rows_of(fs: Seq<CodeFileStat>) -> Seq<(Seq<char>, (nat, nat, nat))> {
    let g = code_groups(fs);
    sorted_text(Seq::new(g.len(), |i: int| (g[i].0, i as usize)), false).map_values(
        |e: (Seq<char>, usize)| g[e.1 as int],
    )
}

/// A row as a language and its files, bytes and lines.
pub open spec fn row_view(r: CodeSizeRow) -> (Seq<char>, (nat, nat, nat)) {
    (r.lang@, (r.files as nat, r.size as nat, r.lines as nat))
}

proof fn lemma_add_stat(t: Seq<(Seq<char>, (nat, nat, nat))>, k: Seq<char>, s: nat, l: nat, j: int)
    requires
        0 <= j <= t.len(),
        forall|m: int| 0 <= m < j ==> #[trigger] t[m].0 != k,
        j < t.len() ==> t[j].0 == k,
    ensures
        j < t.len() ==> add_stat(t, k, s, l) == t.update(j, (k, (t[j].1.0 + 1, t[j].1.1 + s, t[j].1.2 + l))),
        j == t.len() ==> add_stat(t, k, s, l) == t.push((k, (1nat, s, l))),
    decreases j,
{
    if j == 0 {
        if t.len() == 0 {
            assert(add_stat(t, k, s, l) =~= t.push((k, (1nat, s, l))));
        } else {
            assert(add_stat(t, k, s, l) =~= t.update(0, (k, (t[0].1.0 + 1, t[0].1.1 + s, t[0].1.2 + l))));
        }
    } else {
        assert forall|m: int| 0 <= m < j - 1 implies #[trigger] t.drop_first()[m].0 != k by {
            assert(t.drop_first()[m] == t[m + 1]);
        }
        lemma_add_stat(t.drop_first(), k, s, l, j - 1);
        if j < t.len() {
            assert(add_stat(t, k, s, l) =~= t.update(j, (k, (t[j].1.0 + 1, t[j].1.1 + s, t[j].1.2 + l))));
        } else {
            assert(add_stat(t, k, s, l) =~= t.push((k, (1nat, s, l))));
        }
    }
}

proof fn lemma_code_totals_grow(fs: Seq<CodeFileStat>, i: int, j: int)
    requires
        0 <= i <= j <= fs.len(),
    ensures
        code_totals(fs.take(i)).1 <= code_totals(fs.take(j)).1,
        code_totals(fs.take(i)).2 <= code_totals(fs.take(j)).2,
    decreases j - i,
{
    if i < j {
        lemma_code_totals_grow(fs, i, j - 1);
        assert(fs.take(j).drop_last() =~= fs.take(j - 1));
    }
}


/// Files, bytes and lines summed over groups.
pub open spec fn groups_sum(t: Seq<(Seq<char>, (nat, nat, nat))>) -> (nat, nat, nat)
    decreases t.len(),
{
    if t.len() == 0 {
        (0nat, 0nat, 0nat)
    } else {
        let r = groups_sum(t.drop_first());
        (t[0].1.0 + r.0, t[0].1.1 + r.1, t[0].1.2 + r.2)
    }
}

proof fn lemma_add_stat_sum(t: Seq<(Seq<char>, (nat, nat, nat))>, k: Seq<char>, s: nat, l: nat)
    ensures
        groups_sum(add_stat(t, k, s, l)) == (groups_sum(t).0 + 1, groups_sum(t).1 + s, groups_sum(t).2 + l),
    decreases t.len(),
{
    let a = add_stat(t, k, s, l);
    if t.len() == 0 {
        assert(a.drop_first() =~= Seq::<(Seq<char>, (nat, nat, nat))>::empty());
        assert(groups_sum(a.drop_first()) == (0nat, 0nat, 0nat));
        assert(a[0] == (k, (1nat, s, l)));
    } else if t[0].0 == k {
        assert(a.drop_first() =~= t.drop_first());
        assert(a[0] == (k, (t[0].1.0 + 1, t[0].1.1 + s, t[0].1.2 + l)));
    } else {
        lemma_add_stat_sum(t.drop_first(), k, s, l);
        assert(a.drop_first() =~= add_stat(t.drop_first(), k, s, l));
        assert(a[0] == t[0]);
    }
}

/// The languages of the code size table account for every code file: their
/// files, bytes and lines add up to the totals.
pub proof fn law_code_groups_add_up(fs: Seq<CodeFileStat>)
    ensures
        groups_sum(code_groups(fs)) == code_totals(fs),
    decreases fs.len(),
{
    if fs.len() > 0 {
        law_code_groups_add_up(fs.drop_last());
        let f = fs.last();
        if is_code_stat(f) {
            lemma_add_stat_sum(code_groups(fs.drop_last()), lowercase_of(f.ext@), stat_size(f), stat_lines(f));
        }
    }
}

/// The view of the groups being gathered by `code_size_table`.
pub open spec fn groups_view(g: Seq<(String, (usize, u64, usize))>) -> Seq<(Seq<char>, (nat, nat, nat))> {
    g.map_values(|e: (String, (usize, u64, usize))| (e.0@, (e.1.0 as nat, e.1.1 as nat, e.1.2 as nat)))
}

/// Adds one file of `key` (`s` bytes, `l` lines) to the groups; every
/// group stays within the totals `(nf, ns, nl)` with this file added.
fn add_to_groups(
    groups: &mut Vec<(String, (usize, u64, usize))>,
    key: String,
    s: u64,
    l: usize,
    nf: usize,
    ns: u64,
    nl: usize,
)
    requires
        nf + 1 <= usize::MAX,
        ns + s <= u64::MAX,
        nl + l <= usize::MAX,
        forall|m: int|
            0 <= m < old(groups)@.len() ==> #[trigger] old(groups)@[m].1.0 <= nf && old(groups)@[m].1.1 <= ns
                && old(groups)@[m].1.2 <= nl,
    ensures
        groups_view(final(groups)@) == add_stat(groups_view(old(groups)@), key@, s as nat, l as nat),
        forall|m: int|
            0 <= m < final(groups)@.len() ==> #[trigger] final(groups)@[m].1.0 <= nf + 1 && final(groups)@[m].1.1
                <= ns + s && final(groups)@[m].1.2 <= nl + l,
{
    let ghost gv = groups_view(groups@);
    let ghost old_groups = groups@;
    let kc = chars_of(key.as_str());
    let mut j: usize = 0;
    while j < groups.len() && !chars_eq(&chars_of(groups[j].0.as_str()), &kc)
        invariant
            j <= groups@.len(),
            kc@ == key@,
            groups@ == old_groups,
            gv == groups_view(groups@),
            forall|m: int| 0 <= m < j ==> #[trigger] gv[m].0 != key@,
        decreases groups@.len() - j,
    {
        j = j + 1;
    }
    proof {
        lemma_add_stat(gv, key@, s as nat, l as nat, j as int);
    }
    if j < groups.len() {
        let (c, b, n) = groups[j].1;
        let name = groups[j].0.clone();
        assert(name@ == gv[j as int].0);
        groups.set(j, (name, (c + 1, b + s, n + l)));
        assert(groups_view(groups@) =~= gv.update(
            j as int,
            (key@, (gv[j as int].1.0 + 1, gv[j as int].1.1 + s as nat, gv[j as int].1.2 + l as nat)),
        ));
        assert forall|m: int| 0 <= m < groups@.len() implies #[trigger] groups@[m].1.0 <= nf + 1
            && groups@[m].1.1 <= ns + s && groups@[m].1.2 <= nl + l by {
            if m != j {
                assert(groups@[m] == old_groups[m]);
            }
        }
    } else {
        groups.push((key, (1, s, l)));
        assert(groups_view(groups@) =~= gv.push((key@, (1nat, s as nat, l as nat))));
        assert forall|m: int| 0 <= m < groups@.len() implies #[trigger] groups@[m].1.0 <= nf + 1
            && groups@[m].1.1 <= ns + s && groups@[m].1.2 <= nl + l by {
            if m < old_groups.len() {
                assert(groups@[m] == old_groups[m]);
            }
        }
    }
}

/// The code size table of the files measured in `files`. The totals must
/// fit their integer types.
#[verifier::spinoff_prover]
pub fn code_size_table(files: &Vec<CodeFileStat>) -> (r: CodeSizeTable)
    requires
        code_totals(files@).1 <= u64::MAX,
        code_totals(files@).2 <= usize::MAX,
    ensures
        r.rows@.map_values(|x: CodeSizeRow| row_view(x)) == code_size_rows_of(files@),
        (r.files as nat, r.size as nat, r.lines as nat) == code_totals(files@),
{
    let ghost fs = files@;
    let mut groups: Vec<(String, (usize, u64, usize))> = Vec::new();
    let mut n_files: usize = 0;
    let mut n_size: u64 = 0;
    let mut n_lines: usize = 0;
    let mut i: usize = 0;
    while i < files.len()
        invariant
            i <= fs.len(),
            fs == files@,
            code_totals(fs).1 <= u64::MAX,
            code_totals(fs).2 <= usize::MAX,
            groups_view(groups@) == code_groups(fs.take(i as int)),
            (n_files as nat, n_size as nat, n_lines as nat) == code_totals(fs.take(i as int)),
            n_files <= i,
            forall|m: int|
                0 <= m < groups@.len() ==> #[trigger] groups@[m].1.0 <= n_files && groups@[m].1.1 <= n_size
                    && groups@[m].1.2 <= n_lines,
        decreases fs.len() - i,
    {
        proof {
            assert(fs.take(i + 1).drop_last() =~= fs.take(i as int));
            assert(fs.take(i + 1).last() == fs[i as int]);
            lemma_code_totals_grow(fs, i + 1, fs.len() as int);
            assert(fs.take(fs.len() as int) =~= fs);
        }
        let f = &files[i];
        if crate::processors::github::is_code_extension(f.ext.as_str()) {
            let s: u64 = match f.size {
                Some(x) => x,
                None => 0,
            };
            let l: usize = match (f.size, f.lines) {
                (Some(_), Some(x)) => x,
                _ => 0,
            };
            let key = to_lowercase(f.ext.as_str());
            add_to_groups(&mut groups, key, s, l, n_files, n_size, n_lines);
            n_files = n_files + 1;
            n_size = n_size + s;
            n_lines = n_lines + l;
        }
        i = i + 1;
    }
    assert(fs.take(fs.len() as int) =~= fs);
    let ghost g = code_groups(fs);
    let ghost keys = Seq::new(g.len(), |k: int| (g[k].0, k as usize));
    let mut keyed: Vec<(String, usize)> = Vec::new();
    let mut k: usize = 0;
    while k < groups.len()
        invariant
            k <= groups@.len() == g.len(),
            g == groups_view(groups@),
            keys == Seq::new(g.len(), |k: int| (g[k].0, k as usize)),
            keyed@.len() == k,
            text_keyed(keyed@) == keys.take(k as int),
            forall|m: int| 0 <= m < keyed@.len() ==> #[trigger] keyed@[m].1 < groups@.len(),
        decreases groups@.len() - k,
    {
        keyed.push((groups[k].0.clone(), k));
        assert(text_keyed(keyed@) =~= keys.take(k + 1));
        k = k + 1;
    }
    assert(text_keyed(keyed@) =~= keys);
    let order = order_by_keys(keyed, Ghost(groups@.len() as nat));
    let ghost ov = sorted_text(keys, false).map_values(|e: (Seq<char>, usize)| e.1);
    let mut rows: Vec<CodeSizeRow> = Vec::new();
    let mut r: usize = 0;
    while r < order.len()
        invariant
            r <= order@.len() == g.len() == groups@.len(),
            order@ == ov,
            forall|m: int| 0 <= m < order@.len() ==> #[trigger] order@[m] < groups@.len(),
            g == groups_view(groups@),
            rows@.map_values(|x: CodeSizeRow| row_view(x)) == ov.take(r as int).map_values(|x: usize| g[x as int]),
        decreases order@.len() - r,
    {
        let x = order[r];
        let (c, b, m) = groups[x].1;
        let lang = groups[x].0.clone();
        assert(lang@ == g[x as int].0);
        let row = CodeSizeRow { lang, files: c, size: b, lines: m };
        assert(row_view(row) == g[x as int]);
        let ghost old_rows = rows@;
        rows.push(row);
        proof {
            assert(ov.take(r + 1) =~= ov.take(r as int).push(x));
            assert(ov.take(r + 1).map_values(|x: usize| g[x as int]) =~= ov.take(r as int).map_values(
                |x: usize| g[x as int],
            ).push(g[x as int]));
            assert(rows@.map_values(|x: CodeSizeRow| row_view(x)) =~= old_rows.map_values(
                |x: CodeSizeRow| row_view(x),
            ).push(row_view(row)));
        }
        r = r + 1;
    }
    proof {
        assert(ov.take(ov.len() as int) =~= ov);
        assert(sorted_text(keys, false).map_values(|e: (Seq<char>, usize)| g[e.1 as int]) =~= ov.map_values(
            |x: usize| g[x as int],
        ));
    }
    CodeSizeTable { rows, files: n_files, size: n_size, lines: n_lines }
}

} // verus!
