//! Text and naming shared by all processors.

use vstd::prelude::*;
use crate::text::{push_char, chars_of, chars_eq};
use crate::bindings::{utc_now_formatted, utc_now_rfc3339};

verus! {

/// The character a file name uses in place of `c`.
pub open spec fn safe_char(c: char) -> char {
    if c == '/' || c == '\\' || c == ':' || c == '*' || c == '?' || c == '"' || c == '<' || c
        == '>' || c == '|' {
        '-'
    } else {
        c
    }
}

/// `name` with each character that file names cannot hold replaced by `-`.
pub open spec fn safe_name(name: Seq<char>) -> Seq<char> {
    Seq::new(name.len(), |i: int| safe_char(name[i]))
}

/// Sanitize a string for use as a filename.
pub fn sanitize_filename(name: &str) -> (r: String)
    ensures
        r@ == safe_name(name@),
{
    let v = chars_of(name);
    let mut out = String::new();
    let mut i: usize = 0;
    while i < v.len()
        invariant
            i <= v@.len(),
            v@ == name@,
            out@ == safe_name(name@).take(i as int),
        decreases v@.len() - i,
    {
        let c = v[i];
        let d = if c == '/' || c == '\\' || c == ':' || c == '*' || c == '?' || c == '"' || c
            == '<' || c == '>' || c == '|' {
            '-'
        } else {
            c
        };
        push_char(&mut out, d);
        assert(safe_name(name@).take(i + 1) =~= safe_name(name@).take(i as int).push(d));
        i = i + 1;
    }
    assert(safe_name(name@).take(v@.len() as int) =~= safe_name(name@));
    out
}

/// The uppercase form of `s` as `str::to_uppercase` computes it.
pub uninterp spec fn uppercase_of(s: Seq<char>) -> Seq<char>;

/// `str::to_uppercase`. The contract only names the result: Unicode case
/// mapping is not restated here.
#[verifier::external_body]
fn to_uppercase(s: &str) -> (r: String)
    ensures
        r@ == uppercase_of(s@),
{
    s.to_uppercase()
}

/// The table of contents for each package type.
pub open spec fn contents_table(package_type: Seq<char>) -> Seq<char> {
    if package_type == "github"@ {
        "1. [Overview](#overview)\n"@ + "2. [Repository Information](#repository-information)\n"@
            + "3. [Code Structure](#code-structure)\n"@ + "4. [Key Files](#key-files)\n"@
            + "5. [Dependencies](#dependencies)\n"@ + "6. [Usage Examples](#usage-examples)\n"@
    } else if package_type == "pypi"@ || package_type == "npm"@ || package_type == "go"@ {
        "1. [Package Information](#package-information)\n"@ + "2. [Installation](#installation)\n"@
            + "3. [Dependencies](#dependencies)\n"@
            + "4. [API Documentation](#api-documentation)\n"@
            + "5. [Usage Examples](#usage-examples)\n"@
    } else if package_type == "crate"@ {
        "1. [Crate Information](#crate-information)\n"@ + "2. [Installation](#installation)\n"@
            + "3. [Dependencies](#dependencies)\n"@
            + "4. [API Documentation](#api-documentation)\n"@
            + "5. [Usage Examples](#usage-examples)\n"@
    } else {
        "1. [Overview](#overview)\n"@ + "2. [Documentation](#documentation)\n"@
    }
}

/// The organised document: title, type, time stamp, table of contents, the
/// content unchanged, and a footer.
pub open spec fn organized(
    content: Seq<char>,
    package_name: Seq<char>,
    package_type: Seq<char>,
    generated: Seq<char>,
) -> Seq<char> {
    "# "@ + package_name + " Documentation\n\n"@ + "**Type:** "@ + uppercase_of(package_type)
        + "\n"@ + "**Generated:** "@ + generated + "\n\n"@ + "## Table of Contents\n\n"@
        + contents_table(package_type) + "\n---\n\n"@ + content + "\n\n---\n\n"@
        + "*Documentation generated by LlamaPackageService for "@ + package_name + " ("@
        + package_type + ")*\n"@
}

fn is(v: &Vec<char>, s: &str) -> (b: bool)
    ensures
        b == (v@ == s@),
{
    chars_eq(v, &chars_of(s))
}

/// Organize content under a title, type line, time stamp (`generated`) and
/// a table of contents that depends on the package type.
pub fn organize_content_at(content: &str, package_name: &str, package_type: &str, generated: &str) -> (r: String)
    ensures
        r@ == organized(content@, package_name@, package_type@, generated@),
{
    let mut out = String::from_str("# ");
    out.append(package_name);
    out.append(" Documentation\n\n");
    out.append("**Type:** ");
    out.append(to_uppercase(package_type).as_str());
    out.append("\n");
    out.append("**Generated:** ");
    out.append(generated);
    out.append("\n\n");
    out.append("## Table of Contents\n\n");
    let t = chars_of(package_type);
    if is(&t, "github") {
        out.append("1. [Overview](#overview)\n");
        out.append("2. [Repository Information](#repository-information)\n");
        out.append("3. [Code Structure](#code-structure)\n");
        out.append("4. [Key Files](#key-files)\n");
        out.append("5. [Dependencies](#dependencies)\n");
        out.append("6. [Usage Examples](#usage-examples)\n");
    } else if is(&t, "pypi") || is(&t, "npm") || is(&t, "go") {
        out.append("1. [Package Information](#package-information)\n");
        out.append("2. [Installation](#installation)\n");
        out.append("3. [Dependencies](#dependencies)\n");
        out.append("4. [API Documentation](#api-documentation)\n");
        out.append("5. [Usage Examples](#usage-examples)\n");
    } else if is(&t, "crate") {
        out.append("1. [Crate Information](#crate-information)\n");
        out.append("2. [Installation](#installation)\n");
        out.append("3. [Dependencies](#dependencies)\n");
        out.append("4. [API Documentation](#api-documentation)\n");
        out.append("5. [Usage Examples](#usage-examples)\n");
    } else {
        out.append("1. [Overview](#overview)\n");
        out.append("2. [Documentation](#documentation)\n");
    }
    out.append("\n---\n\n");
    out.append(content);
    out.append("\n\n---\n\n");
    out.append("*Documentation generated by LlamaPackageService for ");
    out.append(package_name);
    out.append(" (");
    out.append(package_type);
    out.append(")*\n");
    assert(out@ =~= organized(content@, package_name@, package_type@, generated@));
    out
}

/// The title that heads the information section of each package type.
pub open spec fn type_title(package_type: Seq<char>) -> Seq<char> {
    if package_type == "github_repo"@ {
        "GitHub Repository"@
    } else if package_type == "github_org"@ {
        "GitHub Organization"@
    } else if package_type == "pypi"@ {
        "PyPI Package"@
    } else if package_type == "pypi_profile"@ {
        "PyPI User Profile"@
    } else if package_type == "npm"@ {
        "NPM Package"@
    } else if package_type == "crate"@ {
        "Rust Crate"@
    } else if package_type == "go"@ {
        "Go Package"@
    } else {
        "Package"@
    }
}

/// The lines listing key/value information.
pub open spec fn info_lines(info: Seq<(String, String)>) -> Seq<char>
    decreases info.len(),
{
    if info.len() == 0 {
        Seq::empty()
    } else {
        info_lines(info.drop_last()) + "- **"@ + info.last().0@ + "**: "@ + info.last().1@ + "\n"@
    }
}

/// A package information section: title, the listed information, and the
/// processing time stamp.
pub open spec fn info_section(
    package_name: Seq<char>,
    package_type: Seq<char>,
    info: Seq<(String, String)>,
    timestamp: Seq<char>,
) -> Seq<char> {
    "# "@ + type_title(package_type) + ": "@ + package_name + "\n"@ + "\n"@
        + "## Package Information\n"@ + "\n"@ + info_lines(info) + "\n"@ + "## Processed\n"@
        + "\n"@ + "- **Timestamp**: "@ + timestamp + "\n"@
}

/// Generate a standardized package information section; `timestamp` is the
/// processing time in RFC 3339 form.
pub fn package_info_section_at(
    package_name: &str,
    package_type: &str,
    info: &Vec<(String, String)>,
    timestamp: &str,
) -> (r: String)
    ensures
        r@ == info_section(package_name@, package_type@, info@, timestamp@),
{
    let t = chars_of(package_type);
    let title = if is(&t, "github_repo") {
        "GitHub Repository"
    } else if is(&t, "github_org") {
        "GitHub Organization"
    } else if is(&t, "pypi") {
        "PyPI Package"
    } else if is(&t, "pypi_profile") {
        "PyPI User Profile"
    } else if is(&t, "npm") {
        "NPM Package"
    } else if is(&t, "crate") {
        "Rust Crate"
    } else if is(&t, "go") {
        "Go Package"
    } else {
        "Package"
    };
    let mut out = String::from_str("# ");
    out.append(title);
    out.append(": ");
    out.append(package_name);
    out.append("\n");
    out.append("\n");
    out.append("## Package Information\n");
    out.append("\n");
    let ghost start = out@;
    let mut i: usize = 0;
    assert(info@.take(0) =~= Seq::<(String, String)>::empty());
    while i < info.len()
        invariant
            i <= info@.len(),
            out@ == start + info_lines(info@.take(i as int)),
        decreases info@.len() - i,
    {
        assert(info@.take(i + 1).drop_last() =~= info@.take(i as int));
        out.append("- **");
        out.append(info[i].0.as_str());
        out.append("**: ");
        out.append(info[i].1.as_str());
        out.append("\n");
        i = i + 1;
    }
    assert(info@.take(info@.len() as int) =~= info@);
    out.append("\n");
    out.append("## Processed\n");
    out.append("\n");
    out.append("- **Timestamp**: ");
    out.append(timestamp);
    out.append("\n");
    assert(out@ =~= info_section(package_name@, package_type@, info@, timestamp@));
    out
}

/// The output directory for a package type when saving processor output.
pub open spec fn processor_output_dir(package_type: Seq<char>) -> Seq<char> {
    if package_type == "github_repo"@ {
        "github_repos"@
    } else if package_type == "github_org"@ {
        "github_orgs"@
    } else if package_type == "pypi"@ {
        "pypi_packages"@
    } else if package_type == "pypi_profile"@ {
        "pypi_profiles"@
    } else if package_type == "npm"@ {
        "npm_packages"@
    } else if package_type == "crate"@ {
        "rust_crates"@
    } else if package_type == "go"@ {
        "go_packages"@
    } else {
        "other"@
    }
}

/// The output directory for a package type when saving comprehensive output.
pub open spec fn comprehensive_output_dir(package_type: Seq<char>) -> Seq<char> {
    if package_type == "github"@ {
        "github_repos"@
    } else {
        processor_output_dir(package_type)
    }
}

/// Where processor output goes: the type directory, the Markdown file name
/// and the time-stamped text file name.
pub struct OutputNames {
    /// Directory under the output directory
    pub type_dir: String,
    /// Name of the Markdown copy
    pub md_name: String,
    /// Name of the time-stamped text copy
    pub txt_name: String,
    /// Name of the copy kept in the output directory itself, if any
    pub root_name: Option<String>,
}

/// `{timestamp}_{name}_{type}_processed.txt`.
pub open spec fn processed_name(timestamp: Seq<char>, name: Seq<char>, package_type: Seq<char>) -> Seq<char> {
    timestamp + "_"@ + name + "_"@ + package_type + "_"@ + "processed"@ + ".txt"@
}

fn processed_file_name(timestamp: &str, name: &str, package_type: &str) -> (r: String)
    ensures
        r@ == processed_name(timestamp@, name@, package_type@),
{
    let mut out = String::from_str(timestamp);
    out.append("_");
    out.append(name);
    out.append("_");
    out.append(package_type);
    out.append("_");
    out.append("processed");
    out.append(".txt");
    out
}

fn dir_for(package_type: &str, comprehensive: bool) -> (r: &'static str)
    ensures
        comprehensive ==> r@ == comprehensive_output_dir(package_type@),
        !comprehensive ==> r@ == processor_output_dir(package_type@),
{
    let t = chars_of(package_type);
    if comprehensive && is(&t, "github") {
        "github_repos"
    } else if is(&t, "github_repo") {
        "github_repos"
    } else if is(&t, "github_org") {
        "github_orgs"
    } else if is(&t, "pypi") {
        "pypi_packages"
    } else if is(&t, "pypi_profile") {
        "pypi_profiles"
    } else if is(&t, "npm") {
        "npm_packages"
    } else if is(&t, "crate") {
        "rust_crates"
    } else if is(&t, "go") {
        "go_packages"
    } else {
        "other"
    }
}

/// The file names under which processor output is saved; `timestamp` is
/// the `%Y%m%d_%H%M%S` form of the current time.
pub fn processor_output_names(package_name: &str, package_type: &str, timestamp: &str) -> (r: OutputNames)
    ensures
        r.type_dir@ == processor_output_dir(package_type@),
        r.md_name@ == package_name@ + ".md"@,
        r.txt_name@ == processed_name(timestamp@, package_name@, package_type@),
        r.root_name is None,
{
    let mut md = String::from_str(package_name);
    md.append(".md");
    OutputNames {
        type_dir: String::from_str(dir_for(package_type, false)),
        md_name: md,
        txt_name: processed_file_name(timestamp, package_name, package_type),
        root_name: None,
    }
}

/// The file names under which comprehensive output is saved: names are
/// sanitized, and GitHub repositories also get a copy in the output directory.
pub fn comprehensive_output_names(package_name: &str, package_type: &str, timestamp: &str) -> (r: OutputNames)
    ensures
        r.type_dir@ == comprehensive_output_dir(package_type@),
        r.md_name@ == safe_name(package_name@) + ".md"@,
        r.txt_name@ == processed_name(timestamp@, safe_name(package_name@), package_type@),
        package_type@ == "github"@ ==> (r.root_name matches Some(n) && n@ == safe_name(
            package_name@,
        ) + "_github_repo.txt"@),
        package_type@ != "github"@ ==> r.root_name is None,
{
    let safe = sanitize_filename(package_name);
    let mut md = safe.clone();
    md.append(".md");
    let t = chars_of(package_type);
    let root = if is(&t, "github") {
        let mut n = safe.clone();
        n.append("_github_repo.txt");
        Some(n)
    } else {
        None
    };
    OutputNames {
        type_dir: String::from_str(dir_for(package_type, true)),
        md_name: md,
        txt_name: processed_file_name(timestamp, safe.as_str(), package_type),
        root_name: root,
    }
}

/// Organizes content into the documentation layout, stamped with the
/// current time.
pub fn organize_content(content: &str, package_name: &str, package_type: &str) -> (r: String)
    ensures
        exists|generated: Seq<char>|
            r@ == #[trigger] organized(content@, package_name@, package_type@, generated),
{
    let generated = utc_now_formatted("%Y-%m-%d %H:%M:%S UTC");
    organize_content_at(content, package_name, package_type, generated.as_str())
}

/// Generates a standardized package information section, stamped with the
/// current time in RFC 3339 form.
pub fn generate_package_info_section(
    package_name: &str,
    package_type: &str,
    info: &Vec<(String, String)>,
) -> (r: String)
    ensures
        exists|timestamp: Seq<char>|
            r@ == #[trigger] info_section(package_name@, package_type@, info@, timestamp),
{
    let timestamp = utc_now_rfc3339();
    package_info_section_at(package_name, package_type, info, timestamp.as_str())
}


/// A sanitized name holds none of the characters file names cannot hold,
/// keeps its length, and sanitizing it again changes nothing.
pub proof fn law_sanitized_names_are_safe(name: Seq<char>)
    ensures
        safe_name(name).len() == name.len(),
        forall|i: int| 0 <= i < name.len() ==> safe_char(#[trigger] safe_name(name)[i]) == safe_name(name)[i],
        safe_name(safe_name(name)) == safe_name(name),
{
    assert(safe_name(safe_name(name)) =~= safe_name(name));
}

} // verus!
