//! Rust crates: the crate a URL names, which files of a crate are shown, and
//! the texts written about a crate.

use vstd::prelude::*;
use crate::error::{ProcessorError, Result, detail};
use crate::json::{at, at_ref, str_field, str_of, u64_of, Json};
use crate::text::{
    chars_of, chars_eq, contains, has_sub, has_prefix, has_suffix, starts_with, ends_with, split_of,
    split_char, string_of, dec, push_dec,
};

verus! {

/// The last `/`-separated part of a URL: the crate it names.
pub open spec fn last_part(url: Seq<char>) -> Seq<char> {
    split_of(url, '/').last()
}

pub(crate) fn last_part_of(url: &str) -> (r: String)
    ensures
        r@ == last_part(url@),
{
    let parts = split_char(&chars_of(url), '/');
    assert(split_of(url@, '/').len() > 0);
    string_of(&parts[parts.len() - 1])
}

/// Information about a Rust crate.
pub struct CrateInfo {
    /// Name of the crate
    pub name: String,
    /// Version of the crate
    pub version: String,
    /// Description of the crate
    pub description: Option<String>,
    /// URL of the crate's documentation
    pub documentation: Option<String>,
    /// URL of the crate's source repository
    pub repository: Option<String>,
    /// URL to download the crate package
    pub download_url: String,
}

impl CrateInfo {
    /// The crate a URL names: its last `/`-separated part; nothing else is
    /// known yet, and the URL itself is where it is downloaded from.
    pub fn from_url(url: &str) -> (r: Result<Self>)
        ensures
            r matches Ok(c) && c.name@ == last_part(url@) && c.version@ == Seq::<char>::empty()
                && c.description is None && c.documentation is None && c.repository is None
                && c.download_url@ == url@,
    {
        Ok(CrateInfo {
            name: last_part_of(url),
            version: String::new(),
            description: None,
            documentation: None,
            repository: None,
            download_url: String::from_str(url),
        })
    }
}

/// The crate name of a URL: its last `/`-separated part.
pub fn extract_crate_name_from_url(url: &str) -> (r: Result<String>)
    ensures
        r matches Ok(n) && n@ == last_part(url@),
{
    Ok(last_part_of(url))
}

/// The file names always shown from a crate.
pub open spec fn shown_file_suffixes() -> Seq<Seq<char>> {
    seq!["Cargo.toml"@, "Cargo.lock"@, "README.md"@, "LICENSE"@, "CHANGELOG.md"@, "src/lib.rs"@, "src/main.rs"@]
}

/// Whether a crate file is shown: a usual top-level file, or Rust source.
pub open spec fn shown_file(path: Seq<char>) -> bool {
    (exists|i: int| 0 <= i < shown_file_suffixes().len() && has_suffix(path, #[trigger] shown_file_suffixes()[i]))
        || has_prefix(path, "src/"@) || has_suffix(path, ".rs"@)
}

/// Whether a crate file is shown in the crate's index.
pub fn should_include_file(path: &str) -> (b: bool)
    ensures
        b == shown_file(path@),
{
    let p = chars_of(path);
    let names: Vec<&str> = vec!["Cargo.toml", "Cargo.lock", "README.md", "LICENSE", "CHANGELOG.md", "src/lib.rs", "src/main.rs"];
    let mut any = false;
    let mut i: usize = 0;
    while i < names.len()
        invariant
            i <= names@.len() == 7,
            forall|k: int| 0 <= k < 7 ==> #[trigger] names@[k]@ == shown_file_suffixes()[k],
            p@ == path@,
            any == exists|k: int| 0 <= k < i && has_suffix(path@, #[trigger] shown_file_suffixes()[k]),
        decreases names@.len() - i,
    {
        if ends_with(&p, &chars_of(names[i])) {
            any = true;
        }
        i = i + 1;
    }
    any || starts_with(&p, &chars_of("src/")) || ends_with(&p, &chars_of(".rs"))
}

/// Processor for Rust crates (`crates.io` pages).
pub struct RustCrateProcessor;

impl RustCrateProcessor {
    /// Creates a new Rust crate processor.
    pub fn new() -> (p: Self) {
        RustCrateProcessor
    }

    /// The processor's name.
    pub fn name(&self) -> (r: &'static str)
        ensures
            r@ == "Rust Crate"@,
    {
        "Rust Crate"
    }

    /// Whether `url` mentions `crates.io`.
    pub fn accepts(&self, url: &str) -> (b: bool)
        ensures
            b == has_sub(url@, "crates.io"@),
    {
        contains(&chars_of(url), &chars_of("crates.io"))
    }

    /// Rejects a URL that does not mention `crates.io`.
    pub fn validate(&self, url: &str) -> (r: Result<()>)
        ensures
            has_sub(url@, "crates.io"@) ==> r is Ok,
            !has_sub(url@, "crates.io"@) ==> (r matches Err(e) && e is Validation && detail(e)
                == "Invalid crates.io URL: "@ + url@),
    {
        if contains(&chars_of(url), &chars_of("crates.io")) {
            Ok(())
        } else {
            let mut m = String::from_str("Invalid crates.io URL: ");
            m.append(url);
            Err(ProcessorError::Validation(m))
        }
    }
}

/// Processor for crates from the `crates.io` registry.
pub struct CratesProcessor;

impl CratesProcessor {
    /// Creates a new crates processor.
    pub fn new() -> (p: Self) {
        CratesProcessor
    }

    /// The processor's name.
    pub fn name(&self) -> (r: &'static str)
        ensures
            r@ == "Crates.io"@,
    {
        "Crates.io"
    }

    /// Whether `url` mentions `crates.io`.
    pub fn accepts(&self, url: &str) -> (b: bool)
        ensures
            b == has_sub(url@, "crates.io"@),
    {
        contains(&chars_of(url), &chars_of("crates.io"))
    }

    /// Rejects a URL that is not a `crates.io/crates/` page.
    pub fn validate_url(&self, url: &str) -> (r: Result<()>)
        ensures
            has_sub(url@, "crates.io/crates/"@) ==> r is Ok,
            !has_sub(url@, "crates.io/crates/"@) ==> (r matches Err(e) && e is Message && detail(e)
                == "Not a valid Crates.io URL"@),
    {
        if contains(&chars_of(url), &chars_of("crates.io/crates/")) {
            Ok(())
        } else {
            Err(ProcessorError::new("Not a valid Crates.io URL"))
        }
    }
}

/// The heading and package information of a crate's page.
pub open spec fn crate_page_head(name: Seq<char>) -> Seq<char> {
    "# Rust Crate: "@ + name + "\n\n"@ + "## Package Information\n\n"@ + "- **Name:** "@ + name + "\n"@
}

/// A link line of a crate's page, written only when the site answered.
pub open spec fn optional_link(present: bool, label: Seq<char>, name: Seq<char>) -> Seq<char> {
    if present {
        label + name + "\n"@
    } else {
        Seq::empty()
    }
}

/// The links of a crate's page that are always written: the registry page and
/// two guesses at a repository.
pub open spec fn fixed_links(name: Seq<char>) -> Seq<char> {
    "- **Crate Page:** https://crates.io/crates/"@ + name + "\n"@
        + "- **Potential GitHub Repository:** https://github.com/rust-lang/"@ + name + "\n"@
        + "- **Alternative Repository:** https://github.com/"@ + name + "/"@ + name + "\n"@
}

/// The links of a crate's page: docs.rs and lib.rs when they answered, then
/// the fixed links.
pub open spec fn crate_page_links(name: Seq<char>, docs_available: bool, librs_available: bool) -> Seq<char> {
    "\n## Links\n\n"@ + optional_link(docs_available, "- **Documentation:** https://docs.rs/"@, name)
        + optional_link(librs_available, "- **Lib.rs Page:** https://lib.rs/crates/"@, name) + fixed_links(name)
}

/// The installation section of a crate's page.
pub open spec fn crate_page_install(name: Seq<char>) -> Seq<char> {
    "\n## Installation\n\n"@ + "Add this to your `Cargo.toml`:\n\n"@ + "```toml\n"@ + "[dependencies]\n"@
        + name + " = \"*\"\n"@ + "```\n\n"@
}

/// The usage example of a crate's page.
pub open spec fn crate_page_usage(name: Seq<char>) -> Seq<char> {
    "## Usage Example\n\n"@ + "```rust\n"@ + "// Import the "@ + name + " crate\n"@ + "use "@ + name
        + ";\n\n"@ + "fn main() {\n"@ + "    // Use the "@ + name + " crate here\n"@
        + "    println!(\"Hello from {}!\");\n"@ + "}\n"@ + "```\n"@
}

/// The page written for crate `name`, with links to the documentation sites
/// that answered.
pub open spec fn crate_page_text(name: Seq<char>, docs_available: bool, librs_available: bool) -> Seq<char> {
    crate_page_head(name) + crate_page_links(name, docs_available, librs_available) + crate_page_install(name)
        + crate_page_usage(name)
}

/// Each availability flag controls its own link on the crate page: when
/// lib.rs answered, the page holds the Lib.rs line, and when docs.rs
/// answered, the Documentation line; turning either flag on makes the page
/// longer by exactly its line.
pub proof fn law_crate_links_follow_their_flags(name: Seq<char>, docs_available: bool, librs_available: bool)
    ensures
        librs_available ==> has_sub(
            crate_page_text(name, docs_available, librs_available),
            "- **Lib.rs Page:** https://lib.rs/crates/"@ + name + "\n"@,
        ),
        docs_available ==> has_sub(
            crate_page_text(name, docs_available, librs_available),
            "- **Documentation:** https://docs.rs/"@ + name + "\n"@,
        ),
        crate_page_text(name, docs_available, true).len() == crate_page_text(name, docs_available, false).len()
            + ("- **Lib.rs Page:** https://lib.rs/crates/"@ + name + "\n"@).len(),
        crate_page_text(name, true, librs_available).len() == crate_page_text(name, false, librs_available).len()
            + ("- **Documentation:** https://docs.rs/"@ + name + "\n"@).len(),
{
    let lib = "- **Lib.rs Page:** https://lib.rs/crates/"@ + name + "\n"@;
    let doc = "- **Documentation:** https://docs.rs/"@ + name + "\n"@;
    let head = crate_page_head(name) + "\n## Links\n\n"@;
    let od = optional_link(docs_available, "- **Documentation:** https://docs.rs/"@, name);
    let ol = optional_link(librs_available, "- **Lib.rs Page:** https://lib.rs/crates/"@, name);
    let tail = fixed_links(name) + crate_page_install(name) + crate_page_usage(name);
    let t = crate_page_text(name, docs_available, librs_available);
    assert(t =~= head + od + ol + tail);
    if librs_available {
        assert(ol == lib);
        crate::text::lemma_sub_between(head + od, lib, tail);
    }
    if docs_available {
        assert(od == doc);
        crate::text::lemma_sub_between(head, doc, ol + tail);
        assert(head + doc + (ol + tail) =~= t);
    }
}

/// The page written for crate `name`: package information, links (docs.rs
/// and lib.rs when they answered), installation and a usage example.
pub fn crate_page(name: &str, docs_available: bool, librs_available: bool) -> (r: String)
    ensures
        r@ == crate_page_text(name@, docs_available, librs_available),
{
    let mut c = String::from_str("# Rust Crate: ");
    c.append(name);
    c.append("\n\n");
    c.append("## Package Information\n\n");
    c.append("- **Name:** ");
    c.append(name);
    c.append("\n");
    assert(c@ =~= crate_page_head(name@));
    push_crate_links(&mut c, name, docs_available, librs_available);
    push_crate_install(&mut c, name);
    push_crate_usage(&mut c, name);
    c
}

fn push_crate_links(c: &mut String, name: &str, docs_available: bool, librs_available: bool)
    ensures
        final(c)@ == old(c)@ + crate_page_links(name@, docs_available, librs_available),
{
    c.append("\n## Links\n\n");
    push_optional_link(c, docs_available, "- **Documentation:** https://docs.rs/", name);
    push_optional_link(c, librs_available, "- **Lib.rs Page:** https://lib.rs/crates/", name);
    push_fixed_links(c, name);
    assert(c@ =~= old(c)@ + crate_page_links(name@, docs_available, librs_available));
}

fn push_optional_link(c: &mut String, present: bool, label: &str, name: &str)
    ensures
        final(c)@ == old(c)@ + optional_link(present, label@, name@),
{
    if present {
        c.append(label);
        c.append(name);
        c.append("\n");
    }
    assert(c@ =~= old(c)@ + optional_link(present, label@, name@));
}

fn push_fixed_links(c: &mut String, name: &str)
    ensures
        final(c)@ == old(c)@ + fixed_links(name@),
{
    c.append("- **Crate Page:** https://crates.io/crates/");
    c.append(name);
    c.append("\n");
    c.append("- **Potential GitHub Repository:** https://github.com/rust-lang/");
    c.append(name);
    c.append("\n");
    c.append("- **Alternative Repository:** https://github.com/");
    c.append(name);
    c.append("/");
    c.append(name);
    c.append("\n");
    assert(c@ =~= old(c)@ + fixed_links(name@));
}

fn push_crate_install(c: &mut String, name: &str)
    ensures
        final(c)@ == old(c)@ + crate_page_install(name@),
{
    c.append("\n## Installation\n\n");
    c.append("Add this to your `Cargo.toml`:\n\n");
    c.append("```toml\n");
    c.append("[dependencies]\n");
    c.append(name);
    c.append(" = \"*\"\n");
    c.append("```\n\n");
    assert(c@ =~= old(c)@ + crate_page_install(name@));
}

fn push_crate_usage(c: &mut String, name: &str)
    ensures
        final(c)@ == old(c)@ + crate_page_usage(name@),
{
    c.append("## Usage Example\n\n");
    c.append("```rust\n");
    c.append("// Import the ");
    c.append(name);
    c.append(" crate\n");
    c.append("use ");
    c.append(name);
    c.append(";\n\n");
    c.append("fn main() {\n");
    c.append("    // Use the ");
    c.append(name);
    c.append(" crate here\n");
    c.append("    println!(\"Hello from {}!\");\n");
    c.append("}\n");
    c.append("```\n");
    assert(c@ =~= old(c)@ + crate_page_usage(name@));
}

/// The file name of the page of crate `name`.
pub fn crate_page_file(name: &str) -> (r: String)
    ensures
        r@ == name@ + ".md"@,
{
    let mut s = String::from_str(name);
    s.append(".md");
    s
}

/// The URL a crate's version is downloaded from.
pub fn crate_download_url(name: &str, version: &str) -> (r: String)
    ensures
        r@ == "https://crates.io/api/v1/crates/"@ + name@ + "/"@ + version@ + "/download"@,
{
    let mut s = String::from_str("https://crates.io/api/v1/crates/");
    s.append(name);
    s.append("/");
    s.append(version);
    s.append("/download");
    s
}

/// A line made of `label` and the text member `key` of `c`, when there is one.
pub open spec fn labelled_line(c: Json, key: Seq<char>, label: Seq<char>) -> Seq<char> {
    match str_of(at(c, key)) {
        Some(v) => label + v + "\n"@,
        None => Seq::empty(),
    }
}

/// The description line of a crate object.
pub open spec fn description_line(c: Json) -> Seq<char> {
    match str_of(at(c, "description"@)) {
        Some(d) => "\nDescription: "@ + d + "\n"@,
        None => "\nDescription: No description available\n"@,
    }
}

/// The download count line of a crate object.
pub open spec fn downloads_line(c: Json) -> Seq<char> {
    match u64_of(at(c, "downloads"@)) {
        Some(n) => "Downloads: "@ + dec(n as nat) + "\n"@,
        None => Seq::empty(),
    }
}

/// The lines written of the registry's crate object.
pub open spec fn crate_info_lines(c: Json) -> Seq<char> {
    labelled_line(c, "max_version"@, "Version: "@) + description_line(c) + downloads_line(c) + labelled_line(
        c,
        "documentation"@,
        "Documentation: "@,
    )
}

/// The metadata part of a crate's index, from the registry's answer `data`.
pub open spec fn crate_metadata_text(name: Seq<char>, url: Seq<char>, data: Json) -> Seq<char> {
    "# Rust Crate: "@ + name + "\n\n"@ + "Source: "@ + url + "\n"@ + match field_of(data, "crate"@) {
        Some(c) => crate_info_lines(c),
        None => Seq::empty(),
    }
}

/// The member `key` of an object.
pub open spec fn field_of(j: Json, key: Seq<char>) -> Option<Json> {
    crate::json::field(j, key)
}

/// A file of an unpacked crate: its path relative to the crate and its text
/// when it could be read.
pub struct CrateFile {
    /// Path relative to the unpacked crate
    pub rel_path: String,
    /// The file's text, when it could be read
    pub content: Option<String>,
}

/// The package contents part: each file's heading, and the text of the shown
/// files that could be read.
pub open spec fn crate_files_text(fs: Seq<CrateFile>) -> Seq<char>
    decreases fs.len(),
{
    if fs.len() == 0 {
        Seq::empty()
    } else {
        let f = fs.last();
        crate_files_text(fs.drop_last()) + "### "@ + f.rel_path@ + "\n"@ + if shown_file(f.rel_path@) {
            match f.content {
                Some(c) => "```rust\n"@ + c@ + "\n```\n\n"@,
                None => Seq::empty(),
            }
        } else {
            Seq::empty()
        }
    }
}

/// The dependency lines of the first version of a registry answer.
pub open spec fn crate_dependency_lines(deps: Seq<Json>) -> Seq<char>
    decreases deps.len(),
{
    if deps.len() == 0 {
        Seq::empty()
    } else {
        let d = deps.last();
        crate_dependency_lines(deps.drop_last()) + match (str_of(at(d, "crate_id"@)), str_of(at(d, "req"@))) {
            (Some(n), Some(r)) => "- "@ + n + " = \""@ + r + "\"\n"@,
            _ => Seq::empty(),
        }
    }
}

/// The first version object of a registry answer.
pub open spec fn first_version(data: Json) -> Option<Json> {
    match field_of(data, "versions"@) {
        Some(Json::Array(v)) => if v@.len() > 0 {
            Some(v@[0])
        } else {
            None
        },
        _ => None,
    }
}

/// The dependency part of a crate's index.
pub open spec fn crate_dependencies_part(data: Json) -> Seq<char> {
    match first_version(data) {
        Some(v) => match field_of(v, "dependencies"@) {
            Some(Json::Array(d)) => "\n## Dependencies:\n\n"@ + crate_dependency_lines(d@),
            _ => Seq::empty(),
        },
        None => Seq::empty(),
    }
}

/// The index of a crate: metadata, and when a version could be downloaded,
/// its files, dependencies and the repository's content.
pub open spec fn crate_index_text(
    name: Seq<char>,
    url: Seq<char>,
    data: Json,
    files: Option<Seq<CrateFile>>,
    github: Option<Seq<char>>,
) -> Seq<char> {
    crate_metadata_text(name, url, data) + match files {
        Some(fs) => "\n## Package Contents:\n\n"@ + crate_files_text(fs) + crate_dependencies_part(data) + match github {
            Some(g) => "\n## GitHub Repository Content\n\n"@ + g,
            None => Seq::empty(),
        },
        None => Seq::empty(),
    }
}

fn push_crate_metadata(out: &mut String, name: &str, url: &str, data: &Json)
    ensures
        final(out)@ == old(out)@ + crate_metadata_text(name@, url@, *data),
{
    out.append("# Rust Crate: ");
    out.append(name);
    out.append("\n\n");
    out.append("Source: ");
    out.append(url);
    out.append("\n");
    let ghost p0 = out@;
    match data.get("crate") {
        Some(c) => {
            push_labelled_line(out, c, "max_version", "Version: ");
            push_description_line(out, c);
            push_downloads_line(out, c);
            push_labelled_line(out, c, "documentation", "Documentation: ");
            assert(out@ =~= p0 + crate_info_lines(*c));
        },
        None => {
            assert(out@ =~= p0 + Seq::<char>::empty());
        },
    }
    assert(out@ =~= old(out)@ + crate_metadata_text(name@, url@, *data));
}

fn push_labelled_line(out: &mut String, c: &Json, key: &str, label: &str)
    ensures
        final(out)@ == old(out)@ + labelled_line(*c, key@, label@),
{
    match str_field(c, key) {
        Some(v) => {
            out.append(label);
            out.append(v.as_str());
            out.append("\n");
            assert(out@ =~= old(out)@ + labelled_line(*c, key@, label@));
        },
        None => {
            assert(out@ =~= old(out)@ + labelled_line(*c, key@, label@));
        },
    }
}

fn push_description_line(out: &mut String, c: &Json)
    ensures
        final(out)@ == old(out)@ + description_line(*c),
{
    match str_field(c, "description") {
        Some(d) => {
            out.append("\nDescription: ");
            out.append(d.as_str());
            out.append("\n");
        },
        None => out.append("\nDescription: No description available\n"),
    }
    assert(out@ =~= old(out)@ + description_line(*c));
}

fn push_downloads_line(out: &mut String, c: &Json)
    ensures
        final(out)@ == old(out)@ + downloads_line(*c),
{
    match u64_field_of(c, "downloads") {
        Some(n) => {
            out.append("Downloads: ");
            push_dec(out, n);
            out.append("\n");
            assert(out@ =~= old(out)@ + downloads_line(*c));
        },
        None => {
            assert(out@ =~= old(out)@ + downloads_line(*c));
        },
    }
}

fn u64_field_of(j: &Json, key: &str) -> (r: Option<u64>)
    ensures
        r == u64_of(at(*j, key@)),
{
    crate::json::u64_field(j, key)
}

fn push_crate_files(out: &mut String, fs: &Vec<CrateFile>)
    ensures
        final(out)@ == old(out)@ + crate_files_text(fs@),
{
    let ghost start = out@;
    let mut k: usize = 0;
    assert(fs@.take(0) =~= Seq::<CrateFile>::empty());
    while k < fs.len()
        invariant
            k <= fs@.len(),
            out@ == start + crate_files_text(fs@.take(k as int)),
        decreases fs@.len() - k,
    {
        assert(fs@.take(k + 1).drop_last() =~= fs@.take(k as int));
        assert(fs@.take(k + 1).last() == fs@[k as int]);
        out.append("### ");
        out.append(fs[k].rel_path.as_str());
        out.append("\n");
        let ghost before = out@;
        if should_include_file(fs[k].rel_path.as_str()) {
            match &fs[k].content {
                Some(c) => {
                    out.append("```rust\n");
                    out.append(c.as_str());
                    out.append("\n```\n\n");
                },
                None => {
                    assert(before + Seq::<char>::empty() =~= before);
                },
            }
        } else {
            assert(before + Seq::<char>::empty() =~= before);
        }
        k = k + 1;
    }
    assert(fs@.take(fs@.len() as int) =~= fs@);
}

fn push_crate_dependencies(out: &mut String, data: &Json)
    ensures
        final(out)@ == old(out)@ + crate_dependencies_part(*data),
{
    match data.get("versions") {
        Some(Json::Array(vs)) => {
            if vs.len() > 0 {
                match vs[0].get("dependencies") {
                    Some(Json::Array(d)) => {
                        out.append("\n## Dependencies:\n\n");
                        let ghost start = out@;
                        let mut k: usize = 0;
                        assert(d@.take(0) =~= Seq::<Json>::empty());
                        while k < d.len()
                            invariant
                                k <= d@.len(),
                                out@ == start + crate_dependency_lines(d@.take(k as int)),
                            decreases d@.len() - k,
                        {
                            assert(d@.take(k + 1).drop_last() =~= d@.take(k as int));
                            assert(d@.take(k + 1).last() == d@[k as int]);
                            let ghost before = out@;
                            match (str_field(&d[k], "crate_id"), str_field(&d[k], "req")) {
                                (Some(n), Some(r)) => {
                                    out.append("- ");
                                    out.append(n.as_str());
                                    out.append(" = \"");
                                    out.append(r.as_str());
                                    out.append("\"\n");
                                },
                                _ => {
                                    assert(before + Seq::<char>::empty() =~= before);
                                },
                            }
                            k = k + 1;
                        }
                        assert(d@.take(d@.len() as int) =~= d@);
                    },
                    _ => {
                        assert(old(out)@ + crate_dependencies_part(*data) =~= old(out)@);
                    },
                }
            } else {
                assert(old(out)@ + crate_dependencies_part(*data) =~= old(out)@);
            }
        },
        _ => {
            assert(old(out)@ + crate_dependencies_part(*data) =~= old(out)@);
        },
    }
}

/// The index of crate `name` (from `url`): metadata from the registry's
/// answer `data`; when a version was downloaded, its top-level files, the
/// dependencies of the first version, and the repository's content when it
/// could be processed.
pub fn crate_index(
    name: &str,
    url: &str,
    data: &Json,
    files: &Option<Vec<CrateFile>>,
    github: &Option<String>,
) -> (r: String)
    ensures
        r@ == crate_index_text(
            name@,
            url@,
            *data,
            match files {
                Some(fs) => Some(fs@),
                None => None,
            },
            match github {
                Some(g) => Some(g@),
                None => None,
            },
        ),
{
    let mut out = String::new();
    push_crate_metadata(&mut out, name, url, data);
    let ghost p0 = out@;
    match files {
        Some(fs) => {
            out.append("\n## Package Contents:\n\n");
            push_crate_files(&mut out, fs);
            push_crate_dependencies(&mut out, data);
            let ghost p1 = out@;
            match github {
                Some(g) => {
                    out.append("\n## GitHub Repository Content\n\n");
                    out.append(g.as_str());
                },
                None => {},
            }
        },
        None => {},
    }
    proof {
        reveal_strlit("");
    }
    assert(out@ =~= crate_index_text(
        name@,
        url@,
        *data,
        match files {
            Some(fs) => Some(fs@),
            None => None,
        },
        match github {
            Some(g) => Some(g@),
            None => None,
        },
    ));
    out
}

} // verus!
