//! Documentation drawn from a Python package's text: code examples from its
//! README and API notes from its source files.

use vstd::prelude::*;
use crate::text::{
    push_char, push_chars, chars_of, chars_eq, contains, has_sub, has_prefix, has_suffix, ends_with,
    lines, lines_of, trim, trim_start, trim_chars, trim_start_chars, starts_with, tail_from, string_of,
    dec, push_dec, before_char, before_char_of,
};
use crate::bindings::{path_extension, extension_of};
use crate::error::{ProcessorError, Result, detail};
use crate::json::{at, at_ref, str_field, str_of, Json};
use crate::processors::github_report::{text_or, order_of_paths, paths_in_order};

verus! {

/// `s` without its leading backticks (`trim_start_matches('`')`).
pub open spec fn without_backticks(s: Seq<char>) -> Seq<char>
    decreases s.len(),
{
    if s.len() > 0 && s[0] == '`' {
        without_backticks(s.drop_first())
    } else {
        s
    }
}

fn drop_backticks(s: &[char]) -> (r: Vec<char>)
    ensures
        r@ == without_backticks(s@),
{
    let mut i: usize = 0;
    assert(s@.skip(0) =~= s@);
    while i < s.len() && s[i] == '`'
        invariant
            i <= s@.len(),
            without_backticks(s@) == without_backticks(s@.skip(i as int)),
        decreases s@.len() - i,
    {
        assert(s@.skip(i as int).drop_first() =~= s@.skip(i + 1));
        i = i + 1;
    }
    tail_from(s, i)
}

/// Scanning the lines of a README: the examples found, whether a block is
/// open, the open block's text, and its language.
pub open spec fn blocks_scan(ls: Seq<Seq<char>>) -> (Seq<char>, bool, Seq<char>, Seq<char>)
    decreases ls.len(),
{
    if ls.len() == 0 {
        (Seq::empty(), false, Seq::empty(), Seq::empty())
    } else {
        let (out, open, block, lang) = blocks_scan(ls.drop_last());
        let l = ls.last();
        if has_prefix(l, "```"@) {
            if open {
                if block.len() > 0 {
                    (out + "```"@ + lang + "\n"@ + block + "```\n\n"@, false, Seq::empty(), Seq::empty())
                } else {
                    (out, false, block, lang)
                }
            } else {
                (out, true, block, without_backticks(l))
            }
        } else if open {
            (out, open, block + l + "\n"@, lang)
        } else {
            (out, open, block, lang)
        }
    }
}

/// The fenced code blocks of a README, each closed block with text
/// reproduced with its language; a note when there is none.
pub open spec fn code_blocks_text(text: Seq<char>) -> Seq<char> {
    let out = blocks_scan(lines_of(text)).0;
    if out.len() == 0 {
        "No code examples found in README.\n"@
    } else {
        out
    }
}

/// Extracts the fenced code blocks of a README.
pub fn extract_code_blocks(text: &str) -> (r: String)
    ensures
        r@ == code_blocks_text(text@),
{
    let ls = lines(&chars_of(text));
    let ghost all = lines_of(text@);
    let mut out = String::new();
    let mut open = false;
    let mut block = String::new();
    let mut lang: Vec<char> = Vec::new();
    let mut i: usize = 0;
    while i < ls.len()
        invariant
            i <= ls@.len() == all.len(),
            forall|k: int| 0 <= k < ls@.len() ==> #[trigger] ls@[k]@ == all[k],
            (out@, open, block@, lang@) == blocks_scan(all.take(i as int)),
        decreases ls@.len() - i,
    {
        assert(all.take(i + 1).drop_last() =~= all.take(i as int));
        assert(all.take(i + 1).last() == all[i as int]);
        let l = &ls[i];
        if starts_with(l, &chars_of("```")) {
            if open {
                open = false;
                if !block.as_str().is_empty() {
                    out.append("```");
                    push_chars(&mut out, &lang);
                    out.append("\n");
                    out.append(block.as_str());
                    out.append("```\n\n");
                    block = String::new();
                    lang = Vec::new();
                }
            } else {
                open = true;
                lang = drop_backticks(l);
            }
        } else if open {
            push_chars(&mut block, l);
            block.append("\n");
        }
        i = i + 1;
    }
    assert(all.take(ls@.len() as int) =~= all);
    if out.as_str().is_empty() {
        String::from_str("No code examples found in README.\n")
    } else {
        out
    }
}

/// The name of the class a trimmed `class` line defines.
pub open spec fn class_name_of(t: Seq<char>) -> Seq<char> {
    trim(before_char(before_char(t.skip(6), '('), ':'))
}

/// The signature of the function a trimmed `def` line defines.
pub open spec fn signature_of(t: Seq<char>) -> Seq<char> {
    trim(before_char(t.skip(4), ':'))
}

/// Whether a line opens a docstring.
pub open spec fn opens_doc(d: Seq<char>) -> bool {
    has_prefix(d, "\"\"\""@) || has_prefix(d, "'''"@)
}

/// Whether a line holds a docstring quote.
pub open spec fn has_quotes(d: Seq<char>) -> bool {
    has_sub(d, "\"\"\""@) || has_sub(d, "'''"@)
}

/// The docstring text gathered from line `j` on, in the given state.
pub open spec fn doc_from(all: Seq<Seq<char>>, j: int, in_doc: bool, count: nat) -> Seq<char>
    decreases all.len() - j,
{
    if j < 0 || j >= all.len() {
        Seq::empty()
    } else {
        let d = trim_start(all[j]);
        if !in_doc {
            if opens_doc(d) {
                let rem = trim(d.skip(3));
                (if rem.len() > 0 {
                    rem + "\n"@
                } else {
                    Seq::empty()
                }) + doc_from(all, j + 1, true, count + 1)
            } else if d.len() > 0 && !has_prefix(d, "#"@) {
                Seq::empty()
            } else {
                doc_from(all, j + 1, false, count)
            }
        } else if has_quotes(d) {
            if count + 1 == 2 {
                Seq::empty()
            } else {
                d + "\n"@ + doc_from(all, j + 1, true, count + 1)
            }
        } else {
            d + "\n"@ + doc_from(all, j + 1, true, count)
        }
    }
}

/// The first position of a line equal to `l` (where the search for a
/// function's docstring starts over).
pub open spec fn position_of(all: Seq<Seq<char>>, l: Seq<char>) -> int {
    choose|p: int| 0 <= p < all.len() && all[p] == l && forall|q: int| 0 <= q < p ==> all[q] != l
}

/// The API notes for line `k` and whether a class has been seen after it.
#[verifier::opaque]
pub open spec fn api_line(all: Seq<Seq<char>>, k: int, in_class: bool) -> (Seq<char>, bool) {
    let t = trim(all[k]);
    if has_prefix(t, "class "@) && t.contains(':') {
        let n = class_name_of(t);
        if n.len() > 0 {
            ("#### Class: `"@ + n + "`\n\n"@, true)
        } else {
            (Seq::empty(), in_class)
        }
    } else if has_prefix(t, "def "@) && t.contains(':') {
        let sig = signature_of(t);
        if sig.len() > 0 {
            let doc = doc_from(all, position_of(all, all[k]) + 1, false, 0);
            ((if in_class {
                "##### Method: `"@
            } else {
                "#### Function: `"@
            }) + sig + "`\n\n"@ + (if doc.len() > 0 {
                doc + "\n"@
            } else {
                Seq::empty()
            }), in_class)
        } else {
            (Seq::empty(), in_class)
        }
    } else {
        (Seq::empty(), in_class)
    }
}

/// The API notes of the lines from `k` on.
pub open spec fn api_from(all: Seq<Seq<char>>, k: int, in_class: bool) -> Seq<char>
    decreases all.len() - k,
{
    if k < 0 || k >= all.len() {
        Seq::empty()
    } else {
        let (t, c) = api_line(all, k, in_class);
        t + api_from(all, k + 1, c)
    }
}

/// The API notes of a Python file: classes, and functions or methods with
/// their docstrings; a note when there is none.
pub open spec fn api_docs_text(code: Seq<char>) -> Seq<char> {
    let out = api_from(lines_of(code), 0, false);
    if out.len() == 0 {
        "No API documentation found in this file.\n"@
    } else {
        out
    }
}

fn doc_lines(ls: &Vec<Vec<char>>, start: usize, Ghost(all): Ghost<Seq<Seq<char>>>) -> (r: Vec<char>)
    requires
        ls@.len() == all.len(),
        forall|k: int| 0 <= k < ls@.len() ==> #[trigger] ls@[k]@ == all[k],
    ensures
        r@ == doc_from(all, start as int, false, 0),
{
    let mut out: Vec<char> = Vec::new();
    let mut in_doc = false;
    let mut count: usize = 0;
    let mut j: usize = start;
    while j < ls.len()
        invariant
            ls@.len() == all.len(),
            forall|k: int| 0 <= k < ls@.len() ==> #[trigger] ls@[k]@ == all[k],
            start <= j,
            count <= j - start,
            doc_from(all, start as int, false, 0) == out@ + doc_from(all, j as int, in_doc, count as nat),
        decreases ls@.len() - j,
    {
        let d = trim_start_chars(&ls[j]);
        if !in_doc {
            if starts_with(&d, &chars_of("\"\"\"")) || starts_with(&d, &chars_of("'''")) {
                proof {
                    reveal_strlit("\"\"\"");
                    reveal_strlit("'''");
                }
                in_doc = true;
                count = count + 1;
                let rem = trim_chars(&tail_from(&d, 3));
                let ghost ob = out@;
                if rem.len() > 0 {
                    push_all(&mut out, &rem);
                    out.push('\n');
                    assert(out@ =~= ob + (rem@ + "\n"@)) by {
                        reveal_strlit("\n");
                    }
                } else {
                    assert(out@ =~= ob + Seq::<char>::empty());
                }
            } else if d.len() > 0 && !starts_with(&d, &chars_of("#")) {
                assert(doc_from(all, j as int, in_doc, count as nat) == Seq::<char>::empty());
                assert(out@ + Seq::<char>::empty() =~= out@);
                return out;
            }
        } else {
            if contains(&d, &chars_of("\"\"\"")) || contains(&d, &chars_of("'''")) {
                count = count + 1;
                if count == 2 {
                    assert(out@ + Seq::<char>::empty() =~= out@);
                    return out;
                }
            }
            let ghost ob = out@;
            push_all(&mut out, &d);
            out.push('\n');
            assert(out@ =~= ob + (d@ + "\n"@)) by {
                reveal_strlit("\n");
            }
        }
        j = j + 1;
    }
    assert(doc_from(all, j as int, in_doc, count as nat) == Seq::<char>::empty());
    assert(out@ + Seq::<char>::empty() =~= out@);
    out
}

fn push_all(out: &mut Vec<char>, v: &[char])
    ensures
        final(out)@ == old(out)@ + v@,
{
    let mut i: usize = 0;
    while i < v.len()
        invariant
            i <= v@.len(),
            out@ == old(out)@ + v@.take(i as int),
        decreases v@.len() - i,
    {
        out.push(v[i]);
        assert(v@.take(i + 1) =~= v@.take(i as int).push(v@[i as int]));
        i = i + 1;
    }
    assert(v@.take(v@.len() as int) =~= v@);
}

fn first_position(ls: &Vec<Vec<char>>, k: usize, Ghost(all): Ghost<Seq<Seq<char>>>) -> (p: usize)
    requires
        k < ls@.len(),
        ls@.len() == all.len(),
        forall|m: int| 0 <= m < ls@.len() ==> #[trigger] ls@[m]@ == all[m],
    ensures
        p == position_of(all, all[k as int]),
        p <= k,
{
    let mut p: usize = 0;
    while p < k && !chars_eq(&ls[p], &ls[k])
        invariant
            p <= k < ls@.len() == all.len(),
            forall|m: int| 0 <= m < ls@.len() ==> #[trigger] ls@[m]@ == all[m],
            forall|q: int| 0 <= q < p ==> all[q] != all[k as int],
        decreases k - p,
    {
        p = p + 1;
    }
    proof {
        let l = all[k as int];
        assert(0 <= p < all.len() && all[p as int] == l && forall|q: int| 0 <= q < p ==> all[q] != l);
        let c = position_of(all, l);
        if c < p {
            assert(all[c] != l);
        }
        if p < c {
            assert(all[p as int] != l);
        }
    }
    p
}

fn api_line_of(ls: &Vec<Vec<char>>, k: usize, in_class: bool, Ghost(all): Ghost<Seq<Seq<char>>>) -> (r: (Vec<char>, bool))
    requires
        k < ls@.len() == all.len(),
        forall|m: int| 0 <= m < ls@.len() ==> #[trigger] ls@[m]@ == all[m],
    ensures
        (r.0@, r.1) == api_line(all, k as int, in_class),
{
    proof {
        reveal_strlit("class ");
        reveal_strlit("def ");
        reveal_strlit("\n");
        reveal(api_line);
    }
    let len = ls.len();
    let t = trim_chars(&ls[k]);
    let mut out: Vec<char> = Vec::new();
    if starts_with(&t, &chars_of("class ")) && has_char(&t, ':') {
        let n = trim_chars(&before_char_of(&before_char_of(&tail_from(&t, 6), '('), ':'));
        if n.len() > 0 {
            push_all(&mut out, &chars_of("#### Class: `"));
            push_all(&mut out, &n);
            push_all(&mut out, &chars_of("`\n\n"));
            return (out, true);
        }
        assert(out@ =~= Seq::<char>::empty());
        (out, in_class)
    } else if starts_with(&t, &chars_of("def ")) && has_char(&t, ':') {
        let sig = trim_chars(&before_char_of(&tail_from(&t, 4), ':'));
        if sig.len() > 0 {
            if in_class {
                push_all(&mut out, &chars_of("##### Method: `"));
            } else {
                push_all(&mut out, &chars_of("#### Function: `"));
            }
            push_all(&mut out, &sig);
            push_all(&mut out, &chars_of("`\n\n"));
            let p = first_position(ls, k, Ghost(all));
            let doc = doc_lines(ls, p + 1, Ghost(all));
            if doc.len() > 0 {
                push_all(&mut out, &doc);
                out.push('\n');
            }
            let ghost (emitted, next) = api_line(all, k as int, in_class);
            assert(out@ =~= emitted);
            return (out, in_class);
        }
        assert(out@ =~= Seq::<char>::empty());
        (out, in_class)
    } else {
        assert(out@ =~= Seq::<char>::empty());
        (out, in_class)
    }
}

/// Extracts API notes from a Python file: each class, and each function or
/// method with the docstring that follows the first line equal to its `def`.
pub fn extract_python_api_docs(code: &str) -> (r: String)
    ensures
        r@ == api_docs_text(code@),
{
    let ls = lines(&chars_of(code));
    let ghost all = lines_of(code@);
    let mut out: Vec<char> = Vec::new();
    let mut in_class = false;
    let mut k: usize = 0;
    while k < ls.len()
        invariant
            k <= ls@.len() == all.len(),
            forall|m: int| 0 <= m < ls@.len() ==> #[trigger] ls@[m]@ == all[m],
            api_from(all, 0, false) == out@ + api_from(all, k as int, in_class),
        decreases ls@.len() - k,
    {
        let (t, c) = api_line_of(&ls, k, in_class, Ghost(all));
        assert(api_from(all, k as int, in_class) == t@ + api_from(all, k + 1, c));
        let ghost ob = out@;
        push_all(&mut out, &t);
        assert(ob + (t@ + api_from(all, k + 1, c)) =~= out@ + api_from(all, k + 1, c));
        in_class = c;
        k = k + 1;
    }
    assert(out@ + api_from(all, k as int, in_class) =~= out@);
    if out.len() == 0 {
        String::from_str("No API documentation found in this file.\n")
    } else {
        string_of(&out)
    }
}

fn has_char(v: &[char], c: char) -> (b: bool)
    ensures
        b == v@.contains(c),
{
    let mut i: usize = 0;
    while i < v.len()
        invariant
            i <= v@.len(),
            forall|j: int| 0 <= j < i ==> v@[j] != c,
        decreases v@.len() - i,
    {
        if v[i] == c {
            assert(v@[i as int] == c);
            return true;
        }
        i = i + 1;
    }
    false
}

/// What reading a file of an unpacked package gave.
pub enum FileRead {
    /// Its text
    Text(String),
    /// It is not text; its size in bytes (more than zero)
    Binary(u64),
    /// It is empty and not text
    Empty,
    /// Neither its text nor its size could be read
    Unreadable,
}

/// A file of an unpacked package.
pub struct PackageFile {
    /// Full path of the file
    pub path: String,
    /// Path relative to the unpacked package
    pub rel_path: String,
    /// What reading it gave
    pub content: FileRead,
}

/// What was found in an unpacked package.
pub struct PackageFindings {
    /// Its Python files
    pub python_files: Vec<PackageFile>,
    /// The text of its README, when one was found and read
    pub readme: Option<String>,
    /// Its example files
    pub examples: Vec<PackageFile>,
    /// All its files
    pub all_files: Vec<PackageFile>,
}

/// The paths of the files.
pub open spec fn file_paths(fs: Seq<PackageFile>) -> Seq<Seq<char>> {
    fs.map_values(|f: PackageFile| f.path@)
}

/// The API part for the files visited in order `idx`.
pub open spec fn api_files_text(fs: Seq<PackageFile>, idx: Seq<usize>) -> Seq<char>
    decreases idx.len(),
{
    if idx.len() == 0 {
        Seq::empty()
    } else {
        let f = fs[idx.last() as int];
        api_files_text(fs, idx.drop_last()) + "\n### File: `"@ + f.rel_path@ + "`\n\n"@ + match f.content {
            FileRead::Text(c) => api_docs_text(c@),
            _ => "No API documentation found in this file.\n"@,
        }
    }
}

/// The example part for the files visited in order `idx`.
pub open spec fn example_files_text(fs: Seq<PackageFile>, idx: Seq<usize>) -> Seq<char>
    decreases idx.len(),
{
    if idx.len() == 0 {
        Seq::empty()
    } else {
        let f = fs[idx.last() as int];
        example_files_text(fs, idx.drop_last()) + "#### Example: `"@ + f.rel_path@ + "`\n\n"@ + match f.content {
            FileRead::Text(c) => "```python\n"@ + c@ + "\n```\n\n"@,
            _ => Seq::empty(),
        }
    }
}

/// The package structure: each relative path on a line, in order `idx`.
pub open spec fn structure_text(fs: Seq<PackageFile>, idx: Seq<usize>) -> Seq<char>
    decreases idx.len(),
{
    if idx.len() == 0 {
        Seq::empty()
    } else {
        structure_text(fs, idx.drop_last()) + fs[idx.last() as int].rel_path@ + "\n"@
    }
}

/// The code fence language of a package file by its extension.
pub open spec fn source_language(e: Seq<char>) -> Seq<char> {
    if e == "py"@ {
        "python"@
    } else if e == "md"@ {
        "markdown"@
    } else if e == "rst"@ {
        "rst"@
    } else if e == "txt"@ {
        "text"@
    } else if e == "toml"@ {
        "toml"@
    } else if e == "yaml"@ || e == "yml"@ {
        "yaml"@
    } else if e == "json"@ {
        "json"@
    } else if e == "xml"@ {
        "xml"@
    } else if e == "html"@ {
        "html"@
    } else if e == "css"@ {
        "css"@
    } else if e == "js"@ {
        "javascript"@
    } else if e == "sh"@ {
        "bash"@
    } else if e == "cfg"@ || e == "ini"@ {
        "ini"@
    } else {
        "text"@
    }
}

/// The block reproducing one package file.
pub open spec fn file_contents_block(f: PackageFile) -> Seq<char> {
    "#### File: `"@ + f.rel_path@ + "`\n\n"@ + match f.content {
        FileRead::Text(c) => "```"@ + source_language(
            match path_extension(f.path@) {
                Some(e) => e,
                None => "txt"@,
            },
        ) + "\n"@ + c@ + "\n```\n\n"@,
        FileRead::Binary(n) => "*Binary file ("@ + dec(n as nat) + " bytes)*\n\n"@,
        FileRead::Empty => "*Empty file*\n\n"@,
        FileRead::Unreadable => "*Could not read file*\n\n"@,
    }
}

/// The blocks of the files visited in order `idx`.
pub open spec fn contents_text(fs: Seq<PackageFile>, idx: Seq<usize>) -> Seq<char>
    decreases idx.len(),
{
    if idx.len() == 0 {
        Seq::empty()
    } else {
        contents_text(fs, idx.drop_last()) + file_contents_block(fs[idx.last() as int])
    }
}

/// The project URL lines.
pub open spec fn project_url_lines(m: Seq<(String, Json)>) -> Seq<char>
    decreases m.len(),
{
    if m.len() == 0 {
        Seq::empty()
    } else {
        project_url_lines(m.drop_last()) + "- **"@ + m.last().0@ + "**: "@ + text_or(m.last().1, "Not specified"@) + "\n"@
    }
}

/// The dependency lines.
pub open spec fn requirement_lines(a: Seq<Json>) -> Seq<char>
    decreases a.len(),
{
    if a.len() == 0 {
        Seq::empty()
    } else {
        requirement_lines(a.drop_last()) + "- "@ + text_or(a.last(), "Unknown dependency"@) + "\n"@
    }
}

/// The lines naming a package's version, author and home page.
pub open spec fn info_head(name: Seq<char>, i: Json) -> Seq<char> {
    "## Package Information\n\n"@ + "- **Name**: "@ + name + "\n"@ + "- **Version**: "@ + text_or(at(i, "version"@), "unknown"@)
        + "\n"@ + "- **Author**: "@ + text_or(at(i, "author"@), "Unknown"@) + "\n"@ + "- **Author Email**: "@
        + text_or(at(i, "author_email"@), "Not specified"@) + "\n"@ + "- **Home Page**: "@ + text_or(
        at(i, "home_page"@),
        "Not specified"@,
    ) + "\n"@
}

/// The project URL list.
pub open spec fn project_urls_block(v: Json) -> Seq<char> {
    match v {
        Json::Object(m) => if m@.len() == 0 {
            "No project URLs specified.\n"@
        } else {
            project_url_lines(m@)
        },
        _ => "No project URLs specified.\n"@,
    }
}

/// The information part of the full package document.
pub open spec fn package_info_part(name: Seq<char>, info: Json) -> Seq<char> {
    let i = at(info, "info"@);
    info_head(name, i) + "\n### Project URLs\n\n"@ + project_urls_block(at(i, "project_urls"@))
}

/// The installation, dependency and description parts of the full package document.
pub open spec fn package_usage_part(name: Seq<char>, info: Json) -> Seq<char> {
    let i = at(info, "info"@);
    "\n## Installation\n\n"@ + "Install this package using pip:\n\n"@ + "```bash\n"@ + "pip install "@ + name + "\n"@
        + "```\n\n"@ + "## Dependencies\n\n"@ + (match at(i, "requires_dist"@) {
        Json::Array(a) => if a@.len() == 0 {
            "This package has no dependencies.\n"@
        } else {
            "This package depends on the following packages:\n\n"@ + requirement_lines(a@)
        },
        _ => "No dependencies information available.\n"@,
    }) + "\n## Description\n\n"@ + "### Overview\n"@ + (match str_of(at(i, "summary"@)) {
        Some(s) => if s.len() > 0 {
            s + "\n\n"@
        } else {
            Seq::empty()
        },
        None => Seq::empty(),
    }) + text_or(at(i, "description"@), "No description available"@) + "\n\n"@
}

/// The API part of the full package document.
pub open spec fn api_block(py: Seq<PackageFile>) -> Seq<char> {
    "## API Documentation\n\n"@ + if py.len() == 0 {
        "No Python source files found for API documentation extraction.\n"@
    } else {
        api_files_text(py, order_of_paths(file_paths(py)))
    }
}

/// The README examples part of the full package document.
pub open spec fn readme_examples_block(readme: Option<String>) -> Seq<char> {
    match readme {
        Some(r) => "### From README\n\n"@ + code_blocks_text(r@),
        None => Seq::empty(),
    }
}

/// The example files part of the full package document.
pub open spec fn examples_block(ex: Seq<PackageFile>) -> Seq<char> {
    if ex.len() > 0 {
        "\n### From Examples\n\n"@ + example_files_text(ex, order_of_paths(file_paths(ex)))
    } else {
        "No example files found.\n"@
    }
}

/// The complete source part of the full package document.
pub open spec fn source_block(all: Seq<PackageFile>) -> Seq<char> {
    if all.len() == 0 {
        "No files found in the package.\n"@
    } else {
        "### Package Structure\n\n"@ + "```\n"@ + structure_text(all, order_of_paths(file_paths(all))) + "```\n\n"@
            + "### Complete File Contents\n\n"@ + contents_text(all, order_of_paths(file_paths(all)))
    }
}

/// The API, usage and source parts of the full package document.
pub open spec fn package_code_part(f: PackageFindings) -> Seq<char> {
    api_block(f.python_files@) + "\n## Usage Examples\n\n"@ + readme_examples_block(f.readme) + examples_block(
        f.examples@,
    ) + "\n## Complete Source Code\n\n"@ + source_block(f.all_files@)
}

/// The full document on package `name`, generated at `generated`.
pub open spec fn package_document_text(name: Seq<char>, generated: Seq<char>, info: Json, f: PackageFindings) -> Seq<char> {
    "# "@ + name + " Documentation\n\n"@ + "**Type:** PYPI\n"@ + "**Generated:** "@ + generated + " UTC\n\n"@
        + "## Table of Contents\n\n"@ + "1. [Package Information](#package-information)\n"@
        + "2. [Installation](#installation)\n"@ + "3. [Dependencies](#dependencies)\n"@
        + "4. [API Documentation](#api-documentation)\n"@ + "5. [Usage Examples](#usage-examples)\n"@
        + "6. [Complete Source Code](#complete-source-code)\n\n"@ + "---\n\n"@ + package_info_part(name, info)
        + package_usage_part(name, info) + package_code_part(f) + "\n---\n\n"@
        + "*Documentation generated by LlamaPackageService for "@ + name + " (pypi)*\n"@
}

fn order_of_files(fs: &Vec<PackageFile>) -> (r: Vec<usize>)
    ensures
        r@ == order_of_paths(file_paths(fs@)),
        r@.len() == fs@.len(),
        forall|k: int| 0 <= k < r@.len() ==> #[trigger] r@[k] < fs@.len(),
{
    let mut paths: Vec<String> = Vec::new();
    let mut i: usize = 0;
    while i < fs.len()
        invariant
            i <= fs@.len(),
            paths@.map_values(|p: String| p@) == file_paths(fs@).take(i as int),
        decreases fs@.len() - i,
    {
        let ghost pb = paths@;
        paths.push(fs[i].path.clone());
        assert(paths@.map_values(|p: String| p@) =~= pb.map_values(|p: String| p@).push(fs@[i as int].path@));
        assert(file_paths(fs@).take(i + 1) =~= file_paths(fs@).take(i as int).push(fs@[i as int].path@));
        i = i + 1;
    }
    assert(file_paths(fs@).take(fs@.len() as int) =~= file_paths(fs@));
    paths_in_order(&paths)
}

fn push_api_files(out: &mut String, fs: &Vec<PackageFile>)
    ensures
        final(out)@ == old(out)@ + api_files_text(fs@, order_of_paths(file_paths(fs@))),
{
    let order = order_of_files(fs);
    let ghost idx = order@;
    let ghost start = out@;
    let mut k: usize = 0;
    assert(idx.take(0) =~= Seq::<usize>::empty());
    while k < order.len()
        invariant
            k <= order@.len(),
            idx == order@,
            forall|m: int| 0 <= m < order@.len() ==> #[trigger] order@[m] < fs@.len(),
            out@ == start + api_files_text(fs@, idx.take(k as int)),
        decreases order@.len() - k,
    {
        assert(idx.take(k + 1).drop_last() =~= idx.take(k as int));
        assert(idx.take(k + 1).last() == idx[k as int]);
        let f = &fs[order[k]];
        out.append("\n### File: `");
        out.append(f.rel_path.as_str());
        out.append("`\n\n");
        match &f.content {
            FileRead::Text(c) => out.append(extract_python_api_docs(c.as_str()).as_str()),
            _ => out.append("No API documentation found in this file.\n"),
        }
        k = k + 1;
    }
    assert(idx.take(idx.len() as int) =~= idx);
}

fn push_example_files(out: &mut String, fs: &Vec<PackageFile>)
    ensures
        final(out)@ == old(out)@ + example_files_text(fs@, order_of_paths(file_paths(fs@))),
{
    let order = order_of_files(fs);
    let ghost idx = order@;
    let ghost start = out@;
    let mut k: usize = 0;
    assert(idx.take(0) =~= Seq::<usize>::empty());
    while k < order.len()
        invariant
            k <= order@.len(),
            idx == order@,
            forall|m: int| 0 <= m < order@.len() ==> #[trigger] order@[m] < fs@.len(),
            out@ == start + example_files_text(fs@, idx.take(k as int)),
        decreases order@.len() - k,
    {
        assert(idx.take(k + 1).drop_last() =~= idx.take(k as int));
        assert(idx.take(k + 1).last() == idx[k as int]);
        let f = &fs[order[k]];
        out.append("#### Example: `");
        out.append(f.rel_path.as_str());
        out.append("`\n\n");
        let ghost before = out@;
        match &f.content {
            FileRead::Text(c) => {
                out.append("```python\n");
                out.append(c.as_str());
                out.append("\n```\n\n");
            },
            _ => {
                assert(before + Seq::<char>::empty() =~= before);
            },
        }
        k = k + 1;
    }
    assert(idx.take(idx.len() as int) =~= idx);
}

fn source_language_of(e: &[char]) -> (r: &'static str)
    ensures
        r@ == source_language(e@),
{
    if chars_eq(e, &chars_of("py")) {
        "python"
    } else if chars_eq(e, &chars_of("md")) {
        "markdown"
    } else if chars_eq(e, &chars_of("rst")) {
        "rst"
    } else if chars_eq(e, &chars_of("txt")) {
        "text"
    } else if chars_eq(e, &chars_of("toml")) {
        "toml"
    } else if chars_eq(e, &chars_of("yaml")) || chars_eq(e, &chars_of("yml")) {
        "yaml"
    } else if chars_eq(e, &chars_of("json")) {
        "json"
    } else if chars_eq(e, &chars_of("xml")) {
        "xml"
    } else if chars_eq(e, &chars_of("html")) {
        "html"
    } else if chars_eq(e, &chars_of("css")) {
        "css"
    } else if chars_eq(e, &chars_of("js")) {
        "javascript"
    } else if chars_eq(e, &chars_of("sh")) {
        "bash"
    } else if chars_eq(e, &chars_of("cfg")) || chars_eq(e, &chars_of("ini")) {
        "ini"
    } else {
        "text"
    }
}

fn push_file_contents_block(out: &mut String, f: &PackageFile)
    ensures
        final(out)@ == old(out)@ + file_contents_block(*f),
{
    out.append("#### File: `");
    out.append(f.rel_path.as_str());
    out.append("`\n\n");
    match &f.content {
        FileRead::Text(c) => {
            out.append("```");
            let lang = match extension_of(f.path.as_str()) {
                Some(e) => source_language_of(&chars_of(e.as_str())),
                None => source_language_of(&chars_of("txt")),
            };
            out.append(lang);
            out.append("\n");
            out.append(c.as_str());
            out.append("\n```\n\n");
        },
        FileRead::Binary(n) => {
            out.append("*Binary file (");
            push_dec(out, *n);
            out.append(" bytes)*\n\n");
        },
        FileRead::Empty => out.append("*Empty file*\n\n"),
        FileRead::Unreadable => out.append("*Could not read file*\n\n"),
    }
}

fn push_source_part(out: &mut String, fs: &Vec<PackageFile>)
    requires
        fs@.len() > 0,
    ensures
        final(out)@ == old(out)@ + "### Package Structure\n\n"@ + "```\n"@ + structure_text(
            fs@,
            order_of_paths(file_paths(fs@)),
        ) + "```\n\n"@ + "### Complete File Contents\n\n"@ + contents_text(fs@, order_of_paths(file_paths(fs@))),
{
    let order = order_of_files(fs);
    let ghost idx = order@;
    out.append("### Package Structure\n\n");
    out.append("```\n");
    let ghost s1 = out@;
    let mut k: usize = 0;
    assert(idx.take(0) =~= Seq::<usize>::empty());
    while k < order.len()
        invariant
            k <= order@.len(),
            idx == order@,
            forall|m: int| 0 <= m < order@.len() ==> #[trigger] order@[m] < fs@.len(),
            out@ == s1 + structure_text(fs@, idx.take(k as int)),
        decreases order@.len() - k,
    {
        assert(idx.take(k + 1).drop_last() =~= idx.take(k as int));
        assert(idx.take(k + 1).last() == idx[k as int]);
        out.append(fs[order[k]].rel_path.as_str());
        out.append("\n");
        k = k + 1;
    }
    assert(idx.take(idx.len() as int) =~= idx);
    out.append("```\n\n");
    out.append("### Complete File Contents\n\n");
    let ghost s2 = out@;
    let mut k: usize = 0;
    assert(idx.take(0) =~= Seq::<usize>::empty());
    while k < order.len()
        invariant
            k <= order@.len(),
            idx == order@,
            forall|m: int| 0 <= m < order@.len() ==> #[trigger] order@[m] < fs@.len(),
            out@ == s2 + contents_text(fs@, idx.take(k as int)),
        decreases order@.len() - k,
    {
        assert(idx.take(k + 1).drop_last() =~= idx.take(k as int));
        assert(idx.take(k + 1).last() == idx[k as int]);
        push_file_contents_block(out, &fs[order[k]]);
        k = k + 1;
    }
    assert(idx.take(idx.len() as int) =~= idx);
}

fn push_info_head(out: &mut String, name: &str, i: &Json)
    ensures
        final(out)@ == old(out)@ + info_head(name@, *i),
{
    out.append("## Package Information\n\n");
    out.append("- **Name**: ");
    out.append(name);
    out.append("\n");
    out.append("- **Version**: ");
    out.append(text_or_of(i, "version", "unknown").as_str());
    out.append("\n");
    out.append("- **Author**: ");
    out.append(text_or_of(i, "author", "Unknown").as_str());
    out.append("\n");
    out.append("- **Author Email**: ");
    out.append(text_or_of(i, "author_email", "Not specified").as_str());
    out.append("\n");
    out.append("- **Home Page**: ");
    out.append(text_or_of(i, "home_page", "Not specified").as_str());
    out.append("\n");
}

fn push_project_urls_block(out: &mut String, v: &Json)
    ensures
        final(out)@ == old(out)@ + project_urls_block(*v),
{
    let ghost p = out@;
    match v {
        Json::Object(m) => {
            if m.len() == 0 {
                out.append("No project URLs specified.\n");
            } else {
                let mut k: usize = 0;
                assert(m@.take(0) =~= Seq::<(String, Json)>::empty());
                while k < m.len()
                    invariant
                        k <= m@.len(),
                        out@ == p + project_url_lines(m@.take(k as int)),
                    decreases m@.len() - k,
                {
                    assert(m@.take(k + 1).drop_last() =~= m@.take(k as int));
                    assert(m@.take(k + 1).last() == m@[k as int]);
                    out.append("- **");
                    out.append(m[k].0.as_str());
                    out.append("**: ");
                    match m[k].1.as_str() {
                        Some(t) => out.append(t.as_str()),
                        None => out.append("Not specified"),
                    }
                    out.append("\n");
                    k = k + 1;
                }
                assert(m@.take(m@.len() as int) =~= m@);
            }
        },
        _ => out.append("No project URLs specified.\n"),
    }
}

fn push_package_info_part(out: &mut String, name: &str, info: &Json)
    ensures
        final(out)@ == old(out)@ + package_info_part(name@, *info),
{
    let i = at_ref(info, "info");
    push_info_head(out, name, i);
    out.append("\n### Project URLs\n\n");
    push_project_urls_block(out, at_ref(i, "project_urls"));
    assert(out@ =~= old(out)@ + package_info_part(name@, *info));
}

fn text_or_of(j: &Json, key: &str, dflt: &str) -> (r: String)
    ensures
        r@ == text_or(at(*j, key@), dflt@),
{
    match str_field(j, key) {
        Some(t) => t.clone(),
        None => String::from_str(dflt),
    }
}

#[verifier::rlimit(80)]
#[verifier::spinoff_prover]
fn push_package_usage_part(out: &mut String, name: &str, info: &Json)
    ensures
        final(out)@ == old(out)@ + package_usage_part(name@, *info),
{
    let i = at_ref(info, "info");
    out.append("\n## Installation\n\n");
    out.append("Install this package using pip:\n\n");
    out.append("```bash\n");
    out.append("pip install ");
    out.append(name);
    out.append("\n");
    out.append("```\n\n");
    out.append("## Dependencies\n\n");
    let ghost p = out@;
    match at_ref(i, "requires_dist") {
        Json::Array(a) => {
            if a.len() == 0 {
                out.append("This package has no dependencies.\n");
            } else {
                out.append("This package depends on the following packages:\n\n");
                let ghost q = out@;
                let mut k: usize = 0;
                assert(a@.take(0) =~= Seq::<Json>::empty());
                while k < a.len()
                    invariant
                        k <= a@.len(),
                        out@ == q + requirement_lines(a@.take(k as int)),
                    decreases a@.len() - k,
                {
                    assert(a@.take(k + 1).drop_last() =~= a@.take(k as int));
                    assert(a@.take(k + 1).last() == a@[k as int]);
                    out.append("- ");
                    match a[k].as_str() {
                        Some(v) => out.append(v.as_str()),
                        None => out.append("Unknown dependency"),
                    }
                    out.append("\n");
                    k = k + 1;
                }
                assert(a@.take(a@.len() as int) =~= a@);
            }
        },
        _ => out.append("No dependencies information available.\n"),
    }
    let ghost p2 = out@;
    out.append("\n## Description\n\n");
    out.append("### Overview\n");
    let ghost p3 = out@;
    match str_field(i, "summary") {
        Some(s) => {
            if !s.as_str().is_empty() {
                out.append(s.as_str());
                out.append("\n\n");
            }
        },
        None => {},
    }
    let ghost p4 = out@;
    out.append(text_or_of(i, "description", "No description available").as_str());
    out.append("\n\n");
    assert(out@ =~= old(out)@ + package_usage_part(name@, *info));
}

fn push_api_block(out: &mut String, py: &Vec<PackageFile>)
    ensures
        final(out)@ == old(out)@ + api_block(py@),
{
    out.append("## API Documentation\n\n");
    if py.len() == 0 {
        out.append("No Python source files found for API documentation extraction.\n");
    } else {
        push_api_files(out, py);
    }
}

fn push_readme_examples(out: &mut String, readme: &Option<String>)
    ensures
        final(out)@ == old(out)@ + readme_examples_block(*readme),
{
    match readme {
        Some(r) => {
            out.append("### From README\n\n");
            out.append(extract_code_blocks(r.as_str()).as_str());
        },
        None => {
            assert(old(out)@ + readme_examples_block(*readme) =~= old(out)@);
        },
    }
}

fn push_examples_block(out: &mut String, ex: &Vec<PackageFile>)
    ensures
        final(out)@ == old(out)@ + examples_block(ex@),
{
    if ex.len() > 0 {
        out.append("\n### From Examples\n\n");
        push_example_files(out, ex);
    } else {
        out.append("No example files found.\n");
    }
}

fn push_source_block(out: &mut String, all: &Vec<PackageFile>)
    ensures
        final(out)@ == old(out)@ + source_block(all@),
{
    if all.len() == 0 {
        out.append("No files found in the package.\n");
    } else {
        push_source_part(out, all);
    }
}

fn push_package_code_part(out: &mut String, f: &PackageFindings)
    ensures
        final(out)@ == old(out)@ + package_code_part(*f),
{
    push_api_block(out, &f.python_files);
    out.append("\n## Usage Examples\n\n");
    push_readme_examples(out, &f.readme);
    push_examples_block(out, &f.examples);
    out.append("\n## Complete Source Code\n\n");
    push_source_block(out, &f.all_files);
    assert(out@ =~= old(out)@ + package_code_part(*f));
}

/// The full document on package `name`, generated at `generated`, from its
/// registry document and what was found in the unpacked package.
pub fn package_document(name: &str, generated: &str, info: &Json, f: &PackageFindings) -> (r: String)
    ensures
        r@ == package_document_text(name@, generated@, *info, *f),
{
    let mut out = String::from_str("# ");
    out.append(name);
    out.append(" Documentation\n\n");
    out.append("**Type:** PYPI\n");
    out.append("**Generated:** ");
    out.append(generated);
    out.append(" UTC\n\n");
    out.append("## Table of Contents\n\n");
    out.append("1. [Package Information](#package-information)\n");
    out.append("2. [Installation](#installation)\n");
    out.append("3. [Dependencies](#dependencies)\n");
    out.append("4. [API Documentation](#api-documentation)\n");
    out.append("5. [Usage Examples](#usage-examples)\n");
    out.append("6. [Complete Source Code](#complete-source-code)\n\n");
    out.append("---\n\n");
    push_package_info_part(&mut out, name, info);
    push_package_usage_part(&mut out, name, info);
    push_package_code_part(&mut out, f);
    out.append("\n---\n\n");
    out.append("*Documentation generated by LlamaPackageService for ");
    out.append(name);
    out.append(" (pypi)*\n");
    assert(out@ =~= package_document_text(name@, generated@, *info, *f));
    out
}

/// The download URL of a package document's distribution files: the first
/// source distribution, else the first file; `None` when there is none or
/// it has no URL.
pub open spec fn download_url_choice(info: Json) -> Option<Seq<char>> {
    match at(info, "urls"@) {
        Json::Array(a) => {
            let chosen = match first_sdist(a@) {
                Some(f) => Some(f),
                None => if a@.len() > 0 {
                    Some(a@[0])
                } else {
                    None
                },
            };
            match chosen {
                Some(f) => str_of(at(f, "url"@)),
                None => None,
            }
        },
        _ => None,
    }
}

/// The first source distribution among files.
pub open spec fn first_sdist(a: Seq<Json>) -> Option<Json>
    decreases a.len(),
{
    if a.len() == 0 {
        None
    } else if str_of(at(a[0], "packagetype"@)) == Some("sdist"@) {
        Some(a[0])
    } else {
        first_sdist(a.drop_first())
    }
}

fn first_sdist_index(a: &Vec<Json>) -> (r: Option<usize>)
    ensures
        match first_sdist(a@) {
            Some(f) => r matches Some(k) && k < a@.len() && a@[k as int] == f,
            None => r is None,
        },
{
    let mut i: usize = 0;
    assert(a@.skip(0) =~= a@);
    while i < a.len()
        invariant
            i <= a@.len(),
            first_sdist(a@) == first_sdist(a@.skip(i as int)),
        decreases a@.len() - i,
    {
        assert(a@.skip(i as int)[0] == a@[i as int]);
        assert(a@.skip(i as int).drop_first() =~= a@.skip(i + 1));
        proof {
            reveal_strlit("sdist");
        }
        match str_field(&a[i], "packagetype") {
            Some(t) => {
                if chars_eq(&chars_of(t.as_str()), &chars_of("sdist")) {
                    return Some(i);
                }
            },
            None => {},
        }
        i = i + 1;
    }
    None
}

/// The URL to download a package from; a validation error when there is none.
pub fn download_url(package_info: &Json) -> (r: Result<String>)
    ensures
        match download_url_choice(*package_info) {
            Some(u) => r matches Ok(s) && s@ == u,
            None => r matches Err(e) && e is Validation && detail(e) == "Could not find download URL"@,
        },
{
    match at_ref(package_info, "urls") {
        Json::Array(a) => {
            let k = match first_sdist_index(a) {
                Some(k) => k,
                None => {
                    if a.len() > 0 {
                        0
                    } else {
                        return Err(ProcessorError::Validation(String::from_str("Could not find download URL")));
                    }
                },
            };
            match str_field(&a[k], "url") {
                Some(u) => Ok(u.clone()),
                None => Err(ProcessorError::Validation(String::from_str("Could not find download URL"))),
            }
        },
        _ => Err(ProcessorError::Validation(String::from_str("Could not find download URL"))),
    }
}

/// The suffix a downloaded archive is saved with: `.zip` for a zip or wheel
/// URL, `.tar.gz` otherwise.
pub fn archive_suffix(url: &str) -> (r: &'static str)
    ensures
        r@ == (if has_suffix(url@, ".tar.gz"@) || has_suffix(url@, ".tgz"@) {
            ".tar.gz"@
        } else if has_suffix(url@, ".zip"@) || has_suffix(url@, ".whl"@) {
            ".zip"@
        } else {
            ".tar.gz"@
        }),
{
    let u = chars_of(url);
    if ends_with(&u, &chars_of(".tar.gz")) || ends_with(&u, &chars_of(".tgz")) {
        ".tar.gz"
    } else if ends_with(&u, &chars_of(".zip")) || ends_with(&u, &chars_of(".whl")) {
        ".zip"
    } else {
        ".tar.gz"
    }
}

} // verus!
