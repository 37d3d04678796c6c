//! Local files and directories: path recognition, file classification and
//! the text of the analysis reports.

use vstd::prelude::*;
use crate::order::sorted_text;
use crate::bindings::{extension_of, file_name_of, path_extension, path_file_name};
use crate::text::{
    chars_eq, chars_of, contains, dec, split_char, split_of, ends_with, has_prefix, has_sub, has_suffix, lines,
    lines_of, lowercase_of, push_chars, push_dec, starts_with, to_lowercase, trim, trim_chars,
};

verus! {

/// Processor for local directories and files.
pub struct LocalProcessor;

/// Whether the trimmed text `t` has the form of a local path: absolute
/// (`/` or `\`), explicitly relative (`./`, `../`), or a Windows drive path:
/// `:` as second character and at least three bytes of UTF-8 in all, that is
/// a third character or a first character outside ASCII.
pub open spec fn path_syntax(t: Seq<char>) -> bool {
    ||| has_prefix(t, "/"@)
    ||| has_prefix(t, "\\"@)
    ||| has_prefix(t, "./"@)
    ||| has_prefix(t, "../"@)
    ||| (t.len() >= 2 && t[1] == ':' && (t.len() >= 3 || t[0] as u32 >= 0x80))
}

/// Whether `path` names a local file or directory: its trimmed form has a
/// path's syntax or, failing that, exists on disk (`exists` reports whether
/// the trimmed form exists).
pub open spec fn local_path(path: Seq<char>, exists: bool) -> bool {
    path_syntax(trim(path)) || exists
}

impl LocalProcessor {
    /// Create a new local processor.
    pub fn new() -> (p: Self) {
        LocalProcessor
    }

    /// Whether the trimmed text has the form of a local path.
    pub fn has_path_syntax(path: &str) -> (b: bool)
        ensures
            b == path_syntax(trim(path@)),
    {
        let t = trim_chars(&chars_of(path));
        if starts_with(&t, &chars_of("/")) || starts_with(&t, &chars_of("\\")) {
            return true;
        }
        if starts_with(&t, &chars_of("./")) || starts_with(&t, &chars_of("../")) {
            return true;
        }
        t.len() >= 2 && t[1] == ':' && (t.len() >= 3 || t[0] as u32 >= 0x80)
    }

    /// Check if a path is a local file or directory. `trimmed_exists` is
    /// whether the trimmed path exists on disk, which the caller looks up.
    pub fn is_local_path(path: &str, trimmed_exists: bool) -> (b: bool)
        ensures
            b == local_path(path@, trimmed_exists),
    {
        Self::has_path_syntax(path) || trimmed_exists
    }
}

/// File extensions (with their dot) that count as code for local analysis.
pub open spec fn local_code_extensions() -> Seq<Seq<char>> {
    seq![
        ".rs"@,
        ".go"@,
        ".c"@,
        ".cpp"@,
        ".h"@,
        ".hpp"@,
        ".cc"@,
        ".cxx"@,
        ".js"@,
        ".ts"@,
        ".jsx"@,
        ".tsx"@,
        ".html"@,
        ".css"@,
        ".scss"@,
        ".sass"@,
        ".less"@,
        ".py"@,
        ".rb"@,
        ".php"@,
        ".sh"@,
        ".bash"@,
        ".zsh"@,
        ".fish"@,
        ".ps1"@,
        ".java"@,
        ".kt"@,
        ".scala"@,
        ".groovy"@,
        ".clj"@,
        ".cljs"@,
        ".cs"@,
        ".fs"@,
        ".vb"@,
        ".swift"@,
        ".m"@,
        ".mm"@,
        ".dart"@,
        ".hs"@,
        ".elm"@,
        ".ml"@,
        ".ocaml"@,
        ".f"@,
        ".for"@,
        ".f90"@,
        ".json"@,
        ".yml"@,
        ".yaml"@,
        ".toml"@,
        ".xml"@,
        ".ini"@,
        ".cfg"@,
        ".conf"@,
        ".md"@,
        ".rst"@,
        ".txt"@,
        ".tex"@,
        ".org"@,
        ".makefile"@,
        ".cmake"@,
        ".gradle"@,
        ".build"@,
        ".bazel"@,
        ".sql"@,
        ".sqlite"@,
        ".db"@,
        ".r"@,
        ".lua"@,
        ".vim"@,
        ".emacs"@,
        ".dockerfile"@,
    ]
}

/// Executable `local_code_extensions`.
pub fn local_code_extension_list() -> (r: Vec<Vec<char>>)
    ensures
        r@.len() == local_code_extensions().len(),
        forall|i: int| 0 <= i < r@.len() ==> #[trigger] r@[i]@ == local_code_extensions()[i],
{
    let mut r: Vec<Vec<char>> = Vec::new();
    r.push(chars_of(".rs"));
    r.push(chars_of(".go"));
    r.push(chars_of(".c"));
    r.push(chars_of(".cpp"));
    r.push(chars_of(".h"));
    r.push(chars_of(".hpp"));
    r.push(chars_of(".cc"));
    r.push(chars_of(".cxx"));
    r.push(chars_of(".js"));
    r.push(chars_of(".ts"));
    r.push(chars_of(".jsx"));
    r.push(chars_of(".tsx"));
    r.push(chars_of(".html"));
    r.push(chars_of(".css"));
    r.push(chars_of(".scss"));
    r.push(chars_of(".sass"));
    r.push(chars_of(".less"));
    r.push(chars_of(".py"));
    r.push(chars_of(".rb"));
    r.push(chars_of(".php"));
    r.push(chars_of(".sh"));
    r.push(chars_of(".bash"));
    r.push(chars_of(".zsh"));
    r.push(chars_of(".fish"));
    r.push(chars_of(".ps1"));
    r.push(chars_of(".java"));
    r.push(chars_of(".kt"));
    r.push(chars_of(".scala"));
    r.push(chars_of(".groovy"));
    r.push(chars_of(".clj"));
    r.push(chars_of(".cljs"));
    r.push(chars_of(".cs"));
    r.push(chars_of(".fs"));
    r.push(chars_of(".vb"));
    r.push(chars_of(".swift"));
    r.push(chars_of(".m"));
    r.push(chars_of(".mm"));
    r.push(chars_of(".dart"));
    r.push(chars_of(".hs"));
    r.push(chars_of(".elm"));
    r.push(chars_of(".ml"));
    r.push(chars_of(".ocaml"));
    r.push(chars_of(".f"));
    r.push(chars_of(".for"));
    r.push(chars_of(".f90"));
    r.push(chars_of(".json"));
    r.push(chars_of(".yml"));
    r.push(chars_of(".yaml"));
    r.push(chars_of(".toml"));
    r.push(chars_of(".xml"));
    r.push(chars_of(".ini"));
    r.push(chars_of(".cfg"));
    r.push(chars_of(".conf"));
    r.push(chars_of(".md"));
    r.push(chars_of(".rst"));
    r.push(chars_of(".txt"));
    r.push(chars_of(".tex"));
    r.push(chars_of(".org"));
    r.push(chars_of(".makefile"));
    r.push(chars_of(".cmake"));
    r.push(chars_of(".gradle"));
    r.push(chars_of(".build"));
    r.push(chars_of(".bazel"));
    r.push(chars_of(".sql"));
    r.push(chars_of(".sqlite"));
    r.push(chars_of(".db"));
    r.push(chars_of(".r"));
    r.push(chars_of(".lua"));
    r.push(chars_of(".vim"));
    r.push(chars_of(".emacs"));
    r.push(chars_of(".dockerfile"));
    assert(r@.map_values(|v: Vec<char>| v@) =~= local_code_extensions());
    r
}

/// Names and globs of paths skipped when collecting local files.
pub open spec fn ignore_patterns() -> Seq<Seq<char>> {
    seq![
        ".git"@,
        ".svn"@,
        ".hg"@,
        ".bzr"@,
        "node_modules"@,
        "target"@,
        "build"@,
        "dist"@,
        "out"@,
        ".vscode"@,
        ".idea"@,
        ".DS_Store"@,
        "Thumbs.db"@,
        "*.log"@,
        "*.tmp"@,
        "*.temp"@,
        "*.cache"@,
        "venv"@,
        ".venv"@,
        "__pycache__"@,
        ".pytest_cache"@,
        ".coverage"@,
        ".tox"@,
        "vendor"@,
        "deps"@,
        "libs"@,
    ]
}

/// Executable `ignore_patterns`.
pub fn ignore_pattern_list() -> (r: Vec<Vec<char>>)
    ensures
        r@.len() == ignore_patterns().len(),
        forall|i: int| 0 <= i < r@.len() ==> #[trigger] r@[i]@ == ignore_patterns()[i],
{
    let mut r: Vec<Vec<char>> = Vec::new();
    r.push(chars_of(".git"));
    r.push(chars_of(".svn"));
    r.push(chars_of(".hg"));
    r.push(chars_of(".bzr"));
    r.push(chars_of("node_modules"));
    r.push(chars_of("target"));
    r.push(chars_of("build"));
    r.push(chars_of("dist"));
    r.push(chars_of("out"));
    r.push(chars_of(".vscode"));
    r.push(chars_of(".idea"));
    r.push(chars_of(".DS_Store"));
    r.push(chars_of("Thumbs.db"));
    r.push(chars_of("*.log"));
    r.push(chars_of("*.tmp"));
    r.push(chars_of("*.temp"));
    r.push(chars_of("*.cache"));
    r.push(chars_of("venv"));
    r.push(chars_of(".venv"));
    r.push(chars_of("__pycache__"));
    r.push(chars_of(".pytest_cache"));
    r.push(chars_of(".coverage"));
    r.push(chars_of(".tox"));
    r.push(chars_of("vendor"));
    r.push(chars_of("deps"));
    r.push(chars_of("libs"));
    assert(r@.map_values(|v: Vec<char>| v@) =~= ignore_patterns());
    r
}

/// The language named for an already lowercased file extension.
pub open spec fn language_of_ext(e: Seq<char>) -> Seq<char> {
    if e == "rs"@ {
        "Rust"@
    } else if e == "py"@ {
        "Python"@
    } else if e == "js"@ {
        "JavaScript"@
    } else if e == "ts"@ {
        "TypeScript"@
    } else if e == "java"@ {
        "Java"@
    } else if e == "cpp"@ || e == "cc"@ || e == "cxx"@ {
        "C++"@
    } else if e == "c"@ {
        "C"@
    } else if e == "h"@ || e == "hpp"@ {
        "C/C++ Header"@
    } else if e == "go"@ {
        "Go"@
    } else if e == "rb"@ {
        "Ruby"@
    } else if e == "php"@ {
        "PHP"@
    } else if e == "swift"@ {
        "Swift"@
    } else if e == "kt"@ {
        "Kotlin"@
    } else if e == "scala"@ {
        "Scala"@
    } else if e == "cs"@ {
        "C#"@
    } else if e == "fs"@ {
        "F#"@
    } else if e == "hs"@ {
        "Haskell"@
    } else if e == "ml"@ {
        "OCaml"@
    } else if e == "r"@ {
        "R"@
    } else if e == "dart"@ {
        "Dart"@
    } else if e == "lua"@ {
        "Lua"@
    } else if e == "sh"@ || e == "bash"@ || e == "zsh"@ {
        "Shell"@
    } else if e == "html"@ {
        "HTML"@
    } else if e == "css"@ {
        "CSS"@
    } else if e == "scss"@ || e == "sass"@ {
        "SCSS/SASS"@
    } else if e == "json"@ {
        "JSON"@
    } else if e == "yml"@ || e == "yaml"@ {
        "YAML"@
    } else if e == "toml"@ {
        "TOML"@
    } else if e == "xml"@ {
        "XML"@
    } else if e == "md"@ {
        "Markdown"@
    } else if e == "sql"@ {
        "SQL"@
    } else {
        "Other"@
    }
}

/// Executable `language_of_ext`.
pub fn language_of_ext_chars(e: &[char]) -> (r: String)
    ensures
        r@ == language_of_ext(e@),
{
    if chars_eq(e, &chars_of("rs")) {
        String::from_str("Rust")
    } else if chars_eq(e, &chars_of("py")) {
        String::from_str("Python")
    } else if chars_eq(e, &chars_of("js")) {
        String::from_str("JavaScript")
    } else if chars_eq(e, &chars_of("ts")) {
        String::from_str("TypeScript")
    } else if chars_eq(e, &chars_of("java")) {
        String::from_str("Java")
    } else if chars_eq(e, &chars_of("cpp")) || chars_eq(e, &chars_of("cc")) || chars_eq(e, &chars_of("cxx")) {
        String::from_str("C++")
    } else if chars_eq(e, &chars_of("c")) {
        String::from_str("C")
    } else if chars_eq(e, &chars_of("h")) || chars_eq(e, &chars_of("hpp")) {
        String::from_str("C/C++ Header")
    } else if chars_eq(e, &chars_of("go")) {
        String::from_str("Go")
    } else if chars_eq(e, &chars_of("rb")) {
        String::from_str("Ruby")
    } else if chars_eq(e, &chars_of("php")) {
        String::from_str("PHP")
    } else if chars_eq(e, &chars_of("swift")) {
        String::from_str("Swift")
    } else if chars_eq(e, &chars_of("kt")) {
        String::from_str("Kotlin")
    } else if chars_eq(e, &chars_of("scala")) {
        String::from_str("Scala")
    } else if chars_eq(e, &chars_of("cs")) {
        String::from_str("C#")
    } else if chars_eq(e, &chars_of("fs")) {
        String::from_str("F#")
    } else if chars_eq(e, &chars_of("hs")) {
        String::from_str("Haskell")
    } else if chars_eq(e, &chars_of("ml")) {
        String::from_str("OCaml")
    } else if chars_eq(e, &chars_of("r")) {
        String::from_str("R")
    } else if chars_eq(e, &chars_of("dart")) {
        String::from_str("Dart")
    } else if chars_eq(e, &chars_of("lua")) {
        String::from_str("Lua")
    } else if chars_eq(e, &chars_of("sh")) || chars_eq(e, &chars_of("bash")) || chars_eq(e, &chars_of("zsh")) {
        String::from_str("Shell")
    } else if chars_eq(e, &chars_of("html")) {
        String::from_str("HTML")
    } else if chars_eq(e, &chars_of("css")) {
        String::from_str("CSS")
    } else if chars_eq(e, &chars_of("scss")) || chars_eq(e, &chars_of("sass")) {
        String::from_str("SCSS/SASS")
    } else if chars_eq(e, &chars_of("json")) {
        String::from_str("JSON")
    } else if chars_eq(e, &chars_of("yml")) || chars_eq(e, &chars_of("yaml")) {
        String::from_str("YAML")
    } else if chars_eq(e, &chars_of("toml")) {
        String::from_str("TOML")
    } else if chars_eq(e, &chars_of("xml")) {
        String::from_str("XML")
    } else if chars_eq(e, &chars_of("md")) {
        String::from_str("Markdown")
    } else if chars_eq(e, &chars_of("sql")) {
        String::from_str("SQL")
    } else {
        String::from_str("Other")
    }
}

/// `p` with every `*` removed.
pub open spec fn without_stars(p: Seq<char>) -> Seq<char>
    decreases p.len(),
{
    if p.len() == 0 {
        p
    } else if p.last() == '*' {
        without_stars(p.drop_last())
    } else {
        without_stars(p.drop_last()).push(p.last())
    }
}

/// Whether ignore pattern `p` hits a path whose lowercased text is `path`
/// and whose lowercased final component is `name`: a `*.ext` glob by the
/// name ending in `.ext`, another glob by the name containing its lowercased
/// star-free text, and a plain pattern when one `/`-separated component of
/// the path is the lowercased pattern (so `out` skips `out/` but not
/// `layout.rs`, and `.DS_Store` skips `.DS_Store`).
pub open spec fn ignore_hit(p: Seq<char>, path: Seq<char>, name: Seq<char>) -> bool {
    if p.contains('*') {
        if has_prefix(p, "*."@) {
            has_suffix(name, p.skip(1))
        } else {
            let needle = lowercase_of(without_stars(p));
            needle.len() > 0 && has_sub(name, needle)
        }
    } else {
        split_of(path, '/').contains(lowercase_of(p))
    }
}

/// The lowercased final component of `path`, empty when it has none.
pub open spec fn lower_name(path: Seq<char>) -> Seq<char> {
    match path_file_name(path) {
        Some(n) => lowercase_of(n),
        None => Seq::empty(),
    }
}

/// Whether collecting local files skips `path`.
pub open spec fn ignored(path: Seq<char>) -> bool {
    exists|i: int|
        0 <= i < ignore_patterns().len() && ignore_hit(
            #[trigger] ignore_patterns()[i],
            lowercase_of(path),
            lower_name(path),
        )
}

fn remove_stars(p: &[char]) -> (r: Vec<char>)
    ensures
        r@ == without_stars(p@),
{
    let mut r: Vec<char> = Vec::new();
    let mut i: usize = 0;
    while i < p.len()
        invariant
            i <= p@.len(),
            r@ == without_stars(p@.take(i as int)),
        decreases p@.len() - i,
    {
        assert(p@.take(i + 1).drop_last() =~= p@.take(i as int));
        if p[i] != '*' {
            r.push(p[i]);
        }
        i = i + 1;
    }
    assert(p@.take(p@.len() as int) =~= p@);
    r
}

fn has_char(v: &[char], c: char) -> (b: bool)
    ensures
        b == v@.contains(c),
{
    let mut i: usize = 0;
    while i < v.len()
        invariant
            i <= v@.len(),
            forall|j: int| 0 <= j < i ==> v@[j] != c,
        decreases v@.len() - i,
    {
        if v[i] == c {
            return true;
        }
        i = i + 1;
    }
    false
}

fn pattern_hits(p: &[char], path: &[char], name: &[char]) -> (b: bool)
    ensures
        b == ignore_hit(p@, path@, name@),
{
    if has_char(p, '*') {
        if starts_with(p, &chars_of("*.")) {
            proof {
                reveal_strlit("*.");
            }
            let mut suffix: Vec<char> = Vec::new();
            let mut i: usize = 1;
            while i < p.len()
                invariant
                    1 <= i <= p@.len(),
                    suffix@ == p@.subrange(1, i as int),
                decreases p@.len() - i,
            {
                suffix.push(p[i]);
                assert(p@.subrange(1, i as int).push(p@[i as int]) =~= p@.subrange(1, i + 1));
                i = i + 1;
            }
            assert(suffix@ =~= p@.skip(1));
            ends_with(name, &suffix)
        } else {
            let stripped = crate::text::string_of(&remove_stars(p));
            let needle = chars_of(to_lowercase(stripped.as_str()).as_str());
            needle.len() > 0 && contains(name, &needle)
        }
    } else {
        let lp = chars_of(to_lowercase(crate::text::string_of(p).as_str()).as_str());
        let parts = split_char(path, '/');
        assert(parts@.map_values(|v: Vec<char>| v@) =~= split_of(path@, '/'));
        listed(&parts, &lp)
    }
}

/// Whether a character sequence is one of the listed ones.
pub fn listed(list: &Vec<Vec<char>>, x: &[char]) -> (b: bool)
    ensures
        b == list@.map_values(|v: Vec<char>| v@).contains(x@),
{
    let ghost l = list@.map_values(|v: Vec<char>| v@);
    let mut i: usize = 0;
    while i < list.len()
        invariant
            i <= list@.len(),
            l == list@.map_values(|v: Vec<char>| v@),
            forall|j: int| 0 <= j < i ==> l[j] != x@,
        decreases list@.len() - i,
    {
        if chars_eq(&list[i], x) {
            assert(l[i as int] == x@);
            return true;
        }
        i = i + 1;
    }
    false
}

/// The kind of file an already lowercased extension marks.
pub open spec fn kind_of_ext(l: Seq<char>) -> Seq<char> {
    if l == "md"@ || l == "rst"@ || l == "txt"@ || l == "doc"@ || l == "docx"@ || l == "pdf"@ {
        "Documentation"@
    } else if l == "json"@ || l == "yml"@ || l == "yaml"@ || l == "toml"@ || l == "xml"@ || l
        == "ini"@ || l == "cfg"@ || l == "conf"@ {
        "Configuration"@
    } else if local_code_extensions().contains(seq!['.'] + l) {
        "Code"@
    } else {
        "Other"@
    }
}

/// The kind of the file at `path`, by its extension.
pub open spec fn file_kind(path: Seq<char>) -> Seq<char> {
    match path_extension(path) {
        Some(e) => kind_of_ext(lowercase_of(e)),
        None => "Other"@,
    }
}

fn kind_of_ext_chars(l: &[char]) -> (r: String)
    ensures
        r@ == kind_of_ext(l@),
{
    if chars_eq(l, &chars_of("md")) || chars_eq(l, &chars_of("rst")) || chars_eq(l, &chars_of("txt"))
        || chars_eq(l, &chars_of("doc")) || chars_eq(l, &chars_of("docx")) || chars_eq(
        l,
        &chars_of("pdf"),
    ) {
        String::from_str("Documentation")
    } else if chars_eq(l, &chars_of("json")) || chars_eq(l, &chars_of("yml")) || chars_eq(
        l,
        &chars_of("yaml"),
    ) || chars_eq(l, &chars_of("toml")) || chars_eq(l, &chars_of("xml")) || chars_eq(
        l,
        &chars_of("ini"),
    ) || chars_eq(l, &chars_of("cfg")) || chars_eq(l, &chars_of("conf")) {
        String::from_str("Configuration")
    } else {
        let mut dotted: Vec<char> = Vec::new();
        dotted.push('.');
        let mut i: usize = 0;
        while i < l.len()
            invariant
                i <= l@.len(),
                dotted@ == seq!['.'] + l@.take(i as int),
            decreases l@.len() - i,
        {
            dotted.push(l[i]);
            assert(seq!['.'] + l@.take(i + 1) =~= (seq!['.'] + l@.take(i as int)).push(l@[i as int]));
            i = i + 1;
        }
        assert(l@.take(l@.len() as int) =~= l@);
        let exts = local_code_extension_list();
        assert(exts@.map_values(|v: Vec<char>| v@) =~= local_code_extensions());
        if listed(&exts, &dotted) {
            String::from_str("Code")
        } else {
            String::from_str("Other")
        }
    }
}

impl LocalProcessor {
    /// Check if a path should be ignored when collecting files.
    pub fn should_ignore(&self, path: &str) -> (b: bool)
        ensures
            b == ignored(path@),
    {
        let lower = chars_of(to_lowercase(path).as_str());
        let name: Vec<char> = match file_name_of(path) {
            Some(n) => chars_of(to_lowercase(n.as_str()).as_str()),
            None => Vec::new(),
        };
        assert(name@ == lower_name(path@));
        let pats = ignore_pattern_list();
        let mut i: usize = 0;
        while i < pats.len()
            invariant
                i <= pats@.len(),
                pats@.len() == ignore_patterns().len(),
                forall|j: int| 0 <= j < pats@.len() ==> #[trigger] pats@[j]@ == ignore_patterns()[j],
                lower@ == lowercase_of(path@),
                name@ == lower_name(path@),
                forall|j: int|
                    0 <= j < i ==> !ignore_hit(#[trigger] ignore_patterns()[j], lower@, name@),
            decreases pats@.len() - i,
        {
            if pattern_hits(&pats[i], &lower, &name) {
                assert(ignore_hit(ignore_patterns()[i as int], lower@, name@));
                return true;
            }
            i = i + 1;
        }
        false
    }

    /// Detect file type based on extension.
    pub fn detect_file_type(&self, file_path: &str) -> (r: String)
        ensures
            r@ == file_kind(file_path@),
    {
        match extension_of(file_path) {
            Some(e) => kind_of_ext_chars(&chars_of(to_lowercase(e.as_str()).as_str())),
            None => String::from_str("Other"),
        }
    }

    /// Convert a file extension (any case) to a language name.
    pub fn extension_to_language(&self, ext: &str) -> (r: String)
        ensures
            r@ == language_of_ext(lowercase_of(ext@)),
    {
        language_of_ext_chars(&chars_of(to_lowercase(ext).as_str()))
    }
}

/// The language of each file in `files` that has an extension, in order.
pub open spec fn file_languages(files: Seq<Seq<char>>) -> Seq<Seq<char>>
    decreases files.len(),
{
    if files.len() == 0 {
        Seq::empty()
    } else {
        let earlier = file_languages(files.drop_last());
        match path_extension(files.last()) {
            Some(e) => earlier.push(language_of_ext(lowercase_of(e))),
            None => earlier,
        }
    }
}

/// `t` with the count of `k` raised by one, `k` appended with count 1 if absent.
pub open spec fn bump(t: Seq<(Seq<char>, nat)>, k: Seq<char>) -> Seq<(Seq<char>, nat)>
    decreases t.len(),
{
    if t.len() == 0 {
        seq![(k, 1nat)]
    } else if t[0].0 == k {
        seq![(k, t[0].1 + 1)] + t.drop_first()
    } else {
        seq![t[0]] + bump(t.drop_first(), k)
    }
}

/// How often each item occurs in `s`, items in order of first occurrence.
pub open spec fn tally(s: Seq<Seq<char>>) -> Seq<(Seq<char>, nat)>
    decreases s.len(),
{
    if s.len() == 0 {
        Seq::empty()
    } else {
        bump(tally(s.drop_last()), s.last())
    }
}

/// The view of a tally held as `(String, usize)` pairs.
pub open spec fn tally_view(t: Seq<(String, usize)>) -> Seq<(Seq<char>, nat)> {
    t.map_values(|e: (String, usize)| (e.0@, e.1 as nat))
}

pub proof fn lemma_bump(t: Seq<(Seq<char>, nat)>, k: Seq<char>, j: int)
    requires
        0 <= j <= t.len(),
        forall|m: int| 0 <= m < j ==> #[trigger] t[m].0 != k,
        j < t.len() ==> t[j].0 == k,
    ensures
        j < t.len() ==> bump(t, k) == t.update(j, (k, t[j].1 + 1)),
        j == t.len() ==> bump(t, k) == t.push((k, 1nat)),
    decreases j,
{
    if j == 0 {
        if t.len() == 0 {
            assert(bump(t, k) =~= t.push((k, 1nat)));
        } else {
            assert(bump(t, k) =~= t.update(0, (k, t[0].1 + 1)));
        }
    } else {
        assert forall|m: int| 0 <= m < j - 1 implies #[trigger] t.drop_first()[m].0 != k by {
            assert(t.drop_first()[m] == t[m + 1]);
        }
        lemma_bump(t.drop_first(), k, j - 1);
        if j < t.len() {
            assert(bump(t, k) =~= t.update(j, (k, t[j].1 + 1)));
        } else {
            assert(bump(t, k) =~= t.push((k, 1nat)));
        }
    }
}

/// Information about a local repository.
pub struct LocalRepoInfo {
    /// Directory name
    pub name: String,
    /// Directory path
    pub path: String,
    /// Total size of the collected files in bytes
    pub size_bytes: u64,
    /// Number of collected files
    pub file_count: usize,
    /// The language with the most files
    pub primary_language: Option<String>,
    /// Files per language, languages in order of first occurrence
    pub languages: Vec<(String, usize)>,
    /// When the analysis was made
    pub created_at: String,
}

/// The entry of a tally with the largest count; the last such entry on ties.
pub open spec fn most_frequent(t: Seq<(Seq<char>, nat)>) -> Option<(Seq<char>, nat)>
    decreases t.len(),
{
    if t.len() == 0 {
        None
    } else {
        match most_frequent(t.drop_last()) {
            None => Some(t.last()),
            Some(b) => if t.last().1 >= b.1 { Some(t.last()) } else { Some(b) },
        }
    }
}

/// Counts the files per language and picks the most frequent language.
pub fn count_languages(files: &Vec<String>) -> (r: (Vec<(String, usize)>, Option<String>))
    ensures
        tally_view(r.0@) == tally(file_languages(files@.map_values(|f: String| f@))),
        match most_frequent(tally_view(r.0@)) {
            None => r.1 is None,
            Some(b) => r.1 matches Some(l) && l@ == b.0,
        },
{
    let ghost fs = files@.map_values(|f: String| f@);
    let mut t: Vec<(String, usize)> = Vec::new();
    let mut i: usize = 0;
    while i < files.len()
        invariant
            i <= files@.len(),
            fs == files@.map_values(|f: String| f@),
            tally_view(t@) == tally(file_languages(fs.take(i as int))),
            forall|m: int| 0 <= m < t@.len() ==> #[trigger] t@[m].1 <= i,
        decreases files@.len() - i,
    {
        assert(fs.take(i + 1).drop_last() =~= fs.take(i as int));
        assert(fs.take(i + 1).last() == files@[i as int]@);
        match extension_of(files[i].as_str()) {
            Some(e) => {
                let lang = language_of_ext_chars(&chars_of(to_lowercase(e.as_str()).as_str()));
                let ghost tv = tally_view(t@);
                let mut j: usize = 0;
                while j < t.len() && !chars_eq(&chars_of(t[j].0.as_str()), &chars_of(lang.as_str()))
                    invariant
                        j <= t@.len(),
                        tv == tally_view(t@),
                        forall|m: int| 0 <= m < j ==> #[trigger] tv[m].0 != lang@,
                    decreases t@.len() - j,
                {
                    j = j + 1;
                }
                proof {
                    lemma_bump(tv, lang@, j as int);
                    let prev = file_languages(fs.take(i as int));
                    assert(file_languages(fs.take(i + 1)) == prev.push(lang@));
                    assert(prev.push(lang@).drop_last() =~= prev);
                    assert(tally(prev.push(lang@)) == bump(tally(prev), lang@));
                }
                if j < t.len() {
                    let c = t[j].1;
                    let name = t[j].0.clone();
                    assert(name@ == t@[j as int].0@);
                    t.set(j, (name, c + 1));
                    assert(tally_view(t@) =~= tv.update(j as int, (lang@, tv[j as int].1 + 1)));
                } else {
                    t.push((lang, 1));
                    assert(tally_view(t@) =~= tv.push((lang@, 1nat)));
                }
            },
            None => {
                assert(file_languages(fs.take(i + 1)) == file_languages(fs.take(i as int)));
            },
        }
        i = i + 1;
    }
    assert(fs.take(files@.len() as int) =~= fs);
    let ghost tv = tally_view(t@);
    let mut best: Option<usize> = None;
    let mut k: usize = 0;
    assert(tv.take(0) =~= Seq::<(Seq<char>, nat)>::empty());
    while k < t.len()
        invariant
            k <= t@.len(),
            tv == tally_view(t@),
            match most_frequent(tv.take(k as int)) {
                None => best is None,
                Some(b) => best matches Some(x) && x < k && tv[x as int] == b,
            },
        decreases t@.len() - k,
    {
        assert(tv.take(k + 1).drop_last() =~= tv.take(k as int));
        match best {
            None => {
                best = Some(k);
            },
            Some(x) => {
                if t[k].1 >= t[x].1 {
                    best = Some(k);
                }
            },
        }
        k = k + 1;
    }
    assert(tv.take(t@.len() as int) =~= tv);
    let primary = match best {
        Some(x) => Some(t[x].0.clone()),
        None => None,
    };
    (t, primary)
}

impl LocalProcessor {
    /// Summarises a directory from its collected files; `total_size` is the
    /// sum of their sizes and `created_at` the time of the analysis.
    pub fn analyze_repository(
        &self,
        dir_path: &str,
        files: &Vec<String>,
        total_size: u64,
        created_at: String,
    ) -> (info: LocalRepoInfo)
        ensures
            match path_file_name(dir_path@) {
                Some(n) => info.name@ == n,
                None => info.name@ == "unknown"@,
            },
            info.path@ == dir_path@,
            info.size_bytes == total_size,
            info.file_count == files@.len(),
            tally_view(info.languages@) == tally(file_languages(files@.map_values(|f: String| f@))),
            match most_frequent(tally_view(info.languages@)) {
                None => info.primary_language is None,
                Some(b) => info.primary_language matches Some(l) && l@ == b.0,
            },
            info.created_at == created_at,
    {
        let name = match file_name_of(dir_path) {
            Some(n) => n,
            None => String::from_str("unknown"),
        };
        let (languages, primary_language) = count_languages(files);
        LocalRepoInfo {
            name,
            path: String::from_str(dir_path),
            size_bytes: total_size,
            file_count: files.len(),
            primary_language,
            languages,
            created_at,
        }
    }
}

/// The heading block that every analysis report starts with.
pub open spec fn report_head(title: Seq<char>, generated: Seq<char>) -> Seq<char> {
    title + "\n\n"@ + "**Author:** Nik Jois <nikjois@llamasearch.ai>\n"@ + "**Generated:** "@
        + generated + "\n\n"@
}

/// The report for a single local file.
pub open spec fn file_report(
    file_path: Seq<char>,
    content: Seq<char>,
    byte_len: nat,
    file_type: Seq<char>,
    generated: Seq<char>,
) -> Seq<char> {
    let name = match path_file_name(file_path) {
        Some(n) => n,
        None => "unknown"@,
    };
    let lang = match path_extension(file_path) {
        Some(e) => "- **Language:** "@ + language_of_ext(lowercase_of(e)) + "\n"@,
        None => Seq::empty(),
    };
    report_head("# File Analysis: "@ + name, generated) + "## File Information\n\n"@
        + "- **Path:** "@ + file_path + "\n"@ + "- **Type:** "@ + file_type + "\n"@
        + "- **Size:** "@ + dec(byte_len) + " bytes\n"@ + "- **Lines:** "@ + dec(
        lines_of(content).len(),
    ) + "\n"@ + lang + "\n## File Content\n\n"@ + "```\n"@ + content + "\n```\n"@
}

impl LocalProcessor {
    /// The analysis report of a single file; `generated` is the time stamp
    /// printed in it.
    pub fn analyze_single_file(
        &self,
        file_path: &str,
        content: &str,
        file_type: &str,
        generated: &str,
    ) -> (r: String)
        ensures
            r@ == file_report(file_path@, content@, content.len() as nat, file_type@, generated@),
    {
        let name = match file_name_of(file_path) {
            Some(n) => n,
            None => String::from_str("unknown"),
        };
        let mut out = String::from_str("# File Analysis: ");
        out.append(name.as_str());
        out.append("\n\n");
        out.append("**Author:** Nik Jois <nikjois@llamasearch.ai>\n");
        out.append("**Generated:** ");
        out.append(generated);
        out.append("\n\n");
        out.append("## File Information\n\n");
        out.append("- **Path:** ");
        out.append(file_path);
        out.append("\n");
        out.append("- **Type:** ");
        out.append(file_type);
        out.append("\n");
        out.append("- **Size:** ");
        push_dec(&mut out, content.len() as u64);
        out.append(" bytes\n");
        out.append("- **Lines:** ");
        let ls = lines(&chars_of(content));
        push_dec(&mut out, ls.len() as u64);
        out.append("\n");
        match extension_of(file_path) {
            Some(e) => {
                out.append("- **Language:** ");
                out.append(self.extension_to_language(e.as_str()).as_str());
                out.append("\n");
            },
            None => {},
        }
        out.append("\n## File Content\n\n");
        out.append("```\n");
        out.append(content);
        out.append("\n```\n");
        assert(out@ =~= file_report(file_path@, content@, content.len() as nat, file_type@, generated@));
        out
    }
}

/// One collected file as the directory report shows it.
pub struct SourceFile {
    /// Path relative to the analysed directory
    pub rel_path: String,
    /// Code-fence hint (the file's kind)
    pub lang_hint: String,
    /// The file's text, `None` when it could not be read
    pub content: Option<String>,
}

/// The language distribution lines of a report.
pub open spec fn language_lines(t: Seq<(Seq<char>, nat)>) -> Seq<char>
    decreases t.len(),
{
    if t.len() == 0 {
        Seq::empty()
    } else {
        language_lines(t.drop_last()) + "- **"@ + t.last().0 + ":** "@ + dec(t.last().1)
            + " files\n"@
    }
}

/// The section of a report that reproduces one file.
pub open spec fn source_section(f: SourceFile) -> Seq<char> {
    "### `"@ + f.rel_path@ + "`\n\n"@ + "```"@ + f.lang_hint@ + "\n"@ + match f.content {
        Some(c) => c@,
        None => "/* Unable to read file */"@,
    } + "\n```\n\n"@
}

/// The sections reproducing `fs`, in order.
pub open spec fn source_sections(fs: Seq<SourceFile>) -> Seq<char>
    decreases fs.len(),
{
    if fs.len() == 0 {
        Seq::empty()
    } else {
        source_sections(fs.drop_last()) + source_section(fs.last())
    }
}

/// The analysis report of a directory.
pub open spec fn directory_report(
    dir_name: Seq<char>,
    generated: Seq<char>,
    info: LocalRepoInfo,
    tree: Seq<char>,
    files: Seq<SourceFile>,
) -> Seq<char> {
    let primary = match info.primary_language {
        Some(l) => "- **Primary Language:** "@ + l@ + "\n"@,
        None => Seq::empty(),
    };
    let langs = tally_view(info.languages@);
    let distribution = if langs.len() > 0 {
        "## Language Distribution\n\n"@ + language_lines(langs) + "\n"@
    } else {
        Seq::empty()
    };
    report_head("# Local Repository Analysis: "@ + dir_name, generated)
        + "## Repository Overview\n\n"@ + "- **Name:** "@ + info.name@ + "\n"@
        + "- **Path:** "@ + info.path@ + "\n"@ + "- **Size:** "@ + dec(info.size_bytes as nat)
        + " bytes\n"@ + "- **Files:** "@ + dec(info.file_count as nat) + "\n"@ + primary
        + "\n"@ + distribution + "## Directory Structure\n\n"@ + "```\n"@ + tree
        + "```\n\n"@ + "## Full Source Files\n\n"@ + source_sections(files)
}

/// The report written for a directory in which no file could be read.
pub open spec fn empty_directory_report(dir_name: Seq<char>, generated: Seq<char>) -> Seq<char> {
    report_head("# Local Repository Analysis: "@ + dir_name, generated) + "## Status\n\n"@
        + "No accessible files found.\n"@
        + "All files may be inaccessible due to permissions or the directory may be empty.\n"@
}

/// The report for a directory with no readable files.
pub fn empty_directory_analysis(dir_name: &str, generated: &str) -> (r: String)
    ensures
        r@ == empty_directory_report(dir_name@, generated@),
{
    let mut out = String::from_str("# Local Repository Analysis: ");
    out.append(dir_name);
    out.append("\n\n");
    out.append("**Author:** Nik Jois <nikjois@llamasearch.ai>\n");
    out.append("**Generated:** ");
    out.append(generated);
    out.append("\n\n");
    out.append("## Status\n\n");
    out.append("No accessible files found.\n");
    out.append("All files may be inaccessible due to permissions or the directory may be empty.\n");
    assert(out@ =~= empty_directory_report(dir_name@, generated@));
    out
}

/// The analysis report of a directory: overview, language distribution,
/// the directory tree as given, and every collected file in order.
pub fn directory_analysis(
    dir_name: &str,
    generated: &str,
    info: &LocalRepoInfo,
    tree: &str,
    files: &Vec<SourceFile>,
) -> (r: String)
    ensures
        r@ == directory_report(dir_name@, generated@, *info, tree@, files@),
{
    let mut out = String::from_str("# Local Repository Analysis: ");
    out.append(dir_name);
    out.append("\n\n");
    out.append("**Author:** Nik Jois <nikjois@llamasearch.ai>\n");
    out.append("**Generated:** ");
    out.append(generated);
    out.append("\n\n");
    out.append("## Repository Overview\n\n");
    out.append("- **Name:** ");
    out.append(info.name.as_str());
    out.append("\n");
    out.append("- **Path:** ");
    out.append(info.path.as_str());
    out.append("\n");
    out.append("- **Size:** ");
    push_dec(&mut out, info.size_bytes);
    out.append(" bytes\n");
    out.append("- **Files:** ");
    push_dec(&mut out, info.file_count as u64);
    out.append("\n");
    match &info.primary_language {
        Some(l) => {
            out.append("- **Primary Language:** ");
            out.append(l.as_str());
            out.append("\n");
        },
        None => {},
    }
    out.append("\n");
    let ghost head = out@;
    let ghost langs = tally_view(info.languages@);
    if info.languages.len() > 0 {
        out.append("## Language Distribution\n\n");
        let ghost start = out@;
        let mut i: usize = 0;
        assert(langs.take(0) =~= Seq::<(Seq<char>, nat)>::empty());
        while i < info.languages.len()
            invariant
                i <= info.languages@.len(),
                langs == tally_view(info.languages@),
                out@ == start + language_lines(langs.take(i as int)),
            decreases info.languages@.len() - i,
        {
            assert(langs.take(i + 1).drop_last() =~= langs.take(i as int));
            out.append("- **");
            out.append(info.languages[i].0.as_str());
            out.append(":** ");
            push_dec(&mut out, info.languages[i].1 as u64);
            out.append(" files\n");
            i = i + 1;
        }
        assert(langs.take(langs.len() as int) =~= langs);
        out.append("\n");
    }
    out.append("## Directory Structure\n\n");
    out.append("```\n");
    out.append(tree);
    out.append("```\n\n");
    out.append("## Full Source Files\n\n");
    let ghost start2 = out@;
    let mut k: usize = 0;
    assert(files@.take(0) =~= Seq::<SourceFile>::empty());
    while k < files.len()
        invariant
            k <= files@.len(),
            out@ == start2 + source_sections(files@.take(k as int)),
        decreases files@.len() - k,
    {
        assert(files@.take(k + 1).drop_last() =~= files@.take(k as int));
        let f = &files[k];
        out.append("### `");
        out.append(f.rel_path.as_str());
        out.append("`\n\n");
        out.append("```");
        out.append(f.lang_hint.as_str());
        out.append("\n");
        match &f.content {
            Some(c) => out.append(c.as_str()),
            None => out.append("/* Unable to read file */"),
        }
        out.append("\n```\n\n");
        k = k + 1;
    }
    assert(files@.take(files@.len() as int) =~= files@);
    assert(out@ =~= directory_report(dir_name@, generated@, *info, tree@, files@));
    out
}

/// One line of the directory tree: two spaces per level, then `[DIR] name/`
/// or `[FILE] name`.
pub open spec fn tree_line_text(depth: nat, is_dir: bool, name: Seq<char>) -> Seq<char> {
    let indent = Seq::new(2 * depth, |i: int| ' ');
    if is_dir {
        indent + "[DIR] "@ + name + "/\n"@
    } else {
        indent + "[FILE] "@ + name + "\n"@
    }
}

/// Executable `tree_line_text`.
pub fn tree_line(depth: usize, is_dir: bool, name: &str) -> (r: String)
    requires
        depth <= usize::MAX / 2,
    ensures
        r@ == tree_line_text(depth as nat, is_dir, name@),
{
    let mut out = String::new();
    let mut i: usize = 0;
    while i < 2 * depth
        invariant
            i <= 2 * depth,
            depth <= usize::MAX / 2,
            out@ == Seq::new(i as nat, |k: int| ' '),
        decreases 2 * depth - i,
    {
        crate::text::push_char(&mut out, ' ');
        assert(out@ =~= Seq::new((i + 1) as nat, |k: int| ' '));
        i = i + 1;
    }
    if is_dir {
        out.append("[DIR] ");
        out.append(name);
        out.append("/\n");
    } else {
        out.append("[FILE] ");
        out.append(name);
        out.append("\n");
    }
    out
}

/// Raising one count of a tally whose counts are at most `b` leaves every
/// count at most `b + 1`.
pub proof fn lemma_bump_bound(t: Seq<(Seq<char>, nat)>, k: Seq<char>, b: nat)
    requires
        forall|m: int| 0 <= m < t.len() ==> #[trigger] t[m].1 <= b,
    ensures
        forall|m: int| 0 <= m < bump(t, k).len() ==> #[trigger] bump(t, k)[m].1 <= b + 1,
    decreases t.len(),
{
    if t.len() > 0 && t[0].0 != k {
        assert forall|m: int| 0 <= m < t.drop_first().len() implies #[trigger] t.drop_first()[m].1 <= b by {
            assert(t.drop_first()[m] == t[m + 1]);
        }
        lemma_bump_bound(t.drop_first(), k, b);
        assert forall|m: int| 0 <= m < bump(t, k).len() implies #[trigger] bump(t, k)[m].1 <= b + 1 by {
            if m > 0 {
                assert(bump(t, k)[m] == bump(t.drop_first(), k)[m - 1]);
            }
        }
    } else if t.len() > 0 {
        assert forall|m: int| 0 <= m < bump(t, k).len() implies #[trigger] bump(t, k)[m].1 <= b + 1 by {
            if m > 0 {
                assert(bump(t, k)[m] == t[m]);
            }
        }
    }
}

/// No count of a tally exceeds the number of items counted.
pub proof fn lemma_tally_bound(s: Seq<Seq<char>>)
    ensures
        forall|m: int| 0 <= m < tally(s).len() ==> #[trigger] tally(s)[m].1 <= s.len(),
    decreases s.len(),
{
    if s.len() > 0 {
        lemma_tally_bound(s.drop_last());
        lemma_bump_bound(tally(s.drop_last()), s.last(), (s.len() - 1) as nat);
    }
}

/// The position of the entry of a tally with the largest count (the last
/// such entry on ties).
pub fn most_frequent_index(t: &Vec<(String, usize)>) -> (r: Option<usize>)
    ensures
        match most_frequent(tally_view(t@)) {
            None => r is None,
            Some(b) => r matches Some(x) && x < t@.len() && tally_view(t@)[x as int] == b,
        },
{
    let ghost tv = tally_view(t@);
    let mut best: Option<usize> = None;
    let mut k: usize = 0;
    assert(tv.take(0) =~= Seq::<(Seq<char>, nat)>::empty());
    while k < t.len()
        invariant
            k <= t@.len(),
            tv == tally_view(t@),
            match most_frequent(tv.take(k as int)) {
                None => best is None,
                Some(b) => best matches Some(x) && x < k && tv[x as int] == b,
            },
        decreases t@.len() - k,
    {
        assert(tv.take(k + 1).drop_last() =~= tv.take(k as int));
        match best {
            None => {
                best = Some(k);
            },
            Some(x) => {
                if t[k].1 >= t[x].1 {
                    best = Some(k);
                }
            },
        }
        k = k + 1;
    }
    assert(tv.take(t@.len() as int) =~= tv);
    best
}

/// The entry `most_frequent` picks has the largest count of the tally.
pub proof fn law_most_frequent_is_maximal(t: Seq<(Seq<char>, nat)>)
    ensures
        match most_frequent(t) {
            None => t.len() == 0,
            Some(b) => t.contains(b) && forall|i: int| 0 <= i < t.len() ==> #[trigger] t[i].1 <= b.1,
        },
    decreases t.len(),
{
    if t.len() > 0 {
        law_most_frequent_is_maximal(t.drop_last());
        match most_frequent(t.drop_last()) {
            None => {
                assert(t[t.len() - 1] == t.last());
            },
            Some(b) => {
                if t.last().1 >= b.1 {
                    assert(t[t.len() - 1] == t.last());
                } else {
                    let i = choose|i: int| 0 <= i < t.drop_last().len() && t.drop_last()[i] == b;
                    assert(t[i] == b);
                }
                let m = if t.last().1 >= b.1 { t.last() } else { b };
                assert(most_frequent(t) == Some(m));
                assert forall|i: int| 0 <= i < t.len() implies #[trigger] t[i].1 <= m.1 by {
                    if i < t.len() - 1 {
                        assert(t[i] == t.drop_last()[i]);
                    }
                }
            },
        }
    }
}


/// The entries of one directory level shown in the tree: directories first,
/// then by name, at most fifty.
pub open spec fn tree_level_order(entries: Seq<(String, bool)>) -> Seq<usize> {
    let order = sorted_text(crate::processors::github_report::tree_keys(entries), false).map_values(
        |e: (Seq<char>, usize)| e.1,
    );
    order.take(if order.len() < 50 { order.len() as int } else { 50 })
}

/// The positions of the entries (name, is a directory) of one directory
/// level listed in the tree, in order.
pub fn tree_level(entries: &Vec<(String, bool)>) -> (r: Vec<usize>)
    ensures
        r@ == tree_level_order(entries@),
        forall|k: int| 0 <= k < r@.len() ==> #[trigger] r@[k] < entries@.len(),
{
    let order = crate::processors::github_report::tree_entry_order(entries);
    let n: usize = if order.len() < 50 { order.len() } else { 50 };
    let mut r: Vec<usize> = Vec::new();
    let mut k: usize = 0;
    while k < n
        invariant
            k <= n <= order@.len(),
            forall|m: int| 0 <= m < order@.len() ==> #[trigger] order@[m] < entries@.len(),
            r@ == order@.take(k as int),
        decreases n - k,
    {
        r.push(order[k]);
        assert(r@ =~= order@.take(k + 1));
        k = k + 1;
    }
    r
}

/// Whether the tree descends into a directory shown at `depth` when it is
/// cut at `max_depth` levels.
pub fn tree_descends(depth: usize, max_depth: usize, is_dir: bool) -> (b: bool)
    ensures
        b == (is_dir && depth + 1 < max_depth),
{
    is_dir && depth < max_depth && depth + 1 < max_depth
}

} // verus!
