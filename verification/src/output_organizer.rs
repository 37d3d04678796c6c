//! Where output files belong: the directory of each package type, the
//! category a file name points to, the package a file name names, and the
//! description shown for a file in the package index.

use vstd::prelude::*;
use crate::bindings::{
    join_path, path_join, same_path, path_equal, regex_capture1, regex_group1, regex_is_valid,
};
use crate::text::{
    chars_of, string_of, contains, has_sub, has_prefix, starts_with, ends_with, has_suffix, split_of,
    split_char, to_lowercase, lowercase_of, chars_eq, utf8_len, trim, trim_chars, before_char, before_char_of,
    first_at, lemma_first_at, find, tail_from, head, lines, lines_of,
    byte_len_exceeds, chars_within_bytes, prefix_within,
};

verus! {

/// The directories that hold the output of each package type.
pub struct OutputPaths {
    /// Root directory for all output
    pub base_dir: String,
    /// Directory for GitHub repository outputs
    pub github_repos_dir: String,
    /// Directory for GitHub organization outputs
    pub github_orgs_dir: String,
    /// Directory for PyPI package outputs
    pub pypi_packages_dir: String,
    /// Directory for PyPI profile outputs
    pub pypi_profiles_dir: String,
    /// Directory for Rust crates outputs
    pub crates_dir: String,
    /// Directory for NPM package outputs
    pub npm_packages_dir: String,
    /// Directory for Go package outputs
    pub go_packages_dir: String,
    /// Directory for local repository outputs
    pub local_repos_dir: String,
    /// Directory for index files
    pub index_dir: String,
    /// Directory for downloaded package files
    pub downloads_dir: String,
}

/// The directories under `base` that `OutputPaths::new` lays out.
pub open spec fn laid_out(p: OutputPaths, base: Seq<char>) -> bool {
    &&& p.base_dir@ == base
    &&& p.github_repos_dir@ == path_join(base, "github_repos"@)
    &&& p.github_orgs_dir@ == path_join(base, "github_orgs"@)
    &&& p.pypi_packages_dir@ == path_join(base, "pypi_packages"@)
    &&& p.pypi_profiles_dir@ == path_join(base, "pypi_profiles"@)
    &&& p.crates_dir@ == path_join(base, "rust_crates"@)
    &&& p.npm_packages_dir@ == path_join(base, "npm_packages"@)
    &&& p.go_packages_dir@ == path_join(base, "go_packages"@)
    &&& p.local_repos_dir@ == path_join(base, "local_repositories"@)
    &&& p.index_dir@ == path_join(base, "_index"@)
    &&& p.downloads_dir@ == path_join(base, "_downloads"@)
}

/// Which directory of `p` holds packages of (already lowercased) type `t`.
pub open spec fn dir_for(p: OutputPaths, t: Seq<char>) -> String {
    if t == "github_repo"@ {
        p.github_repos_dir
    } else if t == "github_org"@ {
        p.github_orgs_dir
    } else if t == "pypi"@ {
        p.pypi_packages_dir
    } else if t == "pypi_profile"@ {
        p.pypi_profiles_dir
    } else if t == "crate"@ || t == "rust"@ {
        p.crates_dir
    } else if t == "npm"@ {
        p.npm_packages_dir
    } else if t == "go"@ {
        p.go_packages_dir
    } else if t == "local"@ || t == "local_repo"@ {
        p.local_repos_dir
    } else {
        p.base_dir
    }
}

fn text_is(a: &Vec<char>, b: &str) -> (r: bool)
    ensures
        r == (a@ == b@),
{
    chars_eq(a, &chars_of(b))
}

impl OutputPaths {
    /// The output directories under `base_dir`, one per package type, plus
    /// the index and download directories.
    pub fn new(base_dir: &str) -> (p: OutputPaths)
        ensures
            laid_out(p, base_dir@),
    {
        OutputPaths {
            base_dir: String::from_str(base_dir),
            github_repos_dir: join_path(base_dir, "github_repos"),
            github_orgs_dir: join_path(base_dir, "github_orgs"),
            pypi_packages_dir: join_path(base_dir, "pypi_packages"),
            pypi_profiles_dir: join_path(base_dir, "pypi_profiles"),
            crates_dir: join_path(base_dir, "rust_crates"),
            npm_packages_dir: join_path(base_dir, "npm_packages"),
            go_packages_dir: join_path(base_dir, "go_packages"),
            local_repos_dir: join_path(base_dir, "local_repositories"),
            index_dir: join_path(base_dir, "_index"),
            downloads_dir: join_path(base_dir, "_downloads"),
        }
    }

    /// Every directory to create, the base directory first.
    pub fn all_dirs(&self) -> (r: Vec<String>)
        ensures
            r@ == seq![
                self.base_dir,
                self.github_repos_dir,
                self.github_orgs_dir,
                self.pypi_packages_dir,
                self.pypi_profiles_dir,
                self.crates_dir,
                self.npm_packages_dir,
                self.go_packages_dir,
                self.local_repos_dir,
                self.index_dir,
                self.downloads_dir,
            ],
    {
        let mut r: Vec<String> = Vec::new();
        r.push(self.base_dir.clone());
        r.push(self.github_repos_dir.clone());
        r.push(self.github_orgs_dir.clone());
        r.push(self.pypi_packages_dir.clone());
        r.push(self.pypi_profiles_dir.clone());
        r.push(self.crates_dir.clone());
        r.push(self.npm_packages_dir.clone());
        r.push(self.go_packages_dir.clone());
        r.push(self.local_repos_dir.clone());
        r.push(self.index_dir.clone());
        r.push(self.downloads_dir.clone());
        r
    }

    /// The directory for packages of `package_type`, compared without case;
    /// the base directory for a type it does not know.
    pub fn get_dir_for_type(&self, package_type: &str) -> (r: &String)
        ensures
            *r == dir_for(*self, lowercase_of(package_type@)),
    {
        let t = chars_of(to_lowercase(package_type).as_str());
        if text_is(&t, "github_repo") {
            &self.github_repos_dir
        } else if text_is(&t, "github_org") {
            &self.github_orgs_dir
        } else if text_is(&t, "pypi") {
            &self.pypi_packages_dir
        } else if text_is(&t, "pypi_profile") {
            &self.pypi_profiles_dir
        } else if text_is(&t, "crate") || text_is(&t, "rust") {
            &self.crates_dir
        } else if text_is(&t, "npm") {
            &self.npm_packages_dir
        } else if text_is(&t, "go") {
            &self.go_packages_dir
        } else if text_is(&t, "local") || text_is(&t, "local_repo") {
            &self.local_repos_dir
        } else {
            &self.base_dir
        }
    }
}

/// The pattern of the names of stamped output files: timestamp, package and
/// source.
pub open spec fn stamped_name_pattern() -> Seq<char> {
    "\\d{8}_\\d{6}_([^_]+)_(\\w+)\\.txt$"@
}

/// The package a file name names when it is not a stamped output name: the
/// third `_`-separated part when the first two have the byte lengths of a
/// date and a time, else the whole name.
pub open spec fn unstamped_package(f: Seq<char>) -> Seq<char> {
    let parts = split_of(f, '_');
    if parts.len() >= 3 && utf8_len(parts[0]) == 8 && utf8_len(parts[1]) == 6 {
        parts[2]
    } else {
        f
    }
}

/// The package a file name names: the package part of a stamped output
/// name, else what `unstamped_package` reads.
pub open spec fn package_name_of(f: Seq<char>) -> Seq<char> {
    match regex_group1(stamped_name_pattern(), f) {
        Some(n) => if regex_is_valid(stamped_name_pattern()) {
            n
        } else {
            unstamped_package(f)
        },
        None => unstamped_package(f),
    }
}

fn byte_len_is(s: &Vec<char>, n: usize) -> (r: bool)
    ensures
        r == (utf8_len(s@) == n),
{
    let mut acc: usize = 0;
    let mut i: usize = 0;
    while i < s.len()
        invariant
            i <= s@.len(),
            acc == utf8_len(s@.take(i as int)),
            acc <= n,
        decreases s@.len() - i,
    {
        assert(s@.take(i + 1).drop_last() =~= s@.take(i as int));
        let w = crate::text::utf8_width_of(s[i]);
        if w > n - acc {
            proof {
                if i + 1 < s@.len() {
                    crate::text::lemma_utf8_len_grows(s@, i + 1, s@.len() as int);
                }
                assert(s@.take(s@.len() as int) =~= s@);
            }
            return false;
        }
        acc = acc + w;
        i = i + 1;
    }
    assert(s@.take(s@.len() as int) =~= s@);
    acc == n
}

/// The package named by an output file's name, such as `requests` in
/// `20250301_193131_requests_pypi.txt`.
pub fn extract_package_name(filename: &str) -> (r: String)
    ensures
        r@ == package_name_of(filename@),
{
    match regex_capture1("\\d{8}_\\d{6}_([^_]+)_(\\w+)\\.txt$", filename) {
        Some(n) => {
            return n;
        },
        None => {},
    }
    let parts = split_char(&chars_of(filename), '_');
    if parts.len() >= 3 && byte_len_is(&parts[0], 8) && byte_len_is(&parts[1], 6) {
        return string_of(&parts[2]);
    }
    String::from_str(filename)
}

/// The category directory a file named `f` belongs in, when it belongs in one.
pub open spec fn category_of(f: Seq<char>) -> Option<Seq<char>> {
    if has_sub(f, "local"@) || has_sub(f, "_analysis.txt"@) {
        Some("local_repositories"@)
    } else if has_sub(f, "github_repo"@) || (has_sub(f, "-"@) && has_suffix(f, "_github_repo.txt"@)) {
        Some("github_repos"@)
    } else if has_sub(f, "github_org"@) {
        Some("github_orgs"@)
    } else if has_sub(f, "pypi_profile"@) {
        Some("pypi_profiles"@)
    } else if has_sub(f, "pypi"@) {
        Some("pypi_packages"@)
    } else if has_sub(f, "go"@) {
        Some("go_packages"@)
    } else if has_sub(f, "rust"@) || has_sub(f, "crate"@) {
        Some("crates"@)
    } else if has_sub(f, "npm"@) {
        Some("npm_packages"@)
    } else {
        None
    }
}

fn has(s: &Vec<char>, p: &str) -> (r: bool)
    ensures
        r == has_sub(s@, p@),
{
    contains(s, &chars_of(p))
}

/// The category directory a file named `filename` belongs in: local
/// analyses, GitHub repositories and organizations, PyPI profiles and
/// packages, Go packages, crates and npm packages, by what the name mentions.
pub fn output_category(filename: &str) -> (r: Option<&'static str>)
    ensures
        match r {
            Some(d) => category_of(filename@) == Some(d@),
            None => category_of(filename@) is None,
        },
{
    let f = chars_of(filename);
    if has(&f, "local") || has(&f, "_analysis.txt") {
        Some("local_repositories")
    } else if has(&f, "github_repo") || (has(&f, "-") && ends_with(&f, &chars_of("_github_repo.txt"))) {
        Some("github_repos")
    } else if has(&f, "github_org") {
        Some("github_orgs")
    } else if has(&f, "pypi_profile") {
        Some("pypi_profiles")
    } else if has(&f, "pypi") {
        Some("pypi_packages")
    } else if has(&f, "go") {
        Some("go_packages")
    } else if has(&f, "rust") || has(&f, "crate") {
        Some("crates")
    } else if has(&f, "npm") {
        Some("npm_packages")
    } else {
        None
    }
}

/// What is done with a file found directly in the output directory.
pub enum Placement {
    /// Leave it where it is
    Stay,
    /// Copy it to this path
    Copy(String),
    /// Move it to this path
    Move(String),
}

/// Where a file named `f` found at `path` goes, and whether it is copied
/// there: nowhere for a hidden file, a file of no category, or one already
/// in place; GitHub repository files are copied, the others moved.
pub open spec fn placement_of(output_dir: Seq<char>, path: Seq<char>, f: Seq<char>) -> Option<(Seq<char>, bool)> {
    if has_prefix(f, "."@) {
        None
    } else {
        match category_of(f) {
            None => None,
            Some(c) => {
                let target = path_join(path_join(output_dir, c), f);
                if path_equal(path, target) {
                    None
                } else {
                    Some((target, has_sub(f, "_github_repo"@)))
                }
            },
        }
    }
}

/// What is done with the file named `filename` found at `path` directly in
/// `output_dir` when the output is organized.
pub fn placement(output_dir: &str, path: &str, filename: &str) -> (r: Placement)
    ensures
        match r {
            Placement::Stay => placement_of(output_dir@, path@, filename@) is None,
            Placement::Copy(t) => placement_of(output_dir@, path@, filename@) == Some((t@, true)),
            Placement::Move(t) => placement_of(output_dir@, path@, filename@) == Some((t@, false)),
        },
{
    let f = chars_of(filename);
    if starts_with(&f, &chars_of(".")) {
        return Placement::Stay;
    }
    match output_category(filename) {
        None => Placement::Stay,
        Some(c) => {
            let target = join_path(join_path(output_dir, c).as_str(), filename);
            if same_path(path, target.as_str()) {
                Placement::Stay
            } else if has(&f, "_github_repo") {
                Placement::Copy(target)
            } else {
                Placement::Move(target)
            }
        },
    }
}


/// The trimmed rest of the line after the first occurrence of `p` in `c`.
pub open spec fn line_after(c: Seq<char>, p: Seq<char>) -> Seq<char> {
    trim(before_char(c.skip(first_at(c, p) + p.len()), '\n'))
}

/// A description marked by `p`: the rest of its line when `p` occurs and
/// that rest is not blank.
pub open spec fn marked_by(c: Seq<char>, p: Seq<char>) -> Option<Seq<char>> {
    if has_sub(c, p) && line_after(c, p).len() > 0 {
        Some(line_after(c, p))
    } else {
        None
    }
}

/// A description marked by `p`, or, only when `p` does not occur at all, by `alt`.
pub open spec fn marked_by_either(c: Seq<char>, p: Seq<char>, alt: Seq<char>) -> Option<Seq<char>> {
    if has_sub(c, p) {
        marked_by(c, p)
    } else {
        marked_by(c, alt)
    }
}

/// The first of two options that holds a value.
pub open spec fn or_else(a: Option<Seq<char>>, b: Option<Seq<char>>) -> Option<Seq<char>> {
    match a {
        Some(x) => Some(x),
        None => b,
    }
}

/// The lines from the first heading line on (`skip_while` not a heading).
pub open spec fn from_first_heading(ls: Seq<Seq<char>>) -> Seq<Seq<char>>
    decreases ls.len(),
{
    if ls.len() == 0 {
        ls
    } else if has_prefix(ls[0], "#"@) {
        ls
    } else {
        from_first_heading(ls.drop_first())
    }
}

/// The first line that is not a heading and, trimmed, is neither blank nor
/// a list item; trimmed.
pub open spec fn first_plain_line(ls: Seq<Seq<char>>) -> Option<Seq<char>>
    decreases ls.len(),
{
    if ls.len() == 0 {
        None
    } else if has_prefix(ls[0], "#"@) {
        first_plain_line(ls.drop_first())
    } else {
        let t = trim(ls[0]);
        if t.len() > 0 && !has_prefix(t, "-"@) && !has_prefix(t, "*"@) {
            Some(t)
        } else {
            first_plain_line(ls.drop_first())
        }
    }
}

/// The description a file's text gives, before it is shortened: a marked
/// description, a marked bullet, or the first plain line after a heading.
pub open spec fn raw_description(c: Seq<char>) -> Option<Seq<char>> {
    or_else(
        marked_by_either(c, "Description:"@, "**Description**:"@),
        or_else(
            marked_by_either(c, "Summary:"@, "**Summary**:"@),
            or_else(
                marked_by_either(c, "## Description"@, "# Description"@),
                or_else(
                    marked_by_either(c, "## About"@, "# About"@),
                    or_else(
                        marked_by(c, "- **Description**:"@),
                        or_else(
                            marked_by(c, "- **Summary**:"@),
                            or_else(marked_by(c, "- Description:"@), first_plain_line(from_first_heading(lines_of(c)))),
                        ),
                    ),
                ),
            ),
        ),
    )
}

/// A description longer than 150 bytes cut at the last character boundary
/// at or before byte 147, followed by `...`.
pub open spec fn shortened(d: Seq<char>) -> Seq<char> {
    if utf8_len(d) > 150 {
        prefix_within(d, 147) + "..."@
    } else {
        d
    }
}

fn marked_by_of(c: &Vec<char>, p: &str) -> (r: Option<Vec<char>>)
    ensures
        match r {
            Some(d) => marked_by(c@, p@) == Some(d@),
            None => marked_by(c@, p@) is None,
        },
{
    let pv = chars_of(p);
    match find(c, &pv) {
        None => None,
        Some(i) => {
            proof {
                lemma_first_at(c@, p@, i as int);
                assert(i + pv@.len() <= c@.len());
            }
            assert(pv.len() <= c.len() - i);
            let start = i + pv.len();
            let d = trim_chars(&before_char_of(&tail_from(c, start), '\n'));
            if d.len() > 0 {
                Some(d)
            } else {
                None
            }
        },
    }
}

fn marked_by_either_of(c: &Vec<char>, p: &str, alt: &str) -> (r: Option<Vec<char>>)
    ensures
        match r {
            Some(d) => marked_by_either(c@, p@, alt@) == Some(d@),
            None => marked_by_either(c@, p@, alt@) is None,
        },
{
    if contains(c, &chars_of(p)) {
        marked_by_of(c, p)
    } else {
        marked_by_of(c, alt)
    }
}

fn first_plain_line_of(c: &Vec<char>) -> (r: Option<Vec<char>>)
    ensures
        match r {
            Some(d) => first_plain_line(from_first_heading(lines_of(c@))) == Some(d@),
            None => first_plain_line(from_first_heading(lines_of(c@))) is None,
        },
{
    let ls = lines(c);
    let ghost lv = lines_of(c@);
    let hash = chars_of("#");
    let dash = chars_of("-");
    let star = chars_of("*");
    let mut i: usize = 0;
    assert(lv.skip(0) =~= lv);
    while i < ls.len() && !starts_with(&ls[i], &hash)
        invariant
            i <= ls@.len(),
            ls@.len() == lv.len(),
            forall|k: int| 0 <= k < ls@.len() ==> #[trigger] ls@[k]@ == lv[k],
            hash@ == "#"@,
            from_first_heading(lv) == from_first_heading(lv.skip(i as int)),
        decreases ls@.len() - i,
    {
        assert(lv.skip(i as int).drop_first() =~= lv.skip(i + 1));
        assert(lv.skip(i as int)[0] == lv[i as int]);
        i = i + 1;
    }
    proof {
        if i < ls@.len() {
            assert(lv.skip(i as int)[0] == lv[i as int]);
        } else {
            assert(lv.skip(i as int).len() == 0);
        }
    }
    assert(from_first_heading(lv) == lv.skip(i as int));
    while i < ls.len()
        invariant
            i <= ls@.len(),
            ls@.len() == lv.len(),
            forall|k: int| 0 <= k < ls@.len() ==> #[trigger] ls@[k]@ == lv[k],
            hash@ == "#"@,
            dash@ == "-"@,
            star@ == "*"@,
            lv == lines_of(c@),
            first_plain_line(from_first_heading(lv)) == first_plain_line(lv.skip(i as int)),
        decreases ls@.len() - i,
    {
        assert(lv.skip(i as int).drop_first() =~= lv.skip(i + 1));
        assert(lv.skip(i as int)[0] == lv[i as int]);
        assert(ls@[i as int]@ == lv[i as int]);
        if !starts_with(&ls[i], &hash) {
            let t = trim_chars(&ls[i]);
            if t.len() > 0 && !starts_with(&t, &dash) && !starts_with(&t, &star) {
                assert(first_plain_line(lv.skip(i as int)) == Some(t@));
                return Some(t);
            }
        }
        i = i + 1;
    }
    assert(lv.skip(i as int).len() == 0);
    None
}

fn or_else_of(a: Option<Vec<char>>, b: Option<Vec<char>>) -> (r: Option<Vec<char>>)
    ensures
        match r {
            Some(d) => or_else(
                match a {
                    Some(x) => Some(x@),
                    None => None,
                },
                match b {
                    Some(x) => Some(x@),
                    None => None,
                },
            ) == Some(d@),
            None => a is None && b is None,
        },
{
    match a {
        Some(x) => Some(x),
        None => b,
    }
}

fn raw_description_of(content: &str) -> (r: Option<Vec<char>>)
    ensures
        match r {
            Some(d) => raw_description(content@) == Some(d@),
            None => raw_description(content@) is None,
        },
{
    let c = chars_of(content);
    let found = or_else_of(
        marked_by_either_of(&c, "Description:", "**Description**:"),
        or_else_of(
            marked_by_either_of(&c, "Summary:", "**Summary**:"),
            or_else_of(
                marked_by_either_of(&c, "## Description", "# Description"),
                or_else_of(
                    marked_by_either_of(&c, "## About", "# About"),
                    or_else_of(
                        marked_by_of(&c, "- **Description**:"),
                        or_else_of(
                            marked_by_of(&c, "- **Summary**:"),
                            or_else_of(marked_by_of(&c, "- Description:"), first_plain_line_of(&c)),
                        ),
                    ),
                ),
            ),
        ),
    );
    found
}

/// The description shown for a file in the package index, from the start
/// of its text: the line after a `Description:` or `Summary:` marker or a
/// description or about heading (each with an alternative spelling tried
/// only when the first is absent), then a description or summary bullet,
/// then the first plain line after a heading; cut at the last character
/// boundary within 147 bytes and followed by `...` when longer than 150
/// bytes.
pub fn extract_description(content: &str) -> (r: Option<String>)
    ensures
        match raw_description(content@) {
            Some(d) => r matches Some(t) && t@ == shortened(d),
            None => r is None,
        },
{
    let found = raw_description_of(content);
    match found {
        None => None,
        Some(d) => {
            if byte_len_exceeds(&d, 150) {
                let k = chars_within_bytes(&d, 147);
                let mut t = string_of(&head(&d, k));
                t.append("...");
                Some(t)
            } else {
                Some(string_of(&d))
            }
        },
    }
}


/// A description shown in the index is at most 150 bytes long.
pub proof fn law_descriptions_fit(content: Seq<char>)
    ensures
        match raw_description(content) {
            Some(d) => utf8_len(shortened(d)) <= 150,
            None => true,
        },
{
    match raw_description(content) {
        Some(d) => {
            if utf8_len(d) > 150 {
                crate::text::lemma_fit_len(d, 147);
                crate::text::lemma_utf8_len_concat(prefix_within(d, 147), "..."@);
                assert(utf8_len("..."@) == 3) by {
                    reveal_strlit("...");
                    reveal_with_fuel(utf8_len, 4);
                    assert("..."@.drop_last().drop_last().drop_last() =~= Seq::<char>::empty());
                }
            }
        },
        None => {},
    }
}

} // verus!
