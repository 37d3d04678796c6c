//! PyPI packages: recognizing package references, reading the registry's
//! package document, and the texts written about a package.

use vstd::prelude::*;
use crate::bindings::{regex_is_valid, regex_group1, regex_capture1, path_file_name, file_name_of};
use crate::json::field;
use crate::error::{ProcessorError, Result, detail};
use crate::json::{at, at_ref, member, str_field, str_of, strings_in, Json};
use crate::order::{sorted_desc, sort_desc, lemma_sorted_desc_indices};
use crate::text::{
    push_char, push_chars, chars_of, chars_eq, contains, has_sub, has_suffix, ends_with, lowercase_of,
    to_lowercase, count_matches, count_occurrences, lemma_count_matches_bound,
};
use crate::processors::github_report::{bullet_lines, text_or};

verus! {

/// The pattern of a PyPI project page URL; group 1 is the package name.
pub open spec fn project_url_pattern() -> Seq<char> {
    "https?://pypi\\.org/project/([^/]+)"@
}

/// The pattern of a `pip install` command; group 1 is the package.
pub open spec fn pip_command_pattern() -> Seq<char> {
    "pip\\s+install\\s+([^\\s]+)"@
}

/// Group 1 of `pattern`'s first match in `text`, when the pattern compiles.
pub open spec fn captured(pattern: Seq<char>, text: Seq<char>) -> Option<Seq<char>> {
    if regex_is_valid(pattern) {
        regex_group1(pattern, text)
    } else {
        None
    }
}

/// The package a PyPI reference names: from a project page URL, from a
/// `pip install` command, or a bare name; `None` when there is none.
pub open spec fn pypi_package_name(url: Seq<char>) -> Option<Seq<char>> {
    match captured(project_url_pattern(), url) {
        Some(n) => Some(n),
        None => match captured(pip_command_pattern(), url) {
            Some(n) => Some(n),
            None => if !url.contains('/') && !url.contains(' ') {
                Some(url)
            } else {
                None
            },
        },
    }
}

/// A reference that neither the project-URL nor the `pip install` pattern
/// matches names the package it spells when it holds no `/` and no space
/// (hyphens, dots and the like included), and names none otherwise; a
/// matched pattern gives its captured name.
pub proof fn law_bare_names_are_packages(url: Seq<char>)
    ensures
        captured(project_url_pattern(), url) is None && captured(pip_command_pattern(), url) is None
            && !url.contains('/') && !url.contains(' ') ==> pypi_package_name(url) == Some(url),
        captured(project_url_pattern(), url) is None && captured(pip_command_pattern(), url) is None
            && (url.contains('/') || url.contains(' ')) ==> pypi_package_name(url) is None,
        captured(project_url_pattern(), url) is Some ==> pypi_package_name(url) == captured(
            project_url_pattern(),
            url,
        ),
        captured(project_url_pattern(), url) is None && captured(pip_command_pattern(), url) is Some
            ==> pypi_package_name(url) == captured(pip_command_pattern(), url),
{
}

/// PyPI package processor.
pub struct PyPiProcessor;

impl PyPiProcessor {
    /// Creates a new PyPI processor.
    pub fn new() -> (p: Self) {
        PyPiProcessor
    }

    /// The processor's name.
    pub fn name(&self) -> (r: &'static str)
        ensures
            r@ == "PyPI"@,
    {
        "PyPI"
    }

    /// Whether `url` is a PyPI reference: it mentions `pypi.org` or
    /// `pip install`, or is a bare word without `/`, space or `.`.
    pub fn accepts(&self, url: &str) -> (b: bool)
        ensures
            b == (has_sub(url@, "pypi.org"@) || has_sub(url@, "pip install"@) || (!url@.contains('/')
                && !url@.contains(' ') && !url@.contains('.'))),
    {
        let u = chars_of(url);
        contains(&u, &chars_of("pypi.org")) || contains(&u, &chars_of("pip install")) || (!has_char(&u, '/')
            && !has_char(&u, ' ') && !has_char(&u, '.'))
    }

    /// The package name of a project page URL.
    pub fn extract_from_pypi_url(&self, url: &str) -> (r: Option<String>)
        ensures
            match r {
                Some(n) => captured(project_url_pattern(), url@) == Some(n@),
                None => captured(project_url_pattern(), url@) is None,
            },
    {
        regex_capture1("https?://pypi\\.org/project/([^/]+)", url)
    }

    /// The package of a `pip install` command.
    pub fn extract_from_pip_command(&self, command: &str) -> (r: Option<String>)
        ensures
            match r {
                Some(n) => captured(pip_command_pattern(), command@) == Some(n@),
                None => captured(pip_command_pattern(), command@) is None,
            },
    {
        regex_capture1("pip\\s+install\\s+([^\\s]+)", command)
    }

    /// The package a reference names; a validation error when it names none.
    pub fn extract_package_name(&self, url: &str) -> (r: Result<String>)
        ensures
            match pypi_package_name(url@) {
                Some(n) => r matches Ok(s) && s@ == n,
                None => r matches Err(e) && e is Validation && detail(e)
                    == "Could not extract PyPI package name from: "@ + url@,
            },
    {
        if let Some(n) = self.extract_from_pypi_url(url) {
            return Ok(n);
        }
        if let Some(n) = self.extract_from_pip_command(url) {
            return Ok(n);
        }
        let u = chars_of(url);
        if !has_char(&u, '/') && !has_char(&u, ' ') {
            return Ok(String::from_str(url));
        }
        let mut m = String::from_str("Could not extract PyPI package name from: ");
        m.append(url);
        Err(ProcessorError::Validation(m))
    }
}

/// Whether `c` occurs in `v`.
pub fn has_char(v: &[char], c: char) -> (b: bool)
    ensures
        b == v@.contains(c),
{
    let mut i: usize = 0;
    while i < v.len()
        invariant
            i <= v@.len(),
            forall|j: int| 0 <= j < i ==> v@[j] != c,
        decreases v@.len() - i,
    {
        if v[i] == c {
            assert(v@[i as int] == c);
            return true;
        }
        i = i + 1;
    }
    false
}

/// Whether a project URL's label names a source repository.
pub open spec fn repository_label(key: Seq<char>) -> bool {
    let l = lowercase_of(key);
    has_sub(l, "repo"@) || has_sub(l, "source"@) || has_sub(l, "github"@) || has_sub(l, "gitlab"@)
        || has_sub(l, "bitbucket"@)
}

/// The first project URL with a repository label and a text value.
pub open spec fn first_repository_url(urls: Seq<(String, Json)>) -> Option<Seq<char>>
    decreases urls.len(),
{
    if urls.len() == 0 {
        None
    } else if repository_label(urls[0].0@) && str_of(urls[0].1) is Some {
        str_of(urls[0].1)
    } else {
        first_repository_url(urls.drop_first())
    }
}

/// The repository URL of a package document: a project URL labelled as a
/// repository, else a home page on a code hosting site.
pub open spec fn repository_url_of(info: Json) -> Option<Seq<char>> {
    let project = match at(at(info, "info"@), "project_urls"@) {
        Json::Object(m) => first_repository_url(m@),
        _ => None,
    };
    match project {
        Some(u) => Some(u),
        None => match str_of(at(at(info, "info"@), "home_page"@)) {
            Some(h) => if has_sub(h, "github.com"@) || has_sub(h, "gitlab.com"@) || has_sub(h, "bitbucket.org"@) {
                Some(h)
            } else {
                None
            },
            None => None,
        },
    }
}

/// The repository URL of a package document.
pub fn get_repository_url(package_info: &Json) -> (r: Option<String>)
    ensures
        match r {
            Some(u) => repository_url_of(*package_info) == Some(u@),
            None => repository_url_of(*package_info) is None,
        },
{
    let info = at_ref(package_info, "info");
    match at_ref(info, "project_urls") {
        Json::Object(m) => {
            let mut i: usize = 0;
            assert(m@.skip(0) =~= m@);
            while i < m.len()
                invariant
                    i <= m@.len(),
                    at(at(*package_info, "info"@), "project_urls"@) == Json::Object(*m),
                    first_repository_url(m@) == first_repository_url(m@.skip(i as int)),
                decreases m@.len() - i,
            {
                assert(m@.skip(i as int)[0] == m@[i as int]);
                assert(m@.skip(i as int).drop_first() =~= m@.skip(i + 1));
                let l = chars_of(to_lowercase(m[i].0.as_str()).as_str());
                let labelled = contains(&l, &chars_of("repo")) || contains(&l, &chars_of("source")) || contains(
                    &l,
                    &chars_of("github"),
                ) || contains(&l, &chars_of("gitlab")) || contains(&l, &chars_of("bitbucket"));
                if labelled {
                    match m[i].1.as_str() {
                        Some(u) => {
                            assert(repository_label(m@[i as int].0@));
                            assert(first_repository_url(m@.skip(i as int)) == Some(u@));
                            return Some(u.clone());
                        },
                        None => {},
                    }
                }
                i = i + 1;
            }
        },
        _ => {},
    }
    match str_field(info, "home_page") {
        Some(h) => {
            let c = chars_of(h.as_str());
            if contains(&c, &chars_of("github.com")) || contains(&c, &chars_of("gitlab.com")) || contains(
                &c,
                &chars_of("bitbucket.org"),
            ) {
                Some(h.clone())
            } else {
                None
            }
        },
        None => None,
    }
}

/// The type of a release file (`packagetype`), empty when absent.
pub open spec fn package_type(f: Json) -> Seq<char> {
    text_or(at(f, "packagetype"@), ""@)
}

/// The last source distribution among release files.
pub open spec fn last_sdist(a: Seq<Json>) -> Option<Json>
    decreases a.len(),
{
    if a.len() == 0 {
        None
    } else if package_type(a.last()) == "sdist"@ {
        Some(a.last())
    } else {
        last_sdist(a.drop_last())
    }
}

/// The first wheel among release files.
pub open spec fn first_wheel(a: Seq<Json>) -> Option<Json>
    decreases a.len(),
{
    if a.len() == 0 {
        None
    } else {
        match first_wheel(a.drop_last()) {
            Some(w) => Some(w),
            None => if package_type(a.last()) != "sdist"@ && has_sub(package_type(a.last()), "wheel"@) {
                Some(a.last())
            } else {
                None
            },
        }
    }
}

/// The file to download for the current version of a package document:
/// its URL and file name, or the message of the processing error.
pub open spec fn release_choice(info: Json) -> core::result::Result<(Seq<char>, Seq<char>), Seq<char>> {
    match str_of(at(at(info, "info"@), "version"@)) {
        None => Err("Unable to determine package version"@),
        Some(v) => match at(at(info, "releases"@), v) {
            Json::Array(files) => if files@.len() == 0 {
                Err("No release files found for version "@ + v)
            } else {
                let chosen = match last_sdist(files@) {
                    Some(f) => Some(f),
                    None => first_wheel(files@),
                };
                match chosen {
                    None => Err("No suitable distribution file found"@),
                    Some(f) => match str_of(at(f, "url"@)) {
                        None => Err("Missing download URL"@),
                        Some(u) => match str_of(at(f, "filename"@)) {
                            None => Err("Missing filename"@),
                            Some(n) => Ok((u, n)),
                        },
                    },
                }
            },
            _ => Err("No release files found for version "@ + v),
        },
    }
}

fn is_text(s: &String, t: &str) -> (b: bool)
    ensures
        b == (s@ == t@),
{
    chars_eq(&chars_of(s.as_str()), &chars_of(t))
}

fn type_of_file(f: &Json) -> (r: String)
    ensures
        r@ == package_type(*f),
{
    match str_field(f, "packagetype") {
        Some(t) => t.clone(),
        None => String::from_str(""),
    }
}

/// Chooses the file to download for the current version: the last source
/// distribution, else the first wheel. Returns its URL and file name.
pub fn release_file(package_info: &Json) -> (r: Result<(String, String)>)
    ensures
        match release_choice(*package_info) {
            Ok(p) => r matches Ok(q) && q.0@ == p.0 && q.1@ == p.1,
            Err(m) => r matches Err(e) && e is Processing && detail(e) == m,
        },
{
    let version = match str_field(at_ref(package_info, "info"), "version") {
        Some(v) => v,
        None => {
            return Err(ProcessorError::Processing(String::from_str("Unable to determine package version")));
        },
    };
    let files = match at_ref(at_ref(package_info, "releases"), version.as_str()) {
        Json::Array(a) => a,
        _ => {
            let mut m = String::from_str("No release files found for version ");
            m.append(version.as_str());
            return Err(ProcessorError::Processing(m));
        },
    };
    if files.len() == 0 {
        let mut m = String::from_str("No release files found for version ");
        m.append(version.as_str());
        return Err(ProcessorError::Processing(m));
    }
    let mut sdist: Option<usize> = None;
    let mut wheel: Option<usize> = None;
    let mut i: usize = 0;
    while i < files.len()
        invariant
            i <= files@.len(),
            match last_sdist(files@.take(i as int)) {
                Some(f) => sdist matches Some(k) && k < i && files@[k as int] == f,
                None => sdist is None,
            },
            match first_wheel(files@.take(i as int)) {
                Some(f) => wheel matches Some(k) && k < i && files@[k as int] == f,
                None => wheel is None,
            },
        decreases files@.len() - i,
    {
        assert(files@.take(i + 1).drop_last() =~= files@.take(i as int));
        assert(files@.take(i + 1).last() == files@[i as int]);
        let t = type_of_file(&files[i]);
        proof {
            reveal_strlit("sdist");
        }
        if is_text(&t, "sdist") {
            sdist = Some(i);
        } else if contains(&chars_of(t.as_str()), &chars_of("wheel")) && wheel.is_none() {
            wheel = Some(i);
        }
        i = i + 1;
    }
    assert(files@.take(files@.len() as int) =~= files@);
    let k = match sdist {
        Some(k) => k,
        None => match wheel {
            Some(k) => k,
            None => {
                return Err(ProcessorError::Processing(String::from_str("No suitable distribution file found")));
            },
        },
    };
    let f = &files[k];
    let url = match str_field(f, "url") {
        Some(u) => u.clone(),
        None => {
            return Err(ProcessorError::Processing(String::from_str("Missing download URL")));
        },
    };
    let name = match str_field(f, "filename") {
        Some(n) => n.clone(),
        None => {
            return Err(ProcessorError::Processing(String::from_str("Missing filename")));
        },
    };
    Ok((url, name))
}

/// How a downloaded package is unpacked.
#[derive(PartialEq, Eq, Structural)]
pub enum ArchiveFormat {
    /// A gzipped tar archive
    TarGz,
    /// A zip archive (wheels included)
    Zip,
}

/// The unpacking of a downloaded package by its file name: `.tar.gz` and
/// `.tgz` are tar archives, `.zip` and `.whl` zip archives; any other name is
/// a processing error.
pub fn package_format(package_path: &str) -> (r: Result<ArchiveFormat>)
    ensures
        has_suffix(package_path@, ".tar.gz"@) || has_suffix(package_path@, ".tgz"@) ==> r == Ok::<ArchiveFormat, ProcessorError>(ArchiveFormat::TarGz),
        !(has_suffix(package_path@, ".tar.gz"@) || has_suffix(package_path@, ".tgz"@)) && (has_suffix(package_path@, ".zip"@)
            || has_suffix(package_path@, ".whl"@)) ==> r == Ok::<ArchiveFormat, ProcessorError>(ArchiveFormat::Zip),
        !(has_suffix(package_path@, ".tar.gz"@) || has_suffix(package_path@, ".tgz"@) || has_suffix(package_path@, ".zip"@)
            || has_suffix(package_path@, ".whl"@)) ==> (r matches Err(e) && e is Processing && detail(e)
            == "Unsupported package format: "@ + package_path@),
{
    let p = chars_of(package_path);
    if ends_with(&p, &chars_of(".tar.gz")) || ends_with(&p, &chars_of(".tgz")) {
        Ok(ArchiveFormat::TarGz)
    } else if ends_with(&p, &chars_of(".zip")) || ends_with(&p, &chars_of(".whl")) {
        Ok(ArchiveFormat::Zip)
    } else {
        let mut m = String::from_str("Unsupported package format: ");
        m.append(package_path);
        Err(ProcessorError::Processing(m))
    }
}

/// A bulleted list of the string items of an array member, under `heading`.
pub open spec fn listed_part(heading: Seq<char>, v: Json) -> Seq<char> {
    match v {
        Json::Array(a) => heading + bullet_lines(strings_in(a@)),
        _ => Seq::empty(),
    }
}

/// The summary written for a package from its document `info` and the text
/// of its contents.
pub open spec fn package_summary_text(name: Seq<char>, info: Json, contents: Seq<char>) -> Seq<char> {
    let i = at(info, "info"@);
    let email = text_or(at(i, "author_email"@), ""@);
    let home = text_or(at(i, "home_page"@), ""@);
    let repo = match repository_url_of(info) {
        Some(u) => u,
        None => ""@,
    };
    "# PyPI Package: "@ + name + "\n\n"@ + "Version: "@ + text_or(at(i, "version"@), "unknown"@) + "\n"@
        + "Summary: "@ + text_or(at(i, "summary"@), ""@) + "\n"@ + "Author: "@ + text_or(at(i, "author"@), "Unknown"@)
        + (if email.len() > 0 {
        " ("@ + email + ")"@
    } else {
        Seq::empty()
    }) + "\n"@ + "License: "@ + text_or(at(i, "license"@), "Unknown"@) + "\n"@ + (if home.len() > 0 {
        "Project URL: "@ + home + "\n"@
    } else {
        Seq::empty()
    }) + (if repo.len() > 0 {
        "Repository: "@ + repo + "\n"@
    } else {
        Seq::empty()
    }) + "\n## Description\n\n"@ + text_or(at(i, "description"@), ""@) + listed_part(
        "\n\n## Dependencies\n\n"@,
        at(i, "requires_dist"@),
    ) + listed_part("\n\n## Classifiers\n\n"@, at(i, "classifiers"@)) + "\n\n## Package Content\n"@ + contents
}

fn text_of(j: &Json, key: &str, dflt: &str) -> (r: String)
    ensures
        r@ == text_or(at(*j, key@), dflt@),
{
    match str_field(j, key) {
        Some(t) => t.clone(),
        None => String::from_str(dflt),
    }
}

fn push_listed(out: &mut String, heading: &str, v: &Json)
    ensures
        final(out)@ == old(out)@ + listed_part(heading@, *v),
{
    match v {
        Json::Array(a) => {
            out.append(heading);
            let ghost start = out@;
            let mut k: usize = 0;
            assert(a@.take(0) =~= Seq::<Json>::empty());
            while k < a.len()
                invariant
                    k <= a@.len(),
                    out@ == start + bullet_lines(strings_in(a@.take(k as int))),
                decreases a@.len() - k,
            {
                assert(a@.take(k + 1).drop_last() =~= a@.take(k as int));
                assert(a@.take(k + 1).last() == a@[k as int]);
                match a[k].as_str() {
                    Some(t) => {
                        proof {
                            let ws = strings_in(a@.take(k as int));
                            assert(strings_in(a@.take(k + 1)) == ws.push(t@));
                            assert(ws.push(t@).drop_last() =~= ws);
                        }
                        out.append("- ");
                        out.append(t.as_str());
                        out.append("\n");
                    },
                    None => {},
                }
                k = k + 1;
            }
            assert(a@.take(a@.len() as int) =~= a@);
        },
        _ => {
            assert(old(out)@ + listed_part(heading@, *v) =~= old(out)@);
        },
    }
}

/// The summary written for package `name` from its document and the text of
/// its contents.
#[verifier::rlimit(40)]
pub fn package_summary(name: &str, package_info: &Json, contents: &str) -> (r: String)
    ensures
        r@ == package_summary_text(name@, *package_info, contents@),
{
    let i = at_ref(package_info, "info");
    let email = text_of(i, "author_email", "");
    let home = text_of(i, "home_page", "");
    let repo = match get_repository_url(package_info) {
        Some(u) => u,
        None => String::from_str(""),
    };
    let mut out = String::from_str("# PyPI Package: ");
    out.append(name);
    out.append("\n\n");
    out.append("Version: ");
    out.append(text_of(i, "version", "unknown").as_str());
    out.append("\n");
    out.append("Summary: ");
    out.append(text_of(i, "summary", "").as_str());
    out.append("\n");
    out.append("Author: ");
    out.append(text_of(i, "author", "Unknown").as_str());
    let ghost p0 = out@;
    if !email.as_str().is_empty() {
        out.append(" (");
        out.append(email.as_str());
        out.append(")");
    }
    let ghost p1 = out@;
    out.append("\n");
    out.append("License: ");
    out.append(text_of(i, "license", "Unknown").as_str());
    out.append("\n");
    let ghost p2 = out@;
    if !home.as_str().is_empty() {
        out.append("Project URL: ");
        out.append(home.as_str());
        out.append("\n");
    }
    let ghost p3 = out@;
    if !repo.as_str().is_empty() {
        out.append("Repository: ");
        out.append(repo.as_str());
        out.append("\n");
    }
    let ghost p4 = out@;
    out.append("\n## Description\n\n");
    out.append(text_of(i, "description", "").as_str());
    push_listed(&mut out, "\n\n## Dependencies\n\n", at_ref(i, "requires_dist"));
    push_listed(&mut out, "\n\n## Classifiers\n\n", at_ref(i, "classifiers"));
    out.append("\n\n## Package Content\n");
    out.append(contents);
    proof {
        reveal_strlit("");
    }
    assert(out@ =~= package_summary_text(name@, *package_info, contents@));
    out
}

/// A package name made safe for a file name: `/` and `\` become `_`.
pub open spec fn slashless(name: Seq<char>) -> Seq<char> {
    Seq::new(name.len(), |i: int| if name[i] == '/' || name[i] == '\\' { '_' } else { name[i] })
}

/// The name of the summary file for package `name` written at `ts`.
pub fn summary_file_name(ts: &str, name: &str, suffix: &str) -> (r: String)
    ensures
        r@ == ts@ + "_"@ + slashless(name@) + suffix@,
{
    let v = chars_of(name);
    let mut out = String::from_str(ts);
    out.append("_");
    let ghost start = out@;
    let mut i: usize = 0;
    while i < v.len()
        invariant
            i <= v@.len(),
            v@ == name@,
            out@ == start + slashless(name@).take(i as int),
        decreases v@.len() - i,
    {
        let c = if v[i] == '/' || v[i] == '\\' { '_' } else { v[i] };
        push_char(&mut out, c);
        assert(slashless(name@).take(i + 1) =~= slashless(name@).take(i as int).push(c));
        i = i + 1;
    }
    assert(slashless(name@).take(v@.len() as int) =~= slashless(name@));
    out.append(suffix);
    out
}

/// The blocks for files found in an unpacked package: each file's heading
/// and its text, or a note that it could not be read.
pub open spec fn found_files_text(heading: Seq<char>, fence: Seq<char>, files: Seq<(String, Option<String>)>) -> Seq<char>
    decreases files.len(),
{
    if files.len() == 0 {
        Seq::empty()
    } else {
        found_files_text(heading, fence, files.drop_last()) + "\n\n"@ + heading + files.last().0@ + "\n```"@
            + fence + "\n"@ + match files.last().1 {
            Some(c) => c@ + "\n```\n\n"@,
            None => "Could not read file content.\n"@,
        }
    }
}

fn push_found_files(out: &mut String, heading: &str, fence: &str, files: &Vec<(String, Option<String>)>)
    ensures
        final(out)@ == old(out)@ + found_files_text(heading@, fence@, files@),
{
    let ghost start = out@;
    let mut k: usize = 0;
    assert(files@.take(0) =~= Seq::<(String, Option<String>)>::empty());
    while k < files.len()
        invariant
            k <= files@.len(),
            out@ == start + found_files_text(heading@, fence@, files@.take(k as int)),
        decreases files@.len() - k,
    {
        assert(files@.take(k + 1).drop_last() =~= files@.take(k as int));
        assert(files@.take(k + 1).last() == files@[k as int]);
        out.append("\n\n");
        out.append(heading);
        out.append(files[k].0.as_str());
        out.append("\n```");
        out.append(fence);
        out.append("\n");
        match &files[k].1 {
            Some(c) => {
                out.append(c.as_str());
                out.append("\n```\n\n");
            },
            None => out.append("Could not read file content.\n"),
        }
        k = k + 1;
    }
    assert(files@.take(files@.len() as int) =~= files@);
}

/// The text of an unpacked package's contents: its Python files, then its
/// metadata files, each with its path relative to the package.
pub fn package_contents_text(
    python_files: &Vec<(String, Option<String>)>,
    metadata_files: &Vec<(String, Option<String>)>,
) -> (r: String)
    ensures
        r@ == found_files_text("## File: "@, "python"@, python_files@) + found_files_text(
            "## Metadata File: "@,
            ""@,
            metadata_files@,
        ),
{
    let mut out = String::new();
    push_found_files(&mut out, "## File: ", "python", python_files);
    push_found_files(&mut out, "## Metadata File: ", "", metadata_files);
    out
}

/// The metadata files looked for in an unpacked package, in order.
pub open spec fn metadata_file_names() -> Seq<Seq<char>> {
    seq!["README.md"@, "README.rst"@, "README.txt"@, "setup.py"@, "pyproject.toml"@, "setup.cfg"@]
}

/// The importance score of a package file by its path.
pub open spec fn module_score(p: Seq<char>) -> int {
    let n = match path_file_name(p) {
        Some(f) => f,
        None => ""@,
    };
    (if n == "__init__.py"@ { 100int } else { 0 }) + (if n == "main.py"@ { 90int } else { 0 }) + (if count_matches(p, "/"@) < 3 {
        80int
    } else {
        0
    }) + (if n == "api.py"@ || n == "client.py"@ || n == "core.py"@ { 70int } else { 0 })
}

/// Each file's score paired with its index.
pub open spec fn module_scores(files: Seq<String>) -> Seq<(i64, usize)> {
    Seq::new(files.len(), |i: int| (module_score(files[i]@) as i64, i as usize))
}

/// The files chosen as important: all of them when there are at most `max`,
/// else the `max` best by score; equal scores keep their order.
pub open spec fn important_modules(files: Seq<String>, max: int) -> Seq<Seq<char>> {
    if files.len() <= max {
        files.map_values(|s: String| s@)
    } else {
        sorted_desc(module_scores(files)).take(max).map_values(|e: (i64, usize)| files[e.1 as int]@)
    }
}

fn module_score_of(p: &str) -> (s: i64)
    ensures
        s == module_score(p@),
{
    let n = match file_name_of(p) {
        Some(f) => f,
        None => String::from_str(""),
    };
    let mut s: i64 = 0;
    if is_text(&n, "__init__.py") {
        s = s + 100;
    }
    if is_text(&n, "main.py") {
        s = s + 90;
    }
    proof {
        reveal_strlit("/");
    }
    if count_occurrences(&chars_of(p), &chars_of("/")) < 3 {
        s = s + 80;
    }
    if is_text(&n, "api.py") || is_text(&n, "client.py") || is_text(&n, "core.py") {
        s = s + 70;
    }
    s
}

/// Chooses up to `max_files` important files of a package: all of them when
/// there are no more, else the best by score (`__init__.py`, `main.py`,
/// shallow paths and common module names score).
pub fn select_important_files(files: &Vec<String>, max_files: usize) -> (r: Vec<String>)
    ensures
        r@.map_values(|s: String| s@) == important_modules(files@, max_files as int),
{
    if files.len() <= max_files {
        let mut all: Vec<String> = Vec::new();
        let mut i: usize = 0;
        while i < files.len()
            invariant
                i <= files@.len(),
                all@.map_values(|s: String| s@) == files@.take(i as int).map_values(|s: String| s@),
            decreases files@.len() - i,
        {
            let ghost before = all@;
            all.push(files[i].clone());
            assert(all@.map_values(|s: String| s@) =~= before.map_values(|s: String| s@).push(files@[i as int]@));
            assert(files@.take(i + 1) =~= files@.take(i as int).push(files@[i as int]));
            assert(all@.map_values(|s: String| s@) =~= files@.take(i + 1).map_values(|s: String| s@));
            i = i + 1;
        }
        assert(files@.take(files@.len() as int) =~= files@);
        return all;
    }
    let mut scored: Vec<(i64, usize)> = Vec::new();
    let mut i: usize = 0;
    while i < files.len()
        invariant
            i <= files@.len(),
            scored@ == module_scores(files@).take(i as int),
        decreases files@.len() - i,
    {
        scored.push((module_score_of(files[i].as_str()), i));
        assert(scored@ =~= module_scores(files@).take(i + 1));
        i = i + 1;
    }
    assert(scored@ =~= module_scores(files@));
    let sorted = sort_desc(scored);
    proof {
        lemma_sorted_desc_indices(module_scores(files@));
    }
    let ghost sv = sorted_desc(module_scores(files@));
    let mut r: Vec<String> = Vec::new();
    let mut k: usize = 0;
    while k < max_files
        invariant
            k <= max_files < files@.len() == sv.len(),
            sorted@ == sv,
            forall|m: int| 0 <= m < sv.len() ==> #[trigger] sv[m].1 < files@.len(),
            r@.map_values(|s: String| s@) == sv.take(k as int).map_values(|e: (i64, usize)| files@[e.1 as int]@),
        decreases max_files - k,
    {
        let ghost rb = r@;
        r.push(files[sorted[k].1].clone());
        assert(r@.map_values(|s: String| s@) =~= rb.map_values(|s: String| s@).push(files@[sv[k as int].1 as int]@));
        assert(sv.take(k + 1) =~= sv.take(k as int).push(sv[k as int]));
        assert(r@.map_values(|s: String| s@) =~= sv.take(k + 1).map_values(|e: (i64, usize)| files@[e.1 as int]@));
        k = k + 1;
    }
    r
}

} // verus!
