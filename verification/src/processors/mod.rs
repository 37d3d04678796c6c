//! Package processors: which one handles a given URL, and their shared logic.

pub mod common;
pub mod local;
pub mod npm;
pub mod github;
pub mod github_report;
pub mod pypi;
pub mod pypi_docs;
pub mod pypi_profile;
pub mod crates;
pub mod go;

use vstd::prelude::*;
use crate::error::{detail, ProcessorError, Result};
use crate::processors::local::{local_path, LocalProcessor};
use crate::text::{chars_of, contains, has_prefix, has_sub, lowercase_of, starts_with, to_lowercase};

verus! {

/// The processors the service offers.
#[derive(Debug, Clone, Copy, PartialEq, Eq, Structural)]
pub enum ProcessorKind {
    /// Local files and directories
    Local,
    /// Go packages from pkg.go.dev
    Go,
    /// GitHub (and other hosted) repositories and organizations
    GitHub,
    /// PyPI user profiles
    PyPiProfile,
    /// PyPI packages
    PyPi,
    /// NPM packages
    Npm,
    /// Rust crates
    Crates,
}

/// The processor chosen for `url` (`exists`: whether the trimmed text exists
/// as a path), in the order the factory tests the sources; `None` when no
/// source matches.
pub open spec fn kind_for(url: Seq<char>, exists: bool) -> Option<ProcessorKind> {
    let lower = lowercase_of(url);
    if local_path(url, exists) {
        Some(ProcessorKind::Local)
    } else if has_sub(lower, "pkg.go.dev"@) || has_sub(lower, "golang.org/pkg"@) {
        Some(ProcessorKind::Go)
    } else if has_sub(lower, "github.com"@) {
        Some(ProcessorKind::GitHub)
    } else if has_sub(lower, "pypi.org/user/"@) {
        Some(ProcessorKind::PyPiProfile)
    } else if has_sub(lower, "pypi.org/project/"@) || has_sub(lower, "pip install"@) || has_prefix(
        url,
        "pip "@,
    ) {
        Some(ProcessorKind::PyPi)
    } else if has_sub(lower, "npmjs.com"@) || has_sub(lower, "npm install"@) || has_prefix(
        url,
        "npm "@,
    ) {
        Some(ProcessorKind::Npm)
    } else if has_sub(lower, "crates.io"@) || has_sub(lower, "docs.rs"@) || has_prefix(
        url,
        "cargo add "@,
    ) {
        Some(ProcessorKind::Crates)
    } else if has_sub(lower, "gitlab.com"@) || has_sub(lower, "bitbucket.org"@) {
        Some(ProcessorKind::GitHub)
    } else {
        None
    }
}

/// The message for a URL that no processor handles.
pub open spec fn unsupported_message(url: Seq<char>) -> Seq<char> {
    "Unsupported URL: "@ + url
        + ". Please use a URL from a supported source (GitHub, PyPI, NPM, crates.io, pkg.go.dev) or provide a local file/directory path"@
}

/// The description of the kind of source `url` names, tested in the order
/// the factory chooses processors (Go package pages before GitHub, since a
/// Go module path may hold `github.com`).
pub open spec fn url_type_name(url: Seq<char>, exists: bool) -> Seq<char> {
    let lower = lowercase_of(url);
    if local_path(url, exists) {
        "Local File/Directory"@
    } else if has_sub(lower, "pkg.go.dev"@) || has_sub(lower, "golang.org/pkg"@) {
        "Go Package"@
    } else if has_sub(lower, "github.com"@) {
        "GitHub Repository"@
    } else if has_sub(lower, "pypi.org/user/"@) {
        "PyPI User Profile"@
    } else if has_sub(lower, "pypi.org"@) || has_sub(lower, "pip install"@) {
        "PyPI Package"@
    } else if has_sub(lower, "npmjs.com"@) || has_sub(lower, "npm install"@) {
        "NPM Package"@
    } else if has_sub(lower, "crates.io"@) || has_sub(lower, "docs.rs"@) {
        "Rust Crate"@
    } else {
        "Unknown"@
    }
}

/// Factory for choosing package processors.
pub struct ProcessorFactory;

fn has(lower: &Vec<char>, needle: &str) -> (b: bool)
    ensures
        b == has_sub(lower@, needle@),
{
    contains(lower, &chars_of(needle))
}

impl ProcessorFactory {
    /// The processor for `url`; `trimmed_exists` reports whether the trimmed
    /// text exists as a path.
    pub fn create_processor(url: &str, trimmed_exists: bool) -> (r: Result<ProcessorKind>)
        ensures
            match kind_for(url@, trimmed_exists) {
                Some(k) => r == Ok::<ProcessorKind, ProcessorError>(k),
                None => r matches Err(e) && e is Message && detail(e) == unsupported_message(
                    url@,
                ),
            },
    {
        let lower = chars_of(to_lowercase(url).as_str());
        let raw = chars_of(url);
        if LocalProcessor::is_local_path(url, trimmed_exists) {
            return Ok(ProcessorKind::Local);
        }
        if has(&lower, "pkg.go.dev") || has(&lower, "golang.org/pkg") {
            return Ok(ProcessorKind::Go);
        }
        if has(&lower, "github.com") {
            return Ok(ProcessorKind::GitHub);
        }
        if has(&lower, "pypi.org/user/") {
            return Ok(ProcessorKind::PyPiProfile);
        }
        if has(&lower, "pypi.org/project/") || has(&lower, "pip install") || starts_with(
            &raw,
            &chars_of("pip "),
        ) {
            return Ok(ProcessorKind::PyPi);
        }
        if has(&lower, "npmjs.com") || has(&lower, "npm install") || starts_with(
            &raw,
            &chars_of("npm "),
        ) {
            return Ok(ProcessorKind::Npm);
        }
        if has(&lower, "crates.io") || has(&lower, "docs.rs") || starts_with(
            &raw,
            &chars_of("cargo add "),
        ) {
            return Ok(ProcessorKind::Crates);
        }
        if has(&lower, "gitlab.com") || has(&lower, "bitbucket.org") {
            return Ok(ProcessorKind::GitHub);
        }
        let mut msg = String::from_str("Unsupported URL: ");
        msg.append(url);
        msg.append(
            ". Please use a URL from a supported source (GitHub, PyPI, NPM, crates.io, pkg.go.dev) or provide a local file/directory path",
        );
        Err(ProcessorError::Message(msg))
    }

    /// Detects the type of URL (for information only); `trimmed_exists`
    /// reports whether the trimmed text exists as a path.
    pub fn detect_url_type(url: &str, trimmed_exists: bool) -> (r: String)
        ensures
            r@ == url_type_name(url@, trimmed_exists),
    {
        let lower = chars_of(to_lowercase(url).as_str());
        if LocalProcessor::is_local_path(url, trimmed_exists) {
            String::from_str("Local File/Directory")
        } else if has(&lower, "pkg.go.dev") || has(&lower, "golang.org/pkg") {
            String::from_str("Go Package")
        } else if has(&lower, "github.com") {
            String::from_str("GitHub Repository")
        } else if has(&lower, "pypi.org/user/") {
            String::from_str("PyPI User Profile")
        } else if has(&lower, "pypi.org") || has(&lower, "pip install") {
            String::from_str("PyPI Package")
        } else if has(&lower, "npmjs.com") || has(&lower, "npm install") {
            String::from_str("NPM Package")
        } else if has(&lower, "crates.io") || has(&lower, "docs.rs") {
            String::from_str("Rust Crate")
        } else {
            String::from_str("Unknown")
        }
    }
}

/// The display name of each processor.
pub open spec fn kind_name(k: ProcessorKind) -> Seq<char> {
    match k {
        ProcessorKind::Local => "Local File/Directory Processor"@,
        ProcessorKind::Go => "go"@,
        ProcessorKind::GitHub => "GitHub"@,
        ProcessorKind::PyPiProfile => "PyPI Profile Processor"@,
        ProcessorKind::PyPi => "PyPI"@,
        ProcessorKind::Npm => "NPM"@,
        ProcessorKind::Crates => "Crates.io"@,
    }
}

/// Whether the processor of kind `k` accepts `url` (case-sensitive tests).
pub open spec fn kind_accepts(k: ProcessorKind, url: Seq<char>, exists: bool) -> bool {
    match k {
        ProcessorKind::Local => local_path(url, exists),
        ProcessorKind::Go => has_sub(url, "pkg.go.dev"@),
        ProcessorKind::GitHub => has_sub(url, "github.com"@),
        ProcessorKind::PyPiProfile => has_sub(url, "pypi.org/user/"@),
        ProcessorKind::PyPi => has_sub(url, "pypi.org"@) || has_sub(url, "pip install"@) || (
        !url.contains('/') && !url.contains(' ') && !url.contains('.')),
        ProcessorKind::Npm => has_sub(url, "npmjs.com"@) || has_sub(url, "npm install"@),
        ProcessorKind::Crates => has_sub(url, "crates.io"@),
    }
}

fn contains_char(v: &Vec<char>, c: char) -> (b: bool)
    ensures
        b == v@.contains(c),
{
    let mut i: usize = 0;
    while i < v.len()
        invariant
            i <= v@.len(),
            forall|j: int| 0 <= j < i ==> v@[j] != c,
        decreases v@.len() - i,
    {
        if v[i] == c {
            return true;
        }
        i = i + 1;
    }
    false
}

impl ProcessorKind {
    /// The processor's display name.
    pub fn name(&self) -> (r: &'static str)
        ensures
            r@ == kind_name(*self),
    {
        match self {
            ProcessorKind::Local => "Local File/Directory Processor",
            ProcessorKind::Go => "go",
            ProcessorKind::GitHub => "GitHub",
            ProcessorKind::PyPiProfile => "PyPI Profile Processor",
            ProcessorKind::PyPi => "PyPI",
            ProcessorKind::Npm => "NPM",
            ProcessorKind::Crates => "Crates.io",
        }
    }

    /// Whether this processor accepts `url`; `trimmed_exists` matters to the
    /// local processor only.
    pub fn accepts(&self, url: &str, trimmed_exists: bool) -> (b: bool)
        ensures
            b == kind_accepts(*self, url@, trimmed_exists),
    {
        let raw = chars_of(url);
        match self {
            ProcessorKind::Local => LocalProcessor::is_local_path(url, trimmed_exists),
            ProcessorKind::Go => has(&raw, "pkg.go.dev"),
            ProcessorKind::GitHub => has(&raw, "github.com"),
            ProcessorKind::PyPiProfile => has(&raw, "pypi.org/user/"),
            ProcessorKind::PyPi => has(&raw, "pypi.org") || has(&raw, "pip install") || (
            !contains_char(&raw, '/') && !contains_char(&raw, ' ') && !contains_char(&raw, '.')),
            ProcessorKind::Npm => has(&raw, "npmjs.com") || has(&raw, "npm install"),
            ProcessorKind::Crates => has(&raw, "crates.io"),
        }
    }
}


/// A Go package page (its lowercase form naming `pkg.go.dev` or
/// `golang.org/pkg`) that is not a local path goes to the Go processor,
/// whatever else it names (a Go module path may hold `github.com`); the Go
/// processor is chosen for nothing else, and exactly where the URL type is
/// reported as "Go Package". A `github.com` URL that is neither goes to the
/// GitHub processor.
pub proof fn law_go_pages_go_to_go(url: Seq<char>, exists: bool)
    ensures
        !local_path(url, exists) && (has_sub(lowercase_of(url), "pkg.go.dev"@) || has_sub(
            lowercase_of(url),
            "golang.org/pkg"@,
        )) ==> kind_for(url, exists) == Some(ProcessorKind::Go),
        kind_for(url, exists) == Some(ProcessorKind::Go) ==> !local_path(url, exists) && (has_sub(
            lowercase_of(url),
            "pkg.go.dev"@,
        ) || has_sub(lowercase_of(url), "golang.org/pkg"@)),
        (kind_for(url, exists) == Some(ProcessorKind::Go)) == (url_type_name(url, exists) == "Go Package"@),
        !local_path(url, exists) && !has_sub(lowercase_of(url), "pkg.go.dev"@) && !has_sub(
            lowercase_of(url),
            "golang.org/pkg"@,
        ) && has_sub(lowercase_of(url), "github.com"@) ==> kind_for(url, exists) == Some(
            ProcessorKind::GitHub,
        ),
{
    reveal_strlit("Go Package");
    reveal_strlit("Local File/Directory");
    reveal_strlit("GitHub Repository");
    reveal_strlit("PyPI User Profile");
    reveal_strlit("PyPI Package");
    reveal_strlit("NPM Package");
    reveal_strlit("Rust Crate");
    reveal_strlit("Unknown");
    let n = url_type_name(url, exists);
    if n == "Go Package"@ {
        assert(n.len() == 10);
        if local_path(url, exists) {
            assert("Local File/Directory"@.len() == 20);
        } else if !(has_sub(lowercase_of(url), "pkg.go.dev"@) || has_sub(lowercase_of(url), "golang.org/pkg"@)) {
            assert(n[0] == 'G' && n[1] == 'o');
            assert("GitHub Repository"@.len() == 17);
            assert("PyPI User Profile"@.len() == 17);
            assert("PyPI Package"@.len() == 12);
            assert("NPM Package"@.len() == 11);
            assert("Rust Crate"@[0] == 'R');
            assert("Unknown"@.len() == 7);
        }
    }
}

} // verus!
