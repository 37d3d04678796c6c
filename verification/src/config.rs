//! Service configuration: tokens, output locations, limits and exclusions.

use vstd::prelude::*;
use crate::bindings::{regex_is_match, regex_is_valid, regex_match};
use crate::error::{detail, ProcessorError, Result};
use crate::text::{
    chars_of, has_prefix, lines, lines_of, split_char, split_of, starts_with, string_of, trim,
    trim_chars,
};

verus! {

/// Stores API keys for various services.
pub struct ApiKeys {
    /// GitHub API token for authenticated requests
    pub github_token: Option<String>,
    /// PyPI token for authenticated requests
    pub pypi_token: Option<String>,
}

impl Default for ApiKeys {
    fn default() -> (k: Self)
        ensures
            k.github_token is None,
            k.pypi_token is None,
    {
        ApiKeys { github_token: None, pypi_token: None }
    }
}

/// The first line of `ls` that starts with `p`.
pub open spec fn first_with_prefix(ls: Seq<Seq<char>>, p: Seq<char>) -> Option<Seq<char>>
    decreases ls.len(),
{
    if ls.len() == 0 {
        None
    } else if has_prefix(ls[0], p) {
        Some(ls[0])
    } else {
        first_with_prefix(ls.drop_first(), p)
    }
}

/// `s` without leading characters equal to `c`.
pub open spec fn strip_leading(s: Seq<char>, c: char) -> Seq<char>
    decreases s.len(),
{
    if s.len() > 0 && s[0] == c {
        strip_leading(s.drop_first(), c)
    } else {
        s
    }
}

/// `s` without trailing characters equal to `c`.
pub open spec fn strip_trailing(s: Seq<char>, c: char) -> Seq<char>
    decreases s.len(),
{
    if s.len() > 0 && s.last() == c {
        strip_trailing(s.drop_last(), c)
    } else {
        s
    }
}

/// `str::trim_matches(c)`.
pub open spec fn strip_both(s: Seq<char>, c: char) -> Seq<char> {
    strip_trailing(strip_leading(s, c), c)
}

/// The GitHub token that a configuration file's text records: the first line
/// starting with `github_token`, the text after its first `=` (up to a
/// second one), trimmed and with surrounding double quotes removed.
pub open spec fn token_in_config(content: Seq<char>) -> Option<Seq<char>> {
    match first_with_prefix(lines_of(content), "github_token"@) {
        None => None,
        Some(line) => {
            let pieces = split_of(line, '=');
            if pieces.len() >= 2 {
                Some(strip_both(trim(pieces[1]), '"'))
            } else {
                None
            }
        },
    }
}

/// Executable `strip_both`.
pub fn strip_char_both(v: &[char], c: char) -> (r: Vec<char>)
    ensures
        r@ == strip_both(v@, c),
{
    let mut i: usize = 0;
    assert(v@.subrange(0, v@.len() as int) =~= v@);
    while i < v.len() && v[i] == c
        invariant
            i <= v@.len(),
            strip_leading(v@, c) == strip_leading(v@.subrange(i as int, v@.len() as int), c),
        decreases v@.len() - i,
    {
        assert(v@.subrange(i as int, v@.len() as int).drop_first() =~= v@.subrange(
            i + 1,
            v@.len() as int,
        ));
        i = i + 1;
    }
    let ghost lead = v@.subrange(i as int, v@.len() as int);
    let mut k: usize = v.len();
    assert(lead.subrange(0, (k - i) as int) =~= lead);
    while k > i && v[k - 1] == c
        invariant
            i <= k <= v@.len(),
            lead == v@.subrange(i as int, v@.len() as int),
            strip_trailing(lead, c) == strip_trailing(v@.subrange(i as int, k as int), c),
        decreases k,
    {
        assert(v@.subrange(i as int, k as int).drop_last() =~= v@.subrange(i as int, k - 1));
        k = k - 1;
    }
    let mut r: Vec<char> = Vec::new();
    let mut j: usize = i;
    while j < k
        invariant
            i <= j <= k <= v@.len(),
            r@ == v@.subrange(i as int, j as int),
        decreases k - j,
    {
        r.push(v[j]);
        assert(v@.subrange(i as int, j as int).push(v@[j as int]) =~= v@.subrange(
            i as int,
            j + 1,
        ));
        j = j + 1;
    }
    r
}

impl ApiKeys {
    /// The keys recorded in a configuration file's text (the GitHub token;
    /// no PyPI token is read from it).
    pub fn from_config_content(content: &str) -> (k: Self)
        ensures
            k.pypi_token is None,
            match k.github_token {
                Some(t) => token_in_config(content@) == Some(t@),
                None => token_in_config(content@) is None,
            },
    {
        let ls = lines(&chars_of(content));
        let prefix = chars_of("github_token");
        let ghost all = lines_of(content@);
        let mut i: usize = 0;
        assert(all.skip(0) =~= all);
        while i < ls.len()
            invariant
                i <= ls@.len(),
                all == lines_of(content@),
                ls@.len() == all.len(),
                forall|m: int| 0 <= m < ls@.len() ==> #[trigger] ls@[m]@ == all[m],
                prefix@ == "github_token"@,
                first_with_prefix(all, prefix@) == first_with_prefix(all.skip(i as int), prefix@),
            decreases ls@.len() - i,
        {
            assert(all.skip(i as int).drop_first() =~= all.skip(i + 1));
            assert(all.skip(i as int)[0] == all[i as int]);
            if starts_with(&ls[i], &prefix) {
                assert(first_with_prefix(all, "github_token"@) == Some(all[i as int]));
                let pieces = split_char(&ls[i], '=');
                assert(pieces@.len() == split_of(all[i as int], '=').len());
                if pieces.len() >= 2 {
                    assert(pieces@[1]@ == split_of(all[i as int], '=')[1]);
                    let t = strip_char_both(&trim_chars(&pieces[1]), '"');
                    return ApiKeys { github_token: Some(string_of(&t)), pypi_token: None };
                } else {
                    return ApiKeys { github_token: None, pypi_token: None };
                }
            }
            i = i + 1;
        }
        assert(all.skip(i as int).len() == 0);
        ApiKeys { github_token: None, pypi_token: None }
    }
}

/// A value read from the environment, with an empty value counting as absent.
pub fn non_empty_value(raw: Option<String>) -> (r: Option<String>)
    ensures
        match raw {
            Some(v) => if v@.len() == 0 { r is None } else { r == Some(v) },
            None => r is None,
        },
{
    match raw {
        Some(v) => if v.as_str().is_empty() { None } else { Some(v) },
        None => None,
    }
}

/// Configuration for parallel processing operations.
pub struct ProcessingConfig {
    /// Maximum number of concurrent downloads
    pub max_concurrent_downloads: usize,
    /// Maximum number of concurrent archive extractions
    pub max_concurrent_extractions: usize,
    /// Maximum number of concurrent code analyses
    pub max_concurrent_analyses: usize,
}

impl Default for ProcessingConfig {
    fn default() -> (c: Self)
        ensures
            c.max_concurrent_downloads == 5,
            c.max_concurrent_extractions == 3,
            c.max_concurrent_analyses == 2,
    {
        ProcessingConfig {
            max_concurrent_downloads: 5,
            max_concurrent_extractions: 3,
            max_concurrent_analyses: 2,
        }
    }
}

/// Rate limit settings for various APIs.
pub struct RateLimits {
    /// GitHub API rate limit (requests per hour)
    pub github_api: u32,
    /// PyPI API rate limit (requests per minute)
    pub pypi_api: u32,
    /// NPM API rate limit (requests per minute)
    pub npm_api: u32,
}

impl Default for RateLimits {
    fn default() -> (r: Self)
        ensures
            r.github_api == 5000,
            r.pypi_api == 100,
            r.npm_api == 100,
    {
        RateLimits { github_api: 5000, pypi_api: 100, npm_api: 100 }
    }
}

/// Configuration for output files and directories.
pub struct OutputConfig {
    /// Base directory for all output
    pub base_dir: String,
    /// Temporary directory for processing files
    pub temp_dir: String,
    /// How long results are cached before refreshing, in seconds
    pub cache_duration_secs: u64,
}

impl OutputConfig {
    /// An output configuration with the given directories and a one-hour cache.
    pub fn new(base_dir: String, temp_dir: String) -> (c: Self)
        ensures
            c.base_dir == base_dir,
            c.temp_dir == temp_dir,
            c.cache_duration_secs == 3600,
    {
        OutputConfig { base_dir, temp_dir, cache_duration_secs: 3600 }
    }
}

impl Default for OutputConfig {
    /// The current directory `"."` for both directories; the application
    /// substitutes the process's working and temporary directories.
    fn default() -> (c: Self)
        ensures
            c.base_dir@ == "."@,
            c.temp_dir@ == "."@,
            c.cache_duration_secs == 3600,
    {
        OutputConfig::new(String::from_str("."), String::from_str("."))
    }
}

/// Main configuration of the service.
pub struct Config {
    /// GitHub API token for authenticated requests
    pub github_token: Option<String>,
    /// Main output directory for all generated files
    pub output_dir: String,
    /// Processing configuration for parallel operations
    pub processing: ProcessingConfig,
    /// Rate limit settings for various APIs
    pub rate_limits: RateLimits,
    /// Output file and directory configuration
    pub output_config: OutputConfig,
    /// API keys for various services
    pub api_keys: ApiKeys,
    /// Patterns (regular expressions) for files to exclude from processing
    pub excluded_files: Vec<String>,
}

/// The exclusion patterns a new configuration starts with.
pub open spec fn default_exclusions() -> Seq<Seq<char>> {
    seq!["\\.git/"@, "node_modules/"@, "\\.env"@, "\\.exe$"@]
}

/// Whether some exclusion pattern compiles and matches `path`.
pub open spec fn excluded_by(patterns: Seq<Seq<char>>, path: Seq<char>) -> bool {
    exists|i: int|
        0 <= i < patterns.len() && regex_is_valid(#[trigger] patterns[i]) && regex_is_match(
            patterns[i],
            path,
        )
}

impl Config {
    /// A configuration writing to `output_dir`, with no GitHub token, default
    /// limits and the default exclusion patterns. The application sets the
    /// token from `GITHUB_TOKEN` when the environment has one.
    pub fn new(output_dir: String) -> (c: Self)
        ensures
            c.output_dir == output_dir,
            c.github_token is None,
            c.excluded_files@.map_values(|p: String| p@) == default_exclusions(),
            c.processing.max_concurrent_downloads == 5,
            c.rate_limits.github_api == 5000,
            c.output_config.cache_duration_secs == 3600,
            c.api_keys.github_token is None,
    {
        let mut excluded: Vec<String> = Vec::new();
        excluded.push(String::from_str("\\.git/"));
        excluded.push(String::from_str("node_modules/"));
        excluded.push(String::from_str("\\.env"));
        excluded.push(String::from_str("\\.exe$"));
        assert(excluded@.map_values(|p: String| p@) =~= default_exclusions());
        Config {
            github_token: None,
            output_dir,
            processing: ProcessingConfig::default(),
            rate_limits: RateLimits::default(),
            output_config: OutputConfig::default(),
            api_keys: ApiKeys::default(),
            excluded_files: excluded,
        }
    }

    /// Checks if a file should be excluded from processing: some pattern
    /// compiles and matches the path; patterns that do not compile never match.
    pub fn is_excluded_file(&self, path: &str) -> (b: bool)
        ensures
            b == excluded_by(self.excluded_files@.map_values(|p: String| p@), path@),
    {
        let ghost pats = self.excluded_files@.map_values(|p: String| p@);
        let mut i: usize = 0;
        while i < self.excluded_files.len()
            invariant
                i <= self.excluded_files@.len(),
                pats == self.excluded_files@.map_values(|p: String| p@),
                forall|j: int|
                    0 <= j < i ==> !(regex_is_valid(#[trigger] pats[j]) && regex_is_match(
                        pats[j],
                        path@,
                    )),
            decreases self.excluded_files@.len() - i,
        {
            match regex_match(self.excluded_files[i].as_str(), path) {
                Some(true) => {
                    assert(regex_is_valid(pats[i as int]) && regex_is_match(pats[i as int], path@));
                    return true;
                },
                _ => {},
            }
            i = i + 1;
        }
        false
    }

    /// Validates that a configured GitHub token is not blank.
    pub fn ensure_tokens(&self) -> (r: Result<()>)
        ensures
            match self.github_token {
                Some(t) => if trim(t@).len() == 0 {
                    r matches Err(e) && e is Message && detail(e) == "GitHub token is empty"@
                } else {
                    r is Ok
                },
                None => r is Ok,
            },
    {
        match &self.github_token {
            Some(token) => {
                let t = trim_chars(&chars_of(token.as_str()));
                if t.len() == 0 {
                    return Err(ProcessorError::new("GitHub token is empty"));
                }
                Ok(())
            },
            None => Ok(()),
        }
    }

    /// The configured GitHub token, or an error when there is none.
    pub fn github_token(&self) -> (r: Result<&str>)
        ensures
            match self.github_token {
                Some(t) => r matches Ok(s) && s@ == t@,
                None => r matches Err(e) && e is Message && detail(e)
                    == "GitHub token not configured"@,
            },
    {
        match &self.github_token {
            Some(t) => Ok(t.as_str()),
            None => Err(ProcessorError::new("GitHub token not configured")),
        }
    }
}

impl Default for Config {
    fn default() -> (c: Self)
        ensures
            c.output_dir@ == "output"@,
            c.github_token is None,
    {
        Config::new(String::from_str("output"))
    }
}

} // verus!
