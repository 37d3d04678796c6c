//! Log level selection.

use vstd::prelude::*;
use crate::text::{chars_of, chars_eq, lowercase_of, to_lowercase};

verus! {

/// The verbosity levels a logger can be filtered to.
#[derive(Debug, Clone, Copy, PartialEq, Eq, Structural)]
pub enum LevelFilter {
    /// Logging disabled
    Off,
    /// Errors only
    Error,
    /// Warnings and above
    Warn,
    /// Informational messages and above
    Info,
    /// Debug messages and above
    Debug,
    /// Everything
    Trace,
}

/// The level named by an already lowercased word; `Info` for any other word.
pub open spec fn level_named(word: Seq<char>) -> LevelFilter {
    if word == "error"@ {
        LevelFilter::Error
    } else if word == "warn"@ {
        LevelFilter::Warn
    } else if word == "info"@ {
        LevelFilter::Info
    } else if word == "debug"@ {
        LevelFilter::Debug
    } else if word == "trace"@ {
        LevelFilter::Trace
    } else {
        LevelFilter::Info
    }
}

/// The level named by a lowercased word, computed on characters.
pub fn level_from_word(word: &[char]) -> (l: LevelFilter)
    ensures
        l == level_named(word@),
{
    if chars_eq(word, &chars_of("error")) {
        LevelFilter::Error
    } else if chars_eq(word, &chars_of("warn")) {
        LevelFilter::Warn
    } else if chars_eq(word, &chars_of("info")) {
        LevelFilter::Info
    } else if chars_eq(word, &chars_of("debug")) {
        LevelFilter::Debug
    } else if chars_eq(word, &chars_of("trace")) {
        LevelFilter::Trace
    } else {
        LevelFilter::Info
    }
}

/// Parses a log level string, ignoring case; invalid strings give `Info`.
pub fn parse_log_level(level: &str) -> (l: LevelFilter)
    ensures
        l == level_named(lowercase_of(level@)),
{
    let lower = to_lowercase(level);
    level_from_word(&chars_of(lower.as_str()))
}

/// Reading a level never turns logging off, and a word is read as its
/// lowercase form is, whenever lowercasing that form again changes nothing
/// (`str::to_lowercase` is not documented to be idempotent, hence the
/// condition).
pub proof fn law_levels_ignore_case(word: Seq<char>)
    requires
        lowercase_of(lowercase_of(word)) == lowercase_of(word),
    ensures
        level_named(lowercase_of(word)) != LevelFilter::Off,
        level_named(lowercase_of(word)) == level_named(lowercase_of(lowercase_of(word))),
{
}

} // verus!
