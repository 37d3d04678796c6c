//! What the command-line program decides: what a line typed at the prompt
//! asks for, which lines of a batch file are URLs, and the names under which
//! a repository analysis is saved.

use vstd::prelude::*;
use crate::text::{
    chars_of, string_of, trim, trim_chars, has_prefix, starts_with, has_sub, contains, lines, lines_of,
    split_of, split_char, chars_eq, to_lowercase, lowercase_of, without_trailing, without_trailing_of,
};

verus! {

/// What a line typed at the interactive prompt asks for.
pub enum PromptCommand {
    /// Nothing was typed
    Empty,
    /// Leave the program
    Quit,
    /// Show the help
    Help,
    /// Show example inputs
    Examples,
    /// Process this URL or path
    Process(String),
}

/// Whether a lowercased word asks to quit.
pub open spec fn is_quit_word(w: Seq<char>) -> bool {
    w == "q"@ || w == "quit"@ || w == "exit"@
}

/// Whether a lowercased word asks for help.
pub open spec fn is_help_word(w: Seq<char>) -> bool {
    w == "h"@ || w == "help"@ || w == "?"@
}

fn word_is(w: &Vec<char>, s: &str) -> (r: bool)
    ensures
        r == (w@ == s@),
{
    chars_eq(w, &chars_of(s))
}

/// What the line `input` asks for: it is trimmed, and the words `q`, `quit`,
/// `exit`, `h`, `help`, `?` and `examples` are recognized in any case; any
/// other text is processed as it stands.
pub fn prompt_command(input: &str) -> (r: PromptCommand)
    ensures
        trim(input@).len() == 0 ==> r is Empty,
        trim(input@).len() > 0 && is_quit_word(lowercase_of(trim(input@))) ==> r is Quit,
        trim(input@).len() > 0 && !is_quit_word(lowercase_of(trim(input@))) && is_help_word(
            lowercase_of(trim(input@)),
        ) ==> r is Help,
        trim(input@).len() > 0 && !is_quit_word(lowercase_of(trim(input@))) && !is_help_word(
            lowercase_of(trim(input@)),
        ) && lowercase_of(trim(input@)) == "examples"@ ==> r is Examples,
        trim(input@).len() > 0 && !is_quit_word(lowercase_of(trim(input@))) && !is_help_word(
            lowercase_of(trim(input@)),
        ) && lowercase_of(trim(input@)) != "examples"@ ==> (r matches PromptCommand::Process(u) && u@ == trim(
            input@,
        )),
{
    let t = string_of(&trim_chars(&chars_of(input)));
    if t.as_str().is_empty() {
        return PromptCommand::Empty;
    }
    let w = chars_of(to_lowercase(t.as_str()).as_str());
    if word_is(&w, "q") || word_is(&w, "quit") || word_is(&w, "exit") {
        PromptCommand::Quit
    } else if word_is(&w, "h") || word_is(&w, "help") || word_is(&w, "?") {
        PromptCommand::Help
    } else if word_is(&w, "examples") {
        PromptCommand::Examples
    } else {
        PromptCommand::Process(t)
    }
}

/// The lines of a batch file that name URLs: those that are not blank and
/// do not start with `#`, in order.
pub open spec fn batch_lines(ls: Seq<Seq<char>>) -> Seq<Seq<char>>
    decreases ls.len(),
{
    if ls.len() == 0 {
        Seq::empty()
    } else if trim(ls.last()).len() > 0 && !has_prefix(ls.last(), "#"@) {
        batch_lines(ls.drop_last()).push(ls.last())
    } else {
        batch_lines(ls.drop_last())
    }
}

/// The URLs a batch file's text lists, one per line; blank lines and lines
/// starting with `#` are skipped.
pub fn batch_urls(content: &str) -> (r: Vec<String>)
    ensures
        r@.map_values(|s: String| s@) == batch_lines(lines_of(content@)),
{
    let ls = lines(&chars_of(content));
    let ghost lv = lines_of(content@);
    let hash = chars_of("#");
    let mut r: Vec<String> = Vec::new();
    let mut i: usize = 0;
    assert(lv.take(0) =~= Seq::<Seq<char>>::empty());
    assert(r@.map_values(|s: String| s@) =~= Seq::<Seq<char>>::empty());
    while i < ls.len()
        invariant
            i <= ls@.len(),
            ls@.len() == lv.len(),
            lv == lines_of(content@),
            forall|k: int| 0 <= k < ls@.len() ==> #[trigger] ls@[k]@ == lv[k],
            hash@ == "#"@,
            r@.map_values(|s: String| s@) == batch_lines(lv.take(i as int)),
        decreases ls@.len() - i,
    {
        assert(lv.take(i + 1).drop_last() =~= lv.take(i as int));
        assert(lv.take(i + 1).last() == ls@[i as int]@);
        if trim_chars(&ls[i]).len() > 0 && !starts_with(&ls[i], &hash) {
            let ghost before = r@;
            r.push(string_of(&ls[i]));
            assert(r@.map_values(|s: String| s@) =~= before.map_values(|s: String| s@).push(ls@[i as int]@));
        }
        i = i + 1;
    }
    assert(lv.take(lv.len() as int) =~= lv);
    r
}

/// The repository a GitHub or GitLab URL names: its fifth `/`-separated part
/// without trailing `.git`; `None` for any other URL.
pub open spec fn repo_name_in(url: Seq<char>) -> Option<Seq<char>> {
    if (has_sub(url, "github.com"@) || has_sub(url, "gitlab.com"@)) && split_of(url, '/').len() >= 5 {
        Some(without_trailing(split_of(url, '/')[4], ".git"@))
    } else {
        None
    }
}

/// The repository a GitHub or GitLab URL names; `None` when the URL names
/// none, in which case the caller names the output by the time.
pub fn extract_repo_name(url: &str) -> (r: Option<String>)
    ensures
        match repo_name_in(url@) {
            Some(n) => r matches Some(s) && s@ == n,
            None => r is None,
        },
{
    let u = chars_of(url);
    if contains(&u, &chars_of("github.com")) || contains(&u, &chars_of("gitlab.com")) {
        let parts = split_char(&u, '/');
        if parts.len() >= 5 {
            proof {
                reveal_strlit(".git");
            }
            return Some(string_of(&without_trailing_of(&parts[4], &chars_of(".git"))));
        }
    }
    None
}

/// The names under which an analysis of repository `repo` made at
/// `timestamp` is saved: the raw content and the processed content.
pub fn analysis_file_names(timestamp: &str, repo: &str) -> (r: (String, String))
    ensures
        r.0@ == timestamp@ + "_"@ + repo@ + "_github_repo.txt"@,
        r.1@ == timestamp@ + "_"@ + repo@ + "_github_repo_processed.txt"@,
{
    let mut raw = String::from_str(timestamp);
    raw.append("_");
    raw.append(repo);
    let mut processed = raw.clone();
    raw.append("_github_repo.txt");
    processed.append("_github_repo_processed.txt");
    (raw, processed)
}

} // verus!
