//! The main menu of the interactive interface: its options and how a typed
//! choice selects one.

use vstd::prelude::*;
use crate::error::{ProcessorError, Result, detail};
use crate::text::{chars_of, trim, trim_chars, has_prefix};

verus! {

/// The main menu options of the interactive interface.
#[derive(Debug, Clone, Copy, PartialEq, Eq, Structural)]
pub enum LlamaMenuOption {
    /// Process a GitHub repository
    ProcessGithub,
    /// Process a PyPI package
    ProcessPyPI,
    /// Process an npm package
    ProcessNPM,
    /// Process a Rust crate
    ProcessCrate,
    /// Show the output directory
    ViewOutput,
    /// Settings
    Settings,
    /// Leave the interface
    Exit,
}

/// Whether `c` is an ASCII decimal digit.
pub open spec fn is_digit(c: char) -> bool {
    '0' <= c <= '9'
}

/// The value of a run of decimal digits, capped at 8 (all that matters for
/// a choice between 1 and 7).
pub open spec fn capped_value(s: Seq<char>) -> nat
    decreases s.len(),
{
    if s.len() == 0 {
        0
    } else {
        let v = capped_value(s.drop_last()) * 10 + (s.last() as nat - '0' as nat);
        if v > 8 {
            8
        } else {
            v as nat
        }
    }
}

/// The digits of a typed choice: the trimmed text without one leading `+`.
pub open spec fn choice_digits(input: Seq<char>) -> Seq<char> {
    let t = trim(input);
    if has_prefix(t, "+"@) {
        t.drop_first()
    } else {
        t
    }
}

/// The number a typed choice names when it reads as an unsigned integer
/// (`usize::from_str` on the trimmed text), capped at 8.
pub open spec fn choice_number(input: Seq<char>) -> Option<nat> {
    let d = choice_digits(input);
    if d.len() > 0 && forall|i: int| 0 <= i < d.len() ==> is_digit(#[trigger] d[i]) {
        Some(capped_value(d))
    } else {
        None
    }
}

/// The option numbered `n` on the menu.
pub open spec fn option_numbered(n: nat) -> Option<LlamaMenuOption> {
    if n == 1 {
        Some(LlamaMenuOption::ProcessGithub)
    } else if n == 2 {
        Some(LlamaMenuOption::ProcessPyPI)
    } else if n == 3 {
        Some(LlamaMenuOption::ProcessNPM)
    } else if n == 4 {
        Some(LlamaMenuOption::ProcessCrate)
    } else if n == 5 {
        Some(LlamaMenuOption::ViewOutput)
    } else if n == 6 {
        Some(LlamaMenuOption::Settings)
    } else if n == 7 {
        Some(LlamaMenuOption::Exit)
    } else {
        None
    }
}

/// The option a typed choice selects: a number from 1 to 7, surrounding
/// whitespace ignored; anything else is refused as an invalid option.
pub fn parse_menu_selection(input: &str) -> (r: Result<LlamaMenuOption>)
    ensures
        match choice_number(input@) {
            Some(n) => match option_numbered(n) {
                Some(o) => r matches Ok(x) && x == o,
                None => r matches Err(e) && e is Message && detail(e) == "Invalid menu option"@,
            },
            None => r matches Err(e) && e is Message && detail(e) == "Invalid menu option"@,
        },
{
    let t = trim_chars(&chars_of(input));
    let start: usize = if t.len() > 0 && t[0] == '+' {
        1
    } else {
        0
    };
    proof {
        reveal_strlit("+");
        let tv = trim(input@);
        if tv.len() > 0 && tv[0] == '+' {
            assert(tv.take(1) =~= "+"@);
        }
        if has_prefix(tv, "+"@) {
            assert(tv.take(1)[0] == '+');
        }
    }
    let ghost d = choice_digits(input@);
    assert(d =~= t@.skip(start as int));
    if start >= t.len() {
        return Err(ProcessorError::new("Invalid menu option"));
    }
    let mut v: u64 = 0;
    let mut i: usize = start;
    while i < t.len()
        invariant
            start <= i <= t@.len(),
            d == t@.skip(start as int),
            d == choice_digits(input@),
            forall|k: int| start <= k < i ==> is_digit(#[trigger] t@[k]),
            v == capped_value(t@.subrange(start as int, i as int)),
            v <= 8,
        decreases t@.len() - i,
    {
        let c = t[i];
        if c < '0' || c > '9' {
            assert(!is_digit(d[i - start]));
            assert(!(forall|k: int| 0 <= k < d.len() ==> is_digit(#[trigger] d[k])));
            assert(choice_number(input@) is None);
            return Err(ProcessorError::new("Invalid menu option"));
        }
        assert(t@.subrange(start as int, i + 1).drop_last() =~= t@.subrange(start as int, i as int));
        let digit: u64 = (c as u32 - '0' as u32) as u64;
        let w = v * 10 + digit;
        v = if w > 8 {
            8
        } else {
            w
        };
        i = i + 1;
    }
    assert(t@.subrange(start as int, t@.len() as int) =~= d);
    assert forall|k: int| 0 <= k < d.len() implies is_digit(#[trigger] d[k]) by {
        assert(d[k] == t@[k + start]);
    }
    match v {
        1 => Ok(LlamaMenuOption::ProcessGithub),
        2 => Ok(LlamaMenuOption::ProcessPyPI),
        3 => Ok(LlamaMenuOption::ProcessNPM),
        4 => Ok(LlamaMenuOption::ProcessCrate),
        5 => Ok(LlamaMenuOption::ViewOutput),
        6 => Ok(LlamaMenuOption::Settings),
        7 => Ok(LlamaMenuOption::Exit),
        _ => Err(ProcessorError::new("Invalid menu option")),
    }
}

} // verus!
