//! The yes/no question asked before installing a missing tool: how it is
//! put, which character of the reply counts, and what the reply means.
use vstd::prelude::*;
use crate::text::{ascii_lower, ascii_lower_exec, chars_of, trim, trim_str};

verus! {

/// The question with its choices; the capital letter marks the default.
pub open spec fn yesno_prompt_text(message: Seq<char>, default: Option<bool>) -> Seq<char> {
    match default {
        Some(true) => message + " (Y/n)? "@,
        Some(false) => message + " (y/N)? "@,
        None => message + " (y/n)? "@,
    }
}

/// The question as it is printed.
pub fn yesno_prompt(message: &str, default: Option<bool>) -> (r: String)
    ensures
        r@ == yesno_prompt_text(message@, default),
{
    let mut r = String::from_str(message);
    match default {
        Some(true) => r.append(" (Y/n)? "),
        Some(false) => r.append(" (y/N)? "),
        None => r.append(" (y/n)? "),
    }
    r
}

/// The character a reply line counts as: its first character once trimmed,
/// in ASCII lowercase; none for a blank line.
pub open spec fn answer_of(line: Seq<char>) -> Option<char> {
    let t = trim(line);
    if t.len() == 0 {
        None
    } else {
        Some(ascii_lower(t[0]))
    }
}

/// The character a reply line counts as.
pub fn answer_char(line: &str) -> (r: Option<char>)
    ensures
        r == answer_of(line@),
{
    let t = trim_str(line);
    let v = chars_of(t.as_str());
    if v.len() == 0 {
        None
    } else {
        Some(ascii_lower_exec(v[0]))
    }
}

/// What a reply to a yes/no question means.
#[derive(Debug, Clone, Copy, PartialEq, Eq, Structural)]
pub enum YesNo {
    /// Yes, no, or no answer (a timeout with no default).
    Answer(Option<bool>),
    /// A reply that is neither `y` nor `n`.
    Invalid,
}

/// The meaning of a reply: `y` is yes, `n` is no, another character is
/// invalid, and no reply (the wait ran out) is no answer. The default only
/// shapes the question.
pub open spec fn yesno_meaning(reply: Option<char>) -> YesNo {
    match reply {
        Some(c) => if c == 'y' {
            YesNo::Answer(Some(true))
        } else if c == 'n' {
            YesNo::Answer(Some(false))
        } else {
            YesNo::Invalid
        },
        None => YesNo::Answer(None),
    }
}

/// Decides what a reply means.
pub fn yesno_decision(reply: Option<char>) -> (r: YesNo)
    ensures
        r == yesno_meaning(reply),
{
    match reply {
        Some(c) => if c == 'y' {
            YesNo::Answer(Some(true))
        } else if c == 'n' {
            YesNo::Answer(Some(false))
        } else {
            YesNo::Invalid
        },
        None => YesNo::Answer(None),
    }
}

} // verus!
