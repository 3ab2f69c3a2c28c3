//! Regular-expression matching through the `regex` crate, and the
//! capture-group helpers the line recognisers build on.
use vstd::prelude::*;

verus! {

/// The view of an optional string.
pub open spec fn opt_view(o: Option<String>) -> Option<Seq<char>> {
    match o {
        Some(s) => Some(s@),
        None => None,
    }
}

/// The views of a sequence of optional strings.
pub open spec fn groups_view(v: Seq<Option<String>>) -> Seq<Option<Seq<char>>> {
    v.map_values(|o: Option<String>| opt_view(o))
}

/// What `regex::Regex::new(pattern)` and then `captures(text)` give: `None`
/// when the pattern does not compile or does not match, and otherwise the text
/// of every capture group in group order (group 0 is the whole match; a group
/// that took no part in the match is `None`).
pub uninterp spec fn regex_captures(pattern: Seq<char>, text: Seq<char>) -> Option<
    Seq<Option<Seq<char>>>,
>;

/// Runs `pattern` over `text` with the `regex` crate and hands back the text
/// of each capture group.  The contract claims only that the result is the
/// one named by `regex_captures` for these two arguments.
#[verifier::external_body]
pub(crate) fn captures(pattern: &str, text: &str) -> (r: Option<Vec<Option<String>>>)
    ensures
        match r {
            Some(v) => regex_captures(pattern@, text@) == Some(groups_view(v@)),
            None => regex_captures(pattern@, text@) is None,
        },
{
    let re = regex::Regex::new(pattern).ok()?;
    re.captures(text).map(|c| c.iter().map(|m| m.map(|m| m.as_str().to_string())).collect())
}

/// Group `i` of a capture result, `None` where there is no such group or it
/// took no part in the match.
pub open spec fn group_at(g: Seq<Option<Seq<char>>>, i: int) -> Option<Seq<char>> {
    if 0 <= i < g.len() {
        g[i]
    } else {
        None
    }
}

/// Group `i` of a capture result, or `default` where it is missing.
pub open spec fn group_or(g: Seq<Option<Seq<char>>>, i: int, default: Seq<char>) -> Seq<char> {
    match group_at(g, i) {
        Some(s) => s,
        None => default,
    }
}

/// Whether `pattern` matches somewhere in `text`.
pub open spec fn is_match(pattern: Seq<char>, text: Seq<char>) -> bool {
    regex_captures(pattern, text) is Some
}

/// Group `i` of a capture result.
pub fn group(caps: &Vec<Option<String>>, i: usize) -> (r: Option<String>)
    ensures
        opt_view(r) == group_at(groups_view(caps@), i as int),
{
    if i < caps.len() {
        match &caps[i] {
            Some(s) => Some(s.clone()),
            None => None,
        }
    } else {
        None
    }
}

/// Group `i` of a capture result, or a copy of `default` where it is missing.
pub fn group_or_else(caps: &Vec<Option<String>>, i: usize, default: &str) -> (r: String)
    ensures
        r@ == group_or(groups_view(caps@), i as int, default@),
{
    match group(caps, i) {
        Some(s) => s,
        None => String::from_str(default),
    }
}

/// Whether `pattern` matches somewhere in `text`.
pub fn matches_text(pattern: &str, text: &str) -> (r: bool)
    ensures
        r == is_match(pattern@, text@),
{
    captures(pattern, text).is_some()
}

} // verus!
