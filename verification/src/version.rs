//! The tool's version as it is reported and stamped: the feature list
//! printed with `--version`, the version read from a manifest's text, and a
//! README with that version written into it.
use vstd::prelude::*;
use crate::render::{lines_of, regex_replace_all, regex_replaced, split_lines};
use crate::runner::{split_once, split_once_char};
use crate::text::{push_char, replace_all, replace_str, seq_starts_with, str_starts_with, strings_view, trim, trim_start, trim_start_str, trim_str};

verus! {

/// The feature flags as a JSON list of strings: `["a", "b"]`.
pub open spec fn features_json_text(flags: Seq<Seq<char>>) -> Seq<char> {
    "["@ + quoted_list(flags) + "]"@
}

/// The flags, each in double quotes, separated by `, `.
pub open spec fn quoted_list(flags: Seq<Seq<char>>) -> Seq<char>
    decreases flags.len(),
{
    if flags.len() == 0 {
        Seq::empty()
    } else if flags.len() == 1 {
        "\""@ + flags[0] + "\""@
    } else {
        quoted_list(flags.drop_last()) + ", \""@ + flags.last() + "\""@
    }
}

/// The views of a list of string slices.
pub open spec fn strs_view(v: Seq<&str>) -> Seq<Seq<char>> {
    v.map_values(|s: &str| s@)
}

/// The feature flags as printed by `--version`.
pub fn features_json(flags: &Vec<&str>) -> (r: String)
    ensures
        r@ == features_json_text(strs_view(flags@)),
{
    let mut body = String::new();
    let mut i: usize = 0;
    while i < flags.len()
        invariant
            i <= flags.len(),
            body@ == quoted_list(strs_view(flags@.take(i as int))),
        decreases flags.len() - i,
    {
        let ghost q = strs_view(flags@.take(i + 1));
        assert(q.drop_last() =~= strs_view(flags@.take(i as int)));
        assert(q.last() == flags@[i as int]@);
        if i > 0 {
            body.append(", \"");
        } else {
            assert(strs_view(flags@.take(0)) =~= Seq::<Seq<char>>::empty());
            assert(body@ =~= Seq::<char>::empty());
            body.append("\"");
            assert(body@ =~= "\""@);
        }
        body.append(flags[i]);
        body.append("\"");
        i = i + 1;
    }
    assert(flags@.take(flags.len() as int) =~= flags@);
    let mut r = String::from_str("[");
    r.append(body.as_str());
    r.append("]");
    r
}

/// Why no version could be read from a manifest.
#[derive(Debug, Clone, Copy, PartialEq, Eq, Structural)]
pub enum VersionError {
    /// No line starts with `version`.
    NotFound,
    /// The `version` line has no `=`.
    Malformed,
}

/// The first line whose text, after leading whitespace, starts with `version`.
pub open spec fn version_line(lines: Seq<Seq<char>>) -> Option<Seq<char>>
    decreases lines.len(),
{
    if lines.len() == 0 {
        None
    } else if seq_starts_with(trim_start(lines[0]), "version"@) {
        Some(lines[0])
    } else {
        version_line(lines.drop_first())
    }
}

/// The text between the first and the second `=` of a line (or to its end).
pub open spec fn second_field(line: Seq<char>) -> Option<Seq<char>> {
    match split_once(line, '=') {
        Some((_, rest)) => match split_once(rest, '=') {
            Some((a, _)) => Some(a),
            None => Some(rest),
        },
        None => None,
    }
}

/// `s` without the double quotes at its start and its end.
pub open spec fn unquoted(s: Seq<char>) -> Seq<char>
    decreases s.len(),
{
    if s.len() > 0 && s[0] == '"' {
        unquoted(s.drop_first())
    } else if s.len() > 0 && s.last() == '"' {
        unquoted(s.drop_last())
    } else {
        s
    }
}

/// The version a manifest's text gives: the second `=`-separated field of
/// its first `version` line, trimmed and unquoted.
pub open spec fn manifest_version_of(text: Seq<char>) -> Result<Seq<char>, VersionError> {
    match version_line(lines_of(text)) {
        None => Err(VersionError::NotFound),
        Some(l) => match second_field(l) {
            None => Err(VersionError::Malformed),
            Some(f) => Ok(unquoted(trim(f))),
        },
    }
}

fn unquote(s: &str) -> (r: String)
    ensures
        r@ == unquoted(s@),
{
    let v = crate::text::chars_of(s);
    let mut i: usize = 0;
    let mut j: usize = v.len();
    assert(s@.subrange(0, v.len() as int) =~= s@);
    while i < j && v[i] == '"'
        invariant
            v@ == s@,
            i <= j == v.len(),
            unquoted(s@) == unquoted(s@.subrange(i as int, j as int)),
        decreases j - i,
    {
        assert(s@.subrange(i as int, j as int).drop_first() =~= s@.subrange(i + 1, j as int));
        i = i + 1;
    }
    while i < j && v[j - 1] == '"'
        invariant
            v@ == s@,
            i <= j <= v.len(),
            i == j || v@[i as int] != '"',
            unquoted(s@) == unquoted(s@.subrange(i as int, j as int)),
        decreases j - i,
    {
        let ghost t = s@.subrange(i as int, j as int);
        assert(t[0] == v@[i as int]);
        assert(t.drop_last() =~= s@.subrange(i as int, j - 1));
        j = j - 1;
    }
    let ghost t = s@.subrange(i as int, j as int);
    if i < j {
        assert(t[0] == v@[i as int]);
        assert(t.last() == v@[j - 1]);
    }
    let mut r = String::new();
    let mut k: usize = i;
    while k < j
        invariant
            v@ == s@,
            i <= k <= j <= v.len(),
            r@ == s@.subrange(i as int, k as int),
        decreases j - k,
    {
        push_char(&mut r, v[k]);
        k = k + 1;
        assert(r@ =~= s@.subrange(i as int, k as int));
    }
    r
}

/// Reads the version from a manifest's text.
pub fn manifest_version(text: &str) -> (r: Result<String, VersionError>)
    ensures
        match r {
            Ok(v) => manifest_version_of(text@) == Ok::<Seq<char>, VersionError>(v@),
            Err(e) => manifest_version_of(text@) == Err::<Seq<char>, VersionError>(e),
        },
{
    let lines = split_lines(text);
    let ghost ls = lines_of(text@);
    let mut i: usize = 0;
    assert(ls.skip(0) =~= ls);
    while i < lines.len()
        invariant
            strings_view(lines@) == ls,
            ls == lines_of(text@),
            i <= lines.len(),
            version_line(ls) == version_line(ls.skip(i as int)),
        decreases lines.len() - i,
    {
        let line = &lines[i];
        assert(ls.skip(i as int)[0] == line@);
        assert(ls.skip(i as int).drop_first() =~= ls.skip(i + 1));
        let rest = trim_start_str(line.as_str());
        if str_starts_with(rest.as_str(), "version") {
            return match split_once_char(line.as_str(), '=') {
                None => Err(VersionError::Malformed),
                Some((_, after)) => {
                    let field = match split_once_char(after.as_str(), '=') {
                        Some((a, _)) => a,
                        None => after,
                    };
                    let t = trim_str(field.as_str());
                    Ok(unquote(t.as_str()))
                },
            };
        }
        i = i + 1;
    }
    assert(ls.skip(i as int).len() == 0);
    Err(VersionError::NotFound)
}

/// The version numbers the README carries, between `>` and `<`.
pub const README_VERSION_PATTERN: &'static str = r">(?P<version>\d+\.\d+\.\d+)<";

/// The README with every `>x.y.z<` replaced by `>version<` (the version
/// taken literally: a `$` in it is written as `$$` for the regex crate).
pub open spec fn stamped_readme(readme: Seq<char>, version: Seq<char>) -> Seq<char> {
    regex_replaced(README_VERSION_PATTERN@, readme, ">"@ + replace_all(version, "$"@, "$$"@) + "<"@)
}

/// Writes the version into the README's version numbers.
pub fn stamp_readme_version(readme: &str, version: &str) -> (r: String)
    ensures
        r@ == stamped_readme(readme@, version@),
{
    let mut replacement = String::from_str(">");
    proof {
        reveal_strlit("$");
    }
    replacement.append(replace_str(version, "$", "$$").as_str());
    replacement.append("<");
    regex_replace_all(README_VERSION_PATTERN, readme, replacement.as_str())
}

} // verus!
