//! How diagnostics are shown: the full form (coloured or plain, with the
//! suggestion's source lines folded into comments, and the note and help),
//! the compact numbered list, and the headers of the listings.
use vstd::prelude::*;
use crate::diagnostics::CargoDiagnostic;
use crate::pattern::{captures, group, group_at, group_or, regex_captures, opt_view};
use crate::text::{
    decimal, zero_pad, u64_to_padded, u64_to_string, trim, trim_start, trim_str, trim_start_str,
    chars_of, push_char, string_from_chars, join_lines, strings_view, replace_all, replace_str,
    seq_starts_with, is_ws,
};
use crate::cli::str_eq_exact;
use crate::runner::split_once;

verus! {

/// The colours diagnostics are painted in.
#[derive(Debug, Clone, Copy, PartialEq, Eq, Structural)]
pub enum Hue {
    Red,
    Green,
    Yellow,
    Blue,
    Purple,
    LightYellow,
    LightCyan,
}

/// The foreground code of a colour.
pub open spec fn hue_code(h: Hue) -> Seq<char> {
    match h {
        Hue::Red => "31"@,
        Hue::Green => "32"@,
        Hue::Yellow => "33"@,
        Hue::Blue => "34"@,
        Hue::Purple => "35"@,
        Hue::LightYellow => "93"@,
        Hue::LightCyan => "96"@,
    }
}

/// Text painted in a colour: the colour's escape, the text, the reset escape.
pub open spec fn painted(h: Hue, s: Seq<char>) -> Seq<char> {
    "\x1b["@ + hue_code(h) + "m"@ + s + "\x1b[0m"@
}

/// Calls `nu_ansi_term::Color::paint` and renders the result.  The crate
/// writes the colour's escape sequence, the text, and the reset sequence.
#[verifier::external_body]
pub(crate) fn paint(h: Hue, s: &str) -> (r: String)
    ensures
        r@ == painted(h, s@),
{
    let c = match h {
        Hue::Red => nu_ansi_term::Color::Red,
        Hue::Green => nu_ansi_term::Color::Green,
        Hue::Yellow => nu_ansi_term::Color::Yellow,
        Hue::Blue => nu_ansi_term::Color::Blue,
        Hue::Purple => nu_ansi_term::Color::Purple,
        Hue::LightYellow => nu_ansi_term::Color::LightYellow,
        Hue::LightCyan => nu_ansi_term::Color::LightCyan,
    };
    c.paint(s).to_string()
}

/// Calls `nu_ansi_term::Style::underline` on the plain style and paints the
/// text with it: the underline escape, the text, the reset sequence.
#[verifier::external_body]
pub(crate) fn underline(s: &str) -> (r: String)
    ensures
        r@ == "\x1b[4m"@ + s@ + "\x1b[0m"@,
{
    nu_ansi_term::Style::new().underline().paint(s).to_string()
}

/// Calls `nu_ansi_term::Style::reset_before_style` and `underline` on the
/// plain style and paints the text with it: the reset sequence, the underline
/// escape, the text, the reset sequence.
#[verifier::external_body]
pub(crate) fn underline_after_reset(s: &str) -> (r: String)
    ensures
        r@ == "\x1b[0m\x1b[4m"@ + s@ + "\x1b[0m"@,
{
    nu_ansi_term::Style::new().reset_before_style().underline().paint(s).to_string()
}

/// What `regex::Regex::new(pattern)` then `replace_all(text, replacement)`
/// gives (with `$n` in the replacement standing for group `n`), or `text`
/// itself where the pattern does not compile.
pub uninterp spec fn regex_replaced(pattern: Seq<char>, text: Seq<char>, replacement: Seq<char>) -> Seq<char>;

/// Replaces every match of `pattern` in `text`.  The contract names the result.
#[verifier::external_body]
pub(crate) fn regex_replace_all(pattern: &str, text: &str, replacement: &str) -> (r: String)
    ensures
        r@ == regex_replaced(pattern@, text@, replacement@),
{
    match regex::Regex::new(pattern) {
        Ok(re) => re.replace_all(text, replacement).to_string(),
        Err(_) => text.to_string(),
    }
}

/// The uppercase of a character, as `char::to_uppercase` gives it (one or
/// more characters).
pub uninterp spec fn uppercase_of(c: char) -> Seq<char>;

/// Calls `char::to_uppercase` and collects the characters.  The contract
/// names the result.
#[verifier::external_body]
pub(crate) fn char_to_uppercase(c: char) -> (r: String)
    ensures
        r@ == uppercase_of(c),
{
    c.to_uppercase().to_string()
}

/// A line without the carriage return that ends it, if any.
pub open spec fn strip_cr(l: Seq<char>) -> Seq<char> {
    if l.len() > 0 && l.last() == '\r' {
        l.drop_last()
    } else {
        l
    }
}

/// The lines of `s`, as `str::lines` gives them: split at each newline, a
/// carriage return before a newline dropped, and no empty last line after a
/// final newline.
pub open spec fn lines_of(s: Seq<char>) -> Seq<Seq<char>>
    decreases s.len(),
{
    if s.len() == 0 {
        Seq::empty()
    } else {
        match split_once(s, '\n') {
            Some((a, rest)) => {
                proof {
                    lemma_split_once_shorter(s, '\n');
                }
                seq![strip_cr(a)] + lines_of(rest)
            },
            None => seq![s],
        }
    }
}

pub proof fn lemma_split_once_shorter(s: Seq<char>, c: char)
    ensures
        split_once(s, c) matches Some((a, b)) ==> b.len() < s.len() && a.len() < s.len(),
    decreases s.len(),
{
    if s.len() > 0 && s[0] != c {
        lemma_split_once_shorter(s.drop_first(), c);
    }
}

/// The lines of `s`.
pub fn split_lines(s: &str) -> (r: Vec<String>)
    ensures
        strings_view(r@) == lines_of(s@),
{
    let v = chars_of(s);
    let mut r: Vec<String> = Vec::new();
    let mut start: usize = 0;
    let mut cur = String::new();
    let mut i: usize = 0;
    assert(s@.skip(0) == s@);
    assert(strings_view(r@) + lines_of(s@) =~= lines_of(s@));
    while i < v.len()
        invariant
            v@ == s@,
            start <= i <= v.len(),
            cur@ == s@.subrange(start as int, i as int),
            forall|k: int| start <= k < i ==> s@[k] != '\n',
            strings_view(r@) + lines_of(s@.skip(start as int)) == lines_of(s@),
        decreases v.len() - i,
    {
        if v[i] == '\n' {
            proof {
                let rest = s@.skip(start as int);
                assert forall|j: int| 0 <= j < i - start implies rest[j] != '\n' by {
                    assert(rest[j] == s@[start + j]);
                }
                assert(rest[i - start] == '\n');
                crate::runner::lemma_split_once_at(rest, '\n', i - start);
                assert(rest.take(i - start) == cur@);
                assert(rest.skip(i - start + 1) == s@.skip(i + 1));
            }
            let mut line = cur;
            let lv = chars_of(line.as_str());
            if lv.len() > 0 && lv[lv.len() - 1] == '\r' {
                let mut t: Vec<char> = Vec::new();
                let mut k: usize = 0;
                while k + 1 < lv.len()
                    invariant
                        lv.len() > 0,
                        k + 1 <= lv.len(),
                        t@ == lv@.take(k as int),
                    decreases lv.len() - k,
                {
                    t.push(lv[k]);
                    k = k + 1;
                    assert(t@ == lv@.take(k as int));
                }
                assert(t@ == lv@.drop_last());
                line = string_from_chars(&t);
            }
            let ghost before = strings_view(r@);
            r.push(line);
            assert(strings_view(r@) =~= before.push(strip_cr(s@.subrange(start as int, i as int))));
            cur = String::new();
            start = i + 1;
            i = i + 1;
            assert(cur@ =~= s@.subrange(start as int, i as int));
        } else {
            push_char(&mut cur, v[i]);
            i = i + 1;
            assert(cur@ =~= s@.subrange(start as int, i as int));
        }
    }
    proof {
        let rest = s@.skip(start as int);
        assert(rest =~= cur@);
        if rest.len() > 0 {
            assert forall|j: int| 0 <= j < rest.len() implies rest[j] != '\n' by {
                assert(rest[j] == s@[start + j]);
            }
            crate::runner::lemma_split_once_none(rest, '\n');
        }
    }
    if cur.as_str().is_empty() {
        assert(lines_of(s@.skip(start as int)) =~= Seq::<Seq<char>>::empty());
        assert(strings_view(r@) =~= lines_of(s@));
    } else {
        let ghost before = strings_view(r@);
        r.push(cur);
        assert(strings_view(r@) =~= before + lines_of(s@.skip(start as int)));
    }
    r
}

/// The lines, each with `prefix` before it, joined by newlines.
pub open spec fn indented(lines: Seq<Seq<char>>, prefix: Seq<char>) -> Seq<char> {
    join_lines(lines.map_values(|l: Seq<char>| prefix + l))
}

/// The lines, each with `prefix` before it, joined by newlines.
pub fn indent_lines(lines: &Vec<String>, prefix: &str) -> (r: String)
    ensures
        r@ == indented(strings_view(lines@), prefix@),
{
    let ghost target = strings_view(lines@).map_values(|l: Seq<char>| prefix@ + l);
    let mut out: Vec<String> = Vec::new();
    let mut i: usize = 0;
    while i < lines.len()
        invariant
            i <= lines.len(),
            target == strings_view(lines@).map_values(|l: Seq<char>| prefix@ + l),
            strings_view(out@) == target.take(i as int),
        decreases lines.len() - i,
    {
        let mut l = String::from_str(prefix);
        l.append(lines[i].as_str());
        let ghost before = strings_view(out@);
        assert(l@ == target[i as int]);
        out.push(l);
        assert(strings_view(out@) =~= before.push(l@));
        i = i + 1;
        assert(strings_view(out@) =~= target.take(i as int));
    }
    assert(target.take(lines.len() as int) =~= target);
    crate::text::join_newline(&out)
}

/// `s` without the characters `|`, `^`, `-` and `_`.
pub open spec fn without_marks(s: Seq<char>) -> Seq<char> {
    s.filter(|c: char| !(c == '|' || c == '^' || c == '-' || c == '_'))
}

/// `s` without its leading `|`, `^`, `-` and `_` characters.
pub open spec fn strip_leading_marks(s: Seq<char>) -> Seq<char>
    decreases s.len(),
{
    if s.len() > 0 && (s[0] == '|' || s[0] == '^' || s[0] == '-' || s[0] == '_') {
        strip_leading_marks(s.drop_first())
    } else {
        s
    }
}

pub const SUGGESTION_LINE_PATTERN: &'static str = r"(?P<line>\d+)\s*\|\s*(.*)";

/// One line of a suggestion as shown: dropped when nothing but marks and
/// blanks; a numbered source line loses its number when it is the
/// diagnostic's line and is prefixed with `file:line` otherwise.
pub open spec fn suggestion_line(line: Seq<char>, file: Seq<char>, line_number: nat) -> Option<Seq<char>> {
    if trim(without_marks(line)).len() == 0 {
        None
    } else {
        match regex_captures(SUGGESTION_LINE_PATTERN@, trim(line)) {
            Some(g) => {
                let n = match parse_unsigned_usize(group_or(g, 1, ""@)) {
                    Some(v) => v,
                    None => line_number,
                };
                let code = group_or(g, 2, ""@);
                if n != line_number {
                    Some(file + ":"@ + decimal(n) + " | "@ + code)
                } else {
                    Some(code)
                }
            },
            None => Some(line),
        }
    }
}

/// The number `str::parse::<usize>` reads, if it reads one.
pub open spec fn parse_unsigned_usize(s: Seq<char>) -> Option<nat> {
    match crate::text::parse_unsigned(s, usize::MAX as nat) {
        Ok(n) => Some(n),
        Err(_) => None,
    }
}

/// The kept lines of a suggestion, from line `i` on.
pub open spec fn kept_suggestion_lines(lines: Seq<Seq<char>>, file: Seq<char>, line_number: nat) -> Seq<Seq<char>>
    decreases lines.len(),
{
    if lines.len() == 0 {
        Seq::empty()
    } else {
        let prev = kept_suggestion_lines(lines.drop_last(), file, line_number);
        match suggestion_line(lines.last(), file, line_number) {
            Some(l) => prev.push(l),
            None => prev,
        }
    }
}

/// A suggestion with its source lines renumbered against the diagnostic's
/// location (`file`, `line_number`).
pub open spec fn renumbered_suggestion(s: Seq<char>, file: Seq<char>, line_number: nat) -> Seq<char> {
    join_lines(kept_suggestion_lines(lines_of(s), file, line_number))
}

fn remove_marks(s: &str) -> (r: String)
    ensures
        r@ == without_marks(s@),
{
    let v = chars_of(s);
    let mut r = String::new();
    let mut i: usize = 0;
    let ghost p = |c: char| !(c == '|' || c == '^' || c == '-' || c == '_');
    while i < v.len()
        invariant
            v@ == s@,
            i <= v.len(),
            r@ == s@.take(i as int).filter(p),
            p == |c: char| !(c == '|' || c == '^' || c == '-' || c == '_'),
        decreases v.len() - i,
    {
        let c = v[i];
        proof {
            reveal(Seq::filter);
            assert(s@.take(i + 1).drop_last() == s@.take(i as int));
            assert(s@.take(i + 1).last() == c);
        }
        if !(c == '|' || c == '^' || c == '-' || c == '_') {
            push_char(&mut r, c);
        }
        i = i + 1;
    }
    assert(s@.take(v.len() as int) == s@);
    r
}

impl CargoDiagnostic {
    /// A suggestion with its numbered source lines checked against the
    /// diagnostic's location: lines of marks only are dropped, the
    /// diagnostic's own line loses its number, other lines get `file:line`.
    pub fn update_suggestion_with_lineno(&self, suggestion: &str, file: &str, line_number: usize) -> (r: String)
        ensures
            r@ == renumbered_suggestion(suggestion@, file@, line_number as nat),
    {
        let lines = split_lines(suggestion);
        let ghost ls = strings_view(lines@);
        let mut kept: Vec<String> = Vec::new();
        let mut i: usize = 0;
        while i < lines.len()
            invariant
                ls == strings_view(lines@),
                ls == lines_of(suggestion@),
                i <= lines.len(),
                strings_view(kept@) == kept_suggestion_lines(ls.take(i as int), file@, line_number as nat),
            decreases lines.len() - i,
        {
            let line = &lines[i];
            proof {
                assert(ls.take(i + 1).drop_last() == ls.take(i as int));
                assert(ls.take(i + 1).last() == line@);
            }
            let cleaned = remove_marks(line.as_str());
            let ghost before = strings_view(kept@);
            if !crate::text::is_blank(cleaned.as_str()) {
                let t = trim_str(line.as_str());
                let new_line = match captures(SUGGESTION_LINE_PATTERN, t.as_str()) {
                    Some(g) => {
                        let num_text = crate::pattern::group_or_else(&g, 1, "");
                        let n = match crate::text::parse_usize(num_text.as_str()) {
                            Ok(v) => v,
                            Err(_) => line_number,
                        };
                        let code = crate::pattern::group_or_else(&g, 2, "");
                        if n != line_number {
                            let mut l = String::from_str(file);
                            l.append(":");
                            l.append(u64_to_string(n as u64).as_str());
                            l.append(" | ");
                            l.append(code.as_str());
                            l
                        } else {
                            code
                        }
                    },
                    None => line.clone(),
                };
                assert(suggestion_line(line@, file@, line_number as nat) == Some(new_line@));
                kept.push(new_line);
                assert(strings_view(kept@) =~= before.push(new_line@));
                assert(strings_view(kept@) =~= kept_suggestion_lines(ls.take(i + 1), file@, line_number as nat));
            }
            i = i + 1;
        }
        assert(ls.take(lines.len() as int) == ls);
        crate::text::join_newline(&kept)
    }
}


pub const LINEREF_PATTERN: &'static str = r"(?P<file>.*):(?P<line>\d+):(?P<col>\d+)";

pub const LONG_CARETS_PATTERN: &'static str = r"\^{3,}";

pub const LONG_DASHES_PATTERN: &'static str = r"-{3,}";

pub const MORE_INFO_PATTERN: &'static str = r"for more information, see <(https?://[^>]+)>";

pub const WARN_ATTRIBUTE_PATTERN: &'static str = r"`#\[warn\((.*?)\)\]` on by default";

/// The colour of a level's tag: yellow warnings, red errors, purple help,
/// green otherwise.
pub open spec fn level_hue(level: Seq<char>) -> Hue {
    if level == "warning"@ {
        Hue::Yellow
    } else if level == "error"@ {
        Hue::Red
    } else if level == "help"@ {
        Hue::Purple
    } else {
        Hue::Green
    }
}

/// An optional number, or zero.
pub open spec fn num_or_zero(o: Option<usize>) -> nat {
    match o {
        Some(n) => n as nat,
        None => 0,
    }
}

/// A diagnostic's tag: the level's first letter in upper case (a space where
/// the level is empty), the zero-padded number, and a colon.
pub open spec fn diag_tag(d: CargoDiagnostic) -> Seq<char> {
    let initial = if d.level@.len() > 0 { uppercase_of(d.level@[0]) } else { uppercase_of(' ') };
    let number = match d.diag_number {
        Some(n) => zero_pad(decimal(n as nat), num_or_zero(d.diag_num_padding)),
        None => Seq::empty(),
    };
    initial + number + ":"@
}

/// The file a diagnostic's `file:line:col` location names, or "unknown file".
pub open spec fn lineref_file(d: CargoDiagnostic) -> Seq<char> {
    match regex_captures(LINEREF_PATTERN@, d.lineref@) {
        Some(g) => group_or(g, 1, "unknown file"@),
        None => "unknown file"@,
    }
}

/// The line a diagnostic's location names, or zero.
pub open spec fn lineref_line(d: CargoDiagnostic) -> nat {
    match regex_captures(LINEREF_PATTERN@, d.lineref@) {
        Some(g) => match group_at(g, 2) {
            Some(s) => crate::dispatch::parse_or_zero(s),
            None => 0,
        },
        None => 0,
    }
}

/// A line that, once its leading blanks are gone, starts with `|`, `^`, `-` or `_`.
pub open spec fn is_mark_line(line: Seq<char>) -> bool {
    let t = trim_start(line);
    t.len() > 0 && (t[0] == '|' || t[0] == '^' || t[0] == '-' || t[0] == '_')
}

/// A mark line folded into the line before it as a comment.
pub open spec fn mark_comment(line: Seq<char>, color: bool) -> Seq<char> {
    let c = " // "@ + trim_start(strip_leading_marks(line));
    if color { painted(Hue::Blue, c) } else { c }
}

/// The first `n` lines of a suggestion with each mark line folded into the
/// line before it.
pub open spec fn folded_upto(ls: Seq<Seq<char>>, color: bool, n: int) -> Seq<char>
    decreases n,
{
    if n <= 1 {
        ls[0]
    } else {
        let acc = folded_upto(ls, color, n - 1);
        let line = ls[n - 1];
        if is_mark_line(line) {
            acc + mark_comment(line, color)
        } else {
            acc + "\n"@ + line
        }
    }
}

/// The suggestion as shown: renumbered, without the underscore hint, long
/// runs of `^` and `-` shortened, mark lines folded into comments, and every
/// line indented by five spaces.
pub open spec fn suggestion_part(d: CargoDiagnostic) -> Seq<char> {
    match d.suggestion {
        None => Seq::empty(),
        Some(s) => {
            let s1 = renumbered_suggestion(s@, lineref_file(d), lineref_line(d));
            let s2 = replace_all(s1, "help: if this is intentional, prefix it with an underscore: "@, ""@);
            let s3 = regex_replaced(LONG_CARETS_PATTERN@, s2, "^^"@);
            let s4 = regex_replaced(LONG_DASHES_PATTERN@, s3, "^-"@);
            let ls = lines_of(s4);
            if ls.len() > 0 {
                indented(lines_of(folded_upto(ls, d.uses_color, ls.len() as int)), "     "@) + " "@
            } else {
                indented(lines_of(if d.uses_color { painted(Hue::Green, s4) } else { s4 }), "     "@) + " "@
            }
        },
    }
}

/// The note as shown: links unwrapped, `#[warn(..)]` defaults turned into
/// `#[allow(..)]`, every line indented by two spaces.
pub open spec fn note_part(d: CargoDiagnostic) -> Seq<char> {
    match d.note {
        None => Seq::empty(),
        Some(n) => {
            let n1 = regex_replaced(MORE_INFO_PATTERN@, n@, "$1"@);
            let n2 = regex_replaced(WARN_ATTRIBUTE_PATTERN@, n1, "#[allow($1)]"@);
            let n3 = if d.uses_color { painted(Hue::Blue, n2) } else { n2 };
            "\n"@ + indented(lines_of(n3), "  "@)
        },
    }
}

/// The help as shown, on a line of its own.
pub open spec fn help_part(d: CargoDiagnostic) -> Seq<char> {
    match d.help {
        None => Seq::empty(),
        Some(h) => "\n  "@ + (if d.uses_color { painted(Hue::LightYellow, h@) } else { h@ }) + " "@,
    }
}

/// The full form of a diagnostic: its tag (coloured by level), its location
/// (underlined), its message, then its suggestion, note and help.
pub open spec fn diagnostic_text(d: CargoDiagnostic) -> Seq<char> {
    let tag = diag_tag(d);
    let head = if d.uses_color {
        painted(level_hue(d.level@), tag) + " "@ + "\x1b[4m"@ + ("\x1b[4m"@ + d.lineref@ + "\x1b[0m"@)
            + "\x1b[0m "@
    } else {
        tag + " "@ + d.lineref@ + " "@
    };
    head + d.message@ + ": "@ + suggestion_part(d) + note_part(d) + help_part(d)
}

fn strip_marks_then_blanks(line: &str) -> (r: String)
    ensures
        r@ == trim_start(strip_leading_marks(line@)),
{
    let v = chars_of(line);
    let mut i: usize = 0;
    assert(line@.skip(0) == line@);
    while i < v.len() && (v[i] == '|' || v[i] == '^' || v[i] == '-' || v[i] == '_')
        invariant
            v@ == line@,
            i <= v.len(),
            strip_leading_marks(line@) == strip_leading_marks(line@.skip(i as int)),
        decreases v.len() - i,
    {
        assert(line@.skip(i as int).drop_first() == line@.skip(i + 1));
        i = i + 1;
    }
    let mut rest = String::new();
    let mut k: usize = i;
    while k < v.len()
        invariant
            v@ == line@,
            i <= k <= v.len(),
            rest@ == line@.subrange(i as int, k as int),
        decreases v.len() - k,
    {
        push_char(&mut rest, v[k]);
        k = k + 1;
        assert(rest@ == line@.subrange(i as int, k as int));
    }
    assert(line@.subrange(i as int, v.len() as int) == line@.skip(i as int));
    assert(strip_leading_marks(line@.skip(i as int)) == line@.skip(i as int));
    trim_start_str(rest.as_str())
}

fn starts_with_mark(line: &str) -> (r: bool)
    ensures
        r == is_mark_line(line@),
{
    let t = trim_start_str(line);
    let tv = chars_of(t.as_str());
    tv.len() > 0 && (tv[0] == '|' || tv[0] == '^' || tv[0] == '-' || tv[0] == '_')
}

/// The part of the full form before the suggestion: tag, location, message.
pub open spec fn head_part(d: CargoDiagnostic) -> Seq<char> {
    let tag = diag_tag(d);
    let head = if d.uses_color {
        painted(level_hue(d.level@), tag) + " "@ + "\x1b[4m"@ + ("\x1b[4m"@ + d.lineref@ + "\x1b[0m"@)
            + "\x1b[0m "@
    } else {
        tag + " "@ + d.lineref@ + " "@
    };
    head + d.message@ + ": "@
}

impl CargoDiagnostic {
    fn head_text(&self) -> (r: String)
        ensures
            r@ == head_part(*self),
    {
        let lv = chars_of(self.level.as_str());
        let initial = if lv.len() > 0 { char_to_uppercase(lv[0]) } else { char_to_uppercase(' ') };
        let mut tag = initial;
        match self.diag_number {
            Some(n) => {
                let width = match self.diag_num_padding {
                    Some(w) => w,
                    None => 0,
                };
                tag.append(u64_to_padded(n as u64, width).as_str());
            },
            None => {},
        }
        tag.append(":");
        proof {
            reveal_strlit("");
            assert(""@ =~= Seq::<char>::empty());
        }
        assert(tag@ == diag_tag(*self));
        let mut out: String;
        if self.uses_color {
            let hue = if str_eq_exact(self.level.as_str(), "warning") {
                Hue::Yellow
            } else if str_eq_exact(self.level.as_str(), "error") {
                Hue::Red
            } else if str_eq_exact(self.level.as_str(), "help") {
                Hue::Purple
            } else {
                Hue::Green
            };
            out = paint(hue, tag.as_str());
            out.append(" ");
            out.append("\x1b[4m");
            out.append(underline(self.lineref.as_str()).as_str());
            out.append("\x1b[0m ");
        } else {
            out = tag.clone();
            out.append(" ");
            out.append(self.lineref.as_str());
            out.append(" ");
        }
        out.append(self.message.as_str());
        out.append(": ");
        out
    }

    fn suggestion_text(&self) -> (r: String)
        ensures
            r@ == suggestion_part(*self),
    {
        let mut out = String::new();
        match &self.suggestion {
            Some(s) => {
                let (file, line_number) = match captures(LINEREF_PATTERN, self.lineref.as_str()) {
                    Some(g) => (
                        crate::pattern::group_or_else(&g, 1, "unknown file"),
                        match group(&g, 2) {
                            Some(x) => crate::dispatch::parse_or_zero_exec(x.as_str()),
                            None => 0,
                        },
                    ),
                    None => (String::from_str("unknown file"), 0),
                };
                assert(file@ == lineref_file(*self));
                assert(line_number as nat == lineref_line(*self));
                let s1 = self.update_suggestion_with_lineno(s.as_str(), file.as_str(), line_number);
                proof {
                    reveal_strlit("help: if this is intentional, prefix it with an underscore: ");
                }
                let s2 = replace_str(s1.as_str(), "help: if this is intentional, prefix it with an underscore: ", "");
                let s3 = regex_replace_all(LONG_CARETS_PATTERN, s2.as_str(), "^^");
                let s4 = regex_replace_all(LONG_DASHES_PATTERN, s3.as_str(), "^-");
                let ls = split_lines(s4.as_str());
                let ghost lsv = strings_view(ls@);
                if ls.len() > 0 {
                    let mut acc = ls[0].clone();
                    let mut i: usize = 1;
                    while i < ls.len()
                        invariant
                            lsv == strings_view(ls@),
                            lsv.len() > 0,
                            1 <= i <= ls.len(),
                            acc@ == folded_upto(lsv, self.uses_color, i as int),
                        decreases ls.len() - i,
                    {
                        let line = &ls[i];
                        assert(lsv[i as int] == line@);
                        if starts_with_mark(line.as_str()) {
                            let mut c = String::from_str(" // ");
                            c.append(strip_marks_then_blanks(line.as_str()).as_str());
                            if self.uses_color {
                                acc.append(paint(Hue::Blue, c.as_str()).as_str());
                            } else {
                                acc.append(c.as_str());
                            }
                        } else {
                            acc.append("\n");
                            acc.append(line.as_str());
                        }
                        i = i + 1;
                    }
                    let folded_lines = split_lines(acc.as_str());
                    out.append(indent_lines(&folded_lines, "     ").as_str());
                    out.append(" ");
                } else {
                    let shown = if self.uses_color { paint(Hue::Green, s4.as_str()) } else { s4.clone() };
                    let shown_lines = split_lines(shown.as_str());
                    out.append(indent_lines(&shown_lines, "     ").as_str());
                    out.append(" ");
                }
            },
            None => {},
        }
        out
    }

    fn note_text(&self) -> (r: String)
        ensures
            r@ == note_part(*self),
    {
        let mut out = String::new();
        match &self.note {
            Some(n) => {
                let n1 = regex_replace_all(MORE_INFO_PATTERN, n.as_str(), "$1");
                let n2 = regex_replace_all(WARN_ATTRIBUTE_PATTERN, n1.as_str(), "#[allow($1)]");
                let n3 = if self.uses_color { paint(Hue::Blue, n2.as_str()) } else { n2 };
                let nl = split_lines(n3.as_str());
                out.append("\n");
                out.append(indent_lines(&nl, "  ").as_str());
            },
            None => {},
        }
        out
    }

    fn help_text(&self) -> (r: String)
        ensures
            r@ == help_part(*self),
    {
        let mut out = String::new();
        match &self.help {
            Some(h) => {
                out.append("\n  ");
                if self.uses_color {
                    out.append(paint(Hue::LightYellow, h.as_str()).as_str());
                } else {
                    out.append(h.as_str());
                }
                out.append(" ");
            },
            None => {},
        }
        out
    }

    /// The full form of the diagnostic, as its `Debug` rendering shows it.
    pub fn render(&self) -> (r: String)
        ensures
            r@ == diagnostic_text(*self),
    {
        let mut out = self.head_text();
        out.append(self.suggestion_text().as_str());
        out.append(self.note_text().as_str());
        out.append(self.help_text().as_str());
        out
    }
}


/// The number of bytes a text takes in UTF-8, as `str::len` counts it.
pub open spec fn utf8_len(s: Seq<char>) -> nat {
    (vstd::utf8::encode_utf8(s).len() as usize) as nat
}

/// `s` padded with spaces on the right to `width` characters.
pub open spec fn pad_right(s: Seq<char>, width: nat) -> Seq<char> {
    if s.len() >= width {
        s
    } else {
        s + Seq::new((width - s.len()) as nat, |i: int| ' ')
    }
}

/// The longest location among the diagnostics, in bytes.
pub open spec fn max_lineref_len(d: Seq<CargoDiagnostic>) -> nat
    decreases d.len(),
{
    if d.len() == 0 {
        0
    } else {
        let m = max_lineref_len(d.drop_last());
        let l = utf8_len(d.last().lineref@);
        if l > m { l } else { m }
    }
}

/// The first line of a text, or nothing.
pub open spec fn first_line(s: Seq<char>) -> Seq<char> {
    let ls = lines_of(s);
    if ls.len() > 0 { ls[0] } else { Seq::empty() }
}

/// The zero-padded number of a diagnostic, or nothing.
pub open spec fn padded_number(d: CargoDiagnostic) -> Seq<char> {
    match d.diag_number {
        Some(n) => zero_pad(decimal(n as nat), num_or_zero(d.diag_num_padding)),
        None => Seq::empty(),
    }
}

/// A diagnostic's line in the compact list: level and number, its location
/// padded to `width`, and the first line of its message.
pub open spec fn compact_line(d: CargoDiagnostic, width: nat) -> Seq<char> {
    d.level@ + padded_number(d) + ": "@ + pad_right(d.lineref@, width) + " "@ + trim(first_line(d.message@))
}

/// The diagnostics listed in the compact list: all but help and notes.
pub open spec fn compact_listed(d: CargoDiagnostic) -> bool {
    d.level@ != "help"@ && d.level@ != "note"@
}

/// The lines of the compact list, from the `n` first diagnostics.
pub open spec fn compact_body(d: Seq<CargoDiagnostic>, width: nat, n: int) -> Seq<Seq<char>>
    decreases n,
{
    if n <= 0 {
        Seq::empty()
    } else {
        let prev = compact_body(d, width, n - 1);
        if compact_listed(d[n - 1]) { prev.push(compact_line(d[n - 1], width)) } else { prev }
    }
}

/// The compact list of a process's diagnostics: a header, then one line per
/// diagnostic other than help and notes; nothing when there are none.
pub open spec fn compact_listing(pid: u32, d: Seq<CargoDiagnostic>) -> Seq<Seq<char>> {
    if d.len() == 0 {
        Seq::empty()
    } else {
        seq!["--- All Diagnostics for PID "@ + decimal(pid as nat) + " ("@ + decimal(d.len()) + " total) ---"@]
            + compact_body(d, max_lineref_len(d), d.len() as int)
    }
}

fn first_line_trimmed(s: &str) -> (r: String)
    ensures
        r@ == trim(first_line(s@)),
{
    let ls = split_lines(s);
    if ls.len() > 0 {
        trim_str(ls[0].as_str())
    } else {
        proof {
            assert(trim(Seq::<char>::empty()) == Seq::<char>::empty());
        }
        String::new()
    }
}

fn pad_right_exec(s: &str, width: usize) -> (r: String)
    ensures
        r@ == pad_right(s@, width as nat),
{
    let mut r = String::from_str(s);
    let n = chars_of(s).len();
    let mut k: usize = n;
    while k < width
        invariant
            n == s@.len(),
            n <= k <= width || (k == n && n >= width),
            r@ == s@ + Seq::new((k - n) as nat, |i: int| ' '),
        decreases width - k,
    {
        push_char(&mut r, ' ');
        k = k + 1;
        assert(r@ =~= s@ + Seq::new((k - n) as nat, |i: int| ' '));
    }
    if n >= width {
        assert(r@ =~= s@);
    }
    r
}

fn padded_number_text(d: &CargoDiagnostic) -> (r: String)
    ensures
        r@ == padded_number(*d),
{
    match d.diag_number {
        Some(n) => {
            let width = match d.diag_num_padding {
                Some(w) => w,
                None => 0,
            };
            u64_to_padded(n as u64, width)
        },
        None => String::new(),
    }
}

/// The compact list of a process's diagnostics.
pub fn compact_lines(pid: u32, diags: &Vec<CargoDiagnostic>) -> (r: Vec<String>)
    ensures
        strings_view(r@) == compact_listing(pid, diags@),
{
    let mut r: Vec<String> = Vec::new();
    if diags.len() == 0 {
        assert(strings_view(r@) =~= compact_listing(pid, diags@));
        return r;
    }
    let mut width: usize = 0;
    let mut j: usize = 0;
    while j < diags.len()
        invariant
            j <= diags.len(),
            width as nat == max_lineref_len(diags@.take(j as int)),
        decreases diags.len() - j,
    {
        let l = diags[j].lineref.as_str().len();
        assert(diags@.take(j + 1).drop_last() == diags@.take(j as int));
        if l > width {
            width = l;
        }
        j = j + 1;
    }
    assert(diags@.take(diags.len() as int) == diags@);
    let mut header = String::from_str("--- All Diagnostics for PID ");
    header.append(u64_to_string(pid as u64).as_str());
    header.append(" (");
    header.append(u64_to_string(diags.len() as u64).as_str());
    header.append(" total) ---");
    r.push(header);
    let ghost w = width as nat;
    let mut i: usize = 0;
    while i < diags.len()
        invariant
            i <= diags.len(),
            width as nat == max_lineref_len(diags@),
            w == width as nat,
            diags@.len() > 0,
            strings_view(r@) == seq!["--- All Diagnostics for PID "@ + decimal(pid as nat) + " ("@
                + decimal(diags@.len()) + " total) ---"@] + compact_body(diags@, w, i as int),
        decreases diags.len() - i,
    {
        let d = &diags[i];
        let ghost before = strings_view(r@);
        if !str_eq_exact(d.level.as_str(), "help") && !str_eq_exact(d.level.as_str(), "note") {
            let mut line = d.level.clone();
            line.append(padded_number_text(d).as_str());
            line.append(": ");
            line.append(pad_right_exec(d.lineref.as_str(), width).as_str());
            line.append(" ");
            line.append(first_line_trimmed(d.message.as_str()).as_str());
            r.push(line);
            assert(strings_view(r@) =~= before.push(compact_line(diags@[i as int], w)));
        }
        i = i + 1;
    }
    r
}

/// The full listing of a process's diagnostics: a header with the count,
/// then each diagnostic's full form; nothing when there are none.
pub open spec fn exact_listing(pid: u32, d: Seq<CargoDiagnostic>) -> Seq<Seq<char>> {
    if d.len() == 0 {
        Seq::empty()
    } else {
        seq!["--- Full Diagnostics for PID "@ + decimal(pid as nat) + " --- "@ + decimal(d.len())]
            + d.map_values(|x: CargoDiagnostic| diagnostic_text(x))
    }
}

/// The full listing of a process's diagnostics.
pub fn exact_lines(pid: u32, diags: &Vec<CargoDiagnostic>) -> (r: Vec<String>)
    ensures
        strings_view(r@) == exact_listing(pid, diags@),
{
    let mut r: Vec<String> = Vec::new();
    if diags.len() == 0 {
        assert(strings_view(r@) =~= exact_listing(pid, diags@));
        return r;
    }
    let mut header = String::from_str("--- Full Diagnostics for PID ");
    header.append(u64_to_string(pid as u64).as_str());
    header.append(" --- ");
    header.append(u64_to_string(diags.len() as u64).as_str());
    r.push(header);
    let ghost h = seq!["--- Full Diagnostics for PID "@ + decimal(pid as nat) + " --- "@ + decimal(diags@.len())];
    let ghost all = diags@.map_values(|x: CargoDiagnostic| diagnostic_text(x));
    assert(strings_view(r@) =~= h + all.take(0));
    let mut i: usize = 0;
    while i < diags.len()
        invariant
            i <= diags.len(),
            all == diags@.map_values(|x: CargoDiagnostic| diagnostic_text(x)),
            strings_view(r@) == h + all.take(i as int),
        decreases diags.len() - i,
    {
        let ghost before = strings_view(r@);
        let t = diags[i].render();
        r.push(t);
        assert(strings_view(r@) =~= before.push(all[i as int]));
        i = i + 1;
        assert(h + all.take(i as int) =~= before.push(all[i - 1]));
    }
    assert(all.take(diags.len() as int) =~= all);
    r
}

/// The errors among the diagnostics, in order.
pub open spec fn errors_of(d: Seq<CargoDiagnostic>) -> Seq<CargoDiagnostic> {
    d.filter(|x: CargoDiagnostic| x.level@ == "error"@)
}

/// The short listing: a header with the number of errors, then the first
/// line of each error's full form; nothing when there are no diagnostics.
pub open spec fn short_listing(d: Seq<CargoDiagnostic>) -> Seq<Seq<char>> {
    if d.len() == 0 {
        Seq::empty()
    } else {
        let e = errors_of(d);
        seq!["--- Errors ("@ + decimal(e.len()) + " total) ---"@]
            + e.map_values(|x: CargoDiagnostic| first_line(diagnostic_text(x)))
    }
}

/// The errors among the diagnostics.
pub fn error_diagnostics(diags: &Vec<CargoDiagnostic>) -> (r: Vec<CargoDiagnostic>)
    ensures
        r@ == errors_of(diags@),
{
    let ghost p = |x: CargoDiagnostic| x.level@ == "error"@;
    let mut r: Vec<CargoDiagnostic> = Vec::new();
    let mut i: usize = 0;
    while i < diags.len()
        invariant
            i <= diags.len(),
            p == |x: CargoDiagnostic| x.level@ == "error"@,
            r@ == diags@.take(i as int).filter(p),
        decreases diags.len() - i,
    {
        proof {
            reveal(Seq::filter);
            assert(diags@.take(i + 1).drop_last() == diags@.take(i as int));
            assert(diags@.take(i + 1).last() == diags@[i as int]);
        }
        if str_eq_exact(diags[i].level.as_str(), "error") {
            r.push(diags[i].duplicate());
        }
        i = i + 1;
    }
    assert(diags@.take(diags.len() as int) == diags@);
    r
}

/// The short listing of a process's diagnostics.
pub fn short_lines(diags: &Vec<CargoDiagnostic>) -> (r: Vec<String>)
    ensures
        strings_view(r@) == short_listing(diags@),
{
    let mut r: Vec<String> = Vec::new();
    if diags.len() == 0 {
        assert(strings_view(r@) =~= short_listing(diags@));
        return r;
    }
    let errors = error_diagnostics(diags);
    let mut header = String::from_str("--- Errors (");
    header.append(u64_to_string(errors.len() as u64).as_str());
    header.append(" total) ---");
    r.push(header);
    let ghost h = seq!["--- Errors ("@ + decimal(errors@.len()) + " total) ---"@];
    let ghost all = errors@.map_values(|x: CargoDiagnostic| first_line(diagnostic_text(x)));
    assert(strings_view(r@) =~= h + all.take(0));
    let mut i: usize = 0;
    while i < errors.len()
        invariant
            i <= errors.len(),
            all == errors@.map_values(|x: CargoDiagnostic| first_line(diagnostic_text(x))),
            strings_view(r@) == h + all.take(i as int),
        decreases errors.len() - i,
    {
        let ghost before = strings_view(r@);
        let full = errors[i].render();
        let ls = split_lines(full.as_str());
        let first = if ls.len() > 0 { ls[0].clone() } else { String::new() };
        proof {
            reveal_strlit("");
        }
        assert(first@ == first_line(diagnostic_text(errors@[i as int])));
        r.push(first);
        assert(strings_view(r@) =~= before.push(all[i as int]));
        i = i + 1;
        assert(h + all.take(i as int) =~= before.push(all[i - 1]));
    }
    assert(all.take(errors.len() as int) =~= all);
    r
}


/// The diagnostics of a level, in order.
pub open spec fn of_level(d: Seq<CargoDiagnostic>, level: Seq<char>) -> Seq<CargoDiagnostic> {
    d.filter(|x: CargoDiagnostic| x.level@ == level)
}

/// The numbered lines of a section: the index, zero-padded to the width of
/// the count, a colon, and the trimmed message.
pub open spec fn numbered_messages(d: Seq<CargoDiagnostic>) -> Seq<Seq<char>> {
    Seq::new(d.len(), |i: int| zero_pad(decimal((i + 1) as nat), decimal(d.len()).len()) + ": "@ + trim(d[i].message@))
}

/// One section of the summary of a process: a header naming the PID, the
/// index width and the count, then the numbered messages; nothing when there
/// are none.
pub open spec fn summary_section(title: Seq<char>, pid: u32, d: Seq<CargoDiagnostic>) -> Seq<Seq<char>> {
    if d.len() == 0 {
        Seq::empty()
    } else {
        seq!["\n\n--- "@ + title + " for PID "@ + decimal(pid as nat) + " --- "@ + decimal(decimal(d.len()).len())
            + " "@ + decimal(d.len())] + numbered_messages(d)
    }
}

/// The summary of a process's diagnostics: its warnings, then its errors.
pub open spec fn prefixed_summary(pid: u32, d: Seq<CargoDiagnostic>) -> Seq<Seq<char>> {
    summary_section("Warnings"@, pid, of_level(d, "warning"@)) + summary_section("Errors"@, pid, of_level(d, "error"@))
}

fn level_diagnostics(diags: &Vec<CargoDiagnostic>, level: &str) -> (r: Vec<CargoDiagnostic>)
    ensures
        r@ == of_level(diags@, level@),
{
    let ghost p = |x: CargoDiagnostic| x.level@ == level@;
    let mut r: Vec<CargoDiagnostic> = Vec::new();
    let mut i: usize = 0;
    while i < diags.len()
        invariant
            i <= diags.len(),
            p == |x: CargoDiagnostic| x.level@ == level@,
            r@ == diags@.take(i as int).filter(p),
        decreases diags.len() - i,
    {
        proof {
            reveal(Seq::filter);
            assert(diags@.take(i + 1).drop_last() == diags@.take(i as int));
            assert(diags@.take(i + 1).last() == diags@[i as int]);
        }
        if str_eq_exact(diags[i].level.as_str(), level) {
            r.push(diags[i].duplicate());
        }
        i = i + 1;
    }
    assert(diags@.take(diags.len() as int) == diags@);
    r
}

fn section_lines(title: &str, pid: u32, d: &Vec<CargoDiagnostic>, out: &mut Vec<String>)
    requires
        d@.len() < u64::MAX,
    ensures
        strings_view(final(out)@) == strings_view(old(out)@) + summary_section(title@, pid, d@),
{
    if d.len() == 0 {
        assert(strings_view(out@) =~= strings_view(out@) + summary_section(title@, pid, d@));
        return;
    }
    let width = crate::text::decimal_chars(d.len() as u64).len();
    let mut header = String::from_str("\n\n--- ");
    header.append(title);
    header.append(" for PID ");
    header.append(u64_to_string(pid as u64).as_str());
    header.append(" --- ");
    header.append(u64_to_string(width as u64).as_str());
    header.append(" ");
    header.append(u64_to_string(d.len() as u64).as_str());
    let ghost start = strings_view(out@);
    out.push(header);
    let ghost nums = numbered_messages(d@);
    let mut i: usize = 0;
    while i < d.len()
        invariant
            i <= d.len(),
            d@.len() < u64::MAX,
            width == decimal(d@.len()).len(),
            nums == numbered_messages(d@),
            strings_view(out@) == start + summary_section(title@, pid, d@).take(i + 1),
        decreases d.len() - i,
    {
        let mut line = u64_to_padded((i + 1) as u64, width);
        line.append(": ");
        line.append(trim_str(d[i].message.as_str()).as_str());
        let ghost before = strings_view(out@);
        out.push(line);
        assert(strings_view(out@) =~= before.push(nums[i as int]));
        i = i + 1;
        assert(summary_section(title@, pid, d@).take(i + 1) =~= summary_section(title@, pid, d@).take(i as int).push(nums[i - 1]));
    }
    assert(summary_section(title@, pid, d@).take(d.len() + 1) =~= summary_section(title@, pid, d@));
}

/// The summary of a process's diagnostics, warnings first, then errors.
pub fn prefixed_summary_lines(pid: u32, diags: &Vec<CargoDiagnostic>) -> (r: Vec<String>)
    requires
        diags@.len() < u64::MAX,
    ensures
        strings_view(r@) == prefixed_summary(pid, diags@),
{
    let warnings = level_diagnostics(diags, "warning");
    let errors = level_diagnostics(diags, "error");
    proof {
        diags@.lemma_filter_len(|x: CargoDiagnostic| x.level@ == "warning"@);
        diags@.lemma_filter_len(|x: CargoDiagnostic| x.level@ == "error"@);
    }
    let mut out: Vec<String> = Vec::new();
    assert(strings_view(out@) =~= Seq::<Seq<char>>::empty());
    section_lines("Warnings", pid, &warnings, &mut out);
    section_lines("Errors", pid, &errors, &mut out);
    assert(strings_view(out@) =~= prefixed_summary(pid, diags@));
    out
}

/// The per-process compact listing: a header naming the PID, then each
/// diagnostic's level, location and trimmed message.
pub open spec fn process_compact(pid: u32, d: Seq<CargoDiagnostic>) -> Seq<Seq<char>> {
    seq!["--- Compact for PID "@ + decimal(pid as nat) + " ---"@]
        + d.map_values(|x: CargoDiagnostic| x.level@ + ": "@ + x.lineref@ + " "@ + trim(x.message@))
}

/// The per-process compact listing.
pub fn process_compact_lines(pid: u32, diags: &Vec<CargoDiagnostic>) -> (r: Vec<String>)
    ensures
        strings_view(r@) == process_compact(pid, diags@),
{
    let mut r: Vec<String> = Vec::new();
    let mut header = String::from_str("--- Compact for PID ");
    header.append(u64_to_string(pid as u64).as_str());
    header.append(" ---");
    r.push(header);
    let ghost h = seq!["--- Compact for PID "@ + decimal(pid as nat) + " ---"@];
    let ghost all = diags@.map_values(|x: CargoDiagnostic| x.level@ + ": "@ + x.lineref@ + " "@ + trim(x.message@));
    assert(strings_view(r@) =~= h + all.take(0));
    let mut i: usize = 0;
    while i < diags.len()
        invariant
            i <= diags.len(),
            all == diags@.map_values(|x: CargoDiagnostic| x.level@ + ": "@ + x.lineref@ + " "@ + trim(x.message@)),
            strings_view(r@) == h + all.take(i as int),
        decreases diags.len() - i,
    {
        let d = &diags[i];
        let mut line = d.level.clone();
        line.append(": ");
        line.append(d.lineref.as_str());
        line.append(" ");
        line.append(trim_str(d.message.as_str()).as_str());
        let ghost before = strings_view(r@);
        r.push(line);
        assert(strings_view(r@) =~= before.push(all[i as int]));
        i = i + 1;
        assert(h + all.take(i as int) =~= before.push(all[i - 1]));
    }
    assert(all.take(diags.len() as int) =~= all);
    r
}

/// The diagnostics of `d` at level `level`, in order.
pub open spec fn at_level(d: Seq<CargoDiagnostic>, level: Seq<char>) -> Seq<CargoDiagnostic> {
    d.filter(|x: CargoDiagnostic| x.level@ == level)
}

/// A labelled list of messages: the label, then one line per message with
/// the given prefix; or the line saying there are none.
pub open spec fn message_block(ds: Seq<CargoDiagnostic>, label: Seq<char>, prefix: Seq<char>, none: Seq<char>) -> Seq<Seq<char>> {
    if ds.len() == 0 {
        seq![none]
    } else {
        seq![label] + ds.map_values(|x: CargoDiagnostic| prefix + trim(x.message@))
    }
}

/// The per-process summary: a header naming the PID, then its warnings and
/// its errors, each message trimmed, or a line saying there are none.
pub open spec fn process_summary(pid: u32, d: Seq<CargoDiagnostic>) -> Seq<Seq<char>> {
    seq!["\n\n\n--- Summary for PID "@ + decimal(pid as nat) + " ---"@]
        + message_block(at_level(d, "warning"@), "Warnings:"@, "print_shortened_output:"@, "No warnings."@)
        + message_block(at_level(d, "error"@), "Errors:"@, "print_shortened_output: "@, "No errors."@)
}

fn at_level_exec(diags: &Vec<CargoDiagnostic>, level: &str) -> (r: Vec<CargoDiagnostic>)
    ensures
        r@ == at_level(diags@, level@),
{
    let mut r: Vec<CargoDiagnostic> = Vec::new();
    let mut i: usize = 0;
    proof {
        reveal(Seq::filter);
        assert(diags@.take(0) =~= Seq::<CargoDiagnostic>::empty());
        assert(r@ =~= at_level(diags@.take(0), level@));
    }
    while i < diags.len()
        invariant
            i <= diags.len(),
            r@ == at_level(diags@.take(i as int), level@),
        decreases diags.len() - i,
    {
        let ghost t = diags@.take(i + 1);
        assert(t.drop_last() =~= diags@.take(i as int));
        assert(t.last() == diags@[i as int]);
        proof {
            reveal(Seq::filter);
        }
        if crate::cli::str_eq_exact(diags[i].level.as_str(), level) {
            r.push(diags[i].duplicate());
        }
        i = i + 1;
    }
    assert(diags@.take(diags.len() as int) =~= diags@);
    r
}

fn push_block(r: &mut Vec<String>, ds: &Vec<CargoDiagnostic>, label: &str, prefix: &str, none: &str)
    ensures
        strings_view(final(r)@) == strings_view(old(r)@) + message_block(ds@, label@, prefix@, none@),
{
    let ghost start = strings_view(r@);
    if ds.len() == 0 {
        r.push(String::from_str(none));
        assert(strings_view(r@) =~= start + message_block(ds@, label@, prefix@, none@));
        return;
    }
    r.push(String::from_str(label));
    let ghost all = ds@.map_values(|x: CargoDiagnostic| prefix@ + trim(x.message@));
    assert(strings_view(r@) =~= start + seq![label@] + all.take(0));
    let mut i: usize = 0;
    while i < ds.len()
        invariant
            i <= ds.len(),
            all == ds@.map_values(|x: CargoDiagnostic| prefix@ + trim(x.message@)),
            strings_view(r@) == start + seq![label@] + all.take(i as int),
        decreases ds.len() - i,
    {
        let mut line = String::from_str(prefix);
        line.append(trim_str(ds[i].message.as_str()).as_str());
        let ghost before = strings_view(r@);
        r.push(line);
        assert(strings_view(r@) =~= before.push(all[i as int]));
        i = i + 1;
        assert(start + seq![label@] + all.take(i as int) =~= before.push(all[i - 1]));
    }
    assert(all.take(ds.len() as int) =~= all);
}

/// The per-process summary of warnings and errors.
pub fn process_summary_lines(pid: u32, diags: &Vec<CargoDiagnostic>) -> (r: Vec<String>)
    ensures
        strings_view(r@) == process_summary(pid, diags@),
{
    let mut r: Vec<String> = Vec::new();
    let mut header = String::from_str("\n\n\n--- Summary for PID ");
    header.append(u64_to_string(pid as u64).as_str());
    header.append(" ---");
    r.push(header);
    let warnings = at_level_exec(diags, "warning");
    let errors = at_level_exec(diags, "error");
    push_block(&mut r, &warnings, "Warnings:", "print_shortened_output:", "No warnings.");
    push_block(&mut r, &errors, "Errors:", "print_shortened_output: ", "No errors.");
    r
}

/// The per-process full listing: a header naming the PID, then each
/// diagnostic's level in debug form and its message.
pub open spec fn process_exact(pid: u32, d: Seq<CargoDiagnostic>) -> Seq<Seq<char>> {
    seq!["--- Full Diagnostics for PID "@ + decimal(pid as nat) + " ---"@]
        + d.map_values(|x: CargoDiagnostic| crate::text::debug_text(x.level@) + ": "@ + x.message@)
}

/// The per-process full listing.
pub fn process_exact_lines(pid: u32, diags: &Vec<CargoDiagnostic>) -> (r: Vec<String>)
    ensures
        strings_view(r@) == process_exact(pid, diags@),
{
    let mut r: Vec<String> = Vec::new();
    let mut header = String::from_str("--- Full Diagnostics for PID ");
    header.append(u64_to_string(pid as u64).as_str());
    header.append(" ---");
    r.push(header);
    let ghost h = seq!["--- Full Diagnostics for PID "@ + decimal(pid as nat) + " ---"@];
    let ghost all = diags@.map_values(|x: CargoDiagnostic| crate::text::debug_text(x.level@) + ": "@ + x.message@);
    assert(strings_view(r@) =~= h + all.take(0));
    let mut i: usize = 0;
    while i < diags.len()
        invariant
            i <= diags.len(),
            all == diags@.map_values(|x: CargoDiagnostic| crate::text::debug_text(x.level@) + ": "@ + x.message@),
            strings_view(r@) == h + all.take(i as int),
        decreases diags.len() - i,
    {
        let d = &diags[i];
        let mut line = crate::text::debug_str(d.level.as_str());
        line.append(": ");
        line.append(d.message.as_str());
        let ghost before = strings_view(r@);
        r.push(line);
        assert(strings_view(r@) =~= before.push(all[i as int]));
        i = i + 1;
        assert(h + all.take(i as int) =~= before.push(all[i - 1]));
    }
    assert(all.take(diags.len() as int) =~= all);
    r
}

} // verus!
