//! Reading cargo's output line by line.  The standard-error reader collects
//! diagnostics with their locations, suggestions, notes and help, summarises
//! backtraces and reports panics, build failures and served URLs; the
//! standard-output reader watches for servers coming up.  Each line is handed
//! to the recognisers in a fixed order, and what a recogniser asks the world
//! to do (print, open a URL, record a time) comes back as an effect.
use vstd::prelude::*;
use crate::command_builder::TerminalError;
use crate::diagnostics::{
    CallbackResponse, CallbackType, CargoDiagnostic, DiagView, ResponseView, diags_view,
    opt_diag_view, opt_response_view,
};
use crate::pattern::{
    captures, group_or_else, groups_view, group_or, group_at, regex_captures, is_match,
    matches_text, opt_view, group,
};
use crate::text::{
    char_is_numeric, debug_text, debug_str, is_numeric_char, chars_of,
    decimal, u64_to_string, parse_unsigned, parse_usize, trim, trim_str, is_blank,
    seq_starts_with, seq_contains, str_starts_with, str_contains, join_lines, join_newline,
    strings_view, replace_all, replace_str,
};

verus! {

pub const PANIC_PATTERN: &'static str = r"^thread '([^']+)' panicked at (.+):([^\s:]+):(\d+):(\d+)";

pub const COULD_NOT_COMPILE_PATTERN: &'static str = r"error: could not compile `(?P<crate_name>.+)` \((?P<due_to>.+)\) due to (?P<error_count>\d+) previous errors; (?P<warning_count>\d+) warnings emitted";

pub const LEVEL_PATTERN: &'static str = r"^(?P<level>\w+)(\[(?P<error_code>E\d+)\])?:\s+(?P<msg>.+)$";

pub const GENERATED_PATTERN: &'static str = r"generated\s+\d+";

pub const ANY_LINE_PATTERN: &'static str = r"^(?P<msg>.*)$";

pub const BACKTRACE_START_PATTERN: &'static str = r"stack backtrace:";

pub const FRAME_PATTERN: &'static str = r"^\s*(\d+):\s+(.*)$";

pub const FRAME_AT_PATTERN: &'static str = r"^\s*at\s+([^\s:]+):(\d+)";

pub const SUGGESTION_PATTERN: &'static str = r"^\s*(\d+)\s*\|\s*(.*)$";

pub const BLANK_PATTERN: &'static str = r"^\s*$";

pub const LOCATION_PATTERN: &'static str = r"^\s*-->\s+(?P<file>.+?)(?::(?P<line>\d+))?(?::(?P<col>\d+))?\s*$";

pub const NOTE_PATTERN: &'static str = r"^\s*=\s*note:\s*(?P<msg>.+)$";

pub const HELP_PATTERN: &'static str = r"^\s*(?:\=|\|)\s*help:\s*(?P<msg>.+)$";

pub const SERVING_PATTERN: &'static str = r"(?:\x1b\[[0-9;]*[A-Za-z])*\s*Serving(?:\x1b\[[0-9;]*[A-Za-z])*\s+at\s+(http://[^\s]+)";

pub const FINISHED_PATTERN: &'static str = r"^Finished\s+`(?P<profile>[^`]+)`\s+profile\s+\[(?P<opts>[^\]]+)\]\s+target\(s\)\s+in\s+(?P<dur>[0-9.]+s)$";

pub const SUMMARY_PATTERN: &'static str = r"^(?P<level>warning|error):\s+`(?P<name>[^`]+)`\s+\((?P<otype>lib|bin)\)\s+generated\s+(?P<count>\d+)\s+(?P<kind>warnings|errors).*run\s+`(?P<cmd>[^`]+)`\s+to apply\s+(?P<fixes>\d+)\s+suggestions";

pub const NOT_CONNECTED_PATTERN: &'static str = r"IO\(Custom \{ kind: NotConnected";

pub const CATCH_ALL_PATTERN: &'static str = r".*";

pub const URL_PATTERN: &'static str = r"(http://[^\s]+)";

pub const LISTENING_PATTERN: &'static str = r"listening on";

pub const BUILD_FINISHED_PATTERN: &'static str = r"BuildFinished";

pub const SERVER_LISTENING_PATTERN: &'static str = r"server listening at:";

/// Something a recogniser asks the surrounding program to do.
#[derive(Debug, Clone, PartialEq, Eq)]
pub enum LineEffect {
    /// Print the text as a line of standard output.
    Print(String),
    /// Open the URL in a browser.
    OpenUrl(String),
    /// Record now as the end of the build, unless an end is already recorded.
    MarkBuildFinished,
    /// Record that the crate could not be compiled.
    MarkCouldNotCompile,
    /// Report the terminal state to whoever waits for it.
    SendTerminal(TerminalError),
}

/// An effect with its strings taken as character sequences.
pub enum EffectView {
    Print(Seq<char>),
    OpenUrl(Seq<char>),
    MarkBuildFinished,
    MarkCouldNotCompile,
    SendTerminal(TerminalError),
}

impl View for LineEffect {
    type V = EffectView;

    open spec fn view(&self) -> EffectView {
        match self {
            LineEffect::Print(s) => EffectView::Print(s@),
            LineEffect::OpenUrl(s) => EffectView::OpenUrl(s@),
            LineEffect::MarkBuildFinished => EffectView::MarkBuildFinished,
            LineEffect::MarkCouldNotCompile => EffectView::MarkCouldNotCompile,
            LineEffect::SendTerminal(t) => EffectView::SendTerminal(*t),
        }
    }
}

/// The views of a sequence of effects.
pub open spec fn effects_view(v: Seq<LineEffect>) -> Seq<EffectView> {
    v.map_values(|e: LineEffect| e@)
}

fn emit(fx: &mut Vec<LineEffect>, e: LineEffect)
    ensures
        effects_view(final(fx)@) == effects_view(old(fx)@).push(e@),
{
    fx.push(e);
    assert(effects_view(fx@) =~= effects_view(old(fx)@).push(e@));
}

fn emit_print(fx: &mut Vec<LineEffect>, s: String)
    ensures
        effects_view(final(fx)@) == effects_view(old(fx)@).push(EffectView::Print(s@)),
{
    emit(fx, LineEffect::Print(s));
}

/// The number `str::parse::<usize>` reads from `s`, or zero where it fails.
pub open spec fn parse_or_zero(s: Seq<char>) -> nat {
    match parse_unsigned(s, usize::MAX as nat) {
        Ok(n) => n,
        Err(_) => 0,
    }
}

/// The number `str::parse::<usize>` reads from `s`, or zero where it fails.
pub fn parse_or_zero_exec(s: &str) -> (r: usize)
    ensures
        r as nat == parse_or_zero(s@),
{
    match parse_usize(s) {
        Ok(n) => n,
        Err(_) => 0,
    }
}

/// The decimal text of a count.
pub fn usize_text(n: usize) -> (s: String)
    ensures
        s@ == decimal(n as nat),
{
    u64_to_string(n as u64)
}

/// Which of the two standard-error readers: the one a command builder sets
/// up, or the stand-alone one.  They differ in which
/// lines they put before a backtrace, whether they report a missing terminal,
/// and whether they echo every line.
#[derive(Debug, Clone, Copy, PartialEq, Eq, Structural)]
pub enum StderrVariant {
    Builder,
    Standalone,
}

/// The state of a standard-error reader, its strings taken as sequences.
#[verifier::ext_equal]
pub struct StderrModel {
    pub pending: Option<DiagView>,
    pub diagnostics: Seq<DiagView>,
    pub suggestion_mode: bool,
    pub location: Option<ResponseView>,
    pub error_count: usize,
    pub warning_count: usize,
    pub help_count: usize,
    pub note_count: usize,
    pub look_behind: Seq<Seq<char>>,
    pub backtrace_mode: bool,
    pub backtrace_lines: Seq<Seq<char>>,
    pub stored_lines_behind: Seq<Seq<char>>,
    pub halted: bool,
    /// The kind of reader, which no line changes.
    pub variant: StderrVariant,
    /// The manifest of the build being read, which no line changes.
    pub manifest_path: Seq<char>,
}

/// What one recogniser makes of a line: the state after it, its response,
/// and the effects it asks for, in order.
pub struct Step {
    pub m: StderrModel,
    pub resp: Option<ResponseView>,
    pub fx: Seq<EffectView>,
}

/// A recogniser that leaves the state alone and says nothing.
pub open spec fn quiet(m: StderrModel) -> Step {
    Step { m, resp: None, fx: Seq::empty() }
}

/// The standard-error reader: the diagnostic being assembled, the diagnostics
/// finished so far, the last location seen, the counts per level, the last six
/// non-blank lines, and the backtrace being collected.
pub struct StderrDispatcher {
    pub variant: StderrVariant,
    pub manifest_path: String,
    pub pending: Option<CargoDiagnostic>,
    pub diagnostics: Vec<CargoDiagnostic>,
    pub suggestion_mode: bool,
    pub location: Option<CallbackResponse>,
    pub error_count: usize,
    pub warning_count: usize,
    pub help_count: usize,
    pub note_count: usize,
    pub look_behind: Vec<String>,
    pub backtrace_mode: bool,
    pub backtrace_lines: Vec<String>,
    pub stored_lines_behind: Vec<String>,
    /// Set once a line has stopped the reader for good: a location line that
    /// names no line or column ends the reading of the stream.
    pub halted: bool,
}

impl View for StderrDispatcher {
    type V = StderrModel;

    open spec fn view(&self) -> StderrModel {
        StderrModel {
            pending: opt_diag_view(self.pending),
            diagnostics: diags_view(self.diagnostics@),
            suggestion_mode: self.suggestion_mode,
            location: opt_response_view(self.location),
            error_count: self.error_count,
            warning_count: self.warning_count,
            help_count: self.help_count,
            note_count: self.note_count,
            look_behind: strings_view(self.look_behind@),
            backtrace_mode: self.backtrace_mode,
            backtrace_lines: strings_view(self.backtrace_lines@),
            stored_lines_behind: strings_view(self.stored_lines_behind@),
            halted: self.halted,
            variant: self.variant,
            manifest_path: self.manifest_path@,
        }
    }
}

/// The state of a reader that has seen nothing.
pub open spec fn initial_model(variant: StderrVariant, manifest_path: Seq<char>) -> StderrModel {
    StderrModel {
        pending: None,
        diagnostics: Seq::empty(),
        suggestion_mode: false,
        location: None,
        error_count: 0,
        warning_count: 0,
        help_count: 0,
        note_count: 0,
        look_behind: Seq::empty(),
        backtrace_mode: false,
        backtrace_lines: Seq::empty(),
        stored_lines_behind: Seq::empty(),
        halted: false,
        variant,
        manifest_path,
    }
}

/// Whether the recogniser `s` left the reader as the step says, answered as
/// it says, and appended its effects.
pub open spec fn did_step(
    before: StderrModel,
    after: StderrModel,
    fx_before: Seq<EffectView>,
    fx_after: Seq<EffectView>,
    r: Option<ResponseView>,
    s: Step,
) -> bool {
    &&& after == s.m
    &&& r == s.resp
    &&& fx_after == fx_before + s.fx
}

// ---------------------------------------------------------------------------
// Panics

/// A line announcing that a thread panicked: reported as an error at the
/// panic's file, line and column, and printed between blank lines.
#[verifier::opaque]
pub open spec fn cb_panic(m: StderrModel, line: Seq<char>) -> Step {
    match regex_captures(PANIC_PATTERN@, line) {
        None => quiet(m),
        Some(g) => {
            let t = group_or(g, 1, "unknown"@);
            let msg = group_or(g, 2, "unknown panic"@);
            let f = group_or(g, 3, "unknown file"@);
            let l = parse_or_zero(group_or(g, 4, "0"@));
            let c = parse_or_zero(group_or(g, 5, "0"@));
            let at = f + ":"@ + decimal(l) + ":"@ + decimal(c);
            Step {
                m,
                resp: Some(
                    ResponseView {
                        callback_type: CallbackType::Error,
                        message: Some("thread '"@ + t + "' panicked at "@ + msg + " ("@ + at + ")"@),
                        file: Some(f),
                        line: Some(l as usize),
                        column: Some(c as usize),
                        suggestion: None,
                        terminal_status: None,
                    },
                ),
                fx: seq![
                    EffectView::Print("\n\n\n"@),
                    EffectView::Print(line),
                    EffectView::Print(
                        "Panic detected: thread='"@ + t + "', message='"@ + msg + "', file='"@ + at
                            + "'"@,
                    ),
                    EffectView::Print("\n\n\n"@),
                ],
            }
        },
    }
}

/// `a` followed by `b`.
fn concat(a: String, b: &str) -> (r: String)
    ensures
        r@ == a@ + b@,
{
    let mut a = a;
    a.append(b);
    a
}

impl StderrDispatcher {
    fn on_panic(&mut self, line: &str, fx: &mut Vec<LineEffect>) -> (r: Option<CallbackResponse>)
        ensures
            did_step(old(self)@, final(self)@, effects_view(old(fx)@), effects_view(final(fx)@),
                opt_response_view(r), cb_panic(old(self)@, line@)),
            final(self).variant == old(self).variant,
            final(self).manifest_path == old(self).manifest_path,
    {
        proof {
            reveal(cb_panic);
        }
        match captures(PANIC_PATTERN, line) {
            None => None,
            Some(g) => {
                let t = group_or_else(&g, 1, "unknown");
                let msg = group_or_else(&g, 2, "unknown panic");
                let f = group_or_else(&g, 3, "unknown file");
                let ls = group_or_else(&g, 4, "0");
                let cs = group_or_else(&g, 5, "0");
                let l = parse_or_zero_exec(ls.as_str());
                let c = parse_or_zero_exec(cs.as_str());
                let at = concat(concat(concat(concat(f.clone(), ":"), usize_text(l).as_str()), ":"), usize_text(c).as_str());
                let message = concat(concat(concat(concat(concat(concat(
                    String::from_str("thread '"), t.as_str()), "' panicked at "), msg.as_str()), " ("), at.as_str()), ")");
                emit_print(fx, String::from_str("\n\n\n"));
                emit_print(fx, String::from_str(line));
                let detail = concat(concat(concat(concat(concat(concat(concat(
                    String::from_str("Panic detected: thread='"), t.as_str()), "', message='"), msg.as_str()), "', file='"),
                    at.as_str()), "'"), "");
                assert(detail@ == "Panic detected: thread='"@ + t@ + "', message='"@ + msg@ + "', file='"@ + at@ + "'"@) by {
                    reveal_strlit("");
                }
                emit_print(fx, detail);
                emit_print(fx, String::from_str("\n\n\n"));
                let ghost st = cb_panic(old(self)@, line@);
                assert(effects_view(fx@) =~= effects_view(old(fx)@) + st.fx);
                Some(CallbackResponse {
                    callback_type: CallbackType::Error,
                    message: Some(message),
                    file: Some(f),
                    line: Some(l),
                    column: Some(c),
                    suggestion: None,
                    terminal_status: None,
                })
            },
        }
    }
}


// ---------------------------------------------------------------------------
// Failed builds

/// A line saying the crate could not be compiled: printed with a summary of
/// its counts, and the failure recorded.
#[verifier::opaque]
pub open spec fn cb_could_not_compile(m: StderrModel, line: Seq<char>) -> Step {
    match regex_captures(COULD_NOT_COMPILE_PATTERN@, line) {
        None => quiet(m),
        Some(g) => {
            let krate = group_or(g, 1, "unknown"@);
            let due = group_or(g, 2, "unknown"@);
            let errors = parse_or_zero(group_or(g, 3, ""@));
            let warnings = parse_or_zero(group_or(g, 4, ""@));
            Step {
                m,
                resp: None,
                fx: seq![
                    EffectView::Print(line),
                    EffectView::Print(
                        "Detected compilation failure: crate=`"@ + krate + "`, due_to=`"@ + due
                            + "`, errors="@ + decimal(errors) + ", warnings="@ + decimal(warnings),
                    ),
                    EffectView::MarkCouldNotCompile,
                ],
            }
        },
    }
}

// ---------------------------------------------------------------------------
// Diagnostic headers

/// The level a diagnostic header names, where it is one the reader counts.
pub open spec fn level_of(s: Seq<char>) -> Option<crate::diagnostics::CargoDiagnosticLevel> {
    if s == "error"@ {
        Some(crate::diagnostics::CargoDiagnosticLevel::Error)
    } else if s == "warning"@ {
        Some(crate::diagnostics::CargoDiagnosticLevel::Warning)
    } else if s == "help"@ {
        Some(crate::diagnostics::CargoDiagnosticLevel::Help)
    } else if s == "note"@ {
        Some(crate::diagnostics::CargoDiagnosticLevel::Note)
    } else {
        None
    }
}

/// The count kept for a level.
pub open spec fn count_of(m: StderrModel, l: crate::diagnostics::CargoDiagnosticLevel) -> usize {
    match l {
        crate::diagnostics::CargoDiagnosticLevel::Error => m.error_count,
        crate::diagnostics::CargoDiagnosticLevel::Warning => m.warning_count,
        crate::diagnostics::CargoDiagnosticLevel::Help => m.help_count,
        crate::diagnostics::CargoDiagnosticLevel::Note => m.note_count,
    }
}

/// The state with the count of a level set to `n`.
pub open spec fn with_count(m: StderrModel, l: crate::diagnostics::CargoDiagnosticLevel, n: usize) -> StderrModel {
    match l {
        crate::diagnostics::CargoDiagnosticLevel::Error => StderrModel { error_count: n, ..m },
        crate::diagnostics::CargoDiagnosticLevel::Warning => StderrModel { warning_count: n, ..m },
        crate::diagnostics::CargoDiagnosticLevel::Help => StderrModel { help_count: n, ..m },
        crate::diagnostics::CargoDiagnosticLevel::Note => StderrModel { note_count: n, ..m },
    }
}

/// One more than `x`, wrapping to zero past the largest `usize`.
pub open spec fn bumped(x: usize) -> usize {
    if x == usize::MAX {
        0
    } else {
        (x + 1) as usize
    }
}

/// The state with the diagnostic being assembled moved to the finished ones.
pub open spec fn flush_pending(m: StderrModel) -> StderrModel {
    match m.pending {
        Some(d) => StderrModel { pending: None, diagnostics: m.diagnostics.push(d), ..m },
        None => m,
    }
}

/// The location of the diagnostic being assembled, empty where there is none.
pub open spec fn pending_lineref(m: StderrModel) -> Seq<char> {
    match m.pending {
        Some(d) => d.lineref,
        None => Seq::empty(),
    }
}

/// The response to a diagnostic header.
pub open spec fn level_response() -> ResponseView {
    ResponseView {
        callback_type: CallbackType::LevelMessage,
        message: None,
        file: None,
        line: None,
        column: None,
        suggestion: None,
        terminal_status: None,
    }
}

/// A diagnostic header (`level[code]: message`): the diagnostic being
/// assembled is finished, and, unless the message is a "generated N" summary
/// or the level is not one the reader counts, a new diagnostic is begun at the
/// finished one's location, numbered by the count of its level.
#[verifier::opaque]
pub open spec fn cb_level(m: StderrModel, line: Seq<char>) -> Step {
    match regex_captures(LEVEL_PATTERN@, line) {
        None => quiet(m),
        Some(g) => {
            let m1 = flush_pending(m);
            let level = group_or(g, 1, ""@);
            let msg = group_or(g, 4, ""@);
            if is_match(GENERATED_PATTERN@, msg) {
                quiet(m1)
            } else {
                match level_of(level) {
                    None => Step {
                        m: m1,
                        resp: None,
                        fx: seq![EffectView::Print("Unknown diagnostic level: "@ + level)],
                    },
                    Some(l) => {
                        let n = bumped(count_of(m1, l));
                        let d = DiagView {
                            lineref: pending_lineref(m),
                            level,
                            message: msg,
                            error_code: group_at(g, 3),
                            suggestion: None,
                            note: None,
                            help: None,
                            uses_color: true,
                            diag_number: Some(n),
                            diag_num_padding: Some(2),
                        };
                        Step {
                            m: StderrModel { pending: Some(d), ..with_count(m1, l, n) },
                            resp: Some(level_response()),
                            fx: Seq::empty(),
                        }
                    },
                }
            }
        },
    }
}

// ---------------------------------------------------------------------------
// The lines before a backtrace

/// A non-blank line joins the last six non-blank lines.
#[verifier::opaque]
pub open spec fn cb_look_behind(m: StderrModel, line: Seq<char>) -> Step {
    if is_match(ANY_LINE_PATTERN@, line) && trim(line).len() > 0 {
        let b = m.look_behind.push(line);
        quiet(StderrModel { look_behind: if b.len() > 6 { b.drop_first() } else { b }, ..m })
    } else {
        quiet(m)
    }
}

/// `stack backtrace:` starts a backtrace and keeps the lines seen before it.
#[verifier::opaque]
pub open spec fn cb_backtrace_start(m: StderrModel, line: Seq<char>) -> Step {
    if is_match(BACKTRACE_START_PATTERN@, line) {
        quiet(
            StderrModel {
                backtrace_mode: true,
                backtrace_lines: Seq::empty(),
                stored_lines_behind: m.look_behind,
                ..m
            },
        )
    } else {
        quiet(m)
    }
}

// ---------------------------------------------------------------------------
// Backtraces

/// A frame location that belongs to the toolchain or to a dependency.
pub open spec fn skipped_frame_path(p: Seq<char>) -> bool {
    seq_starts_with(p, "/rustc"@) || seq_contains(p, ".cargo"@) || seq_contains(p, ".rustup"@)
}

/// The canonical form given for frame line `i`, or `p` itself.
pub open spec fn canon_or(canon: Seq<Option<Seq<char>>>, i: int, p: Seq<char>) -> Seq<char> {
    match group_at(canon, i) {
        Some(c) => c,
        None => p,
    }
}

/// The views of an optional pair of strings.
pub open spec fn pair_view(o: Option<(String, String)>) -> Option<(Seq<char>, Seq<char>)> {
    match o {
        Some((a, b)) => Some((a@, b@)),
        None => None,
    }
}

/// The summary of the backtrace lines from `i` on, given the summary `acc` so
/// far, whether a frame header awaits its location (`skip`) and the pending
/// header `last`: each frame header is joined with its location into
/// `n: type @ path:line`, frames located in the toolchain or in dependencies
/// are dropped, and other lines are kept.
pub open spec fn bt_walk(
    lines: Seq<Seq<char>>,
    canon: Seq<Option<Seq<char>>>,
    i: int,
    skip: bool,
    last: Option<(Seq<char>, Seq<char>)>,
    acc: Seq<Seq<char>>,
) -> Seq<Seq<char>>
    decreases lines.len() - i,
{
    if i < 0 || i >= lines.len() {
        acc
    } else {
        let l = lines[i];
        match regex_captures(FRAME_PATTERN@, l) {
            Some(g) => bt_walk(lines, canon, i + 1, true, Some((group_or(g, 1, ""@), group_or(g, 2, ""@))), acc),
            None => {
                match (if skip { regex_captures(FRAME_AT_PATTERN@, l) } else { None }) {
                    Some(a) => {
                        let p = group_or(a, 1, ""@);
                        let n = group_or(a, 2, ""@);
                        if skipped_frame_path(p) {
                            bt_walk(lines, canon, i + 1, false, last, acc)
                        } else {
                            match last {
                                Some((num, typ)) => bt_walk(lines, canon, i + 1, false, None,
                                    acc.push(num + ": "@ + typ + " @ "@ + canon_or(canon, i, p) + ":"@ + n)),
                                None => bt_walk(lines, canon, i + 1, false, None, acc),
                            }
                        }
                    },
                    None => {
                        match last {
                            Some((num, typ)) => {
                                let a = acc.push(num + ": "@ + typ);
                                bt_walk(lines, canon, i + 1, false, None,
                                    if trim(l).len() > 0 { a.push(l) } else { a })
                            },
                            None => if trim(l).len() > 0 {
                                bt_walk(lines, canon, i + 1, false, None, acc.push(l))
                            } else {
                                bt_walk(lines, canon, i + 1, skip, None, acc)
                            },
                        }
                    },
                }
            },
        }
    }
}

/// The summary of a whole backtrace.
pub open spec fn bt_summary(lines: Seq<Seq<char>>, canon: Seq<Option<Seq<char>>>) -> Seq<Seq<char>> {
    bt_walk(lines, canon, 0, false, None, Seq::empty())
}

/// The lines a backtrace note begins with: those kept when the backtrace
/// started, or, for the stand-alone reader, the last lines seen.
pub open spec fn lines_before(v: StderrVariant, m: StderrModel) -> Seq<Seq<char>> {
    match v {
        StderrVariant::Builder => m.stored_lines_behind,
        StderrVariant::Standalone => m.look_behind,
    }
}

/// An optional text, or the empty text.
pub open spec fn or_empty(o: Option<Seq<char>>) -> Seq<char> {
    match o {
        Some(s) => s,
        None => Seq::empty(),
    }
}

/// A diagnostic with the lines before a backtrace and the backtrace's summary
/// appended to its note.
pub open spec fn with_backtrace_note(d: DiagView, before: Seq<Seq<char>>, bt: Seq<Seq<char>>) -> DiagView {
    let head = if before.len() > 0 { join_lines(before) + "\n"@ } else { Seq::empty() };
    DiagView { note: Some(or_empty(d.note) + head + join_lines(bt)), ..d }
}

/// While a backtrace is being read: a blank line or one starting with
/// `note:` or `error:` ends it, and its summary, if not empty, is added to the
/// note of the diagnostic being assembled, which is also recorded as finished;
/// frame lines are kept, trimmed, and other lines ignored.
#[verifier::opaque]
pub open spec fn cb_backtrace(v: StderrVariant, m: StderrModel, line: Seq<char>, canon: Seq<Option<Seq<char>>>) -> Step {
    if !(is_match(ANY_LINE_PATTERN@, line) && m.backtrace_mode) {
        quiet(m)
    } else {
        let t = trim(line);
        if t.len() == 0 || seq_starts_with(t, "note:"@) || seq_starts_with(t, "error:"@) {
            let bt = bt_summary(m.backtrace_lines, canon);
            let m1 = match m.pending {
                Some(d) => if bt.len() > 0 {
                    let d2 = with_backtrace_note(d, lines_before(v, m), bt);
                    StderrModel { pending: Some(d2), diagnostics: m.diagnostics.push(d2), ..m }
                } else {
                    m
                },
                None => m,
            };
            quiet(StderrModel { backtrace_mode: false, backtrace_lines: Seq::empty(), ..m1 })
        } else if is_match(FRAME_PATTERN@, t) || is_match(FRAME_AT_PATTERN@, t) {
            quiet(StderrModel { backtrace_lines: m.backtrace_lines.push(t), ..m })
        } else {
            quiet(m)
        }
    }
}

// ---------------------------------------------------------------------------
// Suggestions

/// In suggestion mode, a numbered source line (`12 | code`) has its code
/// appended to the message of the last location.
#[verifier::opaque]
pub open spec fn cb_suggestion(m: StderrModel, line: Seq<char>) -> Step {
    if !(is_match(ANY_LINE_PATTERN@, line) && m.suggestion_mode) {
        quiet(m)
    } else {
        match (regex_captures(SUGGESTION_PATTERN@, trim(line)), m.location) {
            (Some(g), Some(loc)) => {
                let msg = or_empty(loc.message) + "\n"@ + group_or(g, 2, ""@);
                quiet(StderrModel { location: Some(ResponseView { message: Some(msg), ..loc }), ..m })
            },
            _ => quiet(m),
        }
    }
}

/// A blank line ends suggestion mode and finishes the diagnostic being assembled.
#[verifier::opaque]
pub open spec fn cb_blank(m: StderrModel, line: Seq<char>) -> Step {
    if is_match(BLANK_PATTERN@, line) {
        quiet(flush_pending(StderrModel { suggestion_mode: false, ..m }))
    } else {
        quiet(m)
    }
}

/// An optional number, or zero.
pub open spec fn or_zero(o: Option<usize>) -> usize {
    match o {
        Some(n) => n,
        None => 0,
    }
}

/// Once a location is known, a line starting with `|` or a digit is added,
/// trimmed, to the suggestion of the diagnostic being assembled and reported
/// at that location; a blank line ends suggestion mode.
#[verifier::opaque]
pub open spec fn cb_continuation(m: StderrModel, line: Seq<char>) -> Step {
    if !is_match(ANY_LINE_PATTERN@, line) {
        quiet(m)
    } else {
        match m.location {
            None => quiet(m),
            Some(loc) => {
                let t = trim(line);
                if t.len() > 0 && (t[0] == '|' || char_is_numeric(t[0])) {
                    match m.pending {
                        None => quiet(m),
                        Some(d) => {
                            let sug = match d.suggestion {
                                Some(e) => e + "\n"@ + t,
                                None => t,
                            };
                            Step {
                                m: StderrModel { pending: Some(DiagView { suggestion: Some(sug), ..d }), ..m },
                                resp: Some(
                                    ResponseView {
                                        callback_type: CallbackType::Suggestion,
                                        message: Some(sug),
                                        file: Some(or_empty(loc.file)),
                                        line: Some(or_zero(loc.line)),
                                        column: Some(or_zero(loc.column)),
                                        suggestion: Some(sug),
                                        terminal_status: None,
                                    },
                                ),
                                fx: Seq::empty(),
                            }
                        },
                    }
                } else if t.len() == 0 {
                    quiet(StderrModel { suggestion_mode: false, ..m })
                } else {
                    quiet(m)
                }
            },
        }
    }
}

// ---------------------------------------------------------------------------
// Locations, notes and help

/// A location line (`--> file:line:col`): the file, resolved where the caller
/// resolved it, becomes the location of the diagnostic being assembled and
/// the last location, and suggestion mode begins.  A location without a line
/// or a column stops the reader.
#[verifier::opaque]
pub open spec fn cb_location(m: StderrModel, line: Seq<char>, resolved: Option<Seq<char>>) -> Step {
    match regex_captures(LOCATION_PATTERN@, line) {
        None => quiet(m),
        Some(g) => match (group_at(g, 2), group_at(g, 3)) {
            (Some(ls), Some(cs)) => {
                let file = match resolved {
                    Some(r) => r,
                    None => group_or(g, 1, ""@),
                };
                let l = parse_or_zero(ls);
                let c = parse_or_zero(cs);
                let text = file + ":"@ + decimal(l) + ":"@ + decimal(c);
                let resp = ResponseView {
                    callback_type: CallbackType::Location,
                    message: Some(text),
                    file: Some(file),
                    line: Some(l as usize),
                    column: Some(c as usize),
                    suggestion: None,
                    terminal_status: None,
                };
                let pending = match m.pending {
                    Some(d) => Some(DiagView { lineref: text, ..d }),
                    None => None,
                };
                Step {
                    m: StderrModel { pending, location: Some(resp), suggestion_mode: true, ..m },
                    resp: Some(resp),
                    fx: Seq::empty(),
                }
            },
            _ => quiet(StderrModel { halted: true, ..m }),
        },
    }
}

/// `= note: text` is added to the note of the diagnostic being assembled.
#[verifier::opaque]
pub open spec fn cb_note(m: StderrModel, line: Seq<char>) -> Step {
    match (regex_captures(NOTE_PATTERN@, line), m.pending) {
        (Some(g), Some(d)) => {
            let new_note = "note: "@ + group_or(g, 1, ""@);
            let note = match d.note {
                Some(e) => e + "\n"@ + new_note,
                None => new_note,
            };
            quiet(StderrModel { pending: Some(DiagView { note: Some(note), ..d }), ..m })
        },
        _ => quiet(m),
    }
}

/// `= help: text` or `| help: text` is added, coloured, to the help of the
/// diagnostic being assembled.
#[verifier::opaque]
pub open spec fn cb_help(m: StderrModel, line: Seq<char>) -> Step {
    match (regex_captures(HELP_PATTERN@, line), m.pending) {
        (Some(g), Some(d)) => {
            let new_help = "\x1b[38;5;214mhelp: "@ + group_or(g, 1, ""@) + "\x1b[0m"@;
            let help = match d.help {
                Some(e) => e + "\n"@ + new_help,
                None => new_help,
            };
            quiet(StderrModel { pending: Some(DiagView { help: Some(help), ..d }), ..m })
        },
        _ => quiet(m),
    }
}

// ---------------------------------------------------------------------------
// Servers, build summaries and terminals

/// `Serving at http://...`: the URL, with `0.0.0.0` read as `127.0.0.1`, is
/// printed and opened, and the build is over.
#[verifier::opaque]
pub open spec fn cb_serving(m: StderrModel, line: Seq<char>) -> Step {
    match regex_captures(SERVING_PATTERN@, line) {
        None => quiet(m),
        Some(g) => {
            let url = replace_all(group_or(g, 1, ""@), "0.0.0.0"@, "127.0.0.1"@);
            Step {
                m,
                resp: Some(
                    ResponseView {
                        callback_type: CallbackType::OpenedUrl,
                        message: Some("Captured and opened URL: "@ + url),
                        file: None,
                        line: None,
                        column: None,
                        suggestion: None,
                        terminal_status: None,
                    },
                ),
                fx: seq![
                    EffectView::Print("(STDERR) Captured URL: "@ + url),
                    EffectView::OpenUrl(url),
                    EffectView::MarkBuildFinished,
                ],
            }
        },
    }
}

/// A plain note response with the given message.
pub open spec fn note_response(msg: Seq<char>, suggestion: Option<Seq<char>>) -> ResponseView {
    ResponseView {
        callback_type: CallbackType::Note,
        message: Some(msg),
        file: None,
        line: None,
        column: None,
        suggestion,
        terminal_status: None,
    }
}

/// `Finished `profile` profile [opts] target(s) in T`: the build is over.
#[verifier::opaque]
pub open spec fn cb_finished(m: StderrModel, line: Seq<char>) -> Step {
    match regex_captures(FINISHED_PATTERN@, line) {
        None => quiet(m),
        Some(g) => Step {
            m,
            resp: Some(note_response(
                "Finished `"@ + group_or(g, 1, ""@) + "` ["@ + group_or(g, 2, ""@) + "] in "@
                    + group_or(g, 3, ""@),
                None,
            )),
            fx: seq![EffectView::MarkBuildFinished],
        },
    }
}

/// The message for a "generated N warnings; run `cmd` to apply M suggestions" line.
pub open spec fn summary_text(g: Seq<Option<Seq<char>>>) -> Seq<char> {
    group_or(g, 1, ""@) + ": `"@ + group_or(g, 2, ""@) + "` ("@ + group_or(g, 3, ""@) + ") generated "@
        + decimal(parse_or_zero(group_or(g, 4, ""@))) + " "@ + group_or(g, 5, ""@) + "; run `"@
        + group_or(g, 6, ""@) + "` to apply "@ + decimal(parse_or_zero(group_or(g, 7, ""@)))
        + " fixes"@
}

/// A crate's warning summary with a fix command: reported as a note whose
/// suggestion is the command.
#[verifier::opaque]
pub open spec fn cb_summary(m: StderrModel, line: Seq<char>) -> Step {
    match regex_captures(SUMMARY_PATTERN@, line) {
        None => quiet(m),
        Some(g) => Step {
            m,
            resp: Some(note_response(summary_text(g), Some(group_or(g, 6, ""@)))),
            fx: seq![EffectView::Print("SUMMARIZATION CALLBACK "@ + summary_text(g))],
        },
    }
}

/// An I/O error for a missing terminal: reported as a warning, and, by the
/// command builder's reader, passed on as the terminal state.
#[verifier::opaque]
pub open spec fn cb_not_connected(v: StderrVariant, m: StderrModel, line: Seq<char>) -> Step {
    match regex_captures(NOT_CONNECTED_PATTERN@, line) {
        None => quiet(m),
        Some(_) => {
            let status = if seq_contains(line, "NotConnected"@) {
                TerminalError::NoTerminal
            } else {
                TerminalError::NoError
            };
            let shown = seq![EffectView::Print("(STDERR) Terminal error detected: "@ + debug_text(line))];
            Step {
                m,
                resp: Some(
                    ResponseView {
                        callback_type: CallbackType::Warning,
                        message: Some("Terminal Error: "@ + line),
                        file: None,
                        line: None,
                        column: None,
                        suggestion: None,
                        terminal_status: None,
                    },
                ),
                fx: match v {
                    StderrVariant::Builder => shown.push(EffectView::SendTerminal(status)),
                    StderrVariant::Standalone => shown,
                },
            }
        },
    }
}

/// Every line: the stand-alone reader echoes it.
#[verifier::opaque]
pub open spec fn cb_catch_all(v: StderrVariant, m: StderrModel, line: Seq<char>) -> Step {
    if is_match(CATCH_ALL_PATTERN@, line) && v == StderrVariant::Standalone {
        Step { m, resp: None, fx: seq![EffectView::Print(line)] }
    } else {
        quiet(m)
    }
}


// ---------------------------------------------------------------------------
// One line through every recogniser

/// What the surrounding program found out for a line before handing it over:
/// the location file as it resolved it against the working directory and the
/// manifest (see `location_file`), and the canonical form of each backtrace
/// frame path (see `frame_paths`), index for index; `None` where nothing
/// resolved.
pub struct LineFacts {
    pub resolved_file: Option<String>,
    pub frame_paths: Vec<Option<String>>,
}

/// What a line produced: one answer per recogniser, in order, and the effects
/// asked for, in order.
pub struct LineOutcome {
    pub responses: Vec<Option<CallbackResponse>>,
    pub effects: Vec<LineEffect>,
}

/// The views of a sequence of optional responses.
pub open spec fn responses_view(v: Seq<Option<CallbackResponse>>) -> Seq<Option<ResponseView>> {
    v.map_values(|o: Option<CallbackResponse>| opt_response_view(o))
}

/// A line read by the standard-error reader: the state after it, the answers
/// of the seventeen recognisers, and the effects, in order.  A reader that
/// has stopped ignores the line; a line that stops the reader at its location
/// recogniser yields the effects asked for until then and no answers.
pub open spec fn stderr_line(
    v: StderrVariant,
    m: StderrModel,
    line: Seq<char>,
    resolved: Option<Seq<char>>,
    canon: Seq<Option<Seq<char>>>,
) -> (StderrModel, Seq<Option<ResponseView>>, Seq<EffectView>) {
    if m.halted {
        (m, Seq::empty(), Seq::empty())
    } else {
        let s1 = cb_panic(m, line);
        let s2 = cb_could_not_compile(s1.m, line);
        let s3 = cb_level(s2.m, line);
        let s4 = cb_look_behind(s3.m, line);
        let s5 = cb_backtrace_start(s4.m, line);
        let s6 = cb_backtrace(v, s5.m, line, canon);
        let s7 = cb_suggestion(s6.m, line);
        let s8 = cb_blank(s7.m, line);
        let s9 = cb_continuation(s8.m, line);
        let s10 = cb_location(s9.m, line, resolved);
        let fx10 = s1.fx + s2.fx + s3.fx + s4.fx + s5.fx + s6.fx + s7.fx + s8.fx + s9.fx + s10.fx;
        if s10.m.halted {
            (s10.m, Seq::empty(), fx10)
        } else {
            let s11 = cb_note(s10.m, line);
            let s12 = cb_help(s11.m, line);
            let s13 = cb_serving(s12.m, line);
            let s14 = cb_finished(s13.m, line);
            let s15 = cb_summary(s14.m, line);
            let s16 = cb_not_connected(v, s15.m, line);
            let s17 = cb_catch_all(v, s16.m, line);
            (
                s17.m,
                seq![
                    s1.resp, s2.resp, s3.resp, s4.resp, s5.resp, s6.resp, s7.resp, s8.resp,
                    s9.resp, s10.resp, s11.resp, s12.resp, s13.resp, s14.resp, s15.resp,
                    s16.resp, s17.resp,
                ],
                fx10 + s11.fx + s12.fx + s13.fx + s14.fx + s15.fx + s16.fx + s17.fx,
            )
        }
    }
}

fn push_diag(v: &mut Vec<CargoDiagnostic>, d: CargoDiagnostic)
    ensures
        diags_view(final(v)@) == diags_view(old(v)@).push(d@),
{
    v.push(d);
    assert(diags_view(v@) =~= diags_view(old(v)@).push(d@));
}

fn push_string(v: &mut Vec<String>, s: String)
    ensures
        strings_view(final(v)@) == strings_view(old(v)@).push(s@),
{
    v.push(s);
    assert(strings_view(v@) =~= strings_view(old(v)@).push(s@));
}

fn clone_strings(v: &Vec<String>) -> (r: Vec<String>)
    ensures
        strings_view(r@) == strings_view(v@),
{
    let mut r: Vec<String> = Vec::new();
    let mut i: usize = 0;
    while i < v.len()
        invariant
            i <= v.len(),
            strings_view(r@) == strings_view(v@).take(i as int),
        decreases v.len() - i,
    {
        push_string(&mut r, v[i].clone());
        i = i + 1;
        assert(strings_view(r@) =~= strings_view(v@).take(i as int));
    }
    assert(strings_view(v@).take(v.len() as int) =~= strings_view(v@));
    r
}

fn response(
    callback_type: CallbackType,
    message: Option<String>,
    file: Option<String>,
    line: Option<usize>,
    column: Option<usize>,
    suggestion: Option<String>,
) -> (r: CallbackResponse)
    ensures
        r.callback_type == callback_type,
        r.message == message,
        r.file == file,
        r.line == line,
        r.column == column,
        r.suggestion == suggestion,
        r.terminal_status is None,
{
    CallbackResponse { callback_type, message, file, line, column, suggestion, terminal_status: None }
}

impl StderrDispatcher {
    /// A reader of the given kind for the build of `manifest_path`, having seen nothing.
    pub fn new(variant: StderrVariant, manifest_path: String) -> (r: StderrDispatcher)
        ensures
            r@ == initial_model(variant, manifest_path@),
            r.variant == variant,
            r.manifest_path == manifest_path,
    {
        let r = StderrDispatcher {
            variant,
            manifest_path,
            pending: None,
            diagnostics: Vec::new(),
            suggestion_mode: false,
            location: None,
            error_count: 0,
            warning_count: 0,
            help_count: 0,
            note_count: 0,
            look_behind: Vec::new(),
            backtrace_mode: false,
            backtrace_lines: Vec::new(),
            stored_lines_behind: Vec::new(),
            halted: false,
        };
        assert(r@ =~= initial_model(variant, r.manifest_path@));
        r
    }

    fn on_could_not_compile(&mut self, line: &str, fx: &mut Vec<LineEffect>) -> (r: Option<CallbackResponse>)
        ensures
            did_step(old(self)@, final(self)@, effects_view(old(fx)@), effects_view(final(fx)@),
                opt_response_view(r), cb_could_not_compile(old(self)@, line@)),
            final(self).variant == old(self).variant,
            final(self).manifest_path == old(self).manifest_path,
    {
        proof {
            reveal(cb_could_not_compile);
        }
        match captures(COULD_NOT_COMPILE_PATTERN, line) {
            None => None,
            Some(g) => {
                let krate = group_or_else(&g, 1, "unknown");
                let due = group_or_else(&g, 2, "unknown");
                let es = group_or_else(&g, 3, "");
                let ws = group_or_else(&g, 4, "");
                let errors = parse_or_zero_exec(es.as_str());
                let warnings = parse_or_zero_exec(ws.as_str());
                emit_print(fx, String::from_str(line));
                let text = concat(concat(concat(concat(concat(concat(concat(
                    String::from_str("Detected compilation failure: crate=`"), krate.as_str()),
                    "`, due_to=`"), due.as_str()), "`, errors="), usize_text(errors).as_str()),
                    ", warnings="), usize_text(warnings).as_str());
                emit_print(fx, text);
                emit(fx, LineEffect::MarkCouldNotCompile);
                let ghost st = cb_could_not_compile(old(self)@, line@);
                assert(effects_view(fx@) =~= effects_view(old(fx)@) + st.fx);
                None
            },
        }
    }

    fn on_level(&mut self, line: &str, fx: &mut Vec<LineEffect>) -> (r: Option<CallbackResponse>)
        ensures
            did_step(old(self)@, final(self)@, effects_view(old(fx)@), effects_view(final(fx)@),
                opt_response_view(r), cb_level(old(self)@, line@)),
            final(self).variant == old(self).variant,
            final(self).manifest_path == old(self).manifest_path,
    {
        proof {
            reveal(cb_level);
        }
        match captures(LEVEL_PATTERN, line) {
            None => None,
            Some(g) => {
                let ghost m0 = self@;
                let mut last_lineref = String::new();
                match self.pending.take() {
                    Some(d) => {
                        last_lineref = d.lineref.clone();
                        push_diag(&mut self.diagnostics, d);
                    },
                    None => {},
                }
                assert(self@ =~= flush_pending(m0));
                assert(last_lineref@ == pending_lineref(m0));
                let level = group_or_else(&g, 1, "");
                let message = group_or_else(&g, 4, "");
                if matches_text(GENERATED_PATTERN, message.as_str()) {
                    assert(effects_view(fx@) =~= effects_view(old(fx)@) + Seq::empty());
                    return None;
                }
                let n: usize;
                if crate::cli::str_eq_exact(level.as_str(), "error") {
                    n = if self.error_count == usize::MAX { 0 } else { self.error_count + 1 };
                    self.error_count = n;
                } else if crate::cli::str_eq_exact(level.as_str(), "warning") {
                    n = if self.warning_count == usize::MAX { 0 } else { self.warning_count + 1 };
                    self.warning_count = n;
                } else if crate::cli::str_eq_exact(level.as_str(), "help") {
                    n = if self.help_count == usize::MAX { 0 } else { self.help_count + 1 };
                    self.help_count = n;
                } else if crate::cli::str_eq_exact(level.as_str(), "note") {
                    n = if self.note_count == usize::MAX { 0 } else { self.note_count + 1 };
                    self.note_count = n;
                } else {
                    emit_print(fx, concat(String::from_str("Unknown diagnostic level: "), level.as_str()));
                    let ghost st = cb_level(old(self)@, line@);
                    assert(effects_view(fx@) =~= effects_view(old(fx)@) + st.fx);
                    return None;
                }
                let error_code = group(&g, 3);
                self.pending = Some(CargoDiagnostic {
                    lineref: last_lineref,
                    level,
                    message,
                    error_code,
                    suggestion: None,
                    note: None,
                    help: None,
                    uses_color: true,
                    diag_number: Some(n),
                    diag_num_padding: Some(2),
                });
                let ghost st = cb_level(old(self)@, line@);
                assert(self@ =~= st.m);
                assert(effects_view(fx@) =~= effects_view(old(fx)@) + st.fx);
                Some(response(CallbackType::LevelMessage, None, None, None, None, None))
            },
        }
    }

    fn on_look_behind(&mut self, line: &str) -> (r: Option<CallbackResponse>)
        ensures
            final(self)@ == cb_look_behind(old(self)@, line@).m,
            r is None,
            cb_look_behind(old(self)@, line@).fx.len() == 0,
            cb_look_behind(old(self)@, line@).resp is None,
            final(self).variant == old(self).variant,
            final(self).manifest_path == old(self).manifest_path,
    {
        proof {
            reveal(cb_look_behind);
        }
        if matches_text(ANY_LINE_PATTERN, line) && !is_blank(line) {
            push_string(&mut self.look_behind, String::from_str(line));
            if self.look_behind.len() > 6 {
                let ghost before = strings_view(self.look_behind@);
                let _ = self.look_behind.remove(0);
                assert(strings_view(self.look_behind@) =~= before.drop_first());
            }
        }
        assert(self@ =~= cb_look_behind(old(self)@, line@).m);
        None
    }

    fn on_backtrace_start(&mut self, line: &str) -> (r: Option<CallbackResponse>)
        ensures
            final(self)@ == cb_backtrace_start(old(self)@, line@).m,
            r is None,
            cb_backtrace_start(old(self)@, line@).fx.len() == 0,
            cb_backtrace_start(old(self)@, line@).resp is None,
            final(self).variant == old(self).variant,
            final(self).manifest_path == old(self).manifest_path,
    {
        proof {
            reveal(cb_backtrace_start);
        }
        if matches_text(BACKTRACE_START_PATTERN, line) {
            self.backtrace_mode = true;
            self.backtrace_lines = Vec::new();
            self.stored_lines_behind = clone_strings(&self.look_behind);
            assert(strings_view(self.backtrace_lines@) =~= Seq::<Seq<char>>::empty());
        }
        assert(self@ =~= cb_backtrace_start(old(self)@, line@).m);
        None
    }

    /// The summary of the backtrace collected so far, given the canonical form
    /// of each frame path, index for index.
    pub fn summarize_backtrace(&self, canon: &Vec<Option<String>>) -> (r: Vec<String>)
        ensures
            strings_view(r@) == bt_summary(strings_view(self.backtrace_lines@), groups_view(canon@)),
    {
        let ghost lines = strings_view(self.backtrace_lines@);
        let ghost cv = groups_view(canon@);
        let mut acc: Vec<String> = Vec::new();
        let mut skip = false;
        let mut last: Option<(String, String)> = None;
        let mut i: usize = 0;
        assert(strings_view(acc@) =~= Seq::<Seq<char>>::empty());
        while i < self.backtrace_lines.len()
            invariant
                lines == strings_view(self.backtrace_lines@),
                cv == groups_view(canon@),
                i <= self.backtrace_lines.len(),
                bt_walk(lines, cv, i as int, skip, pair_view(last), strings_view(acc@)) == bt_summary(lines, cv),
            decreases self.backtrace_lines.len() - i,
        {
            let l = &self.backtrace_lines[i];
            assert(lines[i as int] == l@);
            match captures(FRAME_PATTERN, l.as_str()) {
                Some(g) => {
                    last = Some((group_or_else(&g, 1, ""), group_or_else(&g, 2, "")));
                    skip = true;
                },
                None => {
                    let at = if skip { captures(FRAME_AT_PATTERN, l.as_str()) } else { None };
                    match at {
                        Some(a) => {
                            let p = group_or_else(&a, 1, "");
                            let n = group_or_else(&a, 2, "");
                            let skipped = str_starts_with(p.as_str(), "/rustc") || str_contains(p.as_str(), ".cargo")
                                || str_contains(p.as_str(), ".rustup");
                            if !skipped {
                                match last.take() {
                                    Some((num, typ)) => {
                                        let shown = if i < canon.len() {
                                            match &canon[i] {
                                                Some(c) => c.clone(),
                                                None => p.clone(),
                                            }
                                        } else {
                                            p.clone()
                                        };
                                        let entry = concat(concat(concat(concat(concat(num, ": "), typ.as_str()), " @ "),
                                            shown.as_str()), ":");
                                        push_string(&mut acc, concat(entry, n.as_str()));
                                    },
                                    None => {},
                                }
                            }
                            skip = false;
                        },
                        None => {
                            match last.take() {
                                Some((num, typ)) => {
                                    push_string(&mut acc, concat(concat(num, ": "), typ.as_str()));
                                    if !is_blank(l.as_str()) {
                                        push_string(&mut acc, l.clone());
                                    }
                                    skip = false;
                                },
                                None => {
                                    if !is_blank(l.as_str()) {
                                        push_string(&mut acc, l.clone());
                                        skip = false;
                                    }
                                },
                            }
                        },
                    }
                },
            }
            i = i + 1;
        }
        acc
    }

    fn on_backtrace(&mut self, line: &str, canon: &Vec<Option<String>>) -> (r: Option<CallbackResponse>)
        ensures
            final(self)@ == cb_backtrace(old(self).variant, old(self)@, line@, groups_view(canon@)).m,
            r is None,
            cb_backtrace(old(self).variant, old(self)@, line@, groups_view(canon@)).fx.len() == 0,
            cb_backtrace(old(self).variant, old(self)@, line@, groups_view(canon@)).resp is None,
            final(self).variant == old(self).variant,
            final(self).manifest_path == old(self).manifest_path,
    {
        proof {
            reveal(cb_backtrace);
        }
        if !(matches_text(ANY_LINE_PATTERN, line) && self.backtrace_mode) {
            return None;
        }
        let t = trim_str(line);
        let ends = t.as_str().is_empty() || str_starts_with(t.as_str(), "note:") || str_starts_with(t.as_str(), "error:");
        if ends {
            let ghost m0 = self@;
            let bt = self.summarize_backtrace(canon);
            let ghost btv = bt_summary(m0.backtrace_lines, groups_view(canon@));
            assert(strings_view(bt@) == btv);
            assert(strings_view(bt@).len() == bt@.len());
            if bt.len() > 0 {
                match &self.pending {
                    Some(d) => {
                        let before = match self.variant {
                            StderrVariant::Builder => clone_strings(&self.stored_lines_behind),
                            StderrVariant::Standalone => clone_strings(&self.look_behind),
                        };
                        assert(strings_view(before@) == lines_before(self.variant, m0));
                        assert(strings_view(before@).len() == before@.len());
                        let mut note = match &d.note {
                            Some(n) => n.clone(),
                            None => String::new(),
                        };
                        assert(note@ == or_empty(d@.note));
                        if before.len() > 0 {
                            note.append(join_newline(&before).as_str());
                            note.append("\n");
                        }
                        note.append(join_newline(&bt).as_str());
                        let ghost head = if strings_view(before@).len() > 0 {
                            join_lines(strings_view(before@)) + "\n"@
                        } else {
                            Seq::<char>::empty()
                        };
                        assert(note@ == or_empty(d@.note) + head + join_lines(btv));
                        let mut d2 = d.duplicate();
                        d2.note = Some(note);
                        assert(d2@ == with_backtrace_note(d@, lines_before(self.variant, m0), btv));
                        let d3 = d2.duplicate();
                        push_diag(&mut self.diagnostics, d3);
                        self.pending = Some(d2);
                    },
                    None => {},
                }
            }
            self.backtrace_mode = false;
            self.backtrace_lines = Vec::new();
            assert(strings_view(self.backtrace_lines@) =~= Seq::<Seq<char>>::empty());
            assert(self@ =~= cb_backtrace(old(self).variant, old(self)@, line@, groups_view(canon@)).m);
            return None;
        }
        if matches_text(FRAME_PATTERN, t.as_str()) || matches_text(FRAME_AT_PATTERN, t.as_str()) {
            push_string(&mut self.backtrace_lines, t);
        }
        assert(self@ =~= cb_backtrace(old(self).variant, old(self)@, line@, groups_view(canon@)).m);
        None
    }

    fn on_suggestion(&mut self, line: &str) -> (r: Option<CallbackResponse>)
        ensures
            final(self)@ == cb_suggestion(old(self)@, line@).m,
            r is None,
            cb_suggestion(old(self)@, line@).fx.len() == 0,
            cb_suggestion(old(self)@, line@).resp is None,
            final(self).variant == old(self).variant,
            final(self).manifest_path == old(self).manifest_path,
    {
        proof {
            reveal(cb_suggestion);
        }
        if !(matches_text(ANY_LINE_PATTERN, line) && self.suggestion_mode) {
            return None;
        }
        let t = trim_str(line);
        match captures(SUGGESTION_PATTERN, t.as_str()) {
            Some(g) => {
                match self.location.take() {
                    Some(loc) => {
                        let mut loc = loc;
                        let mut msg = match &loc.message {
                            Some(m) => m.clone(),
                            None => String::new(),
                        };
                        msg.append("\n");
                        msg.append(group_or_else(&g, 2, "").as_str());
                        loc.message = Some(msg);
                        self.location = Some(loc);
                    },
                    None => {},
                }
            },
            None => {},
        }
        assert(self@ =~= cb_suggestion(old(self)@, line@).m);
        None
    }

    fn on_blank(&mut self, line: &str) -> (r: Option<CallbackResponse>)
        ensures
            final(self)@ == cb_blank(old(self)@, line@).m,
            r is None,
            cb_blank(old(self)@, line@).fx.len() == 0,
            cb_blank(old(self)@, line@).resp is None,
            final(self).variant == old(self).variant,
            final(self).manifest_path == old(self).manifest_path,
    {
        proof {
            reveal(cb_blank);
        }
        if matches_text(BLANK_PATTERN, line) {
            self.suggestion_mode = false;
            match self.pending.take() {
                Some(d) => push_diag(&mut self.diagnostics, d),
                None => {},
            }
        }
        assert(self@ =~= cb_blank(old(self)@, line@).m);
        None
    }

    fn on_continuation(&mut self, line: &str) -> (r: Option<CallbackResponse>)
        ensures
            final(self)@ == cb_continuation(old(self)@, line@).m,
            opt_response_view(r) == cb_continuation(old(self)@, line@).resp,
            cb_continuation(old(self)@, line@).fx.len() == 0,
            final(self).variant == old(self).variant,
            final(self).manifest_path == old(self).manifest_path,
    {
        proof {
            reveal(cb_continuation);
        }
        if !matches_text(ANY_LINE_PATTERN, line) {
            return None;
        }
        let (file, ln, col) = match &self.location {
            None => {
                return None;
            },
            Some(loc) => (
                match &loc.file {
                    Some(f) => f.clone(),
                    None => String::new(),
                },
                match loc.line {
                    Some(x) => x,
                    None => 0,
                },
                match loc.column {
                    Some(x) => x,
                    None => 0,
                },
            ),
        };
        let t = trim_str(line);
        let tv = chars_of(t.as_str());
        if tv.len() > 0 && (tv[0] == '|' || is_numeric_char(tv[0])) {
            match self.pending.take() {
                None => {
                    return None;
                },
                Some(d) => {
                    let mut d = d;
                    let sug = match &d.suggestion {
                        Some(e) => concat(concat(e.clone(), "\n"), t.as_str()),
                        None => t.clone(),
                    };
                    d.suggestion = Some(sug.clone());
                    self.pending = Some(d);
                    assert(self@ =~= cb_continuation(old(self)@, line@).m);
                    return Some(response(CallbackType::Suggestion, Some(sug.clone()), Some(file), Some(ln), Some(col), Some(sug)));
                },
            }
        } else if tv.len() == 0 {
            self.suggestion_mode = false;
        }
        assert(self@ =~= cb_continuation(old(self)@, line@).m);
        None
    }

    /// The file a location line names, before any resolution.
    pub fn location_file(line: &str) -> (r: Option<String>)
        ensures
            opt_view(r) == (match regex_captures(LOCATION_PATTERN@, line@) {
                Some(g) => group_at(g, 1),
                None => None,
            }),
    {
        match captures(LOCATION_PATTERN, line) {
            Some(g) => group(&g, 1),
            None => None,
        }
    }

    fn on_location(&mut self, line: &str, resolved: &Option<String>) -> (r: Option<CallbackResponse>)
        ensures
            final(self)@ == cb_location(old(self)@, line@, opt_view(*resolved)).m,
            opt_response_view(r) == cb_location(old(self)@, line@, opt_view(*resolved)).resp,
            cb_location(old(self)@, line@, opt_view(*resolved)).fx.len() == 0,
            final(self).variant == old(self).variant,
            final(self).manifest_path == old(self).manifest_path,
    {
        proof {
            reveal(cb_location);
        }
        match captures(LOCATION_PATTERN, line) {
            None => None,
            Some(g) => {
                let ls = group(&g, 2);
                let cs = group(&g, 3);
                match (ls, cs) {
                    (Some(ls), Some(cs)) => {
                        let file = match resolved {
                            Some(r) => r.clone(),
                            None => group_or_else(&g, 1, ""),
                        };
                        let l = parse_or_zero_exec(ls.as_str());
                        let c = parse_or_zero_exec(cs.as_str());
                        let text = concat(concat(concat(concat(file.clone(), ":"), usize_text(l).as_str()), ":"),
                            usize_text(c).as_str());
                        match self.pending.take() {
                            Some(d) => {
                                let mut d = d;
                                d.lineref = text.clone();
                                self.pending = Some(d);
                            },
                            None => {},
                        }
                        let resp = response(CallbackType::Location, Some(text), Some(file), Some(l), Some(c), None);
                        self.location = Some(resp.duplicate());
                        self.suggestion_mode = true;
                        assert(self@ =~= cb_location(old(self)@, line@, opt_view(*resolved)).m);
                        Some(resp)
                    },
                    _ => {
                        self.halted = true;
                        assert(self@ =~= cb_location(old(self)@, line@, opt_view(*resolved)).m);
                        None
                    },
                }
            },
        }
    }

    fn on_note(&mut self, line: &str) -> (r: Option<CallbackResponse>)
        ensures
            final(self)@ == cb_note(old(self)@, line@).m,
            r is None,
            cb_note(old(self)@, line@).fx.len() == 0,
            cb_note(old(self)@, line@).resp is None,
            final(self).variant == old(self).variant,
            final(self).manifest_path == old(self).manifest_path,
    {
        proof {
            reveal(cb_note);
        }
        match captures(NOTE_PATTERN, line) {
            Some(g) => {
                match self.pending.take() {
                    Some(d) => {
                        let mut d = d;
                        let new_note = concat(String::from_str("note: "), group_or_else(&g, 1, "").as_str());
                        let note = match &d.note {
                            Some(e) => concat(concat(e.clone(), "\n"), new_note.as_str()),
                            None => new_note,
                        };
                        d.note = Some(note);
                        self.pending = Some(d);
                    },
                    None => {},
                }
            },
            None => {},
        }
        assert(self@ =~= cb_note(old(self)@, line@).m);
        None
    }

    fn on_help(&mut self, line: &str) -> (r: Option<CallbackResponse>)
        ensures
            final(self)@ == cb_help(old(self)@, line@).m,
            r is None,
            cb_help(old(self)@, line@).fx.len() == 0,
            cb_help(old(self)@, line@).resp is None,
            final(self).variant == old(self).variant,
            final(self).manifest_path == old(self).manifest_path,
    {
        proof {
            reveal(cb_help);
        }
        match captures(HELP_PATTERN, line) {
            Some(g) => {
                match self.pending.take() {
                    Some(d) => {
                        let mut d = d;
                        let new_help = concat(concat(String::from_str("\x1b[38;5;214mhelp: "),
                            group_or_else(&g, 1, "").as_str()), "\x1b[0m");
                        let help = match &d.help {
                            Some(e) => concat(concat(e.clone(), "\n"), new_help.as_str()),
                            None => new_help,
                        };
                        d.help = Some(help);
                        self.pending = Some(d);
                    },
                    None => {},
                }
            },
            None => {},
        }
        assert(self@ =~= cb_help(old(self)@, line@).m);
        None
    }
}


impl StderrDispatcher {
    fn on_serving(&mut self, line: &str, fx: &mut Vec<LineEffect>) -> (r: Option<CallbackResponse>)
        ensures
            did_step(old(self)@, final(self)@, effects_view(old(fx)@), effects_view(final(fx)@),
                opt_response_view(r), cb_serving(old(self)@, line@)),
            final(self).variant == old(self).variant,
            final(self).manifest_path == old(self).manifest_path,
    {
        proof {
            reveal(cb_serving);
        }
        match captures(SERVING_PATTERN, line) {
            None => None,
            Some(g) => {
                let raw = group_or_else(&g, 1, "");
                proof {
                    reveal_strlit("0.0.0.0");
                }
                let url = replace_str(raw.as_str(), "0.0.0.0", "127.0.0.1");
                emit_print(fx, concat(String::from_str("(STDERR) Captured URL: "), url.as_str()));
                emit(fx, LineEffect::OpenUrl(url.clone()));
                emit(fx, LineEffect::MarkBuildFinished);
                let ghost st = cb_serving(old(self)@, line@);
                assert(effects_view(fx@) =~= effects_view(old(fx)@) + st.fx);
                Some(response(CallbackType::OpenedUrl,
                    Some(concat(String::from_str("Captured and opened URL: "), url.as_str())), None, None, None, None))
            },
        }
    }

    fn on_finished(&mut self, line: &str, fx: &mut Vec<LineEffect>) -> (r: Option<CallbackResponse>)
        ensures
            did_step(old(self)@, final(self)@, effects_view(old(fx)@), effects_view(final(fx)@),
                opt_response_view(r), cb_finished(old(self)@, line@)),
            final(self).variant == old(self).variant,
            final(self).manifest_path == old(self).manifest_path,
    {
        proof {
            reveal(cb_finished);
        }
        match captures(FINISHED_PATTERN, line) {
            None => None,
            Some(g) => {
                emit(fx, LineEffect::MarkBuildFinished);
                let ghost st = cb_finished(old(self)@, line@);
                assert(effects_view(fx@) =~= effects_view(old(fx)@) + st.fx);
                let msg = concat(concat(concat(concat(concat(String::from_str("Finished `"),
                    group_or_else(&g, 1, "").as_str()), "` ["), group_or_else(&g, 2, "").as_str()), "] in "),
                    group_or_else(&g, 3, "").as_str());
                Some(response(CallbackType::Note, Some(msg), None, None, None, None))
            },
        }
    }

    fn on_summary(&mut self, line: &str, fx: &mut Vec<LineEffect>) -> (r: Option<CallbackResponse>)
        ensures
            did_step(old(self)@, final(self)@, effects_view(old(fx)@), effects_view(final(fx)@),
                opt_response_view(r), cb_summary(old(self)@, line@)),
            final(self).variant == old(self).variant,
            final(self).manifest_path == old(self).manifest_path,
    {
        proof {
            reveal(cb_summary);
        }
        match captures(SUMMARY_PATTERN, line) {
            None => None,
            Some(g) => {
                let count = parse_or_zero_exec(group_or_else(&g, 4, "").as_str());
                let fixes = parse_or_zero_exec(group_or_else(&g, 7, "").as_str());
                let cmd = group_or_else(&g, 6, "");
                let msg = concat(concat(concat(concat(concat(concat(concat(concat(concat(concat(concat(concat(concat(
                    group_or_else(&g, 1, ""), ": `"), group_or_else(&g, 2, "").as_str()), "` ("),
                    group_or_else(&g, 3, "").as_str()), ") generated "), usize_text(count).as_str()), " "),
                    group_or_else(&g, 5, "").as_str()), "; run `"), cmd.as_str()), "` to apply "),
                    usize_text(fixes).as_str()), " fixes");
                assert(msg@ == summary_text(groups_view(g@)));
                emit_print(fx, concat(String::from_str("SUMMARIZATION CALLBACK "), msg.as_str()));
                let ghost st = cb_summary(old(self)@, line@);
                assert(effects_view(fx@) =~= effects_view(old(fx)@) + st.fx);
                Some(response(CallbackType::Note, Some(msg), None, None, None, Some(cmd)))
            },
        }
    }

    fn on_not_connected(&mut self, line: &str, fx: &mut Vec<LineEffect>) -> (r: Option<CallbackResponse>)
        ensures
            did_step(old(self)@, final(self)@, effects_view(old(fx)@), effects_view(final(fx)@),
                opt_response_view(r), cb_not_connected(old(self).variant, old(self)@, line@)),
            final(self).variant == old(self).variant,
            final(self).manifest_path == old(self).manifest_path,
    {
        proof {
            reveal(cb_not_connected);
        }
        match captures(NOT_CONNECTED_PATTERN, line) {
            None => None,
            Some(_) => {
                emit_print(fx, concat(String::from_str("(STDERR) Terminal error detected: "), debug_str(line).as_str()));
                let status = if str_contains(line, "NotConnected") {
                    TerminalError::NoTerminal
                } else {
                    TerminalError::NoError
                };
                match self.variant {
                    StderrVariant::Builder => emit(fx, LineEffect::SendTerminal(status)),
                    StderrVariant::Standalone => {},
                }
                let ghost st = cb_not_connected(old(self).variant, old(self)@, line@);
                assert(effects_view(fx@) =~= effects_view(old(fx)@) + st.fx);
                Some(response(CallbackType::Warning,
                    Some(concat(String::from_str("Terminal Error: "), line)), None, None, None, None))
            },
        }
    }

    fn on_catch_all(&mut self, line: &str, fx: &mut Vec<LineEffect>) -> (r: Option<CallbackResponse>)
        ensures
            did_step(old(self)@, final(self)@, effects_view(old(fx)@), effects_view(final(fx)@),
                opt_response_view(r), cb_catch_all(old(self).variant, old(self)@, line@)),
            final(self).variant == old(self).variant,
            final(self).manifest_path == old(self).manifest_path,
    {
        proof {
            reveal(cb_catch_all);
        }
        if matches_text(CATCH_ALL_PATTERN, line) && self.variant == StderrVariant::Standalone {
            emit_print(fx, String::from_str(line));
        }
        let ghost st = cb_catch_all(old(self).variant, old(self)@, line@);
        assert(effects_view(fx@) =~= effects_view(old(fx)@) + st.fx);
        None
    }

    /// The canonical forms the backtrace summary may use: for each collected
    /// backtrace line, the frame path it names, if any.
    pub fn frame_paths(&self) -> (r: Vec<Option<String>>)
        ensures
            r@.len() == self.backtrace_lines@.len(),
            forall|i: int| 0 <= i < r@.len() ==> opt_view(#[trigger] r@[i]) == (
                match regex_captures(FRAME_AT_PATTERN@, self.backtrace_lines@[i]@) {
                    Some(g) => group_at(g, 1),
                    None => None,
                }),
    {
        let mut r: Vec<Option<String>> = Vec::new();
        let mut i: usize = 0;
        while i < self.backtrace_lines.len()
            invariant
                i <= self.backtrace_lines.len(),
                r@.len() == i,
                forall|k: int| 0 <= k < i ==> opt_view(#[trigger] r@[k]) == (
                    match regex_captures(FRAME_AT_PATTERN@, self.backtrace_lines@[k]@) {
                        Some(g) => group_at(g, 1),
                        None => None,
                    }),
            decreases self.backtrace_lines.len() - i,
        {
            let p = match captures(FRAME_AT_PATTERN, self.backtrace_lines[i].as_str()) {
                Some(g) => group(&g, 1),
                None => None,
            };
            r.push(p);
            i = i + 1;
        }
        r
    }

    /// Reads one line of cargo's standard error: every recogniser sees it in
    /// turn, and the state, answers and effects are those `stderr_line` gives.
    #[verifier::spinoff_prover]
    #[verifier::rlimit(50)]
    pub fn process_line(&mut self, line: &str, facts: &LineFacts) -> (out: LineOutcome)
        ensures
            ({
                let (m, rs, fx) = stderr_line(old(self).variant, old(self)@, line@,
                    opt_view(facts.resolved_file), groups_view(facts.frame_paths@));
                &&& final(self)@ == m
                &&& responses_view(out.responses@) == rs
                &&& effects_view(out.effects@) == fx
            }),
            final(self).variant == old(self).variant,
            final(self).manifest_path == old(self).manifest_path,
    {
        let mut fx: Vec<LineEffect> = Vec::new();
        if self.halted {
            let rs: Vec<Option<CallbackResponse>> = Vec::new();
            assert(responses_view(rs@) =~= Seq::<Option<ResponseView>>::empty());
            assert(effects_view(fx@) =~= Seq::<EffectView>::empty());
            return LineOutcome { responses: rs, effects: fx };
        }
        let ghost v = self.variant;
        let ghost m0 = self@;
        let ghost canon = groups_view(facts.frame_paths@);
        let ghost resolved = opt_view(facts.resolved_file);
        assert(effects_view(fx@) =~= Seq::<EffectView>::empty());
        let r1 = self.on_panic(line, &mut fx);
        let r2 = self.on_could_not_compile(line, &mut fx);
        let r3 = self.on_level(line, &mut fx);
        let r4 = self.on_look_behind(line);
        let r5 = self.on_backtrace_start(line);
        let r6 = self.on_backtrace(line, &facts.frame_paths);
        let r7 = self.on_suggestion(line);
        let r8 = self.on_blank(line);
        let r9 = self.on_continuation(line);
        let r10 = self.on_location(line, &facts.resolved_file);
        let ghost s1 = cb_panic(m0, line@);
        let ghost s2 = cb_could_not_compile(s1.m, line@);
        let ghost s3 = cb_level(s2.m, line@);
        let ghost s4 = cb_look_behind(s3.m, line@);
        let ghost s5 = cb_backtrace_start(s4.m, line@);
        let ghost s6 = cb_backtrace(v, s5.m, line@, canon);
        let ghost s7 = cb_suggestion(s6.m, line@);
        let ghost s8 = cb_blank(s7.m, line@);
        let ghost s9 = cb_continuation(s8.m, line@);
        let ghost s10 = cb_location(s9.m, line@, resolved);
        assert(s4.fx.len() == 0 && s5.fx.len() == 0 && s6.fx.len() == 0 && s7.fx.len() == 0 && s8.fx.len() == 0);
        let ghost fx10 = s1.fx + s2.fx + s3.fx + s4.fx + s5.fx + s6.fx + s7.fx + s8.fx + s9.fx + s10.fx;
        assert(effects_view(fx@) =~= fx10);
        if self.halted {
            let rs: Vec<Option<CallbackResponse>> = Vec::new();
            assert(responses_view(rs@) =~= Seq::<Option<ResponseView>>::empty());
            return LineOutcome { responses: rs, effects: fx };
        }
        let r11 = self.on_note(line);
        let r12 = self.on_help(line);
        let r13 = self.on_serving(line, &mut fx);
        let r14 = self.on_finished(line, &mut fx);
        let r15 = self.on_summary(line, &mut fx);
        let r16 = self.on_not_connected(line, &mut fx);
        let r17 = self.on_catch_all(line, &mut fx);
        let ghost s11 = cb_note(s10.m, line@);
        let ghost s12 = cb_help(s11.m, line@);
        let ghost s13 = cb_serving(s12.m, line@);
        let ghost s14 = cb_finished(s13.m, line@);
        let ghost s15 = cb_summary(s14.m, line@);
        let ghost s16 = cb_not_connected(v, s15.m, line@);
        let ghost s17 = cb_catch_all(v, s16.m, line@);
        assert(s11.fx.len() == 0 && s12.fx.len() == 0);
        assert(effects_view(fx@) =~= fx10 + s11.fx + s12.fx + s13.fx + s14.fx + s15.fx + s16.fx + s17.fx);
        let mut rs: Vec<Option<CallbackResponse>> = Vec::new();
        rs.push(r1);
        rs.push(r2);
        rs.push(r3);
        rs.push(r4);
        rs.push(r5);
        rs.push(r6);
        rs.push(r7);
        rs.push(r8);
        rs.push(r9);
        rs.push(r10);
        rs.push(r11);
        rs.push(r12);
        rs.push(r13);
        rs.push(r14);
        rs.push(r15);
        rs.push(r16);
        rs.push(r17);
        assert(responses_view(rs@) =~= seq![
            s1.resp, s2.resp, s3.resp, s4.resp, s5.resp, s6.resp, s7.resp, s8.resp,
            s9.resp, s10.resp, s11.resp, s12.resp, s13.resp, s14.resp, s15.resp,
            s16.resp, s17.resp,
        ]);
        LineOutcome { responses: rs, effects: fx }
    }
}

/// The standard-error reader the stand-alone dispatcher builder sets up for
/// the build of `manifest_path`.
pub fn create_stderr_dispatcher(manifest_path: String) -> (r: StderrDispatcher)
    ensures
        r@ == initial_model(StderrVariant::Standalone, manifest_path@),
        r.variant == StderrVariant::Standalone,
        r.manifest_path == manifest_path,
{
    StderrDispatcher::new(StderrVariant::Standalone, manifest_path)
}


// ---------------------------------------------------------------------------
// Standard output

/// A line read by the standard-output reader, given whether it is waiting for
/// a server's URL: whether it waits afterwards, the answers of its three
/// recognisers, and the effects.  "listening on" opens the URL on the line;
/// "BuildFinished" ends the build; "server listening at:" makes the reader
/// wait, and the first later line with a URL has it opened.
pub open spec fn stdout_line(waiting: bool, line: Seq<char>) -> (bool, Seq<Option<ResponseView>>, Seq<EffectView>) {
    let url1 = match regex_captures(URL_PATTERN@, line) {
        Some(g) => group_at(g, 1),
        None => None,
    };
    let fx1 = if is_match(LISTENING_PATTERN@, line) {
        seq![EffectView::Print("(STDOUT) Dispatcher caught: "@ + line)] + (match url1 {
            Some(u) => seq![EffectView::OpenUrl(u)],
            None => Seq::empty(),
        }) + seq![EffectView::MarkBuildFinished]
    } else {
        Seq::empty()
    };
    let fx2 = if is_match(BUILD_FINISHED_PATTERN@, line) {
        seq![EffectView::Print("******* "@ + line), EffectView::MarkBuildFinished]
    } else {
        Seq::empty()
    };
    let (w3, r3, fx3) = if !waiting {
        if is_match(SERVER_LISTENING_PATTERN@, line) {
            (
                true,
                Some(note_response("Started multiline mode after: "@ + line, None)),
                seq![EffectView::Print("Matched 'server listening at:' in: "@ + line)],
            )
        } else {
            (false, None, Seq::empty())
        }
    } else {
        let shown = seq![EffectView::Print("Multiline callback received: "@ + line)];
        match regex_captures(URL_PATTERN@, line) {
            Some(g) => {
                let u = group_or(g, 1, ""@);
                (
                    false,
                    Some(note_response("Captured and opened URL: "@ + u, None)),
                    shown + seq![EffectView::OpenUrl(u), EffectView::MarkBuildFinished],
                )
            },
            None => (true, None, shown),
        }
    };
    (w3, seq![None, None, r3], fx1 + fx2 + fx3)
}

/// The standard-output reader: whether it waits for a server's URL.
pub struct StdoutDispatcher {
    pub waiting_for_url: bool,
}

impl StdoutDispatcher {
    /// A reader that has seen nothing.
    pub fn new() -> (r: StdoutDispatcher)
        ensures
            !r.waiting_for_url,
    {
        StdoutDispatcher { waiting_for_url: false }
    }

    /// Reads one line of cargo's standard output.
    pub fn process_line(&mut self, line: &str) -> (out: LineOutcome)
        ensures
            ({
                let (w, rs, fx) = stdout_line(old(self).waiting_for_url, line@);
                &&& final(self).waiting_for_url == w
                &&& responses_view(out.responses@) == rs
                &&& effects_view(out.effects@) == fx
            }),
    {
        let ghost (w, rs_spec, fx_spec) = stdout_line(self.waiting_for_url, line@);
        let mut fx: Vec<LineEffect> = Vec::new();
        assert(effects_view(fx@) =~= Seq::<EffectView>::empty());
        if matches_text(LISTENING_PATTERN, line) {
            emit_print(&mut fx, concat(String::from_str("(STDOUT) Dispatcher caught: "), line));
            match captures(URL_PATTERN, line) {
                Some(g) => match group(&g, 1) {
                    Some(u) => emit(&mut fx, LineEffect::OpenUrl(u)),
                    None => {},
                },
                None => {},
            }
            emit(&mut fx, LineEffect::MarkBuildFinished);
        }
        let ghost fx1 = effects_view(fx@);
        if matches_text(BUILD_FINISHED_PATTERN, line) {
            emit_print(&mut fx, concat(String::from_str("******* "), line));
            emit(&mut fx, LineEffect::MarkBuildFinished);
        }
        let ghost fx2 = effects_view(fx@);
        let r3: Option<CallbackResponse>;
        if !self.waiting_for_url {
            if matches_text(SERVER_LISTENING_PATTERN, line) {
                emit_print(&mut fx, concat(String::from_str("Matched 'server listening at:' in: "), line));
                self.waiting_for_url = true;
                r3 = Some(response(CallbackType::Note,
                    Some(concat(String::from_str("Started multiline mode after: "), line)), None, None, None, None));
            } else {
                r3 = None;
            }
        } else {
            emit_print(&mut fx, concat(String::from_str("Multiline callback received: "), line));
            match captures(URL_PATTERN, line) {
                Some(g) => {
                    let u = group_or_else(&g, 1, "");
                    emit(&mut fx, LineEffect::OpenUrl(u.clone()));
                    emit(&mut fx, LineEffect::MarkBuildFinished);
                    self.waiting_for_url = false;
                    r3 = Some(response(CallbackType::Note,
                        Some(concat(String::from_str("Captured and opened URL: "), u.as_str())), None, None, None, None));
                },
                None => {
                    r3 = None;
                },
            }
        }
        assert(effects_view(fx@) =~= fx_spec);
        let mut rs: Vec<Option<CallbackResponse>> = Vec::new();
        rs.push(None);
        rs.push(None);
        rs.push(r3);
        assert(responses_view(rs@) =~= rs_spec);
        LineOutcome { responses: rs, effects: fx }
    }
}

/// The standard-output reader the stand-alone dispatcher builder sets up.
pub fn create_stdout_dispatcher() -> (r: StdoutDispatcher)
    ensures
        !r.waiting_for_url,
{
    StdoutDispatcher::new()
}

/// The escape sequence with which cargo starts its bold green status lines.
pub const STATUS_ESCAPE: &'static str = "\u{1b}[1m\u{1b}[32m";

/// A standard-error line as the reader takes it: a line that starts with the
/// bold green escape keeps it, with the spaces after it removed.
pub open spec fn normalized_line(line: Seq<char>) -> Seq<char> {
    if seq_starts_with(line, STATUS_ESCAPE@) {
        STATUS_ESCAPE@ + crate::text::trim_start(line.skip(STATUS_ESCAPE@.len() as int))
    } else {
        line
    }
}

/// Removes the spaces after the bold green escape that starts a status line.
pub fn normalize_stderr_line(line: &str) -> (r: String)
    ensures
        r@ == normalized_line(line@),
{
    if str_starts_with(line, STATUS_ESCAPE) {
        let v = chars_of(line);
        let n = crate::text::chars_of(STATUS_ESCAPE).len();
        let mut rest = String::new();
        let mut k: usize = n;
        while k < v.len()
            invariant
                v@ == line@,
                n == STATUS_ESCAPE@.len(),
                n <= k <= v.len(),
                rest@ == line@.subrange(n as int, k as int),
            decreases v.len() - k,
        {
            crate::text::push_char(&mut rest, v[k]);
            k = k + 1;
            assert(rest@ == line@.subrange(n as int, k as int));
        }
        assert(line@.subrange(n as int, v.len() as int) == line@.skip(n as int));
        let tail = crate::text::trim_start_str(rest.as_str());
        concat(String::from_str(STATUS_ESCAPE), tail.as_str())
    } else {
        String::from_str(line)
    }
}


impl crate::command_builder::CargoCommandBuilder {
    /// The readers a filtering builder watches cargo's output with: a
    /// standard-output reader and the builder's standard-error reader for its
    /// manifest.  A builder that does not filter gets none.
    pub fn default_dispatchers(&self) -> (r: Option<(StdoutDispatcher, StderrDispatcher)>)
        ensures
            r is Some <==> self.is_filter,
            r matches Some((o, e)) ==> !o.waiting_for_url && e@ == initial_model(StderrVariant::Builder, self.manifest_path@)
                && e.variant == StderrVariant::Builder && e.manifest_path@ == self.manifest_path@,
    {
        if !self.is_filter {
            return None;
        }
        Some((StdoutDispatcher::new(), StderrDispatcher::new(StderrVariant::Builder, self.manifest_path.clone())))
    }
}

// ---------------------------------------------------------------------------
// What every line keeps

/// `after` holds the diagnostics of `before`, in order, and perhaps more.
pub open spec fn keeps_diagnostics(before: StderrModel, after: StderrModel) -> bool {
    &&& before.diagnostics.len() <= after.diagnostics.len()
    &&& after.diagnostics.subrange(0, before.diagnostics.len() as int) == before.diagnostics
}

proof fn lemma_keeps_trans(a: StderrModel, b: StderrModel, c: StderrModel)
    requires
        keeps_diagnostics(a, b),
        keeps_diagnostics(b, c),
    ensures
        keeps_diagnostics(a, c),
{
    assert(c.diagnostics.subrange(0, a.diagnostics.len() as int) =~= b.diagnostics.subrange(
        0,
        a.diagnostics.len() as int,
    ));
}

proof fn lemma_keeps_push(a: StderrModel, b: StderrModel, d: DiagView)
    requires
        b.diagnostics == a.diagnostics.push(d),
    ensures
        keeps_diagnostics(a, b),
{
    assert(b.diagnostics.subrange(0, a.diagnostics.len() as int) =~= a.diagnostics);
}

proof fn lemma_keeps_same(a: StderrModel, b: StderrModel)
    requires
        b.diagnostics == a.diagnostics,
    ensures
        keeps_diagnostics(a, b),
{
    assert(b.diagnostics.subrange(0, a.diagnostics.len() as int) =~= a.diagnostics);
}

proof fn lemma_flush_keeps(m: StderrModel)
    ensures
        keeps_diagnostics(m, flush_pending(m)),
        flush_pending(m).look_behind == m.look_behind,
{
    match m.pending {
        Some(d) => lemma_keeps_push(m, flush_pending(m), d),
        None => lemma_keeps_same(m, m),
    }
}

/// Each recogniser keeps the finished diagnostics and the bound on the
/// lines kept before a backtrace.
proof fn lemma_each_keeps(
    v: StderrVariant,
    m: StderrModel,
    line: Seq<char>,
    resolved: Option<Seq<char>>,
    canon: Seq<Option<Seq<char>>>,
)
    ensures
        keeps_diagnostics(m, cb_panic(m, line).m),
        keeps_diagnostics(m, cb_could_not_compile(m, line).m),
        keeps_diagnostics(m, cb_level(m, line).m),
        keeps_diagnostics(m, cb_look_behind(m, line).m),
        keeps_diagnostics(m, cb_backtrace_start(m, line).m),
        keeps_diagnostics(m, cb_backtrace(v, m, line, canon).m),
        keeps_diagnostics(m, cb_suggestion(m, line).m),
        keeps_diagnostics(m, cb_blank(m, line).m),
        keeps_diagnostics(m, cb_continuation(m, line).m),
        keeps_diagnostics(m, cb_location(m, line, resolved).m),
        keeps_diagnostics(m, cb_note(m, line).m),
        keeps_diagnostics(m, cb_help(m, line).m),
        keeps_diagnostics(m, cb_serving(m, line).m),
        keeps_diagnostics(m, cb_finished(m, line).m),
        keeps_diagnostics(m, cb_summary(m, line).m),
        keeps_diagnostics(m, cb_not_connected(v, m, line).m),
        keeps_diagnostics(m, cb_catch_all(v, m, line).m),
        m.look_behind.len() <= 6 ==> cb_look_behind(m, line).m.look_behind.len() <= 6,
        cb_panic(m, line).m.look_behind == m.look_behind,
        cb_could_not_compile(m, line).m.look_behind == m.look_behind,
        cb_level(m, line).m.look_behind == m.look_behind,
        cb_backtrace_start(m, line).m.look_behind == m.look_behind,
        cb_backtrace(v, m, line, canon).m.look_behind == m.look_behind,
        cb_suggestion(m, line).m.look_behind == m.look_behind,
        cb_blank(m, line).m.look_behind == m.look_behind,
        cb_continuation(m, line).m.look_behind == m.look_behind,
        cb_location(m, line, resolved).m.look_behind == m.look_behind,
        cb_note(m, line).m.look_behind == m.look_behind,
        cb_help(m, line).m.look_behind == m.look_behind,
        cb_serving(m, line).m.look_behind == m.look_behind,
        cb_finished(m, line).m.look_behind == m.look_behind,
        cb_summary(m, line).m.look_behind == m.look_behind,
        cb_not_connected(v, m, line).m.look_behind == m.look_behind,
        cb_catch_all(v, m, line).m.look_behind == m.look_behind,
{
    reveal(cb_panic);
    reveal(cb_could_not_compile);
    reveal(cb_level);
    reveal(cb_look_behind);
    reveal(cb_backtrace_start);
    reveal(cb_backtrace);
    reveal(cb_suggestion);
    reveal(cb_blank);
    reveal(cb_continuation);
    reveal(cb_location);
    reveal(cb_note);
    reveal(cb_help);
    reveal(cb_serving);
    reveal(cb_finished);
    reveal(cb_summary);
    reveal(cb_not_connected);
    reveal(cb_catch_all);
    lemma_keeps_same(m, m);
    lemma_flush_keeps(m);
    match regex_captures(LEVEL_PATTERN@, line) {
        Some(g) => {
            let m1 = flush_pending(m);
            lemma_flush_keeps(m);
            match level_of(group_or(g, 1, ""@)) {
                Some(l) => {
                    let n = bumped(count_of(m1, l));
                    lemma_keeps_same(m1, with_count(m1, l, n));
                    lemma_keeps_same(m1, cb_level(m, line).m);
                    lemma_keeps_trans(m, m1, cb_level(m, line).m);
                },
                None => {},
            }
        },
        None => {},
    }
    lemma_keeps_same(m, cb_look_behind(m, line).m);
    lemma_keeps_same(m, cb_backtrace_start(m, line).m);
    let s6 = cb_backtrace(v, m, line, canon);
    if s6.m.diagnostics != m.diagnostics {
        let d2 = s6.m.diagnostics.last();
        assert(s6.m.diagnostics == m.diagnostics.push(d2));
        lemma_keeps_push(m, s6.m, d2);
    } else {
        lemma_keeps_same(m, s6.m);
    }
    lemma_keeps_same(m, cb_suggestion(m, line).m);
    let m8 = StderrModel { suggestion_mode: false, ..m };
    lemma_flush_keeps(m8);
    lemma_keeps_same(m, cb_continuation(m, line).m);
    lemma_keeps_same(m, cb_location(m, line, resolved).m);
    lemma_keeps_same(m, cb_note(m, line).m);
    lemma_keeps_same(m, cb_help(m, line).m);
}

/// Reading a line never drops or changes a finished diagnostic: those before
/// the line come first, in order, among those after it.  The lines kept for
/// a backtrace never number more than six.
pub proof fn lemma_line_keeps_diagnostics(
    v: StderrVariant,
    m: StderrModel,
    line: Seq<char>,
    resolved: Option<Seq<char>>,
    canon: Seq<Option<Seq<char>>>,
)
    ensures
        keeps_diagnostics(m, stderr_line(v, m, line, resolved, canon).0),
        m.look_behind.len() <= 6 ==> stderr_line(v, m, line, resolved, canon).0.look_behind.len() <= 6,
{
    if m.halted {
        lemma_keeps_same(m, m);
    } else {
        let s1 = cb_panic(m, line);
        let s2 = cb_could_not_compile(s1.m, line);
        let s3 = cb_level(s2.m, line);
        let s4 = cb_look_behind(s3.m, line);
        let s5 = cb_backtrace_start(s4.m, line);
        let s6 = cb_backtrace(v, s5.m, line, canon);
        let s7 = cb_suggestion(s6.m, line);
        let s8 = cb_blank(s7.m, line);
        let s9 = cb_continuation(s8.m, line);
        let s10 = cb_location(s9.m, line, resolved);
        let s11 = cb_note(s10.m, line);
        let s12 = cb_help(s11.m, line);
        let s13 = cb_serving(s12.m, line);
        let s14 = cb_finished(s13.m, line);
        let s15 = cb_summary(s14.m, line);
        let s16 = cb_not_connected(v, s15.m, line);
        lemma_each_keeps(v, m, line, resolved, canon);
        lemma_each_keeps(v, s1.m, line, resolved, canon);
        lemma_each_keeps(v, s2.m, line, resolved, canon);
        lemma_each_keeps(v, s3.m, line, resolved, canon);
        lemma_each_keeps(v, s4.m, line, resolved, canon);
        lemma_each_keeps(v, s5.m, line, resolved, canon);
        lemma_each_keeps(v, s6.m, line, resolved, canon);
        lemma_each_keeps(v, s7.m, line, resolved, canon);
        lemma_each_keeps(v, s8.m, line, resolved, canon);
        lemma_each_keeps(v, s9.m, line, resolved, canon);
        lemma_each_keeps(v, s10.m, line, resolved, canon);
        lemma_each_keeps(v, s11.m, line, resolved, canon);
        lemma_each_keeps(v, s12.m, line, resolved, canon);
        lemma_each_keeps(v, s13.m, line, resolved, canon);
        lemma_each_keeps(v, s14.m, line, resolved, canon);
        lemma_each_keeps(v, s15.m, line, resolved, canon);
        lemma_each_keeps(v, s16.m, line, resolved, canon);
        lemma_keeps_trans(m, s1.m, s2.m);
        lemma_keeps_trans(m, s2.m, s3.m);
        lemma_keeps_trans(m, s3.m, s4.m);
        lemma_keeps_trans(m, s4.m, s5.m);
        lemma_keeps_trans(m, s5.m, s6.m);
        lemma_keeps_trans(m, s6.m, s7.m);
        lemma_keeps_trans(m, s7.m, s8.m);
        lemma_keeps_trans(m, s8.m, s9.m);
        lemma_keeps_trans(m, s9.m, s10.m);
        lemma_keeps_trans(m, s10.m, s11.m);
        lemma_keeps_trans(m, s11.m, s12.m);
        lemma_keeps_trans(m, s12.m, s13.m);
        lemma_keeps_trans(m, s13.m, s14.m);
        lemma_keeps_trans(m, s14.m, s15.m);
        lemma_keeps_trans(m, s15.m, s16.m);
        lemma_keeps_trans(m, s16.m, cb_catch_all(v, s16.m, line).m);
    }
}

/// A reader that has stopped stays as it is: a line changes nothing and
/// yields no answers and no effects.
pub proof fn lemma_halted_is_final(
    v: StderrVariant,
    m: StderrModel,
    line: Seq<char>,
    resolved: Option<Seq<char>>,
    canon: Seq<Option<Seq<char>>>,
)
    requires
        m.halted,
    ensures
        stderr_line(v, m, line, resolved, canon) == (m, Seq::<Option<ResponseView>>::empty(), Seq::<EffectView>::empty()),
{
}

/// A blank line (one the blank recogniser matches) read by a running reader
/// leaves no diagnostic being assembled: the one in progress is finished.
pub proof fn lemma_blank_line_finishes(
    v: StderrVariant,
    m: StderrModel,
    line: Seq<char>,
    resolved: Option<Seq<char>>,
    canon: Seq<Option<Seq<char>>>,
)
    requires
        !m.halted,
        is_match(BLANK_PATTERN@, line),
    ensures
        stderr_line(v, m, line, resolved, canon).0.pending is None,
{
    reveal(cb_panic);
    reveal(cb_could_not_compile);
    reveal(cb_level);
    reveal(cb_look_behind);
    reveal(cb_backtrace_start);
    reveal(cb_backtrace);
    reveal(cb_suggestion);
    reveal(cb_blank);
    reveal(cb_continuation);
    reveal(cb_location);
    reveal(cb_note);
    reveal(cb_help);
    reveal(cb_serving);
    reveal(cb_finished);
    reveal(cb_summary);
    reveal(cb_not_connected);
    reveal(cb_catch_all);
}


/// A standard-error line no recogniser answered is printed as it is, unless
/// it is blank or the line `...`.
pub open spec fn echoes(line: Seq<char>, rs: Seq<Option<ResponseView>>) -> bool {
    &&& forall|i: int| 0 <= i < rs.len() ==> #[trigger] rs[i] is None
    &&& trim(line).len() > 0
    &&& line != "..."@
}

/// Whether the capturing reader prints a standard-error line itself.
pub fn echo_unmatched(line: &str, out: &LineOutcome) -> (r: bool)
    ensures
        r == echoes(line@, responses_view(out.responses@)),
{
    let mut i: usize = 0;
    while i < out.responses.len()
        invariant
            i <= out.responses.len(),
            forall|k: int| 0 <= k < i ==> (#[trigger] responses_view(out.responses@)[k]) is None,
        decreases out.responses.len() - i,
    {
        if out.responses[i].is_some() {
            assert(responses_view(out.responses@)[i as int] is Some);
            return false;
        }
        i = i + 1;
    }
    !is_blank(line) && !crate::cli::str_eq_exact(line, "...")
}

} // verus!
