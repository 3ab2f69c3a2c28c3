//! Diagnostics read from cargo's output, and the statistics of a cargo run.
use vstd::prelude::*;
use crate::command_builder::TerminalError;
use std::time::SystemTime;
use crate::pattern::opt_view;

verus! {

/// `std::time::SystemTime`, carried through the library unopened.
#[verifier::external_type_specification]
#[verifier::external_body]
pub struct ExSystemTime(SystemTime);

/// Counts of cargo events and the time each kind of event first occurred.
pub struct CargoStats {
    pub target_name: String,
    pub is_comiler_target: bool,
    pub is_could_not_compile: bool,
    pub start_time: Option<SystemTime>,
    pub compiler_message_count: usize,
    pub compiler_artifact_count: usize,
    pub build_script_executed_count: usize,
    pub build_finished_count: usize,
    pub compiler_message_time: Option<SystemTime>,
    pub compiler_artifact_time: Option<SystemTime>,
    pub build_script_executed_time: Option<SystemTime>,
    pub build_finished_time: Option<SystemTime>,
}

impl CargoStats {
    /// Statistics with no events recorded.
    pub fn empty() -> (r: CargoStats)
        ensures
            r.target_name@.len() == 0,
            !r.is_comiler_target,
            !r.is_could_not_compile,
            r.start_time is None,
            r.compiler_message_count == 0,
            r.compiler_artifact_count == 0,
            r.build_script_executed_count == 0,
            r.build_finished_count == 0,
            r.compiler_message_time is None,
            r.compiler_artifact_time is None,
            r.build_script_executed_time is None,
            r.build_finished_time is None,
    {
        CargoStats {
            target_name: String::new(),
            is_comiler_target: false,
            is_could_not_compile: false,
            start_time: None,
            compiler_message_count: 0,
            compiler_artifact_count: 0,
            build_script_executed_count: 0,
            build_finished_count: 0,
            compiler_message_time: None,
            compiler_artifact_time: None,
            build_script_executed_time: None,
            build_finished_time: None,
        }
    }

    /// A copy of these statistics.
    pub fn duplicate(&self) -> (r: CargoStats)
        ensures
            r == *self,
    {
        CargoStats {
            target_name: self.target_name.clone(),
            is_comiler_target: self.is_comiler_target,
            is_could_not_compile: self.is_could_not_compile,
            start_time: self.start_time,
            compiler_message_count: self.compiler_message_count,
            compiler_artifact_count: self.compiler_artifact_count,
            build_script_executed_count: self.build_script_executed_count,
            build_finished_count: self.build_finished_count,
            compiler_message_time: self.compiler_message_time,
            compiler_artifact_time: self.compiler_artifact_time,
            build_script_executed_time: self.build_script_executed_time,
            build_finished_time: self.build_finished_time,
        }
    }

    /// Records the end of the build phase at `now`, unless it was already recorded.
    pub fn mark_build_finished(&mut self, now: SystemTime)
        ensures
            final(self).build_finished_time == (match old(self).build_finished_time {
                Some(t) => Some(t),
                None => Some(now),
            }),
            final(self).target_name == old(self).target_name,
            final(self).is_could_not_compile == old(self).is_could_not_compile,
            final(self).build_finished_count == old(self).build_finished_count,
    {
        if self.build_finished_time.is_none() {
            self.build_finished_time = Some(now);
        }
    }
}

/// The severity of a cargo diagnostic.
#[derive(Debug, Clone, Copy, PartialEq, Eq, Hash, Structural)]
pub enum CargoDiagnosticLevel {
    Error,
    Warning,
    Help,
    Note,
}

/// What a line-handling callback recognised.
#[derive(Debug, Clone, Copy, PartialEq, Eq, Structural)]
pub enum CallbackType {
    LevelMessage,
    Warning,
    Error,
    Help,
    Note,
    Location,
    OpenedUrl,
    Unspecified,
    Suggestion,
}

/// What a line-handling callback reports about a line.
pub struct CallbackResponse {
    pub callback_type: CallbackType,
    pub message: Option<String>,
    pub file: Option<String>,
    pub line: Option<usize>,
    pub column: Option<usize>,
    pub suggestion: Option<String>,
    pub terminal_status: Option<TerminalError>,
}

/// A copy of an optional string.
pub fn clone_opt_string(o: &Option<String>) -> (r: Option<String>)
    ensures
        r == *o,
{
    match o {
        Some(s) => Some(s.clone()),
        None => None,
    }
}

impl CallbackResponse {
    /// A copy of this response.
    pub fn duplicate(&self) -> (r: CallbackResponse)
        ensures
            r == *self,
    {
        CallbackResponse {
            callback_type: self.callback_type,
            message: clone_opt_string(&self.message),
            file: clone_opt_string(&self.file),
            line: self.line,
            column: self.column,
            suggestion: clone_opt_string(&self.suggestion),
            terminal_status: self.terminal_status,
        }
    }
}

/// One diagnostic of a cargo build: where it points, its level and text,
/// and the suggestion, note and help attached to it.
pub struct CargoDiagnostic {
    pub lineref: String,
    pub level: String,
    pub message: String,
    pub error_code: Option<String>,
    pub suggestion: Option<String>,
    pub note: Option<String>,
    pub help: Option<String>,
    pub uses_color: bool,
    pub diag_number: Option<usize>,
    pub diag_num_padding: Option<usize>,
}

impl CargoDiagnostic {
    /// A diagnostic with the given fields.
    #[allow(clippy::too_many_arguments)]
    pub fn new(
        lineref: String,
        level: String,
        message: String,
        error_code: Option<String>,
        suggestion: Option<String>,
        note: Option<String>,
        help: Option<String>,
        uses_color: bool,
        diag_number: Option<usize>,
        diag_num_padding: Option<usize>,
    ) -> (r: Self)
        ensures
            r.lineref == lineref,
            r.level == level,
            r.message == message,
            r.error_code == error_code,
            r.suggestion == suggestion,
            r.note == note,
            r.help == help,
            r.uses_color == uses_color,
            r.diag_number == diag_number,
            r.diag_num_padding == diag_num_padding,
    {
        CargoDiagnostic {
            lineref,
            level,
            message,
            error_code,
            suggestion,
            note,
            help,
            uses_color,
            diag_number,
            diag_num_padding,
        }
    }

    /// A copy of this diagnostic.
    pub fn duplicate(&self) -> (r: CargoDiagnostic)
        ensures
            r == *self,
    {
        CargoDiagnostic {
            lineref: self.lineref.clone(),
            level: self.level.clone(),
            message: self.message.clone(),
            error_code: clone_opt_string(&self.error_code),
            suggestion: clone_opt_string(&self.suggestion),
            note: clone_opt_string(&self.note),
            help: clone_opt_string(&self.help),
            uses_color: self.uses_color,
            diag_number: self.diag_number,
            diag_num_padding: self.diag_num_padding,
        }
    }
}


/// A diagnostic's fields, its strings taken as character sequences.
pub struct DiagView {
    pub lineref: Seq<char>,
    pub level: Seq<char>,
    pub message: Seq<char>,
    pub error_code: Option<Seq<char>>,
    pub suggestion: Option<Seq<char>>,
    pub note: Option<Seq<char>>,
    pub help: Option<Seq<char>>,
    pub uses_color: bool,
    pub diag_number: Option<usize>,
    pub diag_num_padding: Option<usize>,
}

impl View for CargoDiagnostic {
    type V = DiagView;

    open spec fn view(&self) -> DiagView {
        DiagView {
            lineref: self.lineref@,
            level: self.level@,
            message: self.message@,
            error_code: opt_view(self.error_code),
            suggestion: opt_view(self.suggestion),
            note: opt_view(self.note),
            help: opt_view(self.help),
            uses_color: self.uses_color,
            diag_number: self.diag_number,
            diag_num_padding: self.diag_num_padding,
        }
    }
}

/// A callback response's fields, its strings taken as character sequences.
pub struct ResponseView {
    pub callback_type: CallbackType,
    pub message: Option<Seq<char>>,
    pub file: Option<Seq<char>>,
    pub line: Option<usize>,
    pub column: Option<usize>,
    pub suggestion: Option<Seq<char>>,
    pub terminal_status: Option<TerminalError>,
}

impl View for CallbackResponse {
    type V = ResponseView;

    open spec fn view(&self) -> ResponseView {
        ResponseView {
            callback_type: self.callback_type,
            message: opt_view(self.message),
            file: opt_view(self.file),
            line: self.line,
            column: self.column,
            suggestion: opt_view(self.suggestion),
            terminal_status: self.terminal_status,
        }
    }
}

/// The view of an optional response.
pub open spec fn opt_response_view(o: Option<CallbackResponse>) -> Option<ResponseView> {
    match o {
        Some(r) => Some(r@),
        None => None,
    }
}

/// The view of an optional diagnostic.
pub open spec fn opt_diag_view(o: Option<CargoDiagnostic>) -> Option<DiagView> {
    match o {
        Some(d) => Some(d@),
        None => None,
    }
}

/// The views of a sequence of diagnostics.
pub open spec fn diags_view(v: Seq<CargoDiagnostic>) -> Seq<DiagView> {
    v.map_values(|d: CargoDiagnostic| d@)
}

} // verus!
