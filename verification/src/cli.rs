//! Command-line options and the small parsers that go with them.
use vstd::prelude::*;
use crate::text::{
    parse_u64, parse_usize, parse_unsigned, IntParseFailure, int_failure_text, int_failure_message,
    eq_ignore_ascii_case, str_eq_ignore_ascii_case, u64_to_string, decimal, seq_starts_with,
    chars_of, string_from_chars,
};

verus! {

/// The state of the `--run-all` flag.
#[derive(Debug, Clone, Copy, PartialEq, Eq, Structural)]
pub enum RunAll {
    /// The flag was not given.
    NotSpecified,
    /// The flag was given without a value: run forever.
    Forever,
    /// The flag was given with a number of seconds per target.
    Timeout(u64),
}

/// The value `RunAll::from_str` reads from a flag value.
pub open spec fn run_all_parse(s: Seq<char>) -> Result<RunAll, Seq<char>> {
    if s.len() == 0 {
        Ok(RunAll::Forever)
    } else if eq_ignore_ascii_case(s, "not_specified"@) {
        Ok(RunAll::NotSpecified)
    } else {
        match parse_unsigned(s, u64::MAX as nat) {
            Ok(v) => Ok(RunAll::Timeout(v as u64)),
            Err(e) => Err(int_failure_text(e)),
        }
    }
}

/// The text `RunAll` displays as.
pub open spec fn run_all_text(r: RunAll) -> Seq<char> {
    match r {
        RunAll::NotSpecified => "not_specified"@,
        RunAll::Forever => "forever"@,
        RunAll::Timeout(secs) => decimal(secs as nat),
    }
}

/// Reading back what a `RunAll` displays as gives it back, for every value
/// but `Forever`, whose text `forever` is no flag value.
pub proof fn lemma_run_all_round_trip(r: RunAll)
    requires
        r != RunAll::Forever,
    ensures
        run_all_parse(run_all_text(r)) == Ok::<RunAll, Seq<char>>(r),
{
    match r {
        RunAll::NotSpecified => {
            reveal_strlit("not_specified");
        },
        RunAll::Timeout(n) => {
            let t = decimal(n as nat);
            crate::text::lemma_decimal_digits(n as nat);
            crate::text::lemma_parse_decimal(n as nat, u64::MAX as nat);
            reveal_strlit("not_specified");
            assert(!eq_ignore_ascii_case(t, "not_specified"@)) by {
                if t.len() == "not_specified"@.len() {
                    assert(crate::text::is_digit(t[0]));
                    assert(crate::text::ascii_lower(t[0]) == t[0]);
                    assert(crate::text::ascii_lower("not_specified"@[0]) == 'n');
                }
            }
        },
        RunAll::Forever => {},
    }
}

impl RunAll {
    /// The default state: the flag was not given.
    pub fn default_value() -> (r: RunAll)
        ensures
            r == RunAll::NotSpecified,
    {
        RunAll::NotSpecified
    }

    /// Reads a `--run-all` value: empty means forever, `not_specified`
    /// (any ASCII case) means not given, otherwise a number of seconds; a
    /// value that is none of these is refused with the integer parser's message.
    pub fn from_str(s: &str) -> (r: Result<RunAll, String>)
        ensures
            match r {
                Ok(v) => run_all_parse(s@) == Ok::<RunAll, Seq<char>>(v),
                Err(e) => run_all_parse(s@) == Err::<RunAll, Seq<char>>(e@),
            },
    {
        if chars_of(s).len() == 0 {
            return Ok(RunAll::Forever);
        }
        if str_eq_ignore_ascii_case(s, "not_specified") {
            return Ok(RunAll::NotSpecified);
        }
        match parse_u64(s) {
            Ok(v) => Ok(RunAll::Timeout(v)),
            Err(e) => Err(int_failure_message(e)),
        }
    }

    /// The text this value displays as: `not_specified`, `forever` or the seconds.
    pub fn to_display_string(&self) -> (r: String)
        ensures
            r@ == run_all_text(*self),
    {
        match self {
            RunAll::NotSpecified => String::from_str("not_specified"),
            RunAll::Forever => String::from_str("forever"),
            RunAll::Timeout(secs) => u64_to_string(*secs),
        }
    }
}

/// The options of the `cargo e` command line.
pub struct Cli {
    /// Path to read/write the stdout of the executed command.
    pub stdout: Option<String>,
    /// Path to read/write the stderr of the executed command.
    pub stderr: Option<String>,
    /// Run all targets, optionally for a number of seconds each.
    pub run_all: RunAll,
    /// Create a gist of the run report on exit.
    pub gist: bool,
    /// Build and run in release mode.
    pub release: bool,
    /// Suppress cargo output when running the sample.
    pub quiet: bool,
    /// Pre-build the examples before executing them.
    pub pre_build: bool,
    /// Execute the existing target directly.
    pub cached: bool,
    /// Passthrough mode off: cargo output is filtered and stdout captured.
    pub filter: bool,
    /// Print version and feature flags.
    pub version: bool,
    /// Launch the text-based user interface.
    pub tui: bool,
    /// Operate on the entire workspace.
    pub workspace: bool,
    /// Print the exit code of the process when run.
    pub print_exit_code: bool,
    /// Print the program name before execution.
    pub print_program_name: bool,
    /// Print the user instruction.
    pub print_instruction: bool,
    /// Enable paging.
    pub paging: bool,
    /// Relative numbers.
    pub relative_numbers: bool,
    /// Wait time in seconds.
    pub wait: u64,
    /// The cargo subcommand to run.
    pub subcommand: String,
    /// An explicit target to run.
    pub explicit_example: Option<String>,
    /// Number of targets to run at a time in run-all mode.
    pub run_at_a_time: usize,
    /// Disable status lines during the runtime loop.
    pub no_status_lines: bool,
    /// Disable text-to-speech output.
    pub no_tts: bool,
    /// Disable window popups.
    pub no_window: bool,
    /// Additional arguments passed to the command.
    pub extra: Vec<String>,
}

/// Whether this build targets Windows.
#[verifier::external_body]
fn target_is_windows() -> bool {
    std::path::MAIN_SEPARATOR == '\\'
}

/// The feature flags of this build: enabled ones as-is, disabled ones
/// prefixed with `!`. This crate defines none of the optional features, so
/// only the platform entry varies.
pub fn get_feature_flags() -> (flags: Vec<&'static str>)
    ensures
        flags@.len() == 4,
        flags@[0]@ == "!tui"@,
        flags@[1]@ == "!concurrent"@,
        flags@[2]@ == "windows"@ || flags@[2]@ == "!windows"@,
        flags@[3]@ == "!equivalent"@,
{
    let mut flags: Vec<&'static str> = Vec::new();
    flags.push("!tui");
    flags.push("!concurrent");
    if target_is_windows() {
        flags.push("windows");
    } else {
        flags.push("!windows");
    }
    flags.push("!equivalent");
    flags
}

/// The count carried by an argument `--run-<n>-at-a-time`, when the argument
/// has that shape: the text between the prefix and the suffix.
pub open spec fn run_count_text(arg: Seq<char>) -> Option<Seq<char>> {
    if seq_starts_with(arg, "--run-"@) && arg.len() >= 6 + 10 && arg.subrange(
        arg.len() - 10,
        arg.len() as int,
    ) == "-at-a-time"@ {
        Some(arg.subrange(6, arg.len() - 10))
    } else {
        None
    }
}

/// The arguments after dropping a leading `e` subcommand (at index 1).
pub open spec fn without_e(args: Seq<Seq<char>>) -> Seq<Seq<char>> {
    if args.len() > 1 && args[1] == "e"@ {
        args.remove(1)
    } else {
        args
    }
}

/// The arguments kept by `custom_cli`: those that are not `--run-<n>-at-a-time`.
pub open spec fn kept_args(args: Seq<Seq<char>>) -> Seq<Seq<char>>
    decreases args.len(),
{
    if args.len() == 0 {
        Seq::empty()
    } else if run_count_text(args.last()) is Some {
        kept_args(args.drop_last())
    } else {
        kept_args(args.drop_last()).push(args.last())
    }
}

/// The last valid `--run-<n>-at-a-time` count among the arguments.
pub open spec fn run_count(args: Seq<Seq<char>>) -> Option<nat>
    decreases args.len(),
{
    if args.len() == 0 {
        None
    } else {
        match run_count_text(args.last()) {
            Some(t) => match parse_unsigned(t, usize::MAX as nat) {
                Ok(n) => Some(n),
                Err(_) => run_count(args.drop_last()),
            },
            None => run_count(args.drop_last()),
        }
    }
}

/// The character views of a sequence of strings.
pub open spec fn views(v: Seq<String>) -> Seq<Seq<char>> {
    v.map_values(|s: String| s@)
}

/// The count text of `--run-<n>-at-a-time`, when `arg` has that shape.
fn run_count_arg(arg: &String) -> (r: Option<String>)
    ensures
        match r {
            Some(t) => run_count_text(arg@) == Some(t@),
            None => run_count_text(arg@) is None,
        },
{
    let v = chars_of(arg.as_str());
    let prefix = chars_of("--run-");
    let suffix = chars_of("-at-a-time");
    proof {
        reveal_strlit("--run-");
        reveal_strlit("-at-a-time");
    }
    if v.len() < 16 {
        return None;
    }
    if !crate::text::occurs_at_exec(&v, &prefix, 0) {
        return None;
    }
    if !crate::text::occurs_at_exec(&v, &suffix, v.len() - 10) {
        return None;
    }
    let mut mid: Vec<char> = Vec::new();
    let mut i: usize = 6;
    while i < v.len() - 10
        invariant
            6 <= i <= v.len() - 10,
            v@ == arg@,
            v.len() >= 16,
            mid@ == arg@.subrange(6, i as int),
        decreases v.len() - 10 - i,
    {
        mid.push(v[i]);
        i = i + 1;
        assert(mid@ =~= arg@.subrange(6, i as int));
    }
    Some(string_from_chars(&mid))
}

/// Drops a leading `e` subcommand and removes the `--run-<n>-at-a-time`
/// arguments, returning the last valid count they carried and the
/// remaining arguments.
pub fn custom_cli(args: &mut Vec<String>) -> (r: (Option<usize>, Vec<String>))
    ensures
        views(final(args)@) == without_e(views(old(args)@)),
        views(r.1@) == kept_args(views(final(args)@)),
        match r.0 {
            Some(n) => run_count(views(final(args)@)) == Some(n as nat),
            None => run_count(views(final(args)@)) is None,
        },
{
    if args.len() > 1 && str_eq_exact(args[1].as_str(), "e") {
        let ghost before = views(args@);
        args.remove(1);
        proof {
            assert(views(args@) =~= before.remove(1));
        }
    } else {
        proof {
            if args@.len() > 1 {
                assert(views(args@)[1] == args@[1]@);
            }
        }
    }
    let mut run_at_a_time: Option<usize> = None;
    let mut filtered: Vec<String> = Vec::new();
    let mut i: usize = 0;
    while i < args.len()
        invariant
            i <= args.len(),
            views(filtered@) == kept_args(views(args@).take(i as int)),
            match run_at_a_time {
                Some(n) => run_count(views(args@).take(i as int)) == Some(n as nat),
                None => run_count(views(args@).take(i as int)) is None,
            },
        decreases args.len() - i,
    {
        let ghost a = views(args@).take(i + 1);
        assert(a.drop_last() == views(args@).take(i as int));
        assert(a.last() == args@[i as int]@);
        match run_count_arg(&args[i]) {
            Some(t) => {
                match parse_usize(t.as_str()) {
                    Ok(n) => {
                        run_at_a_time = Some(n);
                    },
                    Err(_) => {},
                }
            },
            None => {
                let ghost before = views(filtered@);
                filtered.push(args[i].clone());
                assert(views(filtered@) =~= before.push(args@[i as int]@));
            },
        }
        i = i + 1;
    }
    assert(views(args@).take(args.len() as int) == views(args@));
    (run_at_a_time, filtered)
}

/// Exact equality of two strings.
pub fn str_eq_exact(a: &str, b: &str) -> (r: bool)
    ensures
        r == (a@ == b@),
{
    let av = chars_of(a);
    let bv = chars_of(b);
    if av.len() != bv.len() {
        return false;
    }
    let mut i: usize = 0;
    while i < av.len()
        invariant
            i <= av.len(),
            av.len() == bv.len(),
            av@ == a@,
            bv@ == b@,
            forall|k: int| 0 <= k < i ==> a@[k] == b@[k],
        decreases av.len() - i,
    {
        if av[i] != bv[i] {
            return false;
        }
        i = i + 1;
    }
    assert(a@ =~= b@);
    true
}

} // verus!
