//! Running every selected target in turn: the order they run in, the batches
//! run side by side, how long each may run, and what to do at each look at a
//! running target.
use vstd::prelude::*;
use crate::target::{CargoTarget, TargetKind, lex_order, compare_names, lemma_lex_order_basic, lemma_lex_order_transitive};
use crate::diagnostics::CargoStats;
use std::time::SystemTime;

verus! {

/// The targets whose display name is `k`.
pub open spec fn named(k: Seq<char>) -> spec_fn(CargoTarget) -> bool {
    |t: CargoTarget| t.display_name@ == k
}

/// The targets are in order of display name.
pub open spec fn sorted_by_display(s: Seq<CargoTarget>) -> bool {
    forall|i: int, j: int| 0 <= i < j < s.len() ==> lex_order(#[trigger] s[i].display_name@, #[trigger] s[j].display_name@) <= 0
}

/// `r` holds, for every display name, the targets of `s` with that name in
/// the order they have in `s`.
pub open spec fn same_runs(r: Seq<CargoTarget>, s: Seq<CargoTarget>) -> bool {
    forall|k: Seq<char>| #[trigger] r.filter(named(k)) == s.filter(named(k))
}

proof fn lemma_filter_single(x: CargoTarget, p: spec_fn(CargoTarget) -> bool)
    ensures
        seq![x].filter(p) == (if p(x) { seq![x] } else { Seq::<CargoTarget>::empty() }),
{
    reveal(Seq::filter);
    assert(seq![x].drop_last() =~= Seq::<CargoTarget>::empty());
    assert(Seq::<CargoTarget>::empty().filter(p) =~= Seq::<CargoTarget>::empty());
}

proof fn lemma_filter_none(s: Seq<CargoTarget>, p: spec_fn(CargoTarget) -> bool)
    requires
        forall|i: int| 0 <= i < s.len() ==> !p(#[trigger] s[i]),
    ensures
        s.filter(p) == Seq::<CargoTarget>::empty(),
    decreases s.len(),
{
    reveal(Seq::filter);
    if s.len() > 0 {
        lemma_filter_none(s.drop_last(), p);
        assert(!p(s.last()));
    }
}

/// Inserting `x` where every target before it sorts no later and every target
/// from there on sorts strictly later keeps the runs of each name.
proof fn lemma_insert_runs(r: Seq<CargoTarget>, p: int, x: CargoTarget, k: Seq<char>)
    requires
        0 <= p <= r.len(),
        forall|q: int| p <= q < r.len() ==> lex_order(x.display_name@, #[trigger] r[q].display_name@) < 0,
    ensures
        r.insert(p, x).filter(named(k)) == r.filter(named(k)) + seq![x].filter(named(k)),
{
    let pred = named(k);
    assert(r.insert(p, x) =~= r.take(p) + seq![x] + r.skip(p));
    assert(r =~= r.take(p) + r.skip(p));
    Seq::filter_distributes_over_add(r.take(p) + seq![x], r.skip(p), pred);
    Seq::filter_distributes_over_add(r.take(p), seq![x], pred);
    Seq::filter_distributes_over_add(r.take(p), r.skip(p), pred);
    lemma_filter_single(x, pred);
    if pred(x) {
        assert forall|i: int| 0 <= i < r.skip(p).len() implies !pred(#[trigger] r.skip(p)[i]) by {
            assert(r.skip(p)[i] == r[p + i]);
            lemma_lex_order_basic(x.display_name@, r[p + i].display_name@);
        }
        lemma_filter_none(r.skip(p), pred);
        assert(r.skip(p).filter(pred) =~= Seq::<CargoTarget>::empty());
        assert(r.filter(pred) =~= r.take(p).filter(pred));
        assert(r.insert(p, x).filter(pred) =~= r.take(p).filter(pred) + seq![x]);
    } else {
        assert(seq![x].filter(pred) =~= Seq::<CargoTarget>::empty());
        assert(r.insert(p, x).filter(pred) =~= r.take(p).filter(pred) + r.skip(p).filter(pred));
    }
}

/// The targets in order of display name; targets with the same display name
/// keep the order they had (a stable sort).
pub fn sort_by_display_name(targets: &Vec<CargoTarget>) -> (r: Vec<CargoTarget>)
    ensures
        sorted_by_display(r@),
        same_runs(r@, targets@),
        r@.len() == targets@.len(),
{
    let mut r: Vec<CargoTarget> = Vec::new();
    let mut i: usize = 0;
    proof {
        assert(targets@.take(0) =~= r@);
    }
    while i < targets.len()
        invariant
            i <= targets.len(),
            r@.len() == i,
            sorted_by_display(r@),
            same_runs(r@, targets@.take(i as int)),
        decreases targets.len() - i,
    {
        let x = targets[i].duplicate();
        let mut p: usize = r.len();
        while p > 0 && compare_names(&r[p - 1].display_name, &x.display_name) > 0
            invariant
                p <= r.len(),
                forall|q: int| p <= q < r.len() ==> lex_order(#[trigger] r@[q].display_name@, x.display_name@) > 0,
            decreases p,
        {
            p = p - 1;
        }
        proof {
            assert forall|q: int| p <= q < r@.len() implies lex_order(x.display_name@, #[trigger] r@[q].display_name@) < 0 by {
                lemma_lex_order_basic(r@[q].display_name@, x.display_name@);
            }
            if p > 0 {
                lemma_lex_order_basic(r@[p - 1].display_name@, x.display_name@);
            }
            assert forall|k: Seq<char>| #[trigger] r@.insert(p as int, x).filter(named(k)) == targets@.take(i + 1).filter(named(k)) by {
                lemma_insert_runs(r@, p as int, x, k);
                assert(targets@.take(i + 1) =~= targets@.take(i as int) + seq![x]);
                Seq::filter_distributes_over_add(targets@.take(i as int), seq![x], named(k));
            }
            let n = r@.insert(p as int, x);
            assert forall|a: int, b: int| 0 <= a < b < n.len() implies lex_order(#[trigger] n[a].display_name@, #[trigger] n[b].display_name@) <= 0 by {
                if b < p {
                } else if a < p && b == p {
                    lemma_lex_order_basic(r@[a].display_name@, x.display_name@);
                    if lex_order(r@[a].display_name@, x.display_name@) > 0 {
                        lemma_lex_order_basic(r@[p - 1].display_name@, r@[a].display_name@);
                        if lex_order(r@[a].display_name@, r@[p - 1].display_name@) < 0 {
                            lemma_lex_order_basic(x.display_name@, r@[a].display_name@);
                            lemma_lex_order_transitive(x.display_name@, r@[a].display_name@, r@[p - 1].display_name@);
                            lemma_lex_order_basic(x.display_name@, r@[p - 1].display_name@);
                        } else {
                            lemma_lex_order_basic(r@[a].display_name@, r@[p - 1].display_name@);
                        }
                    }
                } else if a < p && b > p {
                } else if a == p {
                    lemma_lex_order_basic(x.display_name@, r@[b - 1].display_name@);
                } else {
                }
            }
        }
        r.insert(p, x);
        i = i + 1;
    }
    assert(targets@.take(targets.len() as int) == targets@);
    r
}

/// The end of the batch that starts at `start`: `size` targets on, or the
/// end of the list.
pub fn batch_end(start: usize, size: usize, len: usize) -> (r: usize)
    ensures
        r == (if start + size < len { start + size } else { len as int }),
{
    if size < len && start < len - size {
        start + size
    } else {
        len
    }
}

/// When a target's run begins: after its build for a target that cargo
/// compiles first, else when it started.
pub fn runtime_start(stats: &CargoStats) -> (r: Option<SystemTime>)
    ensures
        r == (if stats.is_comiler_target { stats.build_finished_time } else { stats.start_time }),
{
    if stats.is_comiler_target {
        stats.build_finished_time
    } else {
        stats.start_time
    }
}

/// What to do at one look at a running target.
#[derive(Debug, Clone, Copy, PartialEq, Eq, Structural)]
pub enum PollAction {
    /// The process is done: forget it and go on to the next target.
    Finished,
    /// Ctrl+C was pressed twice in quick succession: forget the process and stop running targets.
    Quit,
    /// Ctrl+C was pressed: forget the process and go on to the next target.
    SkipToNext,
    /// The target ran out of time: kill it, forget it, go on.
    TimedOut,
    /// The process ended on its own: forget it and go on.
    EndedNaturally,
    /// Keep waiting; `true` when the run has begun (the longer pause).
    Wait(bool),
}

/// The decision at one look at a running target, given: whether the process
/// has exited, how many Ctrl+C presses are pending and the milliseconds
/// between the last two (if known), whether its run has begun and how many
/// milliseconds it has run, the milliseconds it may run, and whether it has
/// an end time.
pub open spec fn poll_action(
    exited: bool,
    signals: u32,
    between_ms: Option<u64>,
    started: bool,
    ran_ms: u64,
    timeout_ms: u64,
    ended: bool,
) -> PollAction {
    if exited {
        PollAction::Finished
    } else if signals > 0 {
        if signals > 1 && (between_ms matches Some(d) && d < 350) {
            PollAction::Quit
        } else {
            PollAction::SkipToNext
        }
    } else if started {
        if ran_ms >= timeout_ms {
            PollAction::TimedOut
        } else {
            PollAction::Wait(true)
        }
    } else if ended {
        PollAction::EndedNaturally
    } else {
        PollAction::Wait(false)
    }
}

/// Decides what to do at one look at a running target.
pub fn poll_decision(
    exited: bool,
    signals: u32,
    between_ms: Option<u64>,
    started: bool,
    ran_ms: u64,
    timeout_ms: u64,
    ended: bool,
) -> (r: PollAction)
    ensures
        r == poll_action(exited, signals, between_ms, started, ran_ms, timeout_ms, ended),
{
    if exited {
        PollAction::Finished
    } else if signals > 0 {
        let quick = match between_ms {
            Some(d) => d < 350,
            None => false,
        };
        if signals > 1 && quick {
            PollAction::Quit
        } else {
            PollAction::SkipToNext
        }
    } else if started {
        if ran_ms >= timeout_ms {
            PollAction::TimedOut
        } else {
            PollAction::Wait(true)
        }
    } else if ended {
        PollAction::EndedNaturally
    } else {
        PollAction::Wait(false)
    }
}

/// The message printed when a target runs out of time.
pub fn timeout_message(target_name: &str, pid: u32) -> (r: String)
    ensures
        r@ == "\nTimeout reached for target "@ + target_name@ + ". Killing child process "@
            + crate::text::decimal(pid as nat) + "."@,
{
    let mut r = String::from_str("\nTimeout reached for target ");
    r.append(target_name);
    r.append(". Killing child process ");
    r.append(crate::text::u64_to_string(pid as u64).as_str());
    r.append(".");
    r
}


/// The `cargo build` flag that prebuilds a kind, and whether the manifest is
/// named: examples and binaries (the extended ones with their manifest), and
/// tests with their manifest; other kinds are not prebuilt.
pub open spec fn prebuild_flag(k: TargetKind) -> (Seq<char>, bool) {
    match k {
        TargetKind::Example => ("--example"@, false),
        TargetKind::ExtendedExample => ("--example"@, true),
        TargetKind::Binary => ("--bin"@, false),
        TargetKind::ExtendedBinary => ("--bin"@, true),
        TargetKind::Test => ("--test"@, true),
        _ => (Seq::empty(), true),
    }
}

/// The arguments of `cargo` that prebuild a target.
pub open spec fn prebuild_args(t: CargoTarget) -> Seq<Seq<char>> {
    let (flag, manifest) = prebuild_flag(t.kind);
    seq!["build"@, flag, t.name@] + if manifest { seq!["--manifest-path"@, t.manifest_path@] } else { Seq::empty() }
}

/// The prebuild commands for the targets: one per target of a kind that is
/// prebuilt, in order; targets of other kinds are passed over.
pub open spec fn prebuild_plan(ts: Seq<CargoTarget>) -> Seq<Seq<Seq<char>>>
    decreases ts.len(),
{
    if ts.len() == 0 {
        Seq::empty()
    } else if prebuild_flag(ts.last().kind).0.len() == 0 {
        prebuild_plan(ts.drop_last())
    } else {
        prebuild_plan(ts.drop_last()).push(prebuild_args(ts.last()))
    }
}

/// The prebuild commands for the targets, as argument lists for `cargo`.
pub fn prebuild_commands(targets: &Vec<CargoTarget>) -> (r: Vec<Vec<String>>)
    ensures
        r@.map_values(|a: Vec<String>| crate::text::strings_view(a@)) == prebuild_plan(targets@),
{
    let mut r: Vec<Vec<String>> = Vec::new();
    let mut i: usize = 0;
    assert(r@.map_values(|a: Vec<String>| crate::text::strings_view(a@)) =~= prebuild_plan(targets@.take(0)));
    while i < targets.len()
        invariant
            i <= targets.len(),
            r@.map_values(|a: Vec<String>| crate::text::strings_view(a@)) == prebuild_plan(targets@.take(i as int)),
        decreases targets.len() - i,
    {
        let t = &targets[i];
        proof {
            assert(targets@.take(i + 1).drop_last() =~= targets@.take(i as int));
            assert(targets@.take(i + 1).last() == targets@[i as int]);
        }
        let (flag, manifest): (&str, bool) = match t.kind {
            TargetKind::Example => ("--example", false),
            TargetKind::ExtendedExample => ("--example", true),
            TargetKind::Binary => ("--bin", false),
            TargetKind::ExtendedBinary => ("--bin", true),
            TargetKind::Test => ("--test", true),
            _ => ("", true),
        };
        proof {
            reveal_strlit("");
            reveal_strlit("--example");
            reveal_strlit("--bin");
            reveal_strlit("--test");
        }
        if flag.is_empty() {
            proof {
                assert(""@ =~= Seq::<char>::empty());
            }
        } else {
            let mut args: Vec<String> = Vec::new();
            args.push(String::from_str("build"));
            args.push(String::from_str(flag));
            args.push(t.name.clone());
            if manifest {
                args.push(String::from_str("--manifest-path"));
                args.push(t.manifest_path.clone());
            }
            assert(crate::text::strings_view(args@) =~= prebuild_args(targets@[i as int]));
            let ghost before = r@.map_values(|a: Vec<String>| crate::text::strings_view(a@));
            r.push(args);
            assert(r@.map_values(|a: Vec<String>| crate::text::strings_view(a@)) =~= before.push(
                prebuild_args(targets@[i as int]),
            ));
        }
        i = i + 1;
    }
    assert(targets@.take(targets.len() as int) == targets@);
    r
}

/// The `RUSTFLAGS` value to set in quiet mode: `-Awarnings` added to the
/// current flags (alone when they are blank), unless already there.
pub open spec fn quiet_flags(quiet: bool, current: Seq<char>) -> Option<Seq<char>> {
    if quiet && !crate::text::seq_contains(current, "-Awarnings"@) {
        if crate::text::trim(current).len() == 0 {
            Some("-Awarnings"@)
        } else {
            Some(current + " -Awarnings"@)
        }
    } else {
        None
    }
}

/// The `RUSTFLAGS` value to set for quiet mode, if it must change.
pub fn quiet_rustflags(quiet: bool, current: &str) -> (r: Option<String>)
    ensures
        crate::pattern::opt_view(r) == quiet_flags(quiet, current@),
{
    if quiet && !crate::text::str_contains(current, "-Awarnings") {
        if crate::text::is_blank(current) {
            Some(String::from_str("-Awarnings"))
        } else {
            let mut flags = String::from_str(current);
            flags.append(" -Awarnings");
            Some(flags)
        }
    } else {
        None
    }
}

} // verus!
