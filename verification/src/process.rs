//! Bookkeeping for running processes: signal times, Ctrl+C handling and the
//! decisions of the run-all loop.
use vstd::prelude::*;
use crate::cli::RunAll;
use std::time::{Duration, SystemTime};

verus! {

/// The time elapsed from `earlier` to `later`, as `SystemTime::duration_since`
/// gives it (`None` when `later` is earlier).
pub uninterp spec fn duration_between(later: SystemTime, earlier: SystemTime) -> Option<Duration>;

/// Calls `SystemTime::now`. Nothing is stated of the result: it is the clock.
#[verifier::external_body]
fn system_now() -> SystemTime {
    SystemTime::now()
}

/// Calls `SystemTime::duration_since`, keeping the `Ok` value.
#[verifier::external_body]
fn elapsed_between(later: SystemTime, earlier: SystemTime) -> (r: Option<Duration>)
    ensures
        r == duration_between(later, earlier),
{
    later.duration_since(earlier).ok()
}

/// Answers about the signals received so far.
pub trait SignalTimeTracker {
    /// The time the last signal was received, if any.
    fn last_signal_time(&self) -> Option<SystemTime>;

    /// The time between the last two signals, if at least two were received.
    fn time_between_signals(&self) -> Option<Duration>;
}

/// The times at which signals were received, oldest first.
pub struct SignalTimes {
    times: Vec<SystemTime>,
}

impl View for SignalTimes {
    type V = Seq<SystemTime>;

    closed spec fn view(&self) -> Seq<SystemTime> {
        self.times@
    }
}

impl SignalTimes {
    /// No signals received yet.
    pub fn new() -> (r: Self)
        ensures
            r@.len() == 0,
    {
        SignalTimes { times: Vec::new() }
    }

    /// Records that a signal was received now.
    pub fn record_signal(&mut self)
        ensures
            final(self)@.len() == old(self)@.len() + 1,
            final(self)@.take(old(self)@.len() as int) == old(self)@,
    {
        let now = system_now();
        self.times.push(now);
        assert(self@.take(old(self)@.len() as int) =~= old(self)@);
    }
}

impl SignalTimeTracker for SignalTimes {
    fn last_signal_time(&self) -> (r: Option<SystemTime>)
        ensures
            r == (if self@.len() > 0 { Some(self@.last()) } else { None }),
    {
        if self.times.len() > 0 {
            Some(self.times[self.times.len() - 1])
        } else {
            None
        }
    }

    fn time_between_signals(&self) -> (r: Option<Duration>)
        ensures
            r == (if self@.len() >= 2 {
                duration_between(self@[self@.len() - 1], self@[self@.len() - 2])
            } else {
                None
            }),
    {
        let n = self.times.len();
        if n >= 2 {
            elapsed_between(self.times[n - 1], self.times[n - 2])
        } else {
            None
        }
    }
}

/// Restores the terminal cursor when it goes out of scope; without the
/// terminal UI there is nothing to restore.
pub struct CursorGuard;

/// How many times Ctrl+C was pressed without a process being stopped.
pub struct CtrlCState {
    pub count: usize,
}

/// Clears the Ctrl+C count.
pub fn reset_ctrl_c_count(state: &mut CtrlCState)
    ensures
        final(state).count == 0,
{
    state.count = 0;
}

/// What to do after a Ctrl+C press.
#[derive(Debug, Clone, Copy, PartialEq, Eq, Structural)]
pub enum CtrlCAction {
    /// A process was stopped; the count starts over.
    Stopped,
    /// The third press with nothing stopped: exit.
    Exit,
    /// The second press with nothing stopped: one more exits.
    WarnOneMore,
    /// Nothing was stopped; the press count is reported.
    Counted(usize),
}

/// Counts a Ctrl+C press given whether a process was stopped by it.
pub fn ctrl_c_pressed(state: &mut CtrlCState, stopped: bool) -> (r: CtrlCAction)
    requires
        old(state).count < usize::MAX,
    ensures
        stopped ==> r == CtrlCAction::Stopped && final(state).count == 0,
        !stopped ==> final(state).count == old(state).count + 1,
        !stopped ==> r == (if old(state).count + 1 == 3 {
            CtrlCAction::Exit
        } else if old(state).count + 1 == 2 {
            CtrlCAction::WarnOneMore
        } else {
            CtrlCAction::Counted((old(state).count + 1) as usize)
        }),
{
    let count = state.count + 1;
    state.count = count;
    if stopped {
        reset_ctrl_c_count(state);
        return CtrlCAction::Stopped;
    }
    if count == 3 {
        CtrlCAction::Exit
    } else if count == 2 {
        CtrlCAction::WarnOneMore
    } else {
        CtrlCAction::Counted(count)
    }
}

/// The seconds each target may run in run-all mode: the given timeout, the
/// largest number for "forever", or the wait time when the flag was not given.
pub fn run_all_timeout_secs(run_all: RunAll, wait: u64) -> (r: u64)
    ensures
        r == (match run_all {
            RunAll::Timeout(secs) => secs,
            RunAll::Forever => u64::MAX,
            RunAll::NotSpecified => wait,
        }),
{
    match run_all {
        RunAll::Timeout(secs) => secs,
        RunAll::Forever => u64::MAX,
        RunAll::NotSpecified => wait,
    }
}

/// The signals sent, in turn, to a process that is asked to stop.
#[derive(Debug, Clone, Copy, PartialEq, Eq, Structural)]
pub enum KillSignal {
    Hangup,
    Interrupt,
    Quit,
    Abort,
    Kill,
    Alarm,
    Terminate,
}

/// The `k`-th signal of the escalation: hang-up, interrupt, quit, abort,
/// kill, alarm, terminate.
pub open spec fn escalation(k: nat) -> Option<KillSignal> {
    if k == 0 {
        Some(KillSignal::Hangup)
    } else if k == 1 {
        Some(KillSignal::Interrupt)
    } else if k == 2 {
        Some(KillSignal::Quit)
    } else if k == 3 {
        Some(KillSignal::Abort)
    } else if k == 4 {
        Some(KillSignal::Kill)
    } else if k == 5 {
        Some(KillSignal::Alarm)
    } else if k == 6 {
        Some(KillSignal::Terminate)
    } else {
        None
    }
}

/// What a look at a process being stopped found.
#[derive(Debug, Clone, Copy, PartialEq, Eq, Structural)]
pub enum KillObservation {
    /// It has exited.
    Exited,
    /// It is still running.
    Running,
    /// Its state could not be read (its handle was busy, or the check failed).
    Unreadable,
}

/// The next step in stopping a process.
#[derive(Debug, Clone, Copy, PartialEq, Eq, Structural)]
pub enum KillStep {
    /// Stop trying; `true` when the process was seen to exit.
    Done(bool),
    /// Send this signal, then look again.
    Send(KillSignal),
}

/// The step after `attempts` signals were sent and the process was found as
/// `seen`: done once it has exited, given up when it cannot be read or every
/// signal was sent, otherwise the next signal of the escalation.
pub open spec fn kill_step_spec(attempts: nat, seen: KillObservation) -> KillStep {
    if escalation(attempts) is None {
        KillStep::Done(false)
    } else {
        match seen {
            KillObservation::Exited => KillStep::Done(true),
            KillObservation::Unreadable => KillStep::Done(false),
            KillObservation::Running => KillStep::Send(escalation(attempts)->0),
        }
    }
}

/// Decides the next step in stopping a process.
pub fn kill_step(attempts: usize, seen: KillObservation) -> (r: KillStep)
    ensures
        r == kill_step_spec(attempts as nat, seen),
{
    let signal = if attempts == 0 {
        KillSignal::Hangup
    } else if attempts == 1 {
        KillSignal::Interrupt
    } else if attempts == 2 {
        KillSignal::Quit
    } else if attempts == 3 {
        KillSignal::Abort
    } else if attempts == 4 {
        KillSignal::Kill
    } else if attempts == 5 {
        KillSignal::Alarm
    } else if attempts == 6 {
        KillSignal::Terminate
    } else {
        return KillStep::Done(false);
    };
    match seen {
        KillObservation::Exited => KillStep::Done(true),
        KillObservation::Unreadable => KillStep::Done(false),
        KillObservation::Running => KillStep::Send(signal),
    }
}

/// A process that keeps running is sent each signal of the escalation once,
/// in order, and then given up on: no more than seven signals are sent.
pub proof fn lemma_kill_escalates(attempts: nat)
    ensures
        attempts < 7 ==> kill_step_spec(attempts, KillObservation::Running) == KillStep::Send(escalation(attempts)->0),
        attempts >= 7 ==> kill_step_spec(attempts, KillObservation::Running) == KillStep::Done(false),
        forall|a: nat, b: nat| a < b < 7 ==> escalation(a) != escalation(b),
{
}

} // verus!
