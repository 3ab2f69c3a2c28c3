//! The status line shown while a target runs: its place among the targets,
//! its name, when it started and its process id on the left, how long it has
//! run on the right, fitted to the terminal's width.
use vstd::prelude::*;
use crate::bytepos::{byte_count, byte_len, byte_prefix, is_byte_boundary, prefix_bytes};
use crate::fmt::{duration_secs, duration_shown, format_duration};
use crate::render::{painted, paint, underline_after_reset, Hue};
use crate::target::CargoTarget;
use crate::text::{decimal, decimal_chars, push_char, trim_end, trim_end_str, u64_to_padded, u64_to_string, zero_pad};
use std::time::Duration;

verus! {

/// The columns the status line may fill: the terminal's 80 less one.
pub const STATUS_WIDTH: usize = 79;

/// `<done>of<total>`, each zero-padded to the digits of the larger.
pub open spec fn dims_text(done: nat, total: nat) -> Seq<char> {
    let w = decimal(if done >= total { done } else { total }).len();
    zero_pad(decimal(done), w) + "of"@ + zero_pad(decimal(total), w)
}

/// The left part of the status line, with the name in green and the start
/// time in light cyan.
pub open spec fn status_left(pid: u32, start: Seq<char>, display: Seq<char>, done: nat, total: nat) -> Seq<char> {
    dims_text(done, total) + " | "@ + painted(Hue::Green, display) + " | "@ + painted(Hue::LightCyan, start)
        + " | PID: "@ + decimal(pid as nat)
}

/// The left part of the status line without colours, by which it is measured.
pub open spec fn status_plain(pid: u32, start: Seq<char>, display: Seq<char>, done: nat, total: nat) -> Seq<char> {
    dims_text(done, total) + " | "@ + display + " | "@ + start + " | PID: "@ + decimal(pid as nat)
}

/// The byte offset at which an over-long left part is cut: what the width
/// leaves beside the run time, or nothing.
pub open spec fn status_cut(runtime_text: Seq<char>) -> nat {
    if byte_len(runtime_text) <= STATUS_WIDTH {
        (STATUS_WIDTH - byte_len(runtime_text)) as nat
    } else {
        0
    }
}

/// The status line: empty before the target has started or in its first
/// second; otherwise the left part, spaces up to the width, and the run time
/// underlined; when both parts do not fit, the left part cut at the byte
/// offset that leaves room for the run time, its trailing whitespace
/// removed, then the run time.
pub open spec fn status_line(
    pid: u32,
    start: Option<Seq<char>>,
    runtime: Duration,
    display: Seq<char>,
    done: nat,
    total: nat,
) -> Seq<char> {
    match start {
        None => Seq::empty(),
        Some(st) => if duration_secs(runtime) == 0 {
            Seq::empty()
        } else {
            let rt = duration_shown(runtime);
            let left = status_left(pid, st, display, done, total);
            let used = byte_len(status_plain(pid, st, display, done, total)) + byte_len(rt);
            let right = "\x1b[0m\x1b[4m"@ + rt + "\x1b[0m"@;
            if used > STATUS_WIDTH {
                trim_end(byte_prefix(left, status_cut(rt))) + right
            } else {
                left + Seq::new((STATUS_WIDTH - used) as nat, |i: int| ' ') + right
            }
        },
    }
}

/// The status line can be formed: its lengths fit a `usize`, and when it
/// must be cut, the cut falls on a character boundary of its left part
/// (slicing there would panic otherwise).
pub open spec fn status_formable(
    pid: u32,
    start: Option<Seq<char>>,
    runtime: Duration,
    display: Seq<char>,
    done: nat,
    total: nat,
) -> bool {
    match start {
        None => true,
        Some(st) => duration_secs(runtime) == 0 || {
            let rt = duration_shown(runtime);
            let used = byte_len(status_plain(pid, st, display, done, total)) + byte_len(rt);
            &&& used <= usize::MAX
            &&& used > STATUS_WIDTH ==> is_byte_boundary(status_left(pid, st, display, done, total), status_cut(rt))
        },
    }
}

fn dims_exec(done: usize, total: usize) -> (r: String)
    ensures
        r@ == dims_text(done as nat, total as nat),
{
    let larger = if done >= total { done } else { total };
    let width = decimal_chars(larger as u64).len();
    let mut r = u64_to_padded(done as u64, width);
    r.append("of");
    r.append(u64_to_padded(total as u64, width).as_str());
    r
}

fn left_parts(pid: u32, start: &str, display: &str, done: usize, total: usize) -> (r: (String, String))
    ensures
        r.0@ == status_left(pid, start@, display@, done as nat, total as nat),
        r.1@ == status_plain(pid, start@, display@, done as nat, total as nat),
{
    let dims = dims_exec(done, total);
    let pid_text = u64_to_string(pid as u64);
    let mut left = dims.clone();
    left.append(" | ");
    left.append(paint(Hue::Green, display).as_str());
    left.append(" | ");
    left.append(paint(Hue::LightCyan, start).as_str());
    left.append(" | PID: ");
    left.append(pid_text.as_str());
    let mut plain = dims;
    plain.append(" | ");
    plain.append(display);
    plain.append(" | ");
    plain.append(start);
    plain.append(" | PID: ");
    plain.append(pid_text.as_str());
    (left, plain)
}

/// Whether the status line of a target can be formed (see `status_formable`).
pub fn status_line_formable(
    pid: u32,
    start: &Option<String>,
    runtime: Duration,
    target: &CargoTarget,
    dims: (usize, usize),
) -> (r: bool)
    ensures
        r == status_formable(pid, crate::pattern::opt_view(*start), runtime, target.display_name@, dims.0 as nat, dims.1 as nat),
{
    match start {
        None => true,
        Some(st) => {
            if crate::fmt::duration_as_secs(&runtime) == 0 {
                return true;
            }
            let rt = format_duration(runtime);
            let (left, plain) = left_parts(pid, st.as_str(), target.display_name.as_str(), dims.0, dims.1);
            let pl = byte_count(plain.as_str());
            let rl = byte_count(rt.as_str());
            match (pl, rl) {
                (Some(p), Some(q)) => {
                    if p > usize::MAX - q {
                        return false;
                    }
                    if p + q > STATUS_WIDTH {
                        let cut = if q <= STATUS_WIDTH { STATUS_WIDTH - q } else { 0 };
                        prefix_bytes(left.as_str(), cut).is_some()
                    } else {
                        true
                    }
                },
                _ => false,
            }
        },
    }
}

/// The status line of a running target: its place among `dims.1` targets,
/// its display name, the start time as shown (none before it started) and
/// how long it has run.
pub fn format_process_status(
    pid: u32,
    start: &Option<String>,
    runtime: Duration,
    target: &CargoTarget,
    dims: (usize, usize),
) -> (r: String)
    requires
        status_formable(pid, crate::pattern::opt_view(*start), runtime, target.display_name@, dims.0 as nat, dims.1 as nat),
    ensures
        r@ == status_line(pid, crate::pattern::opt_view(*start), runtime, target.display_name@, dims.0 as nat, dims.1 as nat),
{
    let st = match start {
        None => {
            return String::new();
        },
        Some(s) => s,
    };
    if crate::fmt::duration_as_secs(&runtime) == 0 {
        return String::new();
    }
    let rt = format_duration(runtime);
    let (left, plain) = left_parts(pid, st.as_str(), target.display_name.as_str(), dims.0, dims.1);
    let right = underline_after_reset(rt.as_str());
    let left_len = byte_count(plain.as_str()).unwrap();
    let right_len = byte_count(rt.as_str()).unwrap();
    if left_len + right_len > STATUS_WIDTH {
        let cut = if right_len <= STATUS_WIDTH { STATUS_WIDTH - right_len } else { 0 };
        let kept = prefix_bytes(left.as_str(), cut).unwrap();
        let mut r = trim_end_str(kept.as_str());
        r.append(right.as_str());
        r
    } else {
        let mut r = left;
        let pad = STATUS_WIDTH - (left_len + right_len);
        let ghost base = r@;
        let mut k: usize = 0;
        while k < pad
            invariant
                k <= pad,
                r@ == base + Seq::new(k as nat, |i: int| ' '),
            decreases pad - k,
        {
            push_char(&mut r, ' ');
            k = k + 1;
            assert(r@ =~= base + Seq::new(k as nat, |i: int| ' '));
        }
        r.append(right.as_str());
        r
    }
}

} // verus!
