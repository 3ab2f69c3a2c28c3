//! Human-readable rendering of durations and byte counts.
use vstd::prelude::*;
use crate::text::{decimal, zero_pad, decimal_chars, push_char, push_seq, u64_to_padded, u64_to_string, all_digits, count_char, is_digit, parse_unsigned, IntParseFailure, lemma_zero_pad_decimal, lemma_count_non_digit, lemma_count_char_add};
use std::time::Duration;

verus! {

/// The whole seconds of a duration, as `Duration::as_secs` returns them.
pub uninterp spec fn duration_secs(d: Duration) -> u64;

/// The millisecond part of a duration, as `Duration::subsec_millis` returns it.
pub uninterp spec fn duration_subsec_millis(d: Duration) -> u32;

/// Calls `Duration::as_secs`: its result is named `duration_secs(d)`.
#[verifier::external_body]
pub(crate) fn duration_as_secs(d: &Duration) -> (r: u64)
    ensures
        r == duration_secs(*d),
{
    d.as_secs()
}

/// Calls `Duration::subsec_millis`, which the documentation bounds below 1000.
#[verifier::external_body]
fn duration_millis(d: &Duration) -> (r: u32)
    ensures
        r == duration_subsec_millis(*d),
        r < 1000,
{
    d.subsec_millis()
}

/// Two-digit zero-padded decimal.
pub open spec fn pad2(n: nat) -> Seq<char> {
    zero_pad(decimal(n), 2)
}

/// Three-digit zero-padded decimal.
pub open spec fn pad3(n: nat) -> Seq<char> {
    zero_pad(decimal(n), 3)
}

/// `HH:MM:SS.mmm`, `MM:SS.mmm` or `SS.mmm`, dropping leading zero fields.
pub open spec fn duration_text(secs: nat, millis: nat) -> Seq<char> {
    let hours = secs / 3600;
    let minutes = (secs % 3600) / 60;
    let seconds = secs % 60;
    if hours > 0 {
        pad2(hours) + seq![':'] + pad2(minutes) + seq![':'] + pad2(seconds) + seq!['.'] + pad3(millis)
    } else if minutes > 0 {
        pad2(minutes) + seq![':'] + pad2(seconds) + seq!['.'] + pad3(millis)
    } else {
        pad2(seconds) + seq!['.'] + pad3(millis)
    }
}

/// The `:`-separated fields of a duration's text: hours, minutes and
/// seconds, leaving out leading fields that are zero.
pub open spec fn duration_fields(secs: nat) -> Seq<Seq<char>> {
    let hours = secs / 3600;
    let minutes = (secs % 3600) / 60;
    let seconds = secs % 60;
    if hours > 0 {
        seq![pad2(hours), pad2(minutes), pad2(seconds)]
    } else if minutes > 0 {
        seq![pad2(minutes), pad2(seconds)]
    } else {
        seq![pad2(seconds)]
    }
}

/// The values the fields stand for, read as base-60 digits, first field first.
pub open spec fn base60(values: Seq<nat>) -> nat
    decreases values.len(),
{
    if values.len() == 0 {
        0
    } else {
        base60(values.drop_last()) * 60 + values.last()
    }
}

/// Fields joined by `:`.
pub open spec fn join_colons(f: Seq<Seq<char>>) -> Seq<char>
    decreases f.len(),
{
    if f.len() <= 1 {
        if f.len() == 0 { Seq::empty() } else { f[0] }
    } else {
        join_colons(f.drop_last()) + seq![':'] + f.last()
    }
}

/// What `str::parse::<u64>` reads a field as.
pub open spec fn field_value(f: Seq<char>) -> Result<nat, IntParseFailure> {
    parse_unsigned(f, u64::MAX as nat)
}

proof fn lemma_pad_field(n: nat, width: nat)
    requires
        n <= u64::MAX,
        width == 2 || width == 3,
    ensures
        field_value(zero_pad(decimal(n), width)) == Ok::<nat, IntParseFailure>(n),
        all_digits(zero_pad(decimal(n), width)),
        zero_pad(decimal(n), width).len() >= width,
        (width == 2 && n < 100) ==> zero_pad(decimal(n), width).len() == 2,
        (width == 3 && n < 1000) ==> zero_pad(decimal(n), width).len() == 3,
{
    lemma_zero_pad_decimal(n, width, u64::MAX as nat);
    assert(is_digit(zero_pad(decimal(n), width)[0]));
}

/// The shape of a rendered duration: its `:`-separated fields, then `.` and
/// three digits of milliseconds. There are three fields from an hour up, two
/// from a minute up and one below; so two, one or no `:`. Every field is
/// digits, at least two; those after the first are exactly two and below 60;
/// read as base-60 digits they give the seconds back, and the last three
/// digits read as the milliseconds.
pub proof fn lemma_duration_text_shape(secs: u64, millis: u32)
    requires
        millis < 1000,
    ensures
        duration_text(secs as nat, millis as nat) == join_colons(duration_fields(secs as nat)) + seq!['.'] + pad3(
            millis as nat,
        ),
        duration_fields(secs as nat).len() == if secs >= 3600 { 3nat } else if secs >= 60 { 2nat } else { 1nat },
        count_char(duration_text(secs as nat, millis as nat), ':') == duration_fields(secs as nat).len() - 1,
        forall|i: int| 0 <= i < duration_fields(secs as nat).len() ==> all_digits(#[trigger] duration_fields(secs as nat)[i])
            && duration_fields(secs as nat)[i].len() >= 2,
        forall|i: int| 1 <= i < duration_fields(secs as nat).len() ==> (#[trigger] duration_fields(secs as nat)[i]).len() == 2,
        exists|values: Seq<nat>| {
            &&& values.len() == duration_fields(secs as nat).len()
            &&& forall|i: int| 0 <= i < values.len() ==> field_value(#[trigger] duration_fields(secs as nat)[i]) == Ok::<nat, IntParseFailure>(values[i])
            &&& forall|i: int| 1 <= i < values.len() ==> #[trigger] values[i] < 60
            &&& base60(values) == secs
        },
        pad3(millis as nat).len() == 3,
        all_digits(pad3(millis as nat)),
        field_value(pad3(millis as nat)) == Ok::<nat, IntParseFailure>(millis as nat),
{
    let n = secs as nat;
    let h = n / 3600;
    let m = (n % 3600) / 60;
    let sec = n % 60;
    lemma_pad_field(h, 2);
    lemma_pad_field(m, 2);
    lemma_pad_field(sec, 2);
    lemma_pad_field(millis as nat, 3);
    let f = duration_fields(n);
    let tail = seq!['.'] + pad3(millis as nat);
    assert(all_digits(pad3(millis as nat)));
    lemma_count_non_digit(pad3(millis as nat), ':');
    lemma_count_char_add(seq!['.'], pad3(millis as nat), ':');
    assert(count_char(seq!['.'], ':') == 0) by {
        assert(seq!['.'].drop_last() =~= Seq::<char>::empty());
        assert(seq!['.'].last() == '.');
        assert(count_char(Seq::<char>::empty(), ':') == 0);
    }
    assert(count_char(seq![':'], ':') == 1) by {
        assert(seq![':'].drop_last() =~= Seq::<char>::empty());
        assert(seq![':'].last() == ':');
        assert(count_char(Seq::<char>::empty(), ':') == 0);
    }
    lemma_count_non_digit(pad2(h), ':');
    lemma_count_non_digit(pad2(m), ':');
    lemma_count_non_digit(pad2(sec), ':');
    if h > 0 {
        assert(f.drop_last().drop_last() =~= seq![pad2(h)]);
        assert(f.drop_last() =~= seq![pad2(h), pad2(m)]);
        assert(join_colons(seq![pad2(h)]) == pad2(h));
        assert(f.drop_last().last() == pad2(m));
        assert(join_colons(f.drop_last()) == pad2(h) + seq![':'] + pad2(m));
        assert(duration_text(n, millis as nat) =~= join_colons(f) + tail);
        lemma_count_char_add(pad2(h), seq![':'], ':');
        lemma_count_char_add(pad2(h) + seq![':'], pad2(m), ':');
        lemma_count_char_add(pad2(h) + seq![':'] + pad2(m), seq![':'], ':');
        lemma_count_char_add(pad2(h) + seq![':'] + pad2(m) + seq![':'], pad2(sec), ':');
        lemma_count_char_add(join_colons(f), tail, ':');
        let values = seq![h, m, sec];
        assert(values.drop_last() =~= seq![h, m]);
        assert(values.drop_last().drop_last() =~= seq![h]);
        assert(seq![h].drop_last() =~= Seq::<nat>::empty());
        assert(seq![h].last() == h);
        assert(base60(Seq::<nat>::empty()) == 0);
        assert(base60(seq![h]) == h);
        assert(base60(seq![h, m]) == h * 60 + m);
        assert(base60(values) == (h * 60 + m) * 60 + sec);
        assert(values.len() == f.len() && forall|i: int| 0 <= i < values.len() ==> field_value(#[trigger] f[i]) == Ok::<nat, IntParseFailure>(values[i]));
        assert(forall|i: int| 1 <= i < values.len() ==> #[trigger] values[i] < 60);
    } else if m > 0 {
        assert(f.drop_last() =~= seq![pad2(m)]);
        assert(join_colons(seq![pad2(m)]) == pad2(m));
        assert(duration_text(n, millis as nat) =~= join_colons(f) + tail);
        lemma_count_char_add(pad2(m), seq![':'], ':');
        lemma_count_char_add(pad2(m) + seq![':'], pad2(sec), ':');
        lemma_count_char_add(join_colons(f), tail, ':');
        let values = seq![m, sec];
        assert(values.drop_last() =~= seq![m]);
        assert(seq![m].drop_last() =~= Seq::<nat>::empty());
        assert(seq![m].last() == m);
        assert(base60(Seq::<nat>::empty()) == 0);
        assert(base60(seq![m]) == m);
        assert(base60(values) == m * 60 + sec);
        assert(values.len() == f.len() && forall|i: int| 0 <= i < values.len() ==> field_value(#[trigger] f[i]) == Ok::<nat, IntParseFailure>(values[i]));
        assert(forall|i: int| 1 <= i < values.len() ==> #[trigger] values[i] < 60);
    } else {
        assert(duration_text(n, millis as nat) =~= join_colons(f) + tail);
        lemma_count_char_add(join_colons(f), tail, ':');
        let values = seq![sec];
        assert(values.drop_last() =~= Seq::<nat>::empty());
        assert(values.last() == sec);
        assert(base60(Seq::<nat>::empty()) == 0);
        assert(base60(values) == sec);
        assert(values.len() == f.len() && forall|i: int| 0 <= i < values.len() ==> field_value(#[trigger] f[i]) == Ok::<nat, IntParseFailure>(values[i]));
    }
}

/// `<secs>.<mmm> secs`.
pub open spec fn duration_secs_text(secs: nat, millis: nat) -> Seq<char> {
    decimal(secs) + seq!['.'] + pad3(millis) + seq![' ', 's', 'e', 'c', 's']
}

/// Renders whole seconds and milliseconds as `HH:MM:SS.mmm`, `MM:SS.mmm` or `SS.mmm`.
pub fn format_duration_parts(secs: u64, millis: u32) -> (s: String)
    ensures
        s@ == duration_text(secs as nat, millis as nat),
{
    let hours = secs / 3600;
    let minutes = (secs % 3600) / 60;
    let seconds = secs % 60;
    let mut s = String::new();
    if hours > 0 {
        let h = u64_to_padded(hours, 2);
        s.append(h.as_str());
        push_char(&mut s, ':');
        let m = u64_to_padded(minutes, 2);
        s.append(m.as_str());
        push_char(&mut s, ':');
    } else if minutes > 0 {
        let m = u64_to_padded(minutes, 2);
        s.append(m.as_str());
        push_char(&mut s, ':');
    }
    let sec = u64_to_padded(seconds, 2);
    s.append(sec.as_str());
    push_char(&mut s, '.');
    let ms = u64_to_padded(millis as u64, 3);
    s.append(ms.as_str());
    s
}

/// Renders a duration as `HH:MM:SS.mmm`, `MM:SS.mmm` or `SS.mmm`.
pub fn format_duration(duration: Duration) -> (s: String)
    ensures
        s@ == duration_text(duration_secs(duration) as nat, duration_subsec_millis(duration) as nat),
        duration_subsec_millis(duration) < 1000,
{
    let secs = duration_as_secs(&duration);
    let millis = duration_millis(&duration);
    format_duration_parts(secs, millis)
}

/// Renders whole seconds and milliseconds as `<secs>.<mmm> secs`.
pub fn format_duration_secs_parts(secs: u64, millis: u32) -> (s: String)
    ensures
        s@ == duration_secs_text(secs as nat, millis as nat),
{
    let mut s = u64_to_string(secs);
    push_char(&mut s, '.');
    let ms = u64_to_padded(millis as u64, 3);
    s.append(ms.as_str());
    s.append(" secs");
    proof {
        reveal_strlit(" secs");
    }
    s
}

/// Renders a duration as `<secs>.<mmm> secs`.
pub fn format_duration_secs(d: Duration) -> (s: String)
    ensures
        s@ == duration_secs_text(duration_secs(d) as nat, duration_subsec_millis(d) as nat),
        duration_subsec_millis(d) < 1000,
{
    let secs = duration_as_secs(&d);
    let millis = duration_millis(&d);
    format_duration_secs_parts(secs, millis)
}


/// `n / d` rounded to the nearest integer, ties to the even neighbour.
pub open spec fn div_round_even(n: nat, d: nat) -> nat
    recommends
        d > 0,
{
    let q = n / d;
    let r = n % d;
    if 2 * r > d {
        q + 1
    } else if 2 * r == d && q % 2 == 1 {
        q + 1
    } else {
        q
    }
}

/// `bytes / unit` with two decimals: the hundredths, rounded.
pub open spec fn hundredths(bytes: nat, unit: nat) -> nat {
    div_round_even(bytes * 100, unit)
}

/// A count of hundredths rendered as `<int>.<dd>`.
pub open spec fn two_decimals(h: nat) -> Seq<char> {
    decimal(h / 100) + seq!['.'] + pad2(h % 100)
}

/// `B`, `KB`, `MB` or `GB` rendering of a byte count.
pub open spec fn bytes_text(bytes: nat) -> Seq<char> {
    let kb: nat = 1024;
    let mb: nat = 1024 * 1024;
    let gb: nat = 1024 * 1024 * 1024;
    if bytes < kb {
        decimal(bytes) + seq![' ', 'B']
    } else if bytes < mb {
        two_decimals(hundredths(bytes, kb)) + seq![' ', 'K', 'B']
    } else if bytes < gb {
        two_decimals(hundredths(bytes, mb)) + seq![' ', 'M', 'B']
    } else {
        two_decimals(hundredths(bytes, gb)) + seq![' ', 'G', 'B']
    }
}

/// The unit a byte count of at least 1024 is shown in, and its suffix.
pub open spec fn byte_unit(bytes: nat) -> (nat, Seq<char>) {
    if bytes < 1024 * 1024 {
        (1024, " KB"@)
    } else if bytes < 1024 * 1024 * 1024 {
        (1024 * 1024, " MB"@)
    } else {
        (1024 * 1024 * 1024, " GB"@)
    }
}

proof fn lemma_round_even_close(n: nat, d: nat)
    requires
        d > 0,
    ensures
        2 * (div_round_even(n, d) * d - n) <= d,
        2 * (n - div_round_even(n, d) * d) <= d,
{
    let q = n / d;
    let r = n % d;
    assert(n == q * d + r && 0 <= r < d) by (nonlinear_arith)
        requires
            d > 0, q == n / d, r == n % d,
    {
    }
    assert((q + 1) * d == q * d + d) by (nonlinear_arith);
}

/// The shape of a rendered byte count: below 1024 the count itself and
/// ` B`; from there on the count in KB (below 1024²), MB (below 1024³) or GB,
/// as an integer part, `.`, exactly two decimals and the unit, where the
/// hundredths are the count divided by the unit, rounded (within half a
/// hundredth).
pub proof fn lemma_bytes_text_shape(bytes: u64)
    ensures
        bytes < 1024 ==> bytes_text(bytes as nat) == decimal(bytes as nat) + " B"@,
        bytes >= 1024 ==> ({
            let (unit, suffix) = byte_unit(bytes as nat);
            let h = hundredths(bytes as nat, unit);
            &&& bytes_text(bytes as nat) == decimal(h / 100) + seq!['.'] + pad2(h % 100) + suffix
            &&& pad2(h % 100).len() == 2
            &&& all_digits(pad2(h % 100))
            &&& field_value(pad2(h % 100)) == Ok::<nat, IntParseFailure>(h % 100)
            &&& field_value(decimal(h / 100)) == Ok::<nat, IntParseFailure>(h / 100)
            &&& 2 * (h * unit - bytes * 100) <= unit
            &&& 2 * (bytes * 100 - h * unit) <= unit
        }),
{
    let b = bytes as nat;
    reveal_strlit(" B");
    reveal_strlit(" KB");
    reveal_strlit(" MB");
    reveal_strlit(" GB");
    if b >= 1024 {
        let (unit, suffix) = byte_unit(b);
        let h = hundredths(b, unit);
        lemma_round_even_close(b * 100, unit);
        assert(h <= b * 100 + 1) by (nonlinear_arith)
            requires
                2 * (b * 100 - h * unit) <= unit, 2 * (h * unit - b * 100) <= unit, unit >= 1024,
        {
        }
        lemma_pad_field(h % 100, 2);
        crate::text::lemma_parse_decimal(h / 100, u64::MAX as nat);
        assert(bytes_text(b) =~= decimal(h / 100) + seq!['.'] + pad2(h % 100) + suffix);
    }
}

/// `value / unit`, to two decimals, as text.
fn scaled_text(value: u64, unit: u64) -> (s: String)
    requires
        unit > 0,
    ensures
        s@ == two_decimals(hundredths(value as nat, unit as nat)),
{
    let n: u128 = (value as u128) * 100;
    let d: u128 = unit as u128;
    let q: u128 = n / d;
    let r: u128 = n % d;
    let h: u128 = if 2 * r > d {
        q + 1
    } else if 2 * r == d && q % 2 == 1 {
        q + 1
    } else {
        q
    };
    assert(h == hundredths(value as nat, unit as nat));
    assert(h <= (value as u128) * 100 + 1) by (nonlinear_arith)
        requires
            q == n / d, d > 0, h <= q + 1, n == (value as u128) * 100,
    {
    }
    let int_part = (h / 100) as u64;
    let frac = (h % 100) as u64;
    let mut s = u64_to_string(int_part);
    push_char(&mut s, '.');
    let f = u64_to_padded(frac, 2);
    s.append(f.as_str());
    s
}

/// Renders a byte count as `<n> B`, or as KB, MB or GB with two decimals.
pub fn format_bytes(bytes: usize) -> (s: String)
    ensures
        s@ == bytes_text(bytes as nat),
{
    let b = bytes as u64;
    if b < 1024 {
        let mut s = u64_to_string(b);
        s.append(" B");
        proof { reveal_strlit(" B"); }
        s
    } else if b < 1024 * 1024 {
        let mut s = scaled_text(b, 1024);
        s.append(" KB");
        proof { reveal_strlit(" KB"); }
        s
    } else if b < 1024 * 1024 * 1024 {
        let mut s = scaled_text(b, 1024 * 1024);
        s.append(" MB");
        proof { reveal_strlit(" MB"); }
        s
    } else {
        let mut s = scaled_text(b, 1024 * 1024 * 1024);
        s.append(" GB");
        proof { reveal_strlit(" GB"); }
        s
    }
}

/// A duration as `format_duration` renders it.
pub open spec fn duration_shown(d: Duration) -> Seq<char> {
    duration_text(duration_secs(d) as nat, duration_subsec_millis(d) as nat)
}

/// The rule that frames a timing report.
pub open spec fn report_rule() -> Seq<char> {
    "-------------------------------------------------"@
}

/// A line giving a duration when there is one.
pub open spec fn optional_duration_line(label: Seq<char>, d: Option<Duration>) -> Seq<Seq<char>> {
    match d {
        Some(x) => seq![label + duration_shown(x)],
        None => Seq::empty(),
    }
}

/// The timing report of a finished process: when it started, when its build
/// ended and how long the build took, when it ended, the runtime and build
/// durations where known, the total time, and the sizes of its build and
/// runtime output. Times are given as already rendered; a missing build end
/// and a missing total are said so.
pub open spec fn timing_lines(
    started: Seq<char>,
    build_end: Option<(Seq<char>, Duration)>,
    ended: Seq<char>,
    runtime: Option<Duration>,
    build_elapsed: Option<Duration>,
    total: Option<Duration>,
    build_size: nat,
    runtime_size: nat,
) -> Seq<Seq<char>> {
    seq![report_rule(), "Process started at: "@ + started] + match build_end {
        Some((t, d)) => seq!["Build phase ended at: "@ + t, "Build phase elapsed:  "@ + duration_shown(d)],
        None => seq!["No BuildFinished timestamp recorded."@],
    } + seq!["Process ended at:   "@ + ended] + optional_duration_line("Runtime phase elapsed: "@, runtime)
        + optional_duration_line("Build phase elapsed:   "@, build_elapsed) + match total {
        Some(d) => seq!["Total elapsed time:   "@ + duration_shown(d)],
        None => seq!["No total elapsed time available."@],
    } + seq![
        "Build output size:  "@ + bytes_text(build_size) + " ("@ + decimal(build_size) + " bytes)"@,
        "Runtime output size: "@ + bytes_text(runtime_size) + " ("@ + decimal(runtime_size) + " bytes)"@,
        report_rule(),
    ]
}

fn labelled(label: &str, value: &str) -> (r: String)
    ensures
        r@ == label@ + value@,
{
    let mut r = String::from_str(label);
    r.append(value);
    r
}

fn size_line(label: &str, bytes: usize) -> (r: String)
    ensures
        r@ == label@ + bytes_text(bytes as nat) + " ("@ + decimal(bytes as nat) + " bytes)"@,
{
    let mut r = labelled(label, format_bytes(bytes).as_str());
    r.append(" (");
    r.append(u64_to_string(bytes as u64).as_str());
    r.append(" bytes)");
    r
}

/// The timing report of a finished process, line by line.
pub fn timing_report(
    started: &str,
    build_end: &Option<(String, Duration)>,
    ended: &str,
    runtime: Option<Duration>,
    build_elapsed: Option<Duration>,
    total: Option<Duration>,
    build_size: usize,
    runtime_size: usize,
) -> (r: Vec<String>)
    ensures
        crate::text::strings_view(r@) == timing_lines(
            started@,
            match build_end {
                Some((t, d)) => Some((t@, *d)),
                None => None,
            },
            ended@,
            runtime,
            build_elapsed,
            total,
            build_size as nat,
            runtime_size as nat,
        ),
{
    let mut r: Vec<String> = Vec::new();
    r.push(String::from_str("-------------------------------------------------"));
    r.push(labelled("Process started at: ", started));
    match build_end {
        Some((t, d)) => {
            r.push(labelled("Build phase ended at: ", t.as_str()));
            r.push(labelled("Build phase elapsed:  ", format_duration(*d).as_str()));
        },
        None => {
            r.push(String::from_str("No BuildFinished timestamp recorded."));
        },
    }
    r.push(labelled("Process ended at:   ", ended));
    match runtime {
        Some(d) => {
            r.push(labelled("Runtime phase elapsed: ", format_duration(d).as_str()));
        },
        None => {},
    }
    match build_elapsed {
        Some(d) => {
            r.push(labelled("Build phase elapsed:   ", format_duration(d).as_str()));
        },
        None => {},
    }
    match total {
        Some(d) => {
            r.push(labelled("Total elapsed time:   ", format_duration(d).as_str()));
        },
        None => {
            r.push(String::from_str("No total elapsed time available."));
        },
    }
    r.push(size_line("Build output size:  ", build_size));
    r.push(size_line("Runtime output size: ", runtime_size));
    r.push(String::from_str("-------------------------------------------------"));
    let ghost be = match build_end {
        Some((t, d)) => Some((t@, *d)),
        None => None,
    };
    assert(crate::text::strings_view(r@) =~= timing_lines(
        started@,
        be,
        ended@,
        runtime,
        build_elapsed,
        total,
        build_size as nat,
        runtime_size as nat,
    ));
    r
}

} // verus!
