//! The run report: a table describing the run, then, for each target run, its
//! command, a table of its times and outcome, and tables of its diagnostics.
//! Tables are laid out by the `comfy-table` crate.
use vstd::prelude::*;
use crate::diagnostics::CargoDiagnostic;
use crate::render::{diagnostic_text, uppercase_of, char_to_uppercase};
use crate::text::{decimal, u64_to_string, strings_view, chars_of, seq_starts_with};
use crate::runner::join_spaced;

verus! {

/// The views of a table's rows.
pub open spec fn rows_view(rows: Seq<Vec<String>>) -> Seq<Seq<Seq<char>>> {
    rows.map_values(|r: Vec<String>| strings_view(r@))
}

/// The text `comfy-table` lays out for these rows, in a table of dynamic
/// arrangement and the given width.  The cells carry no styling, so the text
/// depends on the rows and the width alone.
pub uninterp spec fn table_text(rows: Seq<Seq<Seq<char>>>, width: u16) -> Seq<char>;

/// Lays out rows of cells with `comfy-table`: a new table, dynamic content
/// arrangement, the given width, one row per row of cells, rendered to text.
/// The contract names the result.
#[verifier::external_body]
pub(crate) fn render_table(rows: &Vec<Vec<String>>, width: u16) -> (r: String)
    ensures
        r@ == table_text(rows_view(rows@), width),
{
    let mut table = comfy_table::Table::new();
    table.set_content_arrangement(comfy_table::ContentArrangement::Dynamic);
    table.set_width(width);
    for row in rows {
        table.add_row(comfy_table::Row::from(row.iter().map(|c| comfy_table::Cell::new(c)).collect::<Vec<_>>()));
    }
    table.to_string()
}

/// What the report says of the run as a whole.
pub struct ReportMeta {
    pub repo_name: String,
    pub repo_remote: String,
    pub repo_sha: String,
    pub generated_on: String,
    pub version: String,
    pub rustc_version: String,
    pub system_name: String,
    pub system_version: String,
    pub system_long_version: String,
}

/// What the report says of one target's run, its times and exit code already
/// written out.
pub struct ReportEntry {
    pub target_name: String,
    pub cmd: String,
    pub args: Vec<String>,
    pub start_time: String,
    pub end_time: String,
    pub duration: String,
    pub exit_code: String,
    pub success: bool,
    pub diagnostics: Vec<CargoDiagnostic>,
}

/// The rows of the table describing the run.
pub open spec fn meta_rows(m: ReportMeta) -> Seq<Seq<Seq<char>>> {
    seq![
        seq!["Run Report"@, m.repo_name@ + " ("@ + m.repo_remote@ + " "@ + m.repo_sha@ + ")"@],
        seq!["generated on"@, m.generated_on@],
        seq!["cargo-e version"@, m.version@],
        seq!["rustc version"@, m.rustc_version@],
        seq!["system info"@, m.system_name@ + " - "@ + m.system_version@ + " - "@ + m.system_long_version@],
    ]
}

/// The rows of the table of one target's run.
pub open spec fn entry_rows(e: ReportEntry) -> Seq<Seq<Seq<char>>> {
    seq![
        seq![e.target_name@],
        seq!["Start Time"@, e.start_time@],
        seq!["End Time"@, e.end_time@],
        seq!["Duration"@, e.duration@],
        seq!["Exit Code"@, e.exit_code@],
        seq!["Success"@, if e.success { "Yes"@ } else { "No"@ }],
    ]
}

/// A diagnostic's row in the diagnostics table: its level's initial in upper
/// case with its number, its location, its error code, its message.
pub open spec fn diag_row(d: CargoDiagnostic) -> Seq<Seq<char>> {
    let initial = if d.level@.len() > 0 { uppercase_of(d.level@[0]) } else { uppercase_of('\0') };
    let number = match d.diag_number {
        Some(n) => n as nat,
        None => 0,
    };
    seq![
        initial + decimal(number),
        d.lineref@,
        match d.error_code {
            Some(c) => c@,
            None => "-"@,
        },
        d.message@,
    ]
}

/// A diagnostic shown without colour.
pub open spec fn uncoloured(d: CargoDiagnostic) -> CargoDiagnostic {
    CargoDiagnostic { uses_color: false, ..d }
}

/// The part of the report for one target's diagnostics: the table of them
/// and the table of their full uncoloured forms; nothing without diagnostics.
pub open spec fn diagnostics_section(d: Seq<CargoDiagnostic>) -> Seq<char> {
    if d.len() == 0 {
        Seq::empty()
    } else {
        table_text(seq![seq!["Level"@, "Lineref"@, "Error Code"@, "Message"@]] + d.map_values(|x: CargoDiagnostic| diag_row(x)), 100)
            + "\n"@ + table_text(d.map_values(|x: CargoDiagnostic| seq![diagnostic_text(uncoloured(x))]), 100)
            + "\n\n"@
    }
}

/// The part of the report for the `i`-th target run (counting from one).
pub open spec fn entry_section(i: nat, e: ReportEntry) -> Seq<char> {
    "## "@ + decimal(i) + ". "@ + e.target_name@ + "\n\n"@ + e.cmd@ + " "@ + join_spaced(strings_view(e.args@))
        + "\n"@ + table_text(entry_rows(e), 100) + "\n\n"@ + diagnostics_section(e.diagnostics@)
}

/// The sections of the first `n` target runs.
pub open spec fn entry_sections(es: Seq<ReportEntry>, n: int) -> Seq<char>
    decreases n,
{
    if n <= 0 {
        Seq::empty()
    } else {
        entry_sections(es, n - 1) + entry_section(n as nat, es[n - 1])
    }
}

/// The whole report.
pub open spec fn report_text(m: ReportMeta, es: Seq<ReportEntry>) -> Seq<char> {
    table_text(meta_rows(m), 80) + "\n\n"@ + entry_sections(es, es.len() as int)
}

fn push_row(rows: &mut Vec<Vec<String>>, row: Vec<String>)
    ensures
        rows_view(final(rows)@) == rows_view(old(rows)@).push(strings_view(row@)),
{
    rows.push(row);
    assert(rows_view(rows@) =~= rows_view(old(rows)@).push(strings_view(row@)));
}

fn two(a: &str, b: String) -> (r: Vec<String>)
    ensures
        strings_view(r@) == seq![a@, b@],
{
    let mut r: Vec<String> = Vec::new();
    r.push(String::from_str(a));
    r.push(b);
    assert(strings_view(r@) =~= seq![a@, b@]);
    r
}

fn meta_table(m: &ReportMeta) -> (r: Vec<Vec<String>>)
    ensures
        rows_view(r@) == meta_rows(*m),
{
    let mut rows: Vec<Vec<String>> = Vec::new();
    let mut run = m.repo_name.clone();
    run.append(" (");
    run.append(m.repo_remote.as_str());
    run.append(" ");
    run.append(m.repo_sha.as_str());
    run.append(")");
    push_row(&mut rows, two("Run Report", run));
    push_row(&mut rows, two("generated on", m.generated_on.clone()));
    push_row(&mut rows, two("cargo-e version", m.version.clone()));
    push_row(&mut rows, two("rustc version", m.rustc_version.clone()));
    let mut sys = m.system_name.clone();
    sys.append(" - ");
    sys.append(m.system_version.as_str());
    sys.append(" - ");
    sys.append(m.system_long_version.as_str());
    push_row(&mut rows, two("system info", sys));
    assert(rows_view(rows@) =~= meta_rows(*m));
    rows
}

fn entry_table(e: &ReportEntry) -> (r: Vec<Vec<String>>)
    ensures
        rows_view(r@) == entry_rows(*e),
{
    let mut rows: Vec<Vec<String>> = Vec::new();
    let mut first: Vec<String> = Vec::new();
    first.push(e.target_name.clone());
    assert(strings_view(first@) =~= seq![e.target_name@]);
    push_row(&mut rows, first);
    push_row(&mut rows, two("Start Time", e.start_time.clone()));
    push_row(&mut rows, two("End Time", e.end_time.clone()));
    push_row(&mut rows, two("Duration", e.duration.clone()));
    push_row(&mut rows, two("Exit Code", e.exit_code.clone()));
    push_row(&mut rows, two("Success", if e.success { String::from_str("Yes") } else { String::from_str("No") }));
    assert(rows_view(rows@) =~= entry_rows(*e));
    rows
}

fn diagnostic_row(d: &CargoDiagnostic) -> (r: Vec<String>)
    ensures
        strings_view(r@) == diag_row(*d),
{
    let lv = chars_of(d.level.as_str());
    let mut first = if lv.len() > 0 { char_to_uppercase(lv[0]) } else { char_to_uppercase('\0') };
    let number: usize = match d.diag_number {
        Some(n) => n,
        None => 0,
    };
    first.append(u64_to_string(number as u64).as_str());
    let mut r: Vec<String> = Vec::new();
    r.push(first);
    r.push(d.lineref.clone());
    r.push(match &d.error_code {
        Some(c) => c.clone(),
        None => String::from_str("-"),
    });
    r.push(d.message.clone());
    assert(strings_view(r@) =~= diag_row(*d));
    r
}

fn diagnostics_text(ds: &Vec<CargoDiagnostic>) -> (r: String)
    ensures
        r@ == diagnostics_section(ds@),
{
    if ds.len() == 0 {
        return String::new();
    }
    let mut rows: Vec<Vec<String>> = Vec::new();
    let mut header: Vec<String> = Vec::new();
    header.push(String::from_str("Level"));
    header.push(String::from_str("Lineref"));
    header.push(String::from_str("Error Code"));
    header.push(String::from_str("Message"));
    assert(strings_view(header@) =~= seq!["Level"@, "Lineref"@, "Error Code"@, "Message"@]);
    push_row(&mut rows, header);
    let mut details: Vec<Vec<String>> = Vec::new();
    let ghost h = seq![seq!["Level"@, "Lineref"@, "Error Code"@, "Message"@]];
    let ghost all_rows = ds@.map_values(|x: CargoDiagnostic| diag_row(x));
    let ghost all_details = ds@.map_values(|x: CargoDiagnostic| seq![diagnostic_text(uncoloured(x))]);
    assert(rows_view(rows@) =~= h + all_rows.take(0));
    assert(rows_view(details@) =~= all_details.take(0));
    let mut i: usize = 0;
    while i < ds.len()
        invariant
            i <= ds.len(),
            all_rows == ds@.map_values(|x: CargoDiagnostic| diag_row(x)),
            all_details == ds@.map_values(|x: CargoDiagnostic| seq![diagnostic_text(uncoloured(x))]),
            rows_view(rows@) == h + all_rows.take(i as int),
            rows_view(details@) == all_details.take(i as int),
        decreases ds.len() - i,
    {
        let d = &ds[i];
        push_row(&mut rows, diagnostic_row(d));
        let mut plain = d.duplicate();
        plain.uses_color = false;
        assert(plain == uncoloured(ds@[i as int]));
        let mut one: Vec<String> = Vec::new();
        one.push(plain.render());
        assert(strings_view(one@) =~= all_details[i as int]);
        push_row(&mut details, one);
        i = i + 1;
        assert(rows_view(rows@) =~= h + all_rows.take(i as int));
        assert(rows_view(details@) =~= all_details.take(i as int));
    }
    assert(all_rows.take(ds.len() as int) =~= all_rows);
    assert(all_details.take(ds.len() as int) =~= all_details);
    let mut out = render_table(&rows, 100);
    out.append("\n");
    out.append(render_table(&details, 100).as_str());
    out.append("\n\n");
    out
}

fn entry_text(i: usize, e: &ReportEntry) -> (r: String)
    ensures
        r@ == entry_section(i as nat, *e),
{
    let mut out = String::from_str("## ");
    out.append(u64_to_string(i as u64).as_str());
    out.append(". ");
    out.append(e.target_name.as_str());
    out.append("\n\n");
    out.append(crate::runner::command_line(e.cmd.as_str(), &e.args).as_str());
    out.append("\n");
    out.append(render_table(&entry_table(e), 100).as_str());
    out.append("\n\n");
    out.append(diagnostics_text(&e.diagnostics).as_str());
    out
}

/// The run report for the targets run, in order.
pub fn generate_comfy_report(meta: &ReportMeta, results: &Vec<ReportEntry>) -> (r: String)
    ensures
        r@ == report_text(*meta, results@),
{
    let mut report = render_table(&meta_table(meta), 80);
    report.append("\n\n");
    let ghost head = report@;
    let mut i: usize = 0;
    while i < results.len()
        invariant
            i <= results.len(),
            report@ == head + entry_sections(results@, i as int),
        decreases results.len() - i,
    {
        report.append(entry_text(i + 1, &results[i]).as_str());
        i = i + 1;
    }
    report
}

/// The run report in the form saved to a file; it is the same report as
/// `generate_comfy_report` gives.
pub fn generate_markdown_report(meta: &ReportMeta, results: &Vec<ReportEntry>) -> (r: String)
    ensures
        r@ == report_text(*meta, results@),
{
    generate_comfy_report(meta, results)
}

/// The name of a repository from its remote URL: the last segment of the
/// URL without its `.git` ending, or "Unknown" where it has none.
pub open spec fn repo_name_of(remote: Seq<char>) -> Seq<char> {
    let last = last_segment(remote);
    if last.len() >= 4 && last.subrange(last.len() - 4, last.len() as int) == ".git"@ {
        last.subrange(0, last.len() - 4)
    } else {
        "Unknown"@
    }
}

/// The text after the last `/`, or all of it.
pub open spec fn last_segment(s: Seq<char>) -> Seq<char>
    decreases s.len(),
{
    if s.len() == 0 {
        s
    } else if s.last() == '/' {
        Seq::empty()
    } else {
        last_segment(s.drop_last()).push(s.last())
    }
}

/// The repository name in a remote URL.
pub fn repo_name_from_remote(remote: &str) -> (r: String)
    ensures
        r@ == repo_name_of(remote@),
{
    let v = chars_of(remote);
    let mut start: usize = 0;
    let mut i: usize = 0;
    while i < v.len()
        invariant
            v@ == remote@,
            start <= i <= v.len(),
            last_segment(remote@.take(i as int)) == remote@.subrange(start as int, i as int),
        decreases v.len() - i,
    {
        assert(remote@.take(i + 1).drop_last() == remote@.take(i as int));
        if v[i] == '/' {
            start = i + 1;
        }
        i = i + 1;
        assert(last_segment(remote@.take(i as int)) =~= remote@.subrange(start as int, i as int));
    }
    assert(remote@.take(v.len() as int) == remote@);
    let n = v.len() - start;
    proof {
        reveal_strlit(".git");
    }
    if n >= 4 && v[v.len() - 4] == '.' && v[v.len() - 3] == 'g' && v[v.len() - 2] == 'i' && v[v.len() - 1] == 't' {
        let mut r = String::new();
        let mut k: usize = start;
        while k < v.len() - 4
            invariant
                v@ == remote@,
                start <= k <= v.len() - 4,
                r@ == remote@.subrange(start as int, k as int),
            decreases v.len() - 4 - k,
        {
            crate::text::push_char(&mut r, v[k]);
            k = k + 1;
            assert(r@ == remote@.subrange(start as int, k as int));
        }
        let ghost last = remote@.subrange(start as int, v.len() as int);
        assert(last.subrange(last.len() - 4, last.len() as int) =~= ".git"@);
        assert(last.subrange(0, last.len() - 4) =~= r@);
        r
    } else {
        proof {
            let last = remote@.subrange(start as int, v.len() as int);
            if last.len() >= 4 && last.subrange(last.len() - 4, last.len() as int) == ".git"@ {
                assert(last.subrange(last.len() - 4, last.len() as int)[0] == '.');
                assert(last.subrange(last.len() - 4, last.len() as int)[1] == 'g');
                assert(last.subrange(last.len() - 4, last.len() as int)[2] == 'i');
                assert(last.subrange(last.len() - 4, last.len() as int)[3] == 't');
            }
        }
        String::from_str("Unknown")
    }
}

} // verus!
