use cargo_e::diagnostics::CargoDiagnostic;
use cargo_e::render::{compact_lines, exact_lines, process_exact_lines, process_summary_lines, short_lines, split_lines};

fn plain(level: &str, lineref: &str, message: &str, n: usize) -> CargoDiagnostic {
    CargoDiagnostic::new(lineref.to_string(), level.to_string(), message.to_string(), None, None, None, None, false, Some(n), Some(2))
}

#[test]
fn lines_split_like_str_lines() {
    assert_eq!(split_lines("a\r\nb\n\nc\n"), vec!["a", "b", "", "c"]);
    assert!(split_lines("").is_empty());
    assert_eq!(split_lines("x\r"), vec!["x\r"]);
}

#[test]
fn plain_rendering_of_a_warning() {
    let mut d = plain("warning", "src/main.rs:2:9", "unused variable: `x`", 1);
    d.note = Some("note: `#[warn(unused_variables)]` on by default".to_string());
    d.help = Some("remove it".to_string());
    assert_eq!(
        d.render(),
        "W01: src/main.rs:2:9 unused variable: `x`: \n  note: #[allow(unused_variables)]\n  remove it "
    );
}

#[test]
fn coloured_rendering_paints_the_tag() {
    let d = CargoDiagnostic::new("a.rs:1:1".to_string(), "error".to_string(), "bad".to_string(), None, None, None, None, true, Some(3), Some(2));
    assert_eq!(d.render(), "\x1b[31mE03:\x1b[0m \x1b[4m\x1b[4ma.rs:1:1\x1b[0m\x1b[0m bad: ");
}

#[test]
fn suggestion_lines_are_renumbered_and_folded() {
    let d = plain("warning", "src/main.rs:2:9", "unused", 1);
    let s = "|\n2 |     let x = 5;\n|         ^ help: if this is intentional, prefix it with an underscore: `_x`\n|";
    assert_eq!(d.update_suggestion_with_lineno(s, "src/main.rs", 2), "let x = 5;\n|         ^ help: if this is intentional, prefix it with an underscore: `_x`");
    assert_eq!(d.update_suggestion_with_lineno("7 | foo()", "src/main.rs", 2), "src/main.rs:7 | foo()");
    let mut with = d;
    with.suggestion = Some(s.to_string());
    assert_eq!(with.render(), "W01: src/main.rs:2:9 unused:      let x = 5; // ^ `_x` ");
}

#[test]
fn listings_of_a_process() {
    let diags = vec![plain("warning", "src/a.rs:1:1", "first\nmore", 1), plain("note", "x", "n", 1), plain("error", "src/lib.rs:10:2", "second", 1)];
    assert_eq!(
        compact_lines(42, &diags),
        vec![
            "--- All Diagnostics for PID 42 (3 total) ---",
            "warning01: src/a.rs:1:1    first",
            "error01: src/lib.rs:10:2 second",
        ]
    );
    let exact = exact_lines(7, &diags);
    assert_eq!(exact[0], "--- Full Diagnostics for PID 7 --- 3");
    assert_eq!(exact.len(), 4);
    assert_eq!(exact[3], "E01: src/lib.rs:10:2 second: ");
    assert_eq!(short_lines(&diags), vec!["--- Errors (1 total) ---", "E01: src/lib.rs:10:2 second: "]);
    assert!(compact_lines(1, &Vec::new()).is_empty());
    assert!(short_lines(&Vec::new()).is_empty());
}

#[test]
fn process_summary_lists_warnings_then_errors() {
    let ds = vec![
        plain("warning", "a.rs:1:1", "  unused  ", 1),
        plain("error", "a.rs:2:1", "boom", 1),
        plain("note", "a.rs:3:1", "fyi", 1),
    ];
    assert_eq!(
        process_summary_lines(9, &ds),
        vec![
            "\n\n\n--- Summary for PID 9 ---",
            "Warnings:",
            "print_shortened_output:unused",
            "Errors:",
            "print_shortened_output: boom",
        ]
    );
    assert_eq!(process_summary_lines(9, &vec![]), vec!["\n\n\n--- Summary for PID 9 ---", "No warnings.", "No errors."]);
}

#[test]
fn process_exact_lists_debug_levels() {
    let ds = vec![plain("error", "a.rs:2:1", "boom", 1)];
    assert_eq!(process_exact_lines(4, &ds), vec!["--- Full Diagnostics for PID 4 ---", "\"error\": boom"]);
}
