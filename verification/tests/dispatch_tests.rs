use cargo_e::command_builder::TerminalError;
use cargo_e::diagnostics::CallbackType;
use cargo_e::dispatch::{
    create_stderr_dispatcher, create_stdout_dispatcher, normalize_stderr_line, LineEffect, LineFacts,
    StderrDispatcher, StderrVariant,
};

fn no_facts() -> LineFacts {
    LineFacts { resolved_file: None, frame_paths: Vec::new() }
}

fn feed(d: &mut StderrDispatcher, lines: &[&str]) {
    for l in lines {
        let facts = LineFacts { resolved_file: None, frame_paths: d.frame_paths() };
        d.process_line(l, &facts);
    }
}

#[test]
fn warning_with_location_suggestion_and_note() {
    let mut d = StderrDispatcher::new(StderrVariant::Builder, "Cargo.toml".to_string());
    feed(
        &mut d,
        &[
            "warning: unused variable: `x`",
            " --> src/main.rs:2:9",
            "  |",
            "2 |     let x = 5;",
            "  |         ^ help: if this is intentional, prefix it with an underscore: `_x`",
            "  |",
            "  = note: `#[warn(unused_variables)]` on by default",
            "",
        ],
    );
    assert!(d.pending.is_none());
    assert_eq!(d.diagnostics.len(), 1);
    let diag = &d.diagnostics[0];
    assert_eq!(diag.level, "warning");
    assert_eq!(diag.message, "unused variable: `x`");
    assert_eq!(diag.lineref, "src/main.rs:2:9");
    assert_eq!(diag.diag_number, Some(1));
    assert_eq!(diag.diag_num_padding, Some(2));
    assert_eq!(diag.note.as_deref(), Some("note: `#[warn(unused_variables)]` on by default"));
    assert_eq!(
        diag.suggestion.as_deref(),
        Some("|\n2 |     let x = 5;\n|         ^ help: if this is intentional, prefix it with an underscore: `_x`\n|")
    );
    assert_eq!(d.warning_count, 1);
    assert!(!d.suggestion_mode);
    let loc = d.location.as_ref().unwrap();
    assert_eq!(loc.message.as_deref(), Some("src/main.rs:2:9\nlet x = 5;"));
}

#[test]
fn location_line_answers_with_location_and_uses_resolved_file() {
    let mut d = StderrDispatcher::new(StderrVariant::Builder, "Cargo.toml".to_string());
    d.process_line("error[E0425]: cannot find value `y` in this scope", &no_facts());
    assert_eq!(d.pending.as_ref().unwrap().error_code.as_deref(), Some("E0425"));
    assert_eq!(StderrDispatcher::location_file(" --> src/lib.rs:7:3").as_deref(), Some("src/lib.rs"));
    let facts = LineFacts { resolved_file: Some("/work/src/lib.rs".to_string()), frame_paths: Vec::new() };
    let out = d.process_line(" --> src/lib.rs:7:3", &facts);
    assert_eq!(out.responses.len(), 17);
    let resp = out.responses[9].as_ref().unwrap();
    assert_eq!(resp.callback_type, CallbackType::Location);
    assert_eq!(resp.message.as_deref(), Some("/work/src/lib.rs:7:3"));
    assert_eq!(resp.line, Some(7));
    assert_eq!(resp.column, Some(3));
    assert_eq!(d.pending.as_ref().unwrap().lineref, "/work/src/lib.rs:7:3");
    assert!(d.suggestion_mode);
}

#[test]
fn panic_line_is_reported_as_error() {
    let mut d = StderrDispatcher::new(StderrVariant::Builder, "Cargo.toml".to_string());
    let line = "thread 'main' panicked at boom:src/main.rs:10:5";
    let out = d.process_line(line, &no_facts());
    let resp = out.responses[0].as_ref().unwrap();
    assert_eq!(resp.callback_type, CallbackType::Error);
    assert_eq!(resp.message.as_deref(), Some("thread 'main' panicked at boom (src/main.rs:10:5)"));
    assert_eq!(resp.file.as_deref(), Some("src/main.rs"));
    assert_eq!(resp.line, Some(10));
    assert_eq!(resp.column, Some(5));
    assert_eq!(
        out.effects,
        vec![
            LineEffect::Print("\n\n\n".to_string()),
            LineEffect::Print(line.to_string()),
            LineEffect::Print("Panic detected: thread='main', message='boom', file='src/main.rs:10:5'".to_string()),
            LineEffect::Print("\n\n\n".to_string()),
        ]
    );
}

#[test]
fn could_not_compile_marks_the_failure() {
    let mut d = StderrDispatcher::new(StderrVariant::Builder, "Cargo.toml".to_string());
    let line = "error: could not compile `foo` (bin \"foo\") due to 2 previous errors; 1 warnings emitted";
    let out = d.process_line(line, &no_facts());
    assert_eq!(
        out.effects,
        vec![
            LineEffect::Print(line.to_string()),
            LineEffect::Print("Detected compilation failure: crate=`foo`, due_to=`bin \"foo\"`, errors=2, warnings=1".to_string()),
            LineEffect::MarkCouldNotCompile,
        ]
    );
    assert_eq!(d.error_count, 1);
}

#[test]
fn served_url_is_opened_with_loopback_address() {
    let mut d = StderrDispatcher::new(StderrVariant::Builder, "Cargo.toml".to_string());
    let out = d.process_line("   Serving at http://0.0.0.0:8080", &no_facts());
    let resp = out.responses[12].as_ref().unwrap();
    assert_eq!(resp.callback_type, CallbackType::OpenedUrl);
    assert_eq!(resp.message.as_deref(), Some("Captured and opened URL: http://127.0.0.1:8080"));
    assert_eq!(
        out.effects,
        vec![
            LineEffect::Print("(STDERR) Captured URL: http://127.0.0.1:8080".to_string()),
            LineEffect::OpenUrl("http://127.0.0.1:8080".to_string()),
            LineEffect::MarkBuildFinished,
        ]
    );
}

#[test]
fn finished_and_summary_lines_become_notes() {
    let mut d = StderrDispatcher::new(StderrVariant::Builder, "Cargo.toml".to_string());
    let out = d.process_line("Finished `dev` profile [unoptimized + debuginfo] target(s) in 0.50s", &no_facts());
    let resp = out.responses[13].as_ref().unwrap();
    assert_eq!(resp.callback_type, CallbackType::Note);
    assert_eq!(resp.message.as_deref(), Some("Finished `dev` [unoptimized + debuginfo] in 0.50s"));
    assert_eq!(out.effects, vec![LineEffect::MarkBuildFinished]);

    let line = "warning: `foo` (lib) generated 3 warnings (run `cargo fix --lib -p foo` to apply 2 suggestions)";
    let out = d.process_line(line, &no_facts());
    let resp = out.responses[14].as_ref().unwrap();
    assert_eq!(
        resp.message.as_deref(),
        Some("warning: `foo` (lib) generated 3 warnings; run `cargo fix --lib -p foo` to apply 2 fixes")
    );
    assert_eq!(resp.suggestion.as_deref(), Some("cargo fix --lib -p foo"));
    assert!(d.pending.is_none());
    assert_eq!(d.warning_count, 0);
}

#[test]
fn unknown_level_is_printed_and_ignored() {
    let mut d = StderrDispatcher::new(StderrVariant::Builder, "Cargo.toml".to_string());
    let out = d.process_line("failure: something", &no_facts());
    assert_eq!(out.effects, vec![LineEffect::Print("Unknown diagnostic level: failure".to_string())]);
    assert!(d.pending.is_none());
}

#[test]
fn missing_terminal_is_passed_on_by_the_builder_reader() {
    let line = "Error: IO(Custom { kind: NotConnected, error: \"not a terminal\" })";
    let mut b = StderrDispatcher::new(StderrVariant::Builder, "Cargo.toml".to_string());
    let out = b.process_line(line, &no_facts());
    assert!(out.effects.contains(&LineEffect::SendTerminal(TerminalError::NoTerminal)));
    let resp = out.responses[15].as_ref().unwrap();
    assert_eq!(resp.callback_type, CallbackType::Warning);
    assert_eq!(resp.message.as_deref(), Some(format!("Terminal Error: {}", line).as_str()));

    let mut s = create_stderr_dispatcher("Cargo.toml".to_string());
    let out = s.process_line(line, &no_facts());
    assert!(!out.effects.iter().any(|e| matches!(e, LineEffect::SendTerminal(_))));
    assert_eq!(out.effects.last(), Some(&LineEffect::Print(line.to_string())));
}

#[test]
fn location_without_line_stops_the_reader() {
    let mut d = StderrDispatcher::new(StderrVariant::Builder, "Cargo.toml".to_string());
    d.process_line("error: oops", &no_facts());
    let out = d.process_line(" --> src/main.rs", &no_facts());
    assert!(d.halted);
    assert!(out.responses.is_empty());
    let out = d.process_line("", &no_facts());
    assert!(out.responses.is_empty() && out.effects.is_empty());
    assert!(d.pending.is_some());
}

#[test]
fn backtrace_is_summarised_into_the_note() {
    let mut d = StderrDispatcher::new(StderrVariant::Builder, "Cargo.toml".to_string());
    feed(
        &mut d,
        &[
            "error: boom",
            "stack backtrace:",
            "   0: std::panicking::begin_panic",
            "             at /rustc/abc/library/std/src/panicking.rs:616:12",
            "   1: demo::main",
            "             at ./src/main.rs:2:5",
        ],
    );
    assert_eq!(
        d.frame_paths(),
        vec![None, Some("/rustc/abc/library/std/src/panicking.rs".to_string()), None, Some("./src/main.rs".to_string())]
    );
    let facts = LineFacts {
        resolved_file: None,
        frame_paths: vec![None, None, None, Some("/abs/src/main.rs".to_string())],
    };
    d.process_line("note: Some details are omitted", &facts);
    assert_eq!(d.diagnostics.len(), 2);
    assert_eq!(d.diagnostics[0].message, "boom");
    assert_eq!(
        d.diagnostics[1].note.as_deref(),
        Some("error: boom\nstack backtrace:\n1: demo::main @ /abs/src/main.rs:2")
    );
    assert!(!d.backtrace_mode);
    assert!(d.backtrace_lines.is_empty());
}

#[test]
fn finished_diagnostics_are_never_lost() {
    let mut d = StderrDispatcher::new(StderrVariant::Standalone, "Cargo.toml".to_string());
    let lines = ["error: one", "", "warning: two", "note: three", "", "error: four", "  = help: try this", ""];
    let mut previous: Vec<String> = Vec::new();
    for l in lines {
        d.process_line(l, &no_facts());
        let now: Vec<String> = d.diagnostics.iter().map(|x| x.message.clone()).collect();
        assert!(now.len() >= previous.len());
        assert_eq!(&now[..previous.len()], &previous[..]);
        previous = now;
        assert!(d.look_behind.len() <= 6);
    }
    assert_eq!(previous, vec!["one", "two", "three", "four"]);
    assert_eq!(d.diagnostics[3].help.as_deref(), Some("\x1b[38;5;214mhelp: try this\x1b[0m"));
    assert_eq!(d.diagnostics[3].diag_number, Some(2));
}

#[test]
fn look_behind_keeps_six_lines() {
    let mut d = create_stderr_dispatcher("Cargo.toml".to_string());
    for i in 0..10 {
        d.process_line(&format!("line {}", i), &no_facts());
    }
    assert_eq!(d.look_behind, vec!["line 4", "line 5", "line 6", "line 7", "line 8", "line 9"]);
}

#[test]
fn stdout_server_url_is_opened_after_announcement() {
    let mut o = create_stdout_dispatcher();
    let out = o.process_line("server listening at:");
    assert!(o.waiting_for_url);
    assert_eq!(out.responses[2].as_ref().unwrap().message.as_deref(), Some("Started multiline mode after: server listening at:"));
    let out = o.process_line("  http://localhost:3000/");
    assert!(!o.waiting_for_url);
    assert!(out.effects.contains(&LineEffect::OpenUrl("http://localhost:3000/".to_string())));
    let out = o.process_line("listening on http://127.0.0.1:5000");
    assert_eq!(
        out.effects,
        vec![
            LineEffect::Print("(STDOUT) Dispatcher caught: listening on http://127.0.0.1:5000".to_string()),
            LineEffect::OpenUrl("http://127.0.0.1:5000".to_string()),
            LineEffect::MarkBuildFinished,
        ]
    );
}

#[test]
fn status_lines_lose_spaces_after_the_escape() {
    assert_eq!(normalize_stderr_line("\u{1b}[1m\u{1b}[32m   Compiling foo"), "\u{1b}[1m\u{1b}[32mCompiling foo");
    assert_eq!(normalize_stderr_line("   Compiling foo"), "   Compiling foo");
}
