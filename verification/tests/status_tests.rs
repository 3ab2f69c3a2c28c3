use cargo_e::status::{format_process_status, status_line_formable};
use cargo_e::target::{CargoTarget, TargetKind};
use std::time::Duration;

fn target(display: &str) -> CargoTarget {
    CargoTarget {
        name: "demo".to_string(),
        display_name: display.to_string(),
        manifest_path: "Cargo.toml".to_string(),
        kind: TargetKind::Example,
        extended: false,
        toml_specified: false,
        origin: None,
    }
}

#[test]
fn status_line_pads_to_width() {
    let t = target("demo");
    let start = Some("10:00:00".to_string());
    let line = format_process_status(42, &start, Duration::from_secs(5), &t, (1, 3));
    let left = "1of3 | \x1b[32mdemo\x1b[0m | \x1b[96m10:00:00\x1b[0m | PID: 42";
    let expected = format!("{}{}{}", left, " ".repeat(79 - 32 - 6), "\x1b[0m\x1b[4m05.000\x1b[0m");
    assert_eq!(line, expected);
}

#[test]
fn status_line_pads_dimensions_to_same_digits() {
    let t = target("demo");
    let start = Some("10:00:00".to_string());
    let line = format_process_status(7, &start, Duration::from_secs(61), &t, (3, 12));
    assert!(line.starts_with("03of12 | "));
    assert!(line.ends_with("\x1b[0m\x1b[4m01:01.000\x1b[0m"));
}

#[test]
fn status_line_cuts_long_names() {
    let name = "x".repeat(70);
    let t = target(&name);
    let start = Some("10:00:00".to_string());
    assert!(status_line_formable(42, &start, Duration::from_secs(5), &t, (1, 3)));
    let line = format_process_status(42, &start, Duration::from_secs(5), &t, (1, 3));
    let expected = format!("1of3 | \x1b[32m{}\x1b[0m\x1b[4m05.000\x1b[0m", "x".repeat(61));
    assert_eq!(line, expected);
}

#[test]
fn status_line_empty_before_start_or_first_second() {
    let t = target("demo");
    assert_eq!(format_process_status(1, &None, Duration::from_secs(5), &t, (1, 1)), "");
    let start = Some("10:00:00".to_string());
    assert_eq!(format_process_status(1, &start, Duration::from_millis(500), &t, (1, 1)), "");
}

#[test]
fn status_line_cut_inside_character_is_refused() {
    let name = "é".repeat(40);
    let t = target(&name);
    let start = Some("10:00:00".to_string());
    assert!(!status_line_formable(42, &start, Duration::from_secs(5), &t, (1, 3)));
}
