use cargo_e::fmt::{format_bytes, format_duration, format_duration_secs};
use std::time::Duration;

#[test]
fn format_duration_picks_fields() {
    assert_eq!(format_duration(Duration::from_millis(3_725_007)), "01:02:05.007");
    assert_eq!(format_duration(Duration::from_millis(65_250)), "01:05.250");
    assert_eq!(format_duration(Duration::from_millis(5_004)), "05.004");
    assert_eq!(format_duration(Duration::from_millis(0)), "00.000");
}

#[test]
fn format_duration_secs_renders() {
    assert_eq!(format_duration_secs(Duration::from_millis(12_034)), "12.034 secs");
}

#[test]
fn format_bytes_units() {
    assert_eq!(format_bytes(0), "0 B");
    assert_eq!(format_bytes(1023), "1023 B");
    assert_eq!(format_bytes(1024), "1.00 KB");
    assert_eq!(format_bytes(1536), "1.50 KB");
    assert_eq!(format_bytes(1024 * 1024), "1.00 MB");
    assert_eq!(format_bytes(3 * 1024 * 1024 * 1024), "3.00 GB");
}

#[test]
fn format_bytes_matches_float_rendering() {
    let units = [1024.0f64, 1024.0 * 1024.0, 1024.0 * 1024.0 * 1024.0];
    let mut values: Vec<usize> = (1024..40_000).collect();
    values.extend((1_048_576..1_048_576 + 20_000).step_by(7));
    values.extend([1_073_741_824usize, 1_073_741_824 * 5 + 5_368_709, 1_073_741_824 * 7 + 1]);
    for b in values {
        let unit = if b < 1024 * 1024 {
            (units[0], "KB")
        } else if b < 1024 * 1024 * 1024 {
            (units[1], "MB")
        } else {
            (units[2], "GB")
        };
        let expected = format!("{:.2} {}", b as f64 / unit.0, unit.1);
        assert_eq!(format_bytes(b), expected, "bytes = {}", b);
    }
}

#[test]
fn format_duration_fields_read_back_as_seconds() {
    for ms in [0u64, 59_999, 60_000, 3_599_999, 3_600_000, 90_061_042, 360_000_123] {
        let text = format_duration(Duration::from_millis(ms));
        let (fields, millis) = text.split_once('.').unwrap();
        assert_eq!(millis.len(), 3);
        assert_eq!(millis.parse::<u64>().unwrap(), ms % 1000);
        let parts: Vec<&str> = fields.split(':').collect();
        let secs = ms / 1000;
        let expected = if secs >= 3600 { 3 } else if secs >= 60 { 2 } else { 1 };
        assert_eq!(parts.len(), expected);
        assert!(parts[0].len() >= 2);
        let mut total = 0u64;
        for (i, p) in parts.iter().enumerate() {
            let v: u64 = p.parse().unwrap();
            if i > 0 {
                assert_eq!(p.len(), 2);
                assert!(v < 60);
            }
            total = total * 60 + v;
        }
        assert_eq!(total, secs);
    }
}

#[test]
fn format_bytes_rounds_to_hundredths() {
    assert_eq!(format_bytes(1_048_575), "1024.00 KB");
    assert_eq!(format_bytes(1_073_741_823), "1024.00 MB");
    assert_eq!(format_bytes(1_100), "1.07 KB");
}

#[test]
fn replace_str_with_empty_pattern_surrounds_every_char() {
    assert_eq!(cargo_e::text::replace_str("abc", "", "x"), "xaxbxcx");
    assert_eq!(cargo_e::text::replace_str("", "", "x"), "x");
    assert_eq!(cargo_e::text::replace_str("a$b", "$", "$$"), "a$$b");
}

#[test]
fn run_all_reads_back_what_it_displays() {
    use_run_all();
}

fn use_run_all() {
    for r in [cargo_e::cli::RunAll::NotSpecified, cargo_e::cli::RunAll::Timeout(0), cargo_e::cli::RunAll::Timeout(42), cargo_e::cli::RunAll::Timeout(u64::MAX)] {
        assert_eq!(cargo_e::cli::RunAll::from_str(&r.to_display_string()), Ok(r));
    }
    assert_eq!(cargo_e::cli::RunAll::from_str(""), Ok(cargo_e::cli::RunAll::Forever));
    assert_eq!(cargo_e::cli::RunAll::from_str("NOT_SPECIFIED"), Ok(cargo_e::cli::RunAll::NotSpecified));
    assert!(cargo_e::cli::RunAll::from_str("abc").is_err());
    assert!(cargo_e::cli::RunAll::from_str("forever").is_err());
}
