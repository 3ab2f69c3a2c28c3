use cargo_e::diagnostics::CargoDiagnostic;
use cargo_e::report::{generate_comfy_report, repo_name_from_remote, ReportEntry, ReportMeta};

#[test]
fn repository_names_come_from_the_remote() {
    assert_eq!(repo_name_from_remote("https://github.com/user/cargo-e.git"), "cargo-e");
    assert_eq!(repo_name_from_remote("git@github.com:user/tool.git"), "tool");
    assert_eq!(repo_name_from_remote("https://github.com/user/plain"), "Unknown");
    assert_eq!(repo_name_from_remote(""), "Unknown");
}

#[test]
fn report_lists_each_run() {
    let meta = ReportMeta {
        repo_name: "cargo-e".to_string(),
        repo_remote: "origin-url".to_string(),
        repo_sha: "abc1234".to_string(),
        generated_on: "2024-01-01 10:00:00".to_string(),
        version: "0.1.0".to_string(),
        rustc_version: "rustc 1.80.0".to_string(),
        system_name: "Linux".to_string(),
        system_version: "6".to_string(),
        system_long_version: "Linux 6".to_string(),
    };
    let d = CargoDiagnostic::new("src/main.rs:1:1".to_string(), "error".to_string(), "boom".to_string(), Some("E0001".to_string()), None, None, None, true, Some(1), Some(2));
    let entry = ReportEntry {
        target_name: "demo".to_string(),
        cmd: "cargo".to_string(),
        args: vec!["run".to_string(), "--example".to_string(), "demo".to_string()],
        start_time: "10:00:00".to_string(),
        end_time: "10:00:05".to_string(),
        duration: "5.00s".to_string(),
        exit_code: "0".to_string(),
        success: true,
        diagnostics: vec![d],
    };
    let report = generate_comfy_report(&meta, &vec![entry]);
    assert!(report.contains("Run Report"));
    assert!(report.contains("cargo-e (origin-url abc1234)"));
    assert!(report.contains("2024-01-01 10:00:00"));
    assert!(report.contains("rustc 1.80.0"));
    assert!(report.contains("Linux - 6 - Linux 6"));
    assert!(report.contains("\n\n## 1. demo\n\ncargo run --example demo\n"));
    assert!(report.find("Run Report").unwrap() < report.find("## 1. demo").unwrap());
    assert!(report.contains("E1"));
    assert!(report.contains("E0001"));
    assert!(report.contains("E01: src/main.rs:1:1 boom:"));
    assert!(!report.contains("\x1b[31m"));
    assert!(report.ends_with("\n\n"));
}
