use cargo_e::main_name::find_candidate_name;
use cargo_e::manifest::{workspace_opt_out, ManifestEntry};
use cargo_e::runall::quiet_rustflags;
use cargo_e::runner::{is_script_for, make_relative};

fn entry(name: Option<&str>, path: Option<&str>, has_path: bool) -> ManifestEntry {
    ManifestEntry {
        name: name.map(|s| s.to_string()),
        path: path.map(|s| s.to_string()),
        has_path,
        required_features: None,
    }
}

#[test]
fn candidate_name_prefers_matching_path() {
    let es = vec![
        entry(Some("plain"), None, false),
        entry(Some("other"), Some("src/other.rs"), true),
        entry(Some("mine"), Some("src/mine.rs"), true),
    ];
    assert_eq!(find_candidate_name(&es, &vec![false, false, true]), Some("mine".to_string()));
}

#[test]
fn candidate_name_falls_back_to_last_pathless() {
    let es = vec![
        entry(Some("first"), None, false),
        entry(Some("other"), Some("src/other.rs"), true),
        entry(Some("second"), None, false),
        entry(None, None, false),
    ];
    assert_eq!(find_candidate_name(&es, &vec![false, false, false, false]), Some("second".to_string()));
    assert_eq!(find_candidate_name(&es, &vec![]), Some("second".to_string()));
}

#[test]
fn candidate_name_none_without_match_or_pathless() {
    let es = vec![entry(Some("other"), Some("src/other.rs"), true), entry(None, Some("x.rs"), true)];
    assert_eq!(find_candidate_name(&es, &vec![false, true]), None);
    assert_eq!(find_candidate_name(&vec![], &vec![]), None);
}

#[test]
fn workspace_opt_out_appends_table() {
    let err = "error: current package believes it's in a workspace when it's not:\n";
    assert_eq!(workspace_opt_out(err, "[package]\nname = \"a\"\n"), Some("[package]\nname = \"a\"\n\n[workspace]\n".to_string()));
    assert_eq!(workspace_opt_out(err, "[package]\n[workspace]\n"), None);
    assert_eq!(workspace_opt_out("all fine", "[package]\n"), None);
}

#[test]
fn quiet_rustflags_adds_awarnings_once() {
    assert_eq!(quiet_rustflags(true, ""), Some("-Awarnings".to_string()));
    assert_eq!(quiet_rustflags(true, "  "), Some("-Awarnings".to_string()));
    assert_eq!(quiet_rustflags(true, "-C opt-level=1"), Some("-C opt-level=1 -Awarnings".to_string()));
    assert_eq!(quiet_rustflags(true, "-Awarnings"), None);
    assert_eq!(quiet_rustflags(false, ""), None);
}

#[test]
fn script_header_needs_hash_and_tool() {
    assert!(is_script_for("#!/usr/bin/env rust-script\n", "rust-script"));
    assert!(is_script_for("# scriptisto-begin\n", "scriptisto"));
    assert!(!is_script_for("// rust-script\n", "rust-script"));
    assert!(!is_script_for("#!/usr/bin/env bash\n", "rust-script"));
}

#[test]
fn make_relative_against_working_directory() {
    assert_eq!(make_relative("/home/u/proj/x.rs", "/home/u/proj"), "./x.rs");
    assert_eq!(make_relative("/home/u/proj", "/home/u/proj"), ".");
    assert_eq!(make_relative("../x.rs", "/a"), "../x.rs");
    assert_eq!(make_relative("/other/x.rs", "/a"), "/other/x.rs");
    assert_eq!(make_relative("sub/x.rs", "/a"), "./sub/x.rs");
}

#[test]
fn parse_manifest_reads_what_the_library_needs() {
    let text = r#"
[package]
name = "demo"

[workspace]
members = ["a", 3, "b"]

[[bin]]
name = "tool"
path = "src/tool.rs"
required-features = ["x", 1]

[[bin]]
path = 5

[[bench]]
name = "speed"
"#;
    let m = cargo_e::manifest::parse_manifest(text).expect("valid TOML");
    assert_eq!(m.package_name, Some("demo".to_string()));
    assert!(m.has_workspace);
    assert_eq!(m.workspace_members, Some(vec![Some("a".to_string()), None, Some("b".to_string())]));
    let bins = m.bin.expect("bin array");
    assert_eq!(bins.len(), 2);
    assert_eq!(bins[0].name, Some("tool".to_string()));
    assert_eq!(bins[0].path, Some("src/tool.rs".to_string()));
    assert!(bins[0].has_path);
    assert_eq!(bins[0].required_features, Some(vec![Some("x".to_string()), None]));
    assert_eq!(bins[1].name, None);
    assert_eq!(bins[1].path, None);
    assert!(bins[1].has_path);
    assert!(m.example.is_none());
    assert!(m.test.is_none());
    assert_eq!(m.bench.map(|b| b.len()), Some(1));
}

#[test]
fn parse_manifest_refuses_text_that_is_not_toml() {
    assert!(cargo_e::manifest::parse_manifest("[package\nname = ").is_none());
    let empty = cargo_e::manifest::parse_manifest("").expect("empty TOML is a table");
    assert_eq!(empty.package_name, None);
    assert!(!empty.has_workspace);
}
