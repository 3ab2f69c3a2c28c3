use cargo_e::findmain::{find_main_file, compute_vscode_args, fallback_main_file, find_main_line, main_file_candidates, manifest_main_files};
use cargo_e::manifest::ManifestEntry;
use cargo_e::target::TargetKind;

#[test]
fn test_find_main_line() {
    let content = "\n\nfn helper() {}\nfn main() { println!(\"Hello\"); }\n";
    let pos = find_main_line(content).expect("Should find fn main");
    assert_eq!(pos.0, 4);
    assert_eq!(pos, (4, 1));
}

#[test]
fn find_main_line_counts_bytes_in_column() {
    assert_eq!(find_main_line("  fn main() {}"), Some((1, 3)));
    assert_eq!(find_main_line("é fn main() {}"), Some((1, 4)));
}

#[test]
fn find_main_line_first_of_several() {
    assert_eq!(find_main_line("fn a() {}\r\npub fn main() {}\nfn main() {}\n"), Some((2, 5)));
}

#[test]
fn find_main_line_absent() {
    assert_eq!(find_main_line("fn helper() {}\nfn mai() {}"), None);
    assert_eq!(find_main_line(""), None);
}

#[test]
fn main_file_candidates_in_order() {
    let c = main_file_candidates("/p", "x");
    assert_eq!(c, vec!["/p/src/main.rs", "/p/main.rs", "/p/x.rs", "/p/src/bin/x.rs"]);
}

#[test]
fn manifest_main_files_uses_path_or_default() {
    let entries = vec![
        ManifestEntry { name: Some("a".to_string()), path: Some("custom/main.rs".to_string()), has_path: true, required_features: None },
        ManifestEntry { name: Some("b".to_string()), path: None, has_path: false, required_features: None },
        ManifestEntry { name: Some("a".to_string()), path: None, has_path: false, required_features: None },
    ];
    assert_eq!(manifest_main_files(&entries, "a", "/m"), vec!["/m/custom/main.rs", "/m/src/main.rs"]);
    assert_eq!(manifest_main_files(&entries, "b", "/m"), vec!["/m/src/main.rs"]);
    assert!(manifest_main_files(&entries, "c", "/m").is_empty());
}

#[test]
fn fallback_main_file_by_kind() {
    let dir = Some("/m".to_string());
    assert_eq!(fallback_main_file(TargetKind::Binary, false, &dir, "/cwd", "x"), Some("/m/src/main.rs".to_string()));
    assert_eq!(fallback_main_file(TargetKind::Example, true, &dir, "/cwd", "x"), Some("/m/src/main.rs".to_string()));
    assert_eq!(fallback_main_file(TargetKind::Example, false, &dir, "/cwd", "x"), Some("/cwd/examples/x.rs".to_string()));
    assert_eq!(fallback_main_file(TargetKind::Bench, false, &dir, "/cwd", "x"), None);
}

#[test]
fn vscode_args_with_main_position() {
    let (folder, goto) = compute_vscode_args("/a/b/Cargo.toml", &Some("/a/b/src/main.rs".to_string()), Some((3, 1)));
    assert_eq!(folder, "/a/b/src");
    assert_eq!(goto, Some("/a/b/src/main.rs:3:1".to_string()));
}

#[test]
fn vscode_args_without_position_or_file() {
    let (folder, goto) = compute_vscode_args("/a/b/Cargo.toml", &Some("/a/b/main.rs".to_string()), None);
    assert_eq!(folder, "/a/b");
    assert_eq!(goto, Some("/a/b/main.rs".to_string()));
    let (folder, goto) = compute_vscode_args("/a/b/Cargo.toml", &None, None);
    assert_eq!(folder, "/a/b");
    assert_eq!(goto, None);
}

#[test]
fn bin_entries_and_default_binary() {
    assert_eq!(cargo_e::runnable::bin_source_kind(false, false, false), cargo_e::runnable::BinSource::File);
    assert_eq!(cargo_e::runnable::bin_source_kind(true, true, false), cargo_e::runnable::BinSource::File);
    assert_eq!(cargo_e::runnable::bin_source_kind(true, false, true), cargo_e::runnable::BinSource::Folder);
    assert_eq!(cargo_e::runnable::bin_source_kind(true, false, false), cargo_e::runnable::BinSource::Skip);
    assert_eq!(cargo_e::runnable::default_binary_file("/p", true, true), Some("/p/src/main.rs".to_string()));
    assert_eq!(cargo_e::runnable::default_binary_file("/p", false, true), Some("/p/main.rs".to_string()));
    assert_eq!(cargo_e::runnable::default_binary_file("/p", false, false), None);
}

#[test]
fn vscode_args_for_extended_src_main() {
    let dir = "/tmp/x/extended_sample";
    let candidates = main_file_candidates(dir, "extended_sample");
    let main = candidates[0].clone();
    assert_eq!(main, "/tmp/x/extended_sample/src/main.rs");
    let pos = find_main_line("fn main() { println!(\"extended src main\"); }");
    let (folder, goto) = compute_vscode_args("/tmp/x/extended_sample/Cargo.toml", &Some(main), pos);
    assert!(folder.ends_with("src"));
    assert_eq!(goto, Some("/tmp/x/extended_sample/src/main.rs:1:1".to_string()));
}

#[test]
fn vscode_args_for_extended_main_rs() {
    let dir = "/tmp/x/extended_sample2";
    let main = main_file_candidates(dir, "extended_sample2")[1].clone();
    let pos = find_main_line("fn main() { println!(\"extended main\"); }");
    let (folder, goto) = compute_vscode_args("/tmp/x/extended_sample2/Cargo.toml", &Some(main), pos);
    assert!(folder.ends_with("extended_sample2"));
    assert!(goto.unwrap().contains("main.rs"));
}

#[test]
fn vscode_args_for_non_extended_example() {
    let file = fallback_main_file(TargetKind::Example, false, &Some("/tmp/x".to_string()), "/tmp/x", "sample_non_ext").unwrap();
    let pos = find_main_line("fn main() { println!(\"non-ext\"); }");
    let (folder, goto) = compute_vscode_args("/tmp/x/Cargo.toml", &Some(file), pos);
    assert!(folder.contains("examples"));
    assert!(goto.unwrap().contains("sample_non_ext.rs"));
}

fn bin_manifest(name: &str, path: Option<&str>) -> cargo_e::manifest::ManifestData {
    cargo_e::manifest::ManifestData {
        package_name: Some("dummy".to_string()),
        has_workspace: false,
        workspace_members: None,
        bin: Some(vec![ManifestEntry {
            name: Some(name.to_string()),
            path: path.map(|p| p.to_string()),
            has_path: path.is_some(),
            required_features: None,
        }]),
        example: None,
        test: None,
        bench: None,
    }
}

#[test]
fn test_find_main_file_default() {
    let manifest = Some(bin_manifest("sample1", None));
    let present = |f: &str| f == "/tmp/d/src/main.rs";
    let found = find_main_file("/tmp/d/Cargo.toml", &None, "sample1", &manifest, true, &present).expect("Should find main file");
    assert_eq!(found, "/tmp/d/src/main.rs");
}

#[test]
fn test_find_main_file_with_explicit_path() {
    let manifest = Some(bin_manifest("sample2", Some("custom/main.rs")));
    let present = |f: &str| f == "/tmp/d/custom/main.rs";
    let found = find_main_file("/tmp/d/Cargo.toml", &None, "sample2", &manifest, true, &present).expect("Should find custom main file");
    assert_eq!(found, "/tmp/d/custom/main.rs");
}

#[test]
fn find_main_file_searches_from_the_member_and_in_order() {
    let members = Some(vec![("other".to_string(), "/w/other/Cargo.toml".to_string()), ("tool".to_string(), "/w/tool/Cargo.toml".to_string())]);
    let present = |f: &str| f == "/w/tool/main.rs" || f == "/w/tool/tool.rs";
    assert_eq!(find_main_file("/w/Cargo.toml", &members, "tool", &None, false, &present), Some("/w/tool/main.rs".to_string()));
    let nothing = |_: &str| false;
    assert_eq!(find_main_file("/w/Cargo.toml", &members, "tool", &None, false, &nothing), None);
}
