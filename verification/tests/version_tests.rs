use cargo_e::cli::get_feature_flags;
use cargo_e::collect::available_targets;
use cargo_e::target::{TargetKind, TargetOrigin};
use cargo_e::version::{features_json, manifest_version, stamp_readme_version, VersionError};

#[test]
fn features_json_lists_flags() {
    assert_eq!(features_json(&vec!["!tui", "windows"]), "[\"!tui\", \"windows\"]");
    assert_eq!(features_json(&vec![]), "[]");
    let flags = get_feature_flags();
    let json = features_json(&flags);
    assert!(json.starts_with("[\"!tui\", \"!concurrent\", "));
    assert!(json.ends_with(", \"!equivalent\"]"));
}

#[test]
fn manifest_version_reads_first_version_line() {
    let toml = "[package]\nname = \"cargo-e\"\n  version = \"0.2.13\"\nedition = \"2021\"\n";
    assert_eq!(manifest_version(toml), Ok("0.2.13".to_string()));
    assert_eq!(manifest_version("version=1.0=x"), Ok("1.0".to_string()));
}

#[test]
fn manifest_version_errors() {
    assert_eq!(manifest_version("[package]\nname = \"x\"\n"), Err(VersionError::NotFound));
    assert_eq!(manifest_version("version \"1.0\"\n"), Err(VersionError::Malformed));
}

#[test]
fn readme_version_is_stamped() {
    let readme = "<b>0.1.0</b> and >1.2.3< and 1.2.3";
    assert_eq!(stamp_readme_version(readme, "2.0.0"), "<b>2.0.0</b> and >2.0.0< and 1.2.3");
    assert_eq!(stamp_readme_version(">0.0.1<", "1.0.0-$x"), ">1.0.0-$x<");
}

#[test]
fn available_targets_kinds_and_names() {
    let bins = vec!["tool".to_string()];
    let examples = vec!["demo".to_string()];
    let ts = available_targets("builtin", "/p/Cargo.toml", &bins, &examples, false);
    assert_eq!(ts.len(), 2);
    assert_eq!(ts[0].name, "tool");
    assert_eq!(ts[0].display_name, "builtin binary: tool");
    assert_eq!(ts[0].kind, TargetKind::Binary);
    assert!(ts[0].toml_specified);
    assert!(matches!(&ts[0].origin, Some(TargetOrigin::TomlSpecified(p)) if p == "/p/Cargo.toml"));
    assert_eq!(ts[1].name, "demo");
    assert_eq!(ts[1].display_name, "demo");
    assert_eq!(ts[1].kind, TargetKind::Example);
}

#[test]
fn available_targets_prefixes_and_tauri() {
    let bins = vec!["tool".to_string()];
    let ts = available_targets("$member", "/p/Cargo.toml", &bins, &vec![], false);
    assert_eq!(ts[0].display_name, "$member > binary > tool");
    let ts = available_targets("ext", "/p/Cargo.toml", &bins, &vec!["demo".to_string()], true);
    assert_eq!(ts[0].display_name, "ext tool");
    assert_eq!(ts[0].kind, TargetKind::ExtendedBinary);
    assert_eq!(ts[1].kind, TargetKind::ExtendedExample);
    let ts = available_targets("x", "/p/src-tauri/Cargo.toml", &bins, &vec![], false);
    assert_eq!(ts[0].kind, TargetKind::ManifestTauri);
    assert_eq!(ts[0].display_name, "x tool");
}
