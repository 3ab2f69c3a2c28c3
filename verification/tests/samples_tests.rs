use cargo_e::samples::{upgrade_kind, TargetTable};
use cargo_e::target::{CargoTarget, TargetKind, TargetOrigin};

fn target(name: &str, display: &str, kind: TargetKind, toml: bool, origin: Option<TargetOrigin>) -> CargoTarget {
    CargoTarget {
        name: name.to_string(),
        display_name: display.to_string(),
        manifest_path: "/p/Cargo.toml".to_string(),
        kind,
        extended: false,
        toml_specified: toml,
        origin,
    }
}

#[test]
fn merge_upgrades_example_to_extended() {
    let mut table = TargetTable::new();
    table.merge("/p/Cargo.toml".to_string(), target("demo", "first", TargetKind::Example, false, None));
    table.merge("/p/Cargo.toml".to_string(), target("demo", "second", TargetKind::ExtendedExample, true, None));
    let ts = table.into_targets();
    assert_eq!(ts.len(), 1);
    assert_eq!(ts[0].kind, TargetKind::ExtendedExample);
    assert_eq!(ts[0].display_name, "first");
    assert!(!ts[0].toml_specified);
}

#[test]
fn merge_keeps_extended_over_plain() {
    let mut table = TargetTable::new();
    table.merge("/p/Cargo.toml".to_string(), target("demo", "a", TargetKind::ExtendedExample, false, None));
    table.merge("/p/Cargo.toml".to_string(), target("demo", "b", TargetKind::Example, false, None));
    let ts = table.into_targets();
    assert_eq!(ts.len(), 1);
    assert_eq!(ts[0].kind, TargetKind::ExtendedExample);
}

#[test]
fn merge_gives_way_to_tauri_and_dioxus() {
    assert_eq!(upgrade_kind(TargetKind::Binary, TargetKind::ManifestTauri), TargetKind::ManifestTauri);
    assert_eq!(upgrade_kind(TargetKind::Example, TargetKind::ManifestDioxusExample), TargetKind::ManifestDioxusExample);
    assert_eq!(upgrade_kind(TargetKind::Binary, TargetKind::ExtendedBinary), TargetKind::ExtendedBinary);
    assert_eq!(upgrade_kind(TargetKind::Example, TargetKind::ExtendedBinary), TargetKind::Example);
    assert_eq!(upgrade_kind(TargetKind::ManifestTauri, TargetKind::Binary), TargetKind::ManifestTauri);
}

#[test]
fn merge_separates_manifests_and_names() {
    let mut table = TargetTable::new();
    table.merge("/p/Cargo.toml".to_string(), target("demo", "a", TargetKind::Example, false, None));
    table.merge("/q/Cargo.toml".to_string(), target("demo", "b", TargetKind::Example, false, None));
    table.merge("/p/Cargo.toml".to_string(), target("other", "c", TargetKind::Example, false, None));
    assert_eq!(table.len(), 3);
}

#[test]
fn subproject_is_replaced_by_its_targets() {
    let mut table = TargetTable::new();
    let sub = target("sub", "Sub", TargetKind::Manifest, false, Some(TargetOrigin::SubProject("/p/sub/Cargo.toml".to_string())));
    table.merge("/p/Cargo.toml".to_string(), sub);
    table.merge("/p/Cargo.toml".to_string(), target("kept", "kept", TargetKind::Binary, true, None));
    let keys = table.subproject_keys();
    assert_eq!(keys, vec![("/p/Cargo.toml".to_string(), "sub".to_string())]);
    let removed = table.remove(&keys[0].0, &keys[0].1).unwrap();
    assert_eq!(removed.subproject_manifest(), Some("/p/sub/Cargo.toml".to_string()));
    table.insert_expanded(&removed.display_name, "/p/sub/Cargo.toml".to_string(), target("x", "x", TargetKind::Binary, false, None));
    table.insert_expanded(&removed.display_name, "/p/Cargo.toml".to_string(), target("kept", "new", TargetKind::Example, false, None));
    let ts = table.into_targets();
    assert_eq!(ts.len(), 2);
    assert_eq!(ts[0].name, "kept");
    assert_eq!(ts[0].display_name, "new");
    assert_eq!(ts[0].kind, TargetKind::Example);
    assert!(ts[0].toml_specified);
    assert_eq!(ts[1].name, "x");
    assert_eq!(ts[1].display_name, "Sub > x");
}

#[test]
fn remove_undoes_merge_of_new_key() {
    let mut table = TargetTable::new();
    table.merge("/p/Cargo.toml".to_string(), target("a", "a", TargetKind::Binary, false, None));
    table.merge("/p/Cargo.toml".to_string(), target("b", "b", TargetKind::Binary, false, None));
    let back = table.remove("/p/Cargo.toml", "b").unwrap();
    assert_eq!(back.name, "b");
    assert_eq!(table.len(), 1);
    assert!(table.remove("/p/Cargo.toml", "b").is_none());
    assert!(table.subproject_keys().is_empty());
}

#[test]
fn add_if_absent_keeps_present_entry() {
    let mut table = TargetTable::new();
    table.add_if_absent("/p/Cargo.toml".to_string(), target("a", "first", TargetKind::Binary, false, None));
    table.add_if_absent("/p/Cargo.toml".to_string(), target("a", "second", TargetKind::Example, true, None));
    let ts = table.into_targets();
    assert_eq!(ts.len(), 1);
    assert_eq!(ts[0].display_name, "first");
}
