use cargo_e::select::{select_target, Selection};
use cargo_e::target::{CargoTarget, TargetKind};

fn t(name: &str, kind: TargetKind) -> CargoTarget {
    CargoTarget {
        name: name.to_string(),
        display_name: name.to_string(),
        manifest_path: "Cargo.toml".to_string(),
        kind,
        extended: false,
        toml_specified: false,
        origin: None,
    }
}

#[test]
fn single_example_runs_without_a_name() {
    let ts = vec![t("tool", TargetKind::Binary), t("demo", TargetKind::Example), t("bench", TargetKind::Bench)];
    assert_eq!(select_target(&ts, &None), Selection::Run(1));
}

#[test]
fn single_extended_example_runs_without_a_name() {
    let ts = vec![t("tool", TargetKind::Binary), t("demo", TargetKind::ExtendedExample)];
    assert_eq!(select_target(&ts, &None), Selection::Run(1));
}

#[test]
fn several_examples_ask_for_a_choice() {
    let ts = vec![t("a", TargetKind::Example), t("b", TargetKind::Example)];
    assert_eq!(select_target(&ts, &None), Selection::Choose);
    let none: Vec<CargoTarget> = vec![t("tool", TargetKind::Binary)];
    assert_eq!(select_target(&none, &None), Selection::Choose);
}

#[test]
fn explicit_name_runs_that_target() {
    let ts = vec![t("wgpu_image", TargetKind::Example), t("tool", TargetKind::Binary), t("tool", TargetKind::Example)];
    assert_eq!(select_target(&ts, &Some("tool".to_string())), Selection::Run(1));
}

#[test]
fn partial_search_ignores_case() {
    let ts = vec![
        t("wgpu_image", TargetKind::Example),
        t("tool", TargetKind::Binary),
        t("WGPU_teapot", TargetKind::Example),
    ];
    assert_eq!(select_target(&ts, &Some("Wgpu".to_string())), Selection::Partial(vec![0, 2]));
}

#[test]
fn unknown_name_is_not_found() {
    let ts = vec![t("demo", TargetKind::Example)];
    assert_eq!(select_target(&ts, &Some("zzz".to_string())), Selection::NotFound);
}
