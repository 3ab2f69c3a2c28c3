use cargo_e::collect::{clean_member, dedup_single_file_over_default_binary, format_package, format_workspace};
use cargo_e::command_builder::{CargoCommandBuilder, TargetEnv};
use cargo_e::main_name::{decide_main_name, folder_name, ManifestNames};
use cargo_e::runall::{batch_end, poll_decision, prebuild_commands, sort_by_display_name, PollAction};
use cargo_e::runnable::{assemble_runnable_targets, RunnableFacts, bin_source_path, example_source_path, has_target_named, is_in_examples_folder, join_scanned};
use cargo_e::target::{dedup_targets, CargoTarget, TargetKind, TargetOrigin};
use cargo_e::discovery::{determine_target_kind_and_manifest, FsFacts};

fn target(name: &str, display: &str, kind: TargetKind, origin: Option<TargetOrigin>) -> CargoTarget {
    CargoTarget {
        name: name.to_string(),
        display_name: display.to_string(),
        manifest_path: "Cargo.toml".to_string(),
        kind,
        extended: false,
        toml_specified: false,
        origin,
    }
}

fn no_env() -> TargetEnv {
    TargetEnv { required_features: None, scriptisto: None, rust_script: None, tauri_dir: None, leptos_watch: false, trunk: None, dx: None }
}

#[test]
fn test_command_builder_example() {
    let target_name = "my_example".to_string();
    let mut target = target("my_example", "My Example", TargetKind::Example, Some(TargetOrigin::SingleFile("examples/my_example.rs".to_string())));
    target.extended = true;
    let extra_args = vec!["--flag".to_string(), "value".to_string()];
    let manifest_path = "Cargo.toml".to_string();
    let args = CargoCommandBuilder::new(&target_name, &manifest_path, "run", false)
        .with_target(&target, &no_env())
        .with_extra_args(&extra_args)
        .build();
    assert!(args.contains(&"--example".to_string()));
    assert!(args.contains(&"my_example".to_string()));
    assert!(args.contains(&"--manifest-path".to_string()));
    assert!(args.contains(&"Cargo.toml".to_string()));
    assert!(args.contains(&"--".to_string()));
    assert!(args.contains(&"--flag".to_string()));
    assert!(args.contains(&"value".to_string()));
}

#[test]
fn main_files_are_named_after_their_folder() {
    assert_eq!(folder_name("/p/myproj/src/main.rs"), "myproj");
    assert_eq!(folder_name("/p/app/src-tauri/src/main.rs"), "app");
    assert_eq!(folder_name("/p/examples/demo/main.rs"), "demo");
    assert_eq!(folder_name("/p/tool/main.rs"), "tool");
    let none = ManifestNames { bin_name: None, example_name: None, package_name: None };
    assert_eq!(decide_main_name(false, "/p/myproj/src/main.rs", &none), ("myproj".to_string(), false));
    assert_eq!(decide_main_name(false, "/p/x/src/Hello.rs", &none), ("hello".to_string(), false));
    let bin = ManifestNames { bin_name: Some("server".to_string()), example_name: None, package_name: Some("pkg".to_string()) };
    assert_eq!(decide_main_name(true, "/p/x/src/main.rs", &bin), ("server".to_string(), true));
    let pkg = ManifestNames { bin_name: None, example_name: None, package_name: Some("pkg".to_string()) };
    assert_eq!(decide_main_name(true, "/p/x/src/main.rs", &pkg), ("pkg".to_string(), false));
    assert_eq!(decide_main_name(false, "/p/x/src/main.rs", &pkg), ("x".to_string(), false));
}

#[test]
fn figure_main_name_sets_both_names() {
    let mut t = target("main", "main", TargetKind::Binary, Some(TargetOrigin::DefaultBinary("/p/tool/src/main.rs".to_string())));
    let names = ManifestNames { bin_name: None, example_name: Some("ex".to_string()), package_name: None };
    assert!(t.figure_main_name(&names).is_ok());
    assert_eq!(t.name, "ex");
    assert_eq!(t.display_name, "ex");
    assert!(t.toml_specified);
    let mut n = target("x", "x", TargetKind::Binary, None);
    assert_eq!(n.figure_main_name(&names), Err("No candidate file found".to_string()));
}

#[test]
fn runs_are_sorted_stably_by_display_name() {
    let ts = vec![
        target("b1", "beta", TargetKind::Example, None),
        target("a1", "alpha", TargetKind::Example, None),
        target("b2", "beta", TargetKind::Example, None),
        target("a2", "alpha", TargetKind::Binary, None),
    ];
    let sorted: Vec<String> = sort_by_display_name(&ts).into_iter().map(|t| t.name).collect();
    assert_eq!(sorted, vec!["a1", "a2", "b1", "b2"]);
    assert_eq!(batch_end(0, 2, 5), 2);
    assert_eq!(batch_end(4, 2, 5), 5);
    assert_eq!(batch_end(0, 10, 3), 3);
}

#[test]
fn each_look_at_a_running_target() {
    assert_eq!(poll_decision(true, 3, Some(10), true, 0, 5, true), PollAction::Finished);
    assert_eq!(poll_decision(false, 2, Some(100), false, 0, 5, false), PollAction::Quit);
    assert_eq!(poll_decision(false, 2, Some(500), false, 0, 5, false), PollAction::SkipToNext);
    assert_eq!(poll_decision(false, 1, None, false, 0, 5, false), PollAction::SkipToNext);
    assert_eq!(poll_decision(false, 0, None, true, 5000, 5000, false), PollAction::TimedOut);
    assert_eq!(poll_decision(false, 0, None, true, 10, 5000, true), PollAction::Wait(true));
    assert_eq!(poll_decision(false, 0, None, false, 0, 5000, true), PollAction::EndedNaturally);
    assert_eq!(poll_decision(false, 0, None, false, 0, 5000, false), PollAction::Wait(false));
}

#[test]
fn scanned_targets_join_once_per_name() {
    let mut list = vec![target("a", "a", TargetKind::Example, None)];
    let found = vec![
        target("a", "a", TargetKind::Example, None),
        target("b", "b", TargetKind::Example, None),
        target("b", "b", TargetKind::Example, None),
    ];
    join_scanned(&mut list, found, true);
    assert_eq!(list.len(), 2);
    assert_eq!(list[0].kind, TargetKind::Example);
    assert_eq!(list[1].kind, TargetKind::ExtendedExample);
    assert!(list[1].extended);
    assert!(has_target_named(&list, "b"));
    assert!(!has_target_named(&list, "c"));
    assert!(is_in_examples_folder("/repo/examples/demo"));
    assert!(is_in_examples_folder("/repo/Examples/demo"));
    assert!(!is_in_examples_folder("/repo/tools/demo"));
    assert_eq!(bin_source_path("/r", "srv", &None), "/r/src/srv.rs");
    assert_eq!(bin_source_path("/r", "srv", &Some("bin/s.rs".to_string())), "/r/bin/s.rs");
    assert_eq!(example_source_path("/r", "ex", &None), "/r/examples/ex.rs");
}

#[test]
fn one_target_per_source_file() {
    let single = target("tool", "tool", TargetKind::Binary, Some(TargetOrigin::SingleFile("src/main.rs".to_string())));
    let default = target("pkg", "pkg", TargetKind::Binary, Some(TargetOrigin::DefaultBinary("src/main.rs".to_string())));
    let mut named = target("named", "named", TargetKind::Binary, Some(TargetOrigin::DefaultBinary("src/main.rs".to_string())));
    named.toml_specified = true;
    let other = target("bench", "bench", TargetKind::Bench, None);
    let key = Some("/abs/src/main.rs".to_string());
    let kept = dedup_single_file_over_default_binary(vec![default.clone(), single.clone(), other.clone()], &vec![key.clone(), key.clone(), None]);
    let names: Vec<String> = kept.iter().map(|t| t.name.clone()).collect();
    assert_eq!(names, vec!["tool", "bench"]);
    let kept = dedup_single_file_over_default_binary(vec![named, single], &vec![key.clone(), key]);
    assert_eq!(kept.len(), 1);
    assert_eq!(kept[0].name, "named");
}

#[test]
fn manifest_labels_and_members() {
    assert_eq!(format_package("/w/pkg/Cargo.toml"), "pkg/Cargo.toml");
    assert_eq!(format_workspace("/w/root/Cargo.toml", "/w/root/member/src/main.rs"), "root/src/Cargo.toml");
    assert_eq!(clean_member("crates/*"), "crates");
    assert_eq!(clean_member("crates/*/*"), "crates");
    assert_eq!(clean_member("tools/cli"), "tools/cli");
    assert_eq!(clean_member("a*b"), "a*b");
}

fn summary(ts: &[CargoTarget]) -> Vec<(String, TargetKind, bool)> {
    ts.iter().map(|t| (t.name.clone(), t.kind, t.toml_specified)).collect()
}

#[test]
fn dedup_keeps_one_per_name_sorted_by_kind_then_name() {
    let ts = vec![
        target("zeta", "zeta", TargetKind::Example, None),
        target("alpha", "alpha", TargetKind::Binary, None),
        target("zeta", "zeta", TargetKind::ManifestTauri, None),
        target("beta", "beta", TargetKind::Example, Some(TargetOrigin::TomlSpecified("Cargo.toml".to_string()))),
    ];
    let r = dedup_targets(ts);
    assert_eq!(
        summary(&r),
        vec![
            ("beta".to_string(), TargetKind::Example, true),
            ("alpha".to_string(), TargetKind::Binary, false),
            ("zeta".to_string(), TargetKind::ManifestTauri, false),
        ]
    );
}

#[test]
fn dedup_is_idempotent() {
    let ts = vec![
        target("b", "b", TargetKind::Example, Some(TargetOrigin::SingleFile("examples/b.rs".to_string()))),
        target("a", "a", TargetKind::ExtendedExample, None),
        target("b", "b", TargetKind::Example, Some(TargetOrigin::TomlSpecified("Cargo.toml".to_string()))),
        target("c", "c", TargetKind::Binary, None),
    ];
    let once = dedup_targets(ts);
    let twice = dedup_targets(once.clone());
    assert_eq!(summary(&once), summary(&twice));
    assert_eq!(once.iter().map(|t| t.display_name.clone()).collect::<Vec<_>>(), twice.iter().map(|t| t.display_name.clone()).collect::<Vec<_>>());
}

#[test]
fn default_builder_runs_cargo_toml() {
    let b = CargoCommandBuilder::default();
    assert_eq!(b.target_name, "");
    assert_eq!(b.manifest_path, "Cargo.toml");
    assert_eq!(b.subcommand, "run");
    assert!(b.args.is_empty());
    assert!(!b.is_filter);
    assert!(b.execution_dir.is_none());
}

#[test]
fn dedup_keeps_manifest_flag_of_any_target_in_group() {
    let a = target("a", "a", TargetKind::Binary, Some(TargetOrigin::SingleFile("a.rs".to_string())));
    let mut b = a.clone();
    b.kind = TargetKind::Example;
    b.toml_specified = true;
    let r = dedup_targets(vec![a, b]);
    assert_eq!(r.len(), 1);
    assert_eq!(r[0].kind, TargetKind::Binary);
    assert!(r[0].toml_specified);
}

#[test]
fn dedup_compares_origin_before_kind() {
    let a = target("a", "a", TargetKind::Binary, Some(TargetOrigin::SingleFile("a.rs".to_string())));
    let mut b = a.clone();
    b.kind = TargetKind::Example;
    b.origin = Some(TargetOrigin::SubProject("sub/Cargo.toml".to_string()));
    let r = dedup_targets(vec![a, b.clone()]);
    assert_eq!(r.len(), 1);
    assert_eq!(r[0].kind, TargetKind::Example);
    assert_eq!(format!("{:?}", r[0].origin), format!("{:?}", b.origin));
}

#[test]
fn prebuild_passes_over_kinds_without_a_build_flag() {
    let m = target("m", "m", TargetKind::Manifest, None);
    let ex = target("ex", "ex", TargetKind::Example, None);
    let mut xb = target("xb", "xb", TargetKind::ExtendedBinary, None);
    xb.manifest_path = "sub/Cargo.toml".to_string();
    let plan = prebuild_commands(&vec![m, ex, xb]);
    assert_eq!(
        plan,
        vec![
            vec!["build".to_string(), "--example".to_string(), "ex".to_string()],
            vec![
                "build".to_string(),
                "--bin".to_string(),
                "xb".to_string(),
                "--manifest-path".to_string(),
                "sub/Cargo.toml".to_string()
            ],
        ]
    );
}

fn no_fs() -> FsFacts {
    FsFacts {
        tauri_conf_beside_manifest: false,
        src_tauri_beside_manifest: false,
        tauri_conf_beside_candidate: false,
        manifest_beside_candidate: None,
    }
}

#[test]
fn kind_falls_back_to_example() {
    let m = "/nonexistent/p/Cargo.toml";
    let r = determine_target_kind_and_manifest(m, "/nonexistent/p/src/lib.rs", "pub fn helper() {}", false, false, None, &no_fs());
    assert_eq!(r, (TargetKind::Example, m.to_string()));
}

#[test]
fn kind_of_main_follows_its_folder() {
    let m = "/nonexistent/p/Cargo.toml";
    let r = determine_target_kind_and_manifest(m, "/nonexistent/p/examples/a.rs", "fn main() {}", false, false, None, &no_fs());
    assert_eq!(r, (TargetKind::Example, m.to_string()));
    let r = determine_target_kind_and_manifest(m, "/nonexistent/p/src/bin/b.rs", "fn main() {}", true, true, None, &no_fs());
    assert_eq!(r, (TargetKind::ExtendedBinary, m.to_string()));
    let r = determine_target_kind_and_manifest(m, "/nonexistent/p/src/main.rs", "fn main() {}", false, false, None, &no_fs());
    assert_eq!(r, (TargetKind::Binary, m.to_string()));
    let r = determine_target_kind_and_manifest(m, "/nonexistent/p/tests/t.rs", "#[test] fn t() {}", false, false, None, &no_fs());
    assert_eq!(r, (TargetKind::Test, m.to_string()));
}

fn entry(name: Option<&str>) -> cargo_e::manifest::ManifestEntry {
    cargo_e::manifest::ManifestEntry { name: name.map(|n| n.to_string()), path: None, has_path: false, required_features: None }
}

#[test]
fn assemble_runnable_targets_orders_and_fills() {
    let data = cargo_e::manifest::ManifestData {
        package_name: Some("pkg".to_string()),
        has_workspace: false,
        workspace_members: None,
        bin: Some(vec![entry(Some("tool")), entry(None)]),
        example: Some(vec![entry(Some("demo"))]),
        test: None,
        bench: Some(vec![entry(Some("speed")), entry(None), entry(Some("size"))]),
    };
    let facts = RunnableFacts {
        declared_bins: vec![Some(target("tool", "tool", TargetKind::Binary, None)), Some(target("ghost", "ghost", TargetKind::Binary, None))],
        declared_examples: vec![Some(target("demo", "demo", TargetKind::Example, None))],
        default_binary: Some(("/p/src/main.rs".to_string(), target("pkg", "pkg", TargetKind::Binary, None))),
        scanned_bins: vec![target("tool", "tool", TargetKind::Binary, None), target("extra", "extra", TargetKind::Binary, None)],
        scanned_examples: vec![target("demo", "demo", TargetKind::Example, None), target("more", "more", TargetKind::Example, None)],
        scanned_experiments: vec![target("exp", "exp", TargetKind::Example, None)],
        test_names: vec!["it".to_string()],
    };
    let (bins, examples, benches, tests) = assemble_runnable_targets(&data, "/p/Cargo.toml", "/p", &facts);
    assert_eq!(bins.iter().map(|t| t.name.clone()).collect::<Vec<_>>(), vec!["tool", "pkg", "extra"]);
    assert_eq!(format!("{:?}", bins[1].origin), format!("{:?}", Some(TargetOrigin::DefaultBinary("/p/src/main.rs".to_string()))));
    assert_eq!(examples.iter().map(|t| t.name.clone()).collect::<Vec<_>>(), vec!["demo", "more", "exp"]);
    assert_eq!(benches.iter().map(|t| (t.name.clone(), t.kind)).collect::<Vec<_>>(), vec![("speed".to_string(), TargetKind::Bench), ("size".to_string(), TargetKind::Bench)]);
    assert_eq!(tests.len(), 1);
    assert_eq!(tests[0].kind, TargetKind::Test);
    assert_eq!(format!("{:?}", tests[0].origin), format!("{:?}", Some(TargetOrigin::SingleFile("/p/tests/it.rs".to_string()))));
}

#[test]
fn assemble_runnable_targets_skips_default_when_declared() {
    let data = cargo_e::manifest::ManifestData {
        package_name: Some("pkg".to_string()),
        has_workspace: false,
        workspace_members: None,
        bin: Some(vec![entry(Some("pkg"))]),
        example: None,
        test: None,
        bench: None,
    };
    let facts = RunnableFacts {
        declared_bins: vec![Some(target("pkg", "pkg", TargetKind::Binary, None))],
        declared_examples: vec![],
        default_binary: Some(("/p/src/main.rs".to_string(), target("pkg", "pkg", TargetKind::Binary, None))),
        scanned_bins: vec![],
        scanned_examples: vec![],
        scanned_experiments: vec![],
        test_names: vec![],
    };
    let (bins, examples, benches, tests) = assemble_runnable_targets(&data, "/p/Cargo.toml", "/p", &facts);
    assert_eq!(bins.len(), 1);
    assert!(bins[0].origin.is_none());
    assert!(examples.is_empty() && benches.is_empty() && tests.is_empty());
}

#[test]
fn try_figure_main_name_refuses_main() {
    let none = ManifestNames { bin_name: None, example_name: None, package_name: None };
    let mut t = target("x", "x", TargetKind::Binary, Some(TargetOrigin::SingleFile("/p/main/main.rs".to_string())));
    assert_eq!(t.try_figure_main_name(&none), Err("Name is main".to_string()));
    assert_eq!(t.name, "x");
    let mut u = target("x", "x", TargetKind::Binary, Some(TargetOrigin::SingleFile("/p/tool/main.rs".to_string())));
    assert!(u.try_figure_main_name(&none).is_ok());
    assert_eq!(u.name, "tool");
    let mut n = target("x", "x", TargetKind::Binary, None);
    assert_eq!(n.try_figure_main_name(&none), Err("No candidate file found".to_string()));
}
