use cargo_e::diagnostics::CargoDiagnostic;
use cargo_e::runner::{
    classify_failure, command_line, error_lines, failure_card, failure_report, library_hint,
    remove_manifest_path_arg, run_directory, skips_own_binary, split_lineref, CargoFailure,
};
use cargo_e::target::TargetKind;

fn diag(level: &str, lineref: &str, message: &str) -> CargoDiagnostic {
    CargoDiagnostic::new(lineref.to_string(), level.to_string(), message.to_string(), None, None, None, None, false, Some(1), Some(2))
}

#[test]
fn library_hints_name_development_packages() {
    assert_eq!(library_hint("openssl"), "libssl-dev");
    assert_eq!(library_hint("libsoup-3.0"), "libsoup-3.0-dev");
    assert_eq!(library_hint("webkit2gtk-4.1"), "libwebkit2gtk-4.1-dev");
    assert_eq!(library_hint("javascriptcoregtk-4.1"), "libjavascriptcoregtk-4.1-dev");
    assert_eq!(library_hint("zlib"), "zlib");
}

#[test]
fn missing_system_library_is_recognised_first() {
    let out = "  The system library `openssl` required by crate `openssl-sys` was not found.\nno such command: `tauri`";
    match classify_failure(out) {
        CargoFailure::MissingSystemLibrary { library, crate_name } => {
            assert_eq!(library, "openssl");
            assert_eq!(crate_name, "openssl-sys");
        }
        _ => panic!("expected a missing system library"),
    }
    let f = CargoFailure::MissingSystemLibrary { library: "openssl".to_string(), crate_name: "openssl-sys".to_string() };
    assert_eq!(
        failure_report(&f),
        vec![
            "cargo-e detected missing system library 'openssl' required by crate 'openssl-sys'.",
            "You might need to install 'openssl' via your system package manager.",
            "For example:",
            "  • Debian/Ubuntu: sudo apt install libssl-dev",
            "  • Fedora: sudo dnf install libssl-dev",
            "  • Arch: sudo pacman -S libssl-dev",
            "  • macOS (Homebrew): brew install libssl-dev",
        ]
    );
}

#[test]
fn every_failure_kind_is_recognised() {
    assert!(matches!(classify_failure("error: failed to load manifest for workspace member `x`"), CargoFailure::WorkspaceMemberManifest));
    assert!(matches!(classify_failure("error: no such command: `tauri`"), CargoFailure::MissingTauriCli));
    assert!(matches!(classify_failure("error: no such command: `leptos`"), CargoFailure::MissingCargoLeptos));
    assert!(matches!(classify_failure("thread panicked: Unable to find libclang"), CargoFailure::MissingLibclang));
    assert!(matches!(classify_failure("no such command: `dx`"), CargoFailure::MissingDioxusCli));
    assert!(matches!(classify_failure("no such command: `scriptisto`"), CargoFailure::MissingScriptisto));
    assert!(matches!(classify_failure("no such command: `rust-script`"), CargoFailure::MissingRustScript));
    assert!(matches!(
        classify_failure("No platform feature enabled. Please enable one of the following features: web"),
        CargoFailure::DioxusPlatformFeature
    ));
    assert!(matches!(classify_failure("all good"), CargoFailure::Unrecognised));
    assert!(failure_report(&CargoFailure::Unrecognised).is_empty());
    assert_eq!(
        failure_report(&CargoFailure::MissingDioxusCli),
        vec!["cargo dx is not installed, please install it with cargo install dioxus-cli"]
    );
}

#[test]
fn retry_drops_manifest_path_and_its_value() {
    let mut args: Vec<String> = ["run", "--example", "demo", "--manifest-path", "a/Cargo.toml", "--", "x"]
        .iter()
        .map(|s| s.to_string())
        .collect();
    remove_manifest_path_arg(&mut args);
    assert_eq!(args, vec!["run", "--example", "demo", "--", "x"]);
    let mut tail: Vec<String> = vec!["run".to_string(), "--manifest-path".to_string()];
    remove_manifest_path_arg(&mut tail);
    assert_eq!(tail, vec!["run"]);
    let mut none: Vec<String> = vec!["run".to_string()];
    remove_manifest_path_arg(&mut none);
    assert_eq!(none, vec!["run"]);
}

#[test]
fn own_binary_and_run_directory() {
    assert!(skips_own_binary(TargetKind::Binary, "cargo-e", "cargo-e"));
    assert!(!skips_own_binary(TargetKind::Example, "cargo-e", "cargo-e"));
    assert_eq!(run_directory(&Some("tauri".to_string()), true, &Some("proj".to_string())), Some("tauri".to_string()));
    assert_eq!(run_directory(&None, true, &Some("proj".to_string())), Some("proj".to_string()));
    assert_eq!(run_directory(&None, false, &Some("proj".to_string())), None);
    assert_eq!(command_line("cargo", &vec!["run".to_string(), "--release".to_string()]), "cargo run --release");
}

#[test]
fn error_entries_and_card() {
    assert_eq!(split_lineref("src/main.rs:3:7"), Some(("src/main.rs".to_string(), "3:7".to_string())));
    assert_eq!(split_lineref("nowhere"), None);
    let errors = vec![diag("error", "src/main.rs:3:7", "  mismatched types "), diag("error", "", "linking failed")];
    let resolved = vec![Some("\\\\?\\C:\\p\\src\\main.rs".to_string()), None];
    let lines = error_lines(&errors, &resolved, "code");
    assert_eq!(
        lines[0],
        "1: mismatched types\nanchor:1: mismatched types\\n src/main.rs:3:7|\"code\" --goto \"C:\\p\\src\\main.rs:3:7\"\n"
    );
    assert_eq!(lines[1], "2: linking failed\nanchor:2: linking failed\\n |\"code\" --goto \":\"\n");
    let card = failure_card("demo", "0.1.0", 2, &lines);
    assert!(card.starts_with("--title \"failed build: demo\" --width 400 --height 300 --decode-debug\ntarget | demo | string\ncargo-e | 0.1.0 | string\n\nfailed build: demo\n2 errors.\n\n1: mismatched types"));
}
