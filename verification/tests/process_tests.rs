use cargo_e::fmt::timing_report;
use cargo_e::installer::{install_command, install_step, tool_executable, InstallAction, InstallEvent, InstallFailure, InstallPhase, Tool};
use cargo_e::process::{kill_step, KillObservation, KillSignal, KillStep};
use std::time::Duration;

#[test]
fn kill_escalates_through_signals() {
    let order = [
        KillSignal::Hangup,
        KillSignal::Interrupt,
        KillSignal::Quit,
        KillSignal::Abort,
        KillSignal::Kill,
        KillSignal::Alarm,
        KillSignal::Terminate,
    ];
    for (i, sig) in order.iter().enumerate() {
        assert_eq!(kill_step(i, KillObservation::Running), KillStep::Send(*sig));
    }
    assert_eq!(kill_step(7, KillObservation::Running), KillStep::Done(false));
}

#[test]
fn kill_stops_on_exit_or_unreadable() {
    assert_eq!(kill_step(0, KillObservation::Exited), KillStep::Done(true));
    assert_eq!(kill_step(3, KillObservation::Exited), KillStep::Done(true));
    assert_eq!(kill_step(2, KillObservation::Unreadable), KillStep::Done(false));
    assert_eq!(kill_step(9, KillObservation::Exited), KillStep::Done(false));
}

#[test]
fn timing_report_with_everything_known() {
    let lines = timing_report(
        "Some(t0)",
        &Some(("t1".to_string(), Duration::from_millis(2500))),
        "Some(t2)",
        Some(Duration::from_secs(61)),
        Some(Duration::from_secs(2)),
        Some(Duration::from_millis(63500)),
        2048,
        10,
    );
    assert_eq!(
        lines,
        vec![
            "-------------------------------------------------",
            "Process started at: Some(t0)",
            "Build phase ended at: t1",
            "Build phase elapsed:  02.500",
            "Process ended at:   Some(t2)",
            "Runtime phase elapsed: 01:01.000",
            "Build phase elapsed:   02.000",
            "Total elapsed time:   01:03.500",
            "Build output size:  2.00 KB (2048 bytes)",
            "Runtime output size: 10 B (10 bytes)",
            "-------------------------------------------------",
        ]
    );
}

#[test]
fn timing_report_with_nothing_known() {
    let lines = timing_report("None", &None, "None", None, None, None, 0, 0);
    assert_eq!(
        lines,
        vec![
            "-------------------------------------------------",
            "Process started at: None",
            "No BuildFinished timestamp recorded.",
            "Process ended at:   None",
            "No total elapsed time available.",
            "Build output size:  0 B (0 bytes)",
            "Runtime output size: 0 B (0 bytes)",
            "-------------------------------------------------",
        ]
    );
}

#[test]
fn install_steps_follow_answers() {
    assert_eq!(install_step(InstallPhase::LookingUp, InstallEvent::OnPath(true)), (InstallPhase::Finished, InstallAction::Found));
    assert_eq!(install_step(InstallPhase::LookingUp, InstallEvent::OnPath(false)), (InstallPhase::Asked, InstallAction::Ask));
    assert_eq!(install_step(InstallPhase::Asked, InstallEvent::Reply(Some(true))), (InstallPhase::Installed, InstallAction::Install));
    assert_eq!(
        install_step(InstallPhase::Asked, InstallEvent::Reply(Some(false))),
        (InstallPhase::Finished, InstallAction::Fail(InstallFailure::Skipped))
    );
    assert_eq!(
        install_step(InstallPhase::Asked, InstallEvent::Reply(None)),
        (InstallPhase::Finished, InstallAction::Fail(InstallFailure::Cancelled))
    );
    assert_eq!(
        install_step(InstallPhase::Installed, InstallEvent::OnPath(false)),
        (InstallPhase::Finished, InstallAction::Fail(InstallFailure::StillMissing))
    );
    assert_eq!(install_step(InstallPhase::Installed, InstallEvent::OnPath(true)), (InstallPhase::Finished, InstallAction::Found));
}

#[test]
fn install_commands_per_tool() {
    assert_eq!(install_command(Tool::Dx), (false, vec!["install", "dioxus-cli"]));
    assert_eq!(install_command(Tool::NapiCli), (true, vec!["install", "-g", "@napi-rs/cli"]));
    assert_eq!(tool_executable(Tool::Leptos), "cargo-leptos");
    assert_eq!(tool_executable(Tool::RustScript), "rust-script");
}
