//! Checks made before installing tools.
use vstd::prelude::*;

verus! {

/// The message given when administrative privileges are missing.
pub open spec fn admin_required_text() -> Seq<char> {
    "This program must be run as an administrator. Please restart it with administrative privileges."@
}

/// Succeeds when the program runs with administrative privileges, and
/// otherwise fails with a message asking for them.
pub fn ensure_admin_privileges(is_admin: bool) -> (r: Result<(), String>)
    ensures
        is_admin <==> r is Ok,
        match r {
            Err(e) => e@ == admin_required_text(),
            Ok(_) => true,
        },
{
    if !is_admin {
        return Err(String::from_str(
            "This program must be run as an administrator. Please restart it with administrative privileges.",
        ));
    }
    Ok(())
}

/// A tool the library offers to install when it is missing.
#[derive(Debug, Clone, Copy, PartialEq, Eq, Structural)]
pub enum Tool {
    NapiCli,
    CrossEnv,
    Pnpm,
    Dx,
    Trunk,
    RustScript,
    Leptos,
}

/// Where the installation of a missing tool stands.
#[derive(Debug, Clone, Copy, PartialEq, Eq, Structural)]
pub enum InstallPhase {
    /// The tool is being looked up on the `PATH`.
    LookingUp,
    /// The user was asked whether to install it.
    Asked,
    /// It was installed and is being looked up again.
    Installed,
    /// Nothing more to do.
    Finished,
}

/// What was observed at a step.
#[derive(Debug, Clone, Copy, PartialEq, Eq, Structural)]
pub enum InstallEvent {
    /// The tool was (or was not) found on the `PATH`.
    OnPath(bool),
    /// The user answered yes, no, or not at all (a timeout).
    Reply(Option<bool>),
    /// Asking the user failed.
    PromptFailed,
}

/// Why the tool could not be made available.
#[derive(Debug, Clone, Copy, PartialEq, Eq, Structural)]
pub enum InstallFailure {
    Skipped,
    Cancelled,
    PromptError,
    StillMissing,
    /// An event that does not belong to the phase it arrived in.
    OutOfTurn,
}

/// What to do next.
#[derive(Debug, Clone, Copy, PartialEq, Eq, Structural)]
pub enum InstallAction {
    /// The tool is available.
    Found,
    /// Ask the user whether to install it.
    Ask,
    /// Run the installation, then look the tool up again.
    Install,
    /// Give up.
    Fail(InstallFailure),
}

/// The next phase and action: a tool found is done with; a missing one is
/// asked about; a yes installs it and looks it up again; a no, a timeout or
/// a failed prompt gives up, as does a tool still missing after installing.
pub open spec fn install_transition(phase: InstallPhase, event: InstallEvent) -> (InstallPhase, InstallAction) {
    match (phase, event) {
        (InstallPhase::LookingUp, InstallEvent::OnPath(true)) => (InstallPhase::Finished, InstallAction::Found),
        (InstallPhase::LookingUp, InstallEvent::OnPath(false)) => (InstallPhase::Asked, InstallAction::Ask),
        (InstallPhase::Asked, InstallEvent::Reply(Some(true))) => (InstallPhase::Installed, InstallAction::Install),
        (InstallPhase::Asked, InstallEvent::Reply(Some(false))) => (InstallPhase::Finished, InstallAction::Fail(InstallFailure::Skipped)),
        (InstallPhase::Asked, InstallEvent::Reply(None)) => (InstallPhase::Finished, InstallAction::Fail(InstallFailure::Cancelled)),
        (InstallPhase::Asked, InstallEvent::PromptFailed) => (InstallPhase::Finished, InstallAction::Fail(InstallFailure::PromptError)),
        (InstallPhase::Installed, InstallEvent::OnPath(true)) => (InstallPhase::Finished, InstallAction::Found),
        (InstallPhase::Installed, InstallEvent::OnPath(false)) => (InstallPhase::Finished, InstallAction::Fail(InstallFailure::StillMissing)),
        _ => (InstallPhase::Finished, InstallAction::Fail(InstallFailure::OutOfTurn)),
    }
}

/// Decides the next phase and action of an installation.
pub fn install_step(phase: InstallPhase, event: InstallEvent) -> (r: (InstallPhase, InstallAction))
    ensures
        r == install_transition(phase, event),
{
    match (phase, event) {
        (InstallPhase::LookingUp, InstallEvent::OnPath(true)) => (InstallPhase::Finished, InstallAction::Found),
        (InstallPhase::LookingUp, InstallEvent::OnPath(false)) => (InstallPhase::Asked, InstallAction::Ask),
        (InstallPhase::Asked, InstallEvent::Reply(Some(true))) => (InstallPhase::Installed, InstallAction::Install),
        (InstallPhase::Asked, InstallEvent::Reply(Some(false))) => (InstallPhase::Finished, InstallAction::Fail(InstallFailure::Skipped)),
        (InstallPhase::Asked, InstallEvent::Reply(None)) => (InstallPhase::Finished, InstallAction::Fail(InstallFailure::Cancelled)),
        (InstallPhase::Asked, InstallEvent::PromptFailed) => (InstallPhase::Finished, InstallAction::Fail(InstallFailure::PromptError)),
        (InstallPhase::Installed, InstallEvent::OnPath(true)) => (InstallPhase::Finished, InstallAction::Found),
        (InstallPhase::Installed, InstallEvent::OnPath(false)) => (InstallPhase::Finished, InstallAction::Fail(InstallFailure::StillMissing)),
        _ => (InstallPhase::Finished, InstallAction::Fail(InstallFailure::OutOfTurn)),
    }
}

/// Nothing is installed without a yes: the only step that installs is a yes
/// to the question, and a finished installation takes no further step.
pub proof fn lemma_install_needs_consent(phase: InstallPhase, event: InstallEvent)
    ensures
        install_transition(phase, event).1 == InstallAction::Install <==> (phase == InstallPhase::Asked && event
            == InstallEvent::Reply(Some(true))),
        phase == InstallPhase::Finished ==> install_transition(phase, event).1 is Fail,
{
}

/// The executable a tool provides.
pub fn tool_executable(t: Tool) -> (r: &'static str)
    ensures
        r@ == match t {
            Tool::NapiCli => "napi"@,
            Tool::CrossEnv => "cross-env"@,
            Tool::Pnpm => "pnpm"@,
            Tool::Dx => "dx"@,
            Tool::Trunk => "trunk"@,
            Tool::RustScript => "rust-script"@,
            Tool::Leptos => "cargo-leptos"@,
        },
{
    match t {
        Tool::NapiCli => "napi",
        Tool::CrossEnv => "cross-env",
        Tool::Pnpm => "pnpm",
        Tool::Dx => "dx",
        Tool::Trunk => "trunk",
        Tool::RustScript => "rust-script",
        Tool::Leptos => "cargo-leptos",
    }
}

/// The package installed for a tool, and whether `npm` (rather than
/// `cargo`) installs it.
pub open spec fn tool_package(t: Tool) -> (Seq<char>, bool) {
    match t {
        Tool::NapiCli => ("@napi-rs/cli"@, true),
        Tool::CrossEnv => ("cross-env"@, true),
        Tool::Pnpm => ("pnpm"@, true),
        Tool::Dx => ("dioxus-cli"@, false),
        Tool::Trunk => ("trunk"@, false),
        Tool::RustScript => ("rust-script"@, false),
        Tool::Leptos => ("cargo-leptos"@, false),
    }
}

/// The arguments of the installing command: `install -g <package>` for
/// `npm`, `install <package>` for `cargo`.
pub open spec fn install_args_of(t: Tool) -> Seq<Seq<char>> {
    let (package, npm) = tool_package(t);
    if npm {
        seq!["install"@, "-g"@, package]
    } else {
        seq!["install"@, package]
    }
}

/// The installing program (`true` for `npm`) and its arguments for a tool.
pub fn install_command(t: Tool) -> (r: (bool, Vec<&'static str>))
    ensures
        r.0 == tool_package(t).1,
        r.1@.map_values(|a: &'static str| a@) == install_args_of(t),
{
    let (package, npm): (&'static str, bool) = match t {
        Tool::NapiCli => ("@napi-rs/cli", true),
        Tool::CrossEnv => ("cross-env", true),
        Tool::Pnpm => ("pnpm", true),
        Tool::Dx => ("dioxus-cli", false),
        Tool::Trunk => ("trunk", false),
        Tool::RustScript => ("rust-script", false),
        Tool::Leptos => ("cargo-leptos", false),
    };
    let mut args: Vec<&'static str> = Vec::new();
    args.push("install");
    if npm {
        args.push("-g");
    }
    args.push(package);
    assert(args@.map_values(|a: &'static str| a@) =~= install_args_of(t));
    (npm, args)
}

} // verus!
