//! Construction of the cargo (or tool) command line that runs a target.
use vstd::prelude::*;
use crate::cli::{Cli, views, str_eq_exact};
use crate::target::{CargoTarget, TargetKind, TargetOrigin};
use crate::paths::{parent_of, path_parent};

verus! {

/// Whether a run failed for want of a terminal.
#[derive(Debug, Clone, Copy, PartialEq, Eq, Structural)]
pub enum TerminalError {
    NotConnected,
    NoTerminal,
    NoError,
}

impl Default for TerminalError {
    fn default() -> (r: TerminalError)
        ensures
            r == TerminalError::NoError,
    {
        TerminalError::NoError
    }
}

/// A builder of the command line that runs one target.
pub struct CargoCommandBuilder {
    pub target_name: String,
    pub manifest_path: String,
    pub args: Vec<String>,
    pub subcommand: String,
    pub pid: Option<u32>,
    pub alternate_cmd: Option<String>,
    pub execution_dir: Option<String>,
    /// Flags (such as `quiet`) that command-line options must not add; no duplicates.
    pub suppressed_flags: Vec<String>,
    pub is_filter: bool,
}

/// The abstract state of a builder.
pub struct BuilderView {
    pub target_name: Seq<char>,
    pub manifest_path: Seq<char>,
    pub args: Seq<Seq<char>>,
    pub subcommand: Seq<char>,
    pub pid: Option<u32>,
    pub alternate_cmd: Option<Seq<char>>,
    pub execution_dir: Option<Seq<char>>,
    pub suppressed: Set<Seq<char>>,
    pub is_filter: bool,
}

/// The character view of an optional string.
pub open spec fn opt_view(o: Option<String>) -> Option<Seq<char>> {
    match o {
        Some(s) => Some(s@),
        None => None,
    }
}

impl View for CargoCommandBuilder {
    type V = BuilderView;

    open spec fn view(&self) -> BuilderView {
        BuilderView {
            target_name: self.target_name@,
            manifest_path: self.manifest_path@,
            args: views(self.args@),
            subcommand: self.subcommand@,
            pid: self.pid,
            alternate_cmd: opt_view(self.alternate_cmd),
            execution_dir: opt_view(self.execution_dir),
            suppressed: views(self.suppressed_flags@).to_set(),
            is_filter: self.is_filter,
        }
    }
}

/// The builder's arguments replaced by `args`.
pub open spec fn with_args(b: BuilderView, args: Seq<Seq<char>>) -> BuilderView {
    BuilderView { args: args, ..b }
}

/// The index of the first occurrence of `x` in `v`.
pub open spec fn first_index(v: Seq<Seq<char>>, x: Seq<char>) -> Option<int>
    decreases v.len(),
{
    if v.len() == 0 {
        None
    } else if v[0] == x {
        Some(0)
    } else {
        match first_index(v.drop_first(), x) {
            Some(i) => Some(i + 1),
            None => None,
        }
    }
}

/// `flag` inserted just after the first occurrence of `sub`, or appended when `sub` is absent.
pub open spec fn insert_after(args: Seq<Seq<char>>, sub: Seq<char>, flag: Seq<char>) -> Seq<Seq<char>> {
    match first_index(args, sub) {
        Some(p) => args.insert(p + 1, flag),
        None => args.push(flag),
    }
}

/// The arguments after applying the command-line options: `--quiet` (unless
/// suppressed) and `--release` just after the subcommand, then `--` and the
/// extra arguments.
pub open spec fn cli_args(b: BuilderView, quiet: bool, release: bool, extra: Seq<Seq<char>>) -> Seq<Seq<char>> {
    let a1 = if quiet && !b.suppressed.contains("quiet"@) {
        insert_after(b.args, b.subcommand, "--quiet"@)
    } else {
        b.args
    };
    let a2 = if release { insert_after(a1, b.subcommand, "--release"@) } else { a1 };
    if extra.len() > 0 { a2.push("--"@) + extra } else { a2 }
}

/// The arguments after appending `--` and `extra` (when `extra` is not empty).
pub open spec fn extra_args(args: Seq<Seq<char>>, extra: Seq<Seq<char>>) -> Seq<Seq<char>> {
    if extra.len() > 0 { args.push("--"@) + extra } else { args }
}

/// Subcommands that make the command a compilation.
pub open spec fn compiler_subcommand(a: Seq<char>) -> bool {
    a == "run"@ || a == "build"@ || a == "check"@ || a == "leptos"@ || a == "tauri"@
}

/// Subcommands whose cargo output can be requested as JSON.
pub open spec fn json_subcommand(a: Seq<char>) -> bool {
    a == "run"@ || a == "build"@ || a == "test"@ || a == "bench"@ || a == "clean"@ || a == "doc"@
        || a == "publish"@ || a == "update"@
}

/// The first index of an argument satisfying `json_subcommand`.
pub open spec fn first_json_subcommand(v: Seq<Seq<char>>) -> Option<int>
    decreases v.len(),
{
    if v.len() == 0 {
        None
    } else if json_subcommand(v[0]) {
        Some(0)
    } else {
        match first_json_subcommand(v.drop_first()) {
            Some(i) => Some(i + 1),
            None => None,
        }
    }
}

/// Whether the builder compiles code: the `trunk` tool always does, another
/// tool than `cargo` never does, and otherwise a compiling subcommand must appear.
pub open spec fn compiler_target(b: BuilderView) -> bool {
    match b.alternate_cmd {
        Some(alt) => if alt == "trunk"@ {
            true
        } else if alt != "cargo"@ {
            false
        } else {
            exists|i: int| 0 <= i < b.args.len() && compiler_subcommand(#[trigger] b.args[i])
        },
        None => exists|i: int| 0 <= i < b.args.len() && compiler_subcommand(#[trigger] b.args[i]),
    }
}

/// The program and arguments actually run: in filter mode, JSON message
/// format and forced colour are requested just after the first cargo subcommand.
pub open spec fn injected(b: BuilderView) -> (Seq<char>, Seq<Seq<char>>) {
    let program = match b.alternate_cmd {
        Some(a) => a,
        None => "cargo"@,
    };
    let args = if b.is_filter {
        match first_json_subcommand(b.args) {
            Some(p) => b.args.insert(p + 1, "--message-format=json"@).insert(p + 2, "--color"@).insert(
                p + 3,
                "always"@,
            ),
            None => b.args,
        }
    } else {
        b.args
    };
    (program, args)
}

/// The string at `i`, as a view.
proof fn lemma_views_index(v: Seq<String>, i: int)
    requires
        0 <= i < v.len(),
    ensures
        views(v)[i] == v[i]@,
        views(v).len() == v.len(),
{
}

/// The index of the first argument equal to `x`.
fn find_arg(args: &Vec<String>, x: &str) -> (r: Option<usize>)
    ensures
        match r {
            Some(i) => first_index(views(args@), x@) == Some(i as int) && i < args.len(),
            None => first_index(views(args@), x@) is None,
        },
{
    let mut i: usize = 0;
    assert(views(args@).skip(0) == views(args@));
    while i < args.len()
        invariant
            i <= args.len(),
            first_index(views(args@), x@) == (match first_index(views(args@).skip(i as int), x@) {
                Some(j) => Some(j + i),
                None => None::<int>,
            }),
        decreases args.len() - i,
    {
        proof {
            let s = views(args@).skip(i as int);
            assert(s[0] == args@[i as int]@);
            assert(s.drop_first() == views(args@).skip(i + 1));
        }
        if str_eq_exact(args[i].as_str(), x) {
            return Some(i);
        }
        i = i + 1;
    }
    proof {
        assert(views(args@).skip(i as int).len() == 0);
    }
    None
}

/// The index of the first argument that names a cargo subcommand with JSON output.
fn find_json_subcommand(args: &Vec<String>) -> (r: Option<usize>)
    ensures
        match r {
            Some(i) => first_json_subcommand(views(args@)) == Some(i as int) && i < args.len(),
            None => first_json_subcommand(views(args@)) is None,
        },
{
    let mut i: usize = 0;
    assert(views(args@).skip(0) == views(args@));
    while i < args.len()
        invariant
            i <= args.len(),
            first_json_subcommand(views(args@)) == (match first_json_subcommand(views(args@).skip(i as int)) {
                Some(j) => Some(j + i),
                None => None::<int>,
            }),
        decreases args.len() - i,
    {
        proof {
            let s = views(args@).skip(i as int);
            assert(s[0] == args@[i as int]@);
            assert(s.drop_first() == views(args@).skip(i + 1));
        }
        let a = args[i].as_str();
        if str_eq_exact(a, "run") || str_eq_exact(a, "build") || str_eq_exact(a, "test")
            || str_eq_exact(a, "bench") || str_eq_exact(a, "clean") || str_eq_exact(a, "doc")
            || str_eq_exact(a, "publish") || str_eq_exact(a, "update") {
            return Some(i);
        }
        i = i + 1;
    }
    proof {
        assert(views(args@).skip(i as int).len() == 0);
    }
    None
}

/// Whether `x` occurs among the arguments.
fn has_arg(args: &Vec<String>, x: &str) -> (r: bool)
    ensures
        r == views(args@).contains(x@),
{
    let mut i: usize = 0;
    while i < args.len()
        invariant
            i <= args.len(),
            forall|k: int| 0 <= k < i ==> views(args@)[k] != x@,
        decreases args.len() - i,
    {
        if str_eq_exact(args[i].as_str(), x) {
            assert(views(args@)[i as int] == x@);
            return true;
        }
        i = i + 1;
    }
    false
}

/// Inserts `flag` just after the first occurrence of `sub`, or appends it.
fn insert_flag_after(args: &mut Vec<String>, sub: &String, flag: &str)
    ensures
        views(final(args)@) == insert_after(views(old(args)@), sub@, flag@),
{
    let ghost before = views(args@);
    match find_arg(args, sub.as_str()) {
        Some(pos) => {
            args.insert(pos + 1, String::from_str(flag));
            assert(views(args@) =~= before.insert(pos + 1, flag@));
        },
        None => {
            args.push(String::from_str(flag));
            assert(views(args@) =~= before.push(flag@));
        },
    }
}

/// Appends `--` and the extra arguments when there are any.
fn append_extra(args: &mut Vec<String>, extra: &Vec<String>)
    ensures
        views(final(args)@) == extra_args(views(old(args)@), views(extra@)),
{
    if extra.len() > 0 {
        args.push(String::from_str("--"));
        let ghost mid = views(args@);
        let mut i: usize = 0;
        while i < extra.len()
            invariant
                i <= extra.len(),
                views(args@) == mid + views(extra@).take(i as int),
            decreases extra.len() - i,
        {
            let ghost before = views(args@);
            args.push(extra[i].clone());
            assert(views(args@) =~= before.push(extra@[i as int]@));
            assert(views(extra@).take(i + 1) =~= views(extra@).take(i as int).push(extra@[i as int]@));
            assert(views(args@) =~= mid + views(extra@).take(i + 1));
            i = i + 1;
        }
        assert(views(extra@).take(extra.len() as int) =~= views(extra@));
        assert(mid =~= views(old(args)@).push("--"@));
    }
}

impl Default for CargoCommandBuilder {
    /// A builder for no target, in `Cargo.toml`, running `run`, not filtering.
    fn default() -> (b: Self)
        ensures
            b@.target_name.len() == 0,
            b@.manifest_path == "Cargo.toml"@,
            b@.args.len() == 0,
            b@.subcommand == "run"@,
            b@.pid is None,
            b@.alternate_cmd is None,
            b@.execution_dir is None,
            b@.suppressed == Set::<Seq<char>>::empty(),
            !b@.is_filter,
    {
        let manifest = String::from_str("Cargo.toml");
        let b = Self::new("", &manifest, "run", false);
        proof {
            reveal_strlit("");
        }
        b
    }
}

impl CargoCommandBuilder {
    /// A builder for `target_name` in `manifest`, running `subcommand`,
    /// with no arguments yet.
    pub fn new(target_name: &str, manifest: &String, subcommand: &str, is_filter: bool) -> (b: Self)
        ensures
            b@.target_name == target_name@,
            b@.manifest_path == manifest@,
            b@.args.len() == 0,
            b@.subcommand == subcommand@,
            b@.pid is None,
            b@.alternate_cmd is None,
            b@.execution_dir is None,
            b@.suppressed == Set::<Seq<char>>::empty(),
            b@.is_filter == is_filter,
    {
        let b = CargoCommandBuilder {
            target_name: String::from_str(target_name),
            manifest_path: manifest.clone(),
            args: Vec::new(),
            subcommand: String::from_str(subcommand),
            pid: None,
            alternate_cmd: None,
            execution_dir: None,
            suppressed_flags: Vec::new(),
            is_filter,
        };
        assert(views(b.suppressed_flags@).to_set() =~= Set::<Seq<char>>::empty());
        assert(views(b.args@).len() == 0);
        b
    }

    /// Applies the command-line options: `--quiet` (unless suppressed) and
    /// `--release` just after the subcommand, then `--` and the extra arguments.
    pub fn with_cli(self, cli: &Cli) -> (r: Self)
        ensures
            r@ == with_args(self@, cli_args(self@, cli.quiet, cli.release, views(cli.extra@))),
    {
        let ghost b = self@;
        let mut this = self;
        if cli.quiet && !has_arg(&this.suppressed_flags, "quiet") {
            let sub = this.subcommand.clone();
            insert_flag_after(&mut this.args, &sub, "--quiet");
        }
        if cli.release {
            let sub = this.subcommand.clone();
            insert_flag_after(&mut this.args, &sub, "--release");
        }
        proof {
            assert(views(this.suppressed_flags@).contains("quiet"@) == b.suppressed.contains("quiet"@));
        }
        append_extra(&mut this.args, &cli.extra);
        this
    }

    /// Appends `--` and the extra arguments, when there are any.
    pub fn with_extra_args(self, extra: &Vec<String>) -> (r: Self)
        ensures
            r@ == with_args(self@, extra_args(self@.args, views(extra@))),
    {
        let mut this = self;
        append_extra(&mut this.args, extra);
        this
    }

    /// The arguments built so far.
    pub fn build(self) -> (r: Vec<String>)
        ensures
            views(r@) == self@.args,
    {
        self.args
    }

    /// Whether the command compiles code.
    pub fn is_compiler_target(&self) -> (r: bool)
        ensures
            r == compiler_target(self@),
    {
        if let Some(alt) = &self.alternate_cmd {
            if str_eq_exact(alt.as_str(), "trunk") {
                return true;
            }
            if !str_eq_exact(alt.as_str(), "cargo") {
                return false;
            }
        }
        let mut i: usize = 0;
        while i < self.args.len()
            invariant
                i <= self.args.len(),
                self@.args == views(self.args@),
                match self@.alternate_cmd {
                    Some(alt) => alt == "cargo"@,
                    None => true,
                },
                forall|k: int| 0 <= k < i ==> !compiler_subcommand(#[trigger] views(self.args@)[k]),
            decreases self.args.len() - i,
        {
            let a = self.args[i].as_str();
            if str_eq_exact(a, "run") || str_eq_exact(a, "build") || str_eq_exact(a, "check")
                || str_eq_exact(a, "leptos") || str_eq_exact(a, "tauri") {
                proof {
                    lemma_views_index(self.args@, i as int);
                    assert(compiler_subcommand(views(self.args@)[i as int]));
                }
                return true;
            }
            proof {
                lemma_views_index(self.args@, i as int);
            }
            i = i + 1;
        }
        false
    }

    /// The program and the arguments that are actually run.
    pub fn injected_args(&self) -> (r: (String, Vec<String>))
        ensures
            (r.0@, views(r.1@)) == injected(self@),
    {
        let mut new_args: Vec<String> = Vec::new();
        let mut i: usize = 0;
        while i < self.args.len()
            invariant
                i <= self.args.len(),
                new_args@ == self.args@.take(i as int),
            decreases self.args.len() - i,
        {
            new_args.push(self.args[i].clone());
            i = i + 1;
        }
        assert(new_args@ =~= self.args@);
        if self.is_filter {
            match find_json_subcommand(&self.args) {
                Some(p) => {
                    let ghost v0 = views(new_args@);
                    new_args.insert(p + 1, String::from_str("--message-format=json"));
                    assert(p + 2 <= new_args.len());
                    new_args.insert(p + 2, String::from_str("--color"));
                    assert(p + 3 <= new_args.len());
                    new_args.insert(p + 3, String::from_str("always"));
                    assert(views(new_args@) =~= v0.insert(p + 1, "--message-format=json"@).insert(
                        p + 2,
                        "--color"@,
                    ).insert(p + 3, "always"@));
                },
                None => {},
            }
        }
        let program = match &self.alternate_cmd {
            Some(a) => a.clone(),
            None => String::from_str("cargo"),
        };
        (program, new_args)
    }
}


/// Facts about the environment that decide how tool-driven targets run,
/// gathered by the caller (tool lookups, manifest and README reads).
pub struct TargetEnv {
    /// The target's `required-features` from its manifest, comma-separated.
    pub required_features: Option<String>,
    /// The `scriptisto` executable, when found.
    pub scriptisto: Option<String>,
    /// The `rust-script` executable, when available.
    pub rust_script: Option<String>,
    /// The directory a Tauri target runs in, when one was chosen.
    pub tauri_dir: Option<String>,
    /// The project's README asks for `cargo leptos watch`.
    pub leptos_watch: bool,
    /// The `trunk` executable, when available.
    pub trunk: Option<String>,
    /// The `dx` executable, when available.
    pub dx: Option<String>,
}

/// `--features` and the features appended, unless `--features` is already there.
pub open spec fn features_added(b: BuilderView, f: Option<String>) -> BuilderView {
    match f {
        Some(x) => if !b.args.contains("--features"@) {
            with_args(b, b.args + seq!["--features"@, x@])
        } else {
            b
        },
        None => b,
    }
}

/// The source file a target was found in, for single-file and default-binary origins.
pub open spec fn origin_file(o: Option<TargetOrigin>) -> Option<Seq<char>> {
    match o {
        Some(TargetOrigin::SingleFile(p)) => Some(p@),
        Some(TargetOrigin::DefaultBinary(p)) => Some(p@),
        _ => None,
    }
}

/// The builder with `quiet` among its suppressed flags.
pub open spec fn suppress_quiet(b: BuilderView) -> BuilderView {
    BuilderView { suppressed: b.suppressed.insert("quiet"@), ..b }
}

/// The builder running in the manifest's directory when it has one.
pub open spec fn in_manifest_dir(b: BuilderView, m: Seq<char>) -> BuilderView {
    match parent_of(m) {
        Some(p) => BuilderView { execution_dir: Some(p), ..b },
        None => b,
    }
}

/// What configuring a builder for a target does, kind by kind.
pub open spec fn target_command(b: BuilderView, t: CargoTarget, env: TargetEnv) -> BuilderView {
    let name = t.name@;
    let m = t.manifest_path@;
    let sub = b.subcommand;
    let f = env.required_features;
    match t.kind {
        TargetKind::Unknown | TargetKind::Plugin => b,
        TargetKind::Bench => with_args(b, b.args + seq!["bench"@, name]),
        TargetKind::Test => with_args(b, b.args + seq!["test"@, name]),
        TargetKind::UnknownExample | TargetKind::UnknownExtendedExample | TargetKind::Example
        | TargetKind::ExtendedExample => features_added(
            with_args(b, b.args + seq![sub, "--example"@, name, "--manifest-path"@, m]),
            f,
        ),
        TargetKind::UnknownBinary | TargetKind::UnknownExtendedBinary | TargetKind::Binary
        | TargetKind::ExtendedBinary => features_added(
            with_args(b, b.args + seq![sub, "--bin"@, name, "--manifest-path"@, m]),
            f,
        ),
        TargetKind::Manifest => with_args(suppress_quiet(b), b.args + seq![sub, "--manifest-path"@, m]),
        TargetKind::ManifestTauriExample => features_added(
            with_args(suppress_quiet(b), b.args + seq![sub, "--example"@, name, "--manifest-path"@, m]),
            f,
        ),
        TargetKind::ScriptScriptisto => match env.scriptisto {
            None => b,
            Some(exe) => match origin_file(t.origin) {
                Some(p) => BuilderView { alternate_cmd: Some(exe@), args: b.args.push(p), ..b },
                None => BuilderView { alternate_cmd: Some(exe@), ..b },
            },
        },
        TargetKind::ScriptRustScript => match env.rust_script {
            None => b,
            Some(exe) => match origin_file(t.origin) {
                Some(p) => BuilderView {
                    alternate_cmd: Some(exe@),
                    args: if b.is_filter { b.args.push("-c"@).push(p) } else { b.args.push(p) },
                    ..b
                },
                None => b,
            },
        },
        TargetKind::ManifestTauri => {
            let b1 = suppress_quiet(b);
            let b2 = match env.tauri_dir {
                Some(d) => BuilderView { execution_dir: Some(d@), ..b1 },
                None => b1,
            };
            with_args(b2, b.args + seq!["tauri"@, "dev"@])
        },
        TargetKind::ManifestLeptos => if env.leptos_watch {
            features_added(
                BuilderView {
                    execution_dir: parent_of(m),
                    alternate_cmd: Some("cargo"@),
                    args: b.args + seq!["leptos"@, "watch"@],
                    ..b
                },
                f,
            )
        } else {
            match env.trunk {
                None => b,
                Some(exe) => features_added(
                    BuilderView {
                        alternate_cmd: Some(exe@),
                        args: b.args + seq!["serve"@, "--open"@, "--color"@, "always"@],
                        ..in_manifest_dir(b, m)
                    },
                    f,
                ),
            }
        },
        TargetKind::ManifestDioxus => match env.dx {
            None => b,
            Some(exe) => features_added(
                BuilderView { alternate_cmd: Some(exe@), args: b.args.push("serve"@), ..in_manifest_dir(b, m) },
                f,
            ),
        },
        TargetKind::ManifestDioxusExample => match env.dx {
            None => b,
            Some(exe) => features_added(
                BuilderView {
                    alternate_cmd: Some(exe@),
                    args: b.args + seq!["serve"@, "--example"@, name],
                    ..in_manifest_dir(b, m)
                },
                f,
            ),
        },
    }
}

/// Appends one argument.
fn push_arg(args: &mut Vec<String>, a: &str)
    ensures
        views(final(args)@) == views(old(args)@).push(a@),
{
    args.push(String::from_str(a));
    assert(views(args@) =~= views(old(args)@).push(a@));
}

/// Appends a copy of one argument.
fn push_arg_string(args: &mut Vec<String>, a: &String)
    ensures
        views(final(args)@) == views(old(args)@).push(a@),
{
    args.push(a.clone());
    assert(views(args@) =~= views(old(args)@).push(a@));
}

/// Adds `flag` to a duplicate-free list of flags.
fn suppress_flag(flags: &mut Vec<String>, flag: &str)
    ensures
        views(final(flags)@).to_set() == views(old(flags)@).to_set().insert(flag@),
{
    if !has_arg(flags, flag) {
        let ghost before = views(flags@);
        flags.push(String::from_str(flag));
        proof {
            assert(views(flags@) =~= before.push(flag@));
            assert(views(flags@).to_set() =~= before.to_set().insert(flag@)) by {
                assert forall|x: Seq<char>| views(flags@).to_set().contains(x) <==> before.to_set().insert(
                    flag@,
                ).contains(x) by {
                    if x == flag@ {
                        assert(views(flags@)[before.len() as int] == flag@);
                    }
                    if before.contains(x) {
                        let k = choose|k: int| 0 <= k < before.len() && before[k] == x;
                        assert(views(flags@)[k] == x);
                    }
                }
            }
        }
    } else {
        assert(views(flags@).to_set() =~= views(flags@).to_set().insert(flag@));
    }
}

impl CargoCommandBuilder {
    /// Appends `--features` and the target's required features, unless
    /// `--features` is already among the arguments.
    pub fn with_required_features(self, features: &Option<String>) -> (r: Self)
        ensures
            r@ == features_added(self@, *features),
    {
        let mut this = self;
        if !has_arg(&this.args, "--features") {
            if let Some(f) = features {
                push_arg(&mut this.args, "--features");
                let ghost mid = views(this.args@);
                push_arg_string(&mut this.args, f);
                assert(views(this.args@) =~= views(self.args@) + seq!["--features"@, f@]);
            }
        }
        this
    }

    /// Appends the arguments that select `target`, and sets the tool and
    /// working directory that its kind calls for.
    pub fn with_target(self, target: &CargoTarget, env: &TargetEnv) -> (r: Self)
        ensures
            r@ == target_command(self@, *target, *env),
    {
        let mut this = self;
        let ghost b0 = this@;
        match target.kind {
            TargetKind::Unknown | TargetKind::Plugin => {},
            TargetKind::Bench => {
                push_arg(&mut this.args, "bench");
                push_arg_string(&mut this.args, &target.name);
                assert(views(this.args@) =~= b0.args + seq!["bench"@, target.name@]);
            },
            TargetKind::Test => {
                push_arg(&mut this.args, "test");
                push_arg_string(&mut this.args, &target.name);
                assert(views(this.args@) =~= b0.args + seq!["test"@, target.name@]);
            },
            TargetKind::UnknownExample | TargetKind::UnknownExtendedExample | TargetKind::Example
            | TargetKind::ExtendedExample => {
                let sub = this.subcommand.clone();
                push_arg_string(&mut this.args, &sub);
                push_arg(&mut this.args, "--example");
                push_arg_string(&mut this.args, &target.name);
                push_arg(&mut this.args, "--manifest-path");
                push_arg_string(&mut this.args, &target.manifest_path);
                assert(views(this.args@) =~= b0.args + seq![b0.subcommand, "--example"@, target.name@, "--manifest-path"@, target.manifest_path@]);
                this = this.with_required_features(&env.required_features);
            },
            TargetKind::UnknownBinary | TargetKind::UnknownExtendedBinary | TargetKind::Binary
            | TargetKind::ExtendedBinary => {
                let sub = this.subcommand.clone();
                push_arg_string(&mut this.args, &sub);
                push_arg(&mut this.args, "--bin");
                push_arg_string(&mut this.args, &target.name);
                push_arg(&mut this.args, "--manifest-path");
                push_arg_string(&mut this.args, &target.manifest_path);
                assert(views(this.args@) =~= b0.args + seq![b0.subcommand, "--bin"@, target.name@, "--manifest-path"@, target.manifest_path@]);
                this = this.with_required_features(&env.required_features);
            },
            TargetKind::Manifest => {
                suppress_flag(&mut this.suppressed_flags, "quiet");
                let sub = this.subcommand.clone();
                push_arg_string(&mut this.args, &sub);
                push_arg(&mut this.args, "--manifest-path");
                push_arg_string(&mut this.args, &target.manifest_path);
                assert(views(this.args@) =~= b0.args + seq![b0.subcommand, "--manifest-path"@, target.manifest_path@]);
            },
            TargetKind::ManifestTauriExample => {
                suppress_flag(&mut this.suppressed_flags, "quiet");
                let sub = this.subcommand.clone();
                push_arg_string(&mut this.args, &sub);
                push_arg(&mut this.args, "--example");
                push_arg_string(&mut this.args, &target.name);
                push_arg(&mut this.args, "--manifest-path");
                push_arg_string(&mut this.args, &target.manifest_path);
                assert(views(this.args@) =~= b0.args + seq![b0.subcommand, "--example"@, target.name@, "--manifest-path"@, target.manifest_path@]);
                this = this.with_required_features(&env.required_features);
            },
            TargetKind::ScriptScriptisto => {
                if let Some(exe) = &env.scriptisto {
                    this.alternate_cmd = Some(exe.clone());
                    match &target.origin {
                        Some(TargetOrigin::SingleFile(p)) | Some(TargetOrigin::DefaultBinary(p)) => {
                            push_arg_string(&mut this.args, p);
                        },
                        _ => {},
                    }
                }
            },
            TargetKind::ScriptRustScript => {
                if let Some(exe) = &env.rust_script {
                    match &target.origin {
                        Some(TargetOrigin::SingleFile(p)) | Some(TargetOrigin::DefaultBinary(p)) => {
                            this.alternate_cmd = Some(exe.clone());
                            if this.is_filter {
                                push_arg(&mut this.args, "-c");
                            }
                            push_arg_string(&mut this.args, p);
                        },
                        _ => {},
                    }
                }
            },
            TargetKind::ManifestTauri => {
                suppress_flag(&mut this.suppressed_flags, "quiet");
                if let Some(d) = &env.tauri_dir {
                    this.execution_dir = Some(d.clone());
                }
                push_arg(&mut this.args, "tauri");
                push_arg(&mut this.args, "dev");
                assert(views(this.args@) =~= b0.args + seq!["tauri"@, "dev"@]);
            },
            TargetKind::ManifestLeptos => {
                if env.leptos_watch {
                    this.execution_dir = path_parent(target.manifest_path.as_str());
                    this.alternate_cmd = Some(String::from_str("cargo"));
                    push_arg(&mut this.args, "leptos");
                    push_arg(&mut this.args, "watch");
                    assert(views(this.args@) =~= b0.args + seq!["leptos"@, "watch"@]);
                    this = this.with_required_features(&env.required_features);
                } else if let Some(exe) = &env.trunk {
                    if let Some(p) = path_parent(target.manifest_path.as_str()) {
                        this.execution_dir = Some(p);
                    }
                    this.alternate_cmd = Some(exe.clone());
                    push_arg(&mut this.args, "serve");
                    push_arg(&mut this.args, "--open");
                    push_arg(&mut this.args, "--color");
                    push_arg(&mut this.args, "always");
                    assert(views(this.args@) =~= b0.args + seq!["serve"@, "--open"@, "--color"@, "always"@]);
                    this = this.with_required_features(&env.required_features);
                }
            },
            TargetKind::ManifestDioxus => {
                if let Some(exe) = &env.dx {
                    if let Some(p) = path_parent(target.manifest_path.as_str()) {
                        this.execution_dir = Some(p);
                    }
                    this.alternate_cmd = Some(exe.clone());
                    push_arg(&mut this.args, "serve");
                    this = this.with_required_features(&env.required_features);
                }
            },
            TargetKind::ManifestDioxusExample => {
                if let Some(exe) = &env.dx {
                    if let Some(p) = path_parent(target.manifest_path.as_str()) {
                        this.execution_dir = Some(p);
                    }
                    this.alternate_cmd = Some(exe.clone());
                    push_arg(&mut this.args, "serve");
                    push_arg(&mut this.args, "--example");
                    push_arg_string(&mut this.args, &target.name);
                    assert(views(this.args@) =~= b0.args + seq!["serve"@, "--example"@, target.name@]);
                    this = this.with_required_features(&env.required_features);
                }
            },
        }
        this
    }
}

/// A binary target is run with `<subcommand> --bin <name> --manifest-path
/// <manifest>` appended to the arguments, followed by `--features` and the
/// required features exactly when some are required and `--features` is not
/// among the arguments so far; nothing else of the builder changes.
pub proof fn lemma_binary_target_command(b: BuilderView, t: CargoTarget, env: TargetEnv)
    requires
        t.kind == TargetKind::Binary || t.kind == TargetKind::ExtendedBinary || t.kind == TargetKind::UnknownBinary
            || t.kind == TargetKind::UnknownExtendedBinary,
    ensures
        ({
            let r = target_command(b, t, env);
            let n = b.args.len() as int;
            let base = b.args + seq![b.subcommand, "--bin"@, t.name@, "--manifest-path"@, t.manifest_path@];
            &&& r.args.subrange(0, n + 5) == base
            &&& r.args[n + 1] == "--bin"@
            &&& (match env.required_features {
                Some(f) => if base.contains("--features"@) {
                    r.args == base
                } else {
                    r.args == base + seq!["--features"@, f@]
                },
                None => r.args == base,
            })
            &&& r == BuilderView { args: r.args, ..b }
        }),
{
    let n = b.args.len() as int;
    let base = b.args + seq![b.subcommand, "--bin"@, t.name@, "--manifest-path"@, t.manifest_path@];
    reveal_strlit("--features");
    reveal_strlit("--bin");
    reveal_strlit("--manifest-path");
    let r = target_command(b, t, env);
    assert(base.subrange(0, n + 5) =~= base);
    if let Some(f) = env.required_features {
        if !base.contains("--features"@) {
            assert((base + seq!["--features"@, f@]).subrange(0, n + 5) =~= base);
        }
    }
}

proof fn lemma_first_index(v: Seq<Seq<char>>, x: Seq<char>)
    ensures
        match first_index(v, x) {
            Some(i) => 0 <= i < v.len() && v[i] == x && forall|j: int| 0 <= j < i ==> v[j] != x,
            None => !v.contains(x),
        },
    decreases v.len(),
{
    if v.len() > 0 {
        lemma_first_index(v.drop_first(), x);
        if v[0] != x {
            match first_index(v.drop_first(), x) {
                Some(i) => {
                    assert forall|j: int| 0 <= j < i + 1 implies v[j] != x by {
                        if j > 0 {
                            assert(v[j] == v.drop_first()[j - 1]);
                        }
                    }
                },
                None => {
                    assert(!v.contains(x)) by {
                        if v.contains(x) {
                            let k = choose|k: int| 0 <= k < v.len() && v[k] == x;
                            assert(v.drop_first()[k - 1] == x);
                        }
                    }
                },
            }
        }
    }
}

/// Inserting a flag after the subcommand adds that flag and keeps every
/// other argument: an argument is there afterwards exactly when it was there
/// before or is the flag; when the subcommand is there, the flag follows its
/// first occurrence.
pub proof fn lemma_insert_after(args: Seq<Seq<char>>, sub: Seq<char>, flag: Seq<char>)
    ensures
        insert_after(args, sub, flag).len() == args.len() + 1,
        forall|x: Seq<char>| #[trigger] insert_after(args, sub, flag).contains(x) <==> (args.contains(x) || x == flag),
        match first_index(args, sub) {
            Some(p) => insert_after(args, sub, flag)[p + 1] == flag && insert_after(args, sub, flag)[p] == sub,
            None => insert_after(args, sub, flag).last() == flag,
        },
{
    lemma_first_index(args, sub);
    let r = insert_after(args, sub, flag);
    match first_index(args, sub) {
        Some(p) => {
            args.insert_ensures(p + 1, flag);
            assert forall|x: Seq<char>| #[trigger] r.contains(x) <==> (args.contains(x) || x == flag) by {
                if r.contains(x) {
                    let k = choose|k: int| 0 <= k < r.len() && r[k] == x;
                    if k < p + 1 {
                        assert(args[k] == x);
                    } else if k > p + 1 {
                        assert(args[k - 1] == x);
                    }
                }
                if args.contains(x) {
                    let k = choose|k: int| 0 <= k < args.len() && args[k] == x;
                    if k < p + 1 {
                        assert(r[k] == x);
                    } else {
                        assert(r[k + 1] == x);
                    }
                }
                if x == flag {
                    assert(r[p + 1] == x);
                }
            }
        },
        None => {
            assert forall|x: Seq<char>| #[trigger] r.contains(x) <==> (args.contains(x) || x == flag) by {
                if r.contains(x) {
                    let k = choose|k: int| 0 <= k < r.len() && r[k] == x;
                    if k < args.len() {
                        assert(args[k] == x);
                    }
                }
                if args.contains(x) {
                    let k = choose|k: int| 0 <= k < args.len() && args[k] == x;
                    assert(r[k] == x);
                }
                if x == flag {
                    assert(r[args.len() as int] == x);
                }
            }
        },
    }
}

/// `--release` is among the arguments after the command-line options are
/// applied exactly when it was asked for or was there already (in the
/// arguments or the extra ones); without `--quiet` to add, it follows the
/// first occurrence of the subcommand, or ends the arguments before the extra
/// ones when the subcommand is absent.
pub proof fn lemma_cli_release(b: BuilderView, quiet: bool, release: bool, extra: Seq<Seq<char>>)
    ensures
        cli_args(b, quiet, release, extra).contains("--release"@) <==> (release || b.args.contains("--release"@)
            || extra.contains("--release"@)),
        release && !(quiet && !b.suppressed.contains("quiet"@)) ==> match first_index(b.args, b.subcommand) {
            Some(p) => cli_args(b, quiet, release, extra)[p + 1] == "--release"@,
            None => cli_args(b, quiet, release, extra)[b.args.len() as int] == "--release"@,
        },
{
    reveal_strlit("--release");
    reveal_strlit("--quiet");
    reveal_strlit("--");
    let q = quiet && !b.suppressed.contains("quiet"@);
    let a1 = if q { insert_after(b.args, b.subcommand, "--quiet"@) } else { b.args };
    lemma_insert_after(b.args, b.subcommand, "--quiet"@);
    assert(a1.contains("--release"@) <==> b.args.contains("--release"@)) by {
        if q {
            assert("--quiet"@.len() == 7 && "--release"@.len() == 9);
            assert("--quiet"@ != "--release"@);
        }
    }
    let a2 = if release { insert_after(a1, b.subcommand, "--release"@) } else { a1 };
    lemma_insert_after(a1, b.subcommand, "--release"@);
    assert(a2.contains("--release"@) <==> (release || b.args.contains("--release"@)));
    let r = cli_args(b, quiet, release, extra);
    if extra.len() > 0 {
        assert(r == a2.push("--"@) + extra);
        assert(r.contains("--release"@) <==> (a2.contains("--release"@) || extra.contains("--release"@))) by {
            if r.contains("--release"@) {
                let k = choose|k: int| 0 <= k < r.len() && r[k] == "--release"@;
                if k < a2.len() {
                    assert(a2[k] == "--release"@);
                } else if k > a2.len() {
                    assert(extra[k - a2.len() - 1] == "--release"@);
                } else {
                    assert(r[k] == "--"@);
                    assert("--"@.len() == 2 && "--release"@.len() == 9);
                }
            }
            if a2.contains("--release"@) {
                let k = choose|k: int| 0 <= k < a2.len() && a2[k] == "--release"@;
                assert(r[k] == "--release"@);
            }
            if extra.contains("--release"@) {
                let k = choose|k: int| 0 <= k < extra.len() && extra[k] == "--release"@;
                assert(r[k + a2.len() + 1] == "--release"@);
            }
        }
    }
    if release && !q {
        lemma_first_index(b.args, b.subcommand);
        match first_index(b.args, b.subcommand) {
            Some(p) => {
                assert(a2[p + 1] == "--release"@);
                assert(r[p + 1] == a2[p + 1]);
            },
            None => {
                assert(a2[b.args.len() as int] == "--release"@);
                assert(r[b.args.len() as int] == a2[b.args.len() as int]);
            },
        }
    }
}

/// Asking twice for a target's required features adds them once.
pub proof fn lemma_features_added_once(b: BuilderView, f: Option<String>)
    ensures
        features_added(features_added(b, f), f) == features_added(b, f),
{
    match f {
        Some(x) => {
            if !b.args.contains("--features"@) {
                let added = b.args + seq!["--features"@, x@];
                assert(added[b.args.len() as int] == "--features"@);
                assert(added.contains("--features"@));
            }
        },
        None => {},
    }
}

} // verus!
