//! The decisions taken around running a target: whether to run it at all,
//! where, what a failed build's output says went wrong and what to suggest,
//! how to retry without `--manifest-path`, and the card that lists a failed
//! build's errors.
use vstd::prelude::*;
use crate::target::TargetKind;
use crate::diagnostics::CargoDiagnostic;
use crate::pattern::{captures, group_or_else, group_or, regex_captures};
use crate::text::{
    seq_contains, str_contains, decimal, zero_pad, u64_to_padded, u64_to_string, trim, trim_str,
    replace_all, replace_str, chars_of, string_from_chars, join_lines,
};
use crate::cli::str_eq_exact;

verus! {

/// The package name of a library that provides a system library, for the
/// libraries whose packages are named otherwise.
pub open spec fn library_package(lib: Seq<char>) -> Seq<char> {
    if lib == "javascriptcoregtk-4.1"@ {
        "libjavascriptcoregtk-4.1-dev"@
    } else if lib == "libsoup-3.0"@ {
        "libsoup-3.0-dev"@
    } else if lib == "webkit2gtk-4.1"@ {
        "libwebkit2gtk-4.1-dev"@
    } else if lib == "openssl"@ {
        "libssl-dev"@
    } else {
        lib
    }
}

/// The package to install for a missing system library.
pub fn library_hint(lib: &str) -> (r: String)
    ensures
        r@ == library_package(lib@),
{
    if str_eq_exact(lib, "javascriptcoregtk-4.1") {
        String::from_str("libjavascriptcoregtk-4.1-dev")
    } else if str_eq_exact(lib, "libsoup-3.0") {
        String::from_str("libsoup-3.0-dev")
    } else if str_eq_exact(lib, "webkit2gtk-4.1") {
        String::from_str("libwebkit2gtk-4.1-dev")
    } else if str_eq_exact(lib, "openssl") {
        String::from_str("libssl-dev")
    } else {
        String::from_str(lib)
    }
}

/// A binary target that is the running program itself is not run again.
pub fn skips_own_binary(kind: TargetKind, name: &str, current_bin: &str) -> (r: bool)
    ensures
        r == (kind == TargetKind::Binary && name@ == current_bin@),
{
    kind == TargetKind::Binary && str_eq_exact(name, current_bin)
}

/// The directory to run a target from: the builder's execution directory if
/// it has one, else, for an extended target, its manifest's directory
/// (`manifest_dir`, the manifest's parent, if it has one).
pub fn run_directory(execution_dir: &Option<String>, extended: bool, manifest_dir: &Option<String>) -> (r: Option<String>)
    ensures
        r == (match execution_dir {
            Some(d) => Some(*d),
            None => if extended { *manifest_dir } else { None },
        }),
{
    match execution_dir {
        Some(d) => Some(d.clone()),
        None => if extended {
            match manifest_dir {
                Some(p) => Some(p.clone()),
                None => None,
            }
        } else {
            None
        },
    }
}

/// The words of `v` joined with a space between each two.
pub open spec fn join_spaced(v: Seq<Seq<char>>) -> Seq<char>
    decreases v.len(),
{
    if v.len() == 0 {
        Seq::empty()
    } else if v.len() == 1 {
        v[0]
    } else {
        join_spaced(v.drop_last()) + " "@ + v.last()
    }
}

/// The command line printed before a run: the program, a space, and the
/// arguments separated by spaces.
pub fn command_line(program: &str, args: &Vec<String>) -> (r: String)
    ensures
        r@ == program@ + " "@ + join_spaced(crate::text::strings_view(args@)),
{
    let mut joined = String::new();
    let mut i: usize = 0;
    while i < args.len()
        invariant
            i <= args.len(),
            joined@ == join_spaced(crate::text::strings_view(args@).take(i as int)),
        decreases args.len() - i,
    {
        if i > 0 {
            joined.append(" ");
        }
        joined.append(args[i].as_str());
        i = i + 1;
        proof {
            let t = crate::text::strings_view(args@).take(i as int);
            assert(t.drop_last() == crate::text::strings_view(args@).take(i - 1));
        }
    }
    assert(crate::text::strings_view(args@).take(args.len() as int) == crate::text::strings_view(args@));
    let mut r = String::from_str(program);
    r.append(" ");
    r.append(joined.as_str());
    r
}

/// What went wrong with a build that exited with code 101, as its captured
/// output tells it.
pub enum CargoFailure {
    /// A system library a crate needs was not found.
    MissingSystemLibrary { library: String, crate_name: String },
    /// The manifest of a workspace member could not be loaded.
    WorkspaceMemberManifest,
    /// `cargo tauri` is not installed.
    MissingTauriCli,
    /// `cargo leptos` is not installed.
    MissingCargoLeptos,
    /// libclang could not be found.
    MissingLibclang,
    /// `cargo dx` is not installed.
    MissingDioxusCli,
    /// `cargo scriptisto` is not installed.
    MissingScriptisto,
    /// `cargo rust-script` is not installed.
    MissingRustScript,
    /// A Dioxus project was built without a platform feature.
    DioxusPlatformFeature,
    /// Nothing the tool recognises.
    Unrecognised,
}

pub const SYSTEM_LIBRARY_PATTERN: &'static str = r"\s*The system library `([^`]+)` required by crate `([^`]+)` was not found\.";

/// The failure an output shows, the first that applies of: a missing system
/// library, a workspace member's manifest, a missing `tauri`, `leptos`,
/// libclang, `dx`, `scriptisto` or `rust-script`, a missing Dioxus platform
/// feature.
pub open spec fn failure_kind(out: Seq<char>) -> (Option<(Seq<char>, Seq<char>)>, nat) {
    match regex_captures(SYSTEM_LIBRARY_PATTERN@, out) {
        Some(g) => (Some((group_or(g, 1, ""@), group_or(g, 2, ""@))), 0),
        None => if seq_contains(out, "error: failed to load manifest for workspace member"@) {
            (None, 1)
        } else if seq_contains(out, "no such command: `tauri`"@) {
            (None, 2)
        } else if seq_contains(out, "error: no such command: `leptos`"@) {
            (None, 3)
        } else if seq_contains(out, "Unable to find libclang"@) || seq_contains(
            out,
            "couldn't find any valid shared libraries matching: ['clang.dll', 'libclang.dll']"@,
        ) {
            (None, 4)
        } else if seq_contains(out, "no such command: `dx`"@) {
            (None, 5)
        } else if seq_contains(out, "no such command: `scriptisto`"@) {
            (None, 6)
        } else if seq_contains(out, "no such command: `rust-script`"@) {
            (None, 7)
        } else if seq_contains(out, "No platform feature enabled. Please enable one of the following features:"@) {
            (None, 8)
        } else {
            (None, 9)
        },
    }
}

/// The position of a failure in the order `failure_kind` tests them.
pub open spec fn failure_index(f: CargoFailure) -> nat {
    match f {
        CargoFailure::MissingSystemLibrary { .. } => 0,
        CargoFailure::WorkspaceMemberManifest => 1,
        CargoFailure::MissingTauriCli => 2,
        CargoFailure::MissingCargoLeptos => 3,
        CargoFailure::MissingLibclang => 4,
        CargoFailure::MissingDioxusCli => 5,
        CargoFailure::MissingScriptisto => 6,
        CargoFailure::MissingRustScript => 7,
        CargoFailure::DioxusPlatformFeature => 8,
        CargoFailure::Unrecognised => 9,
    }
}

/// Reads what went wrong from the captured output of a failed build.
pub fn classify_failure(output: &str) -> (r: CargoFailure)
    ensures
        failure_index(r) == failure_kind(output@).1,
        r matches CargoFailure::MissingSystemLibrary { library, crate_name } ==> failure_kind(output@).0 == Some(
            (library@, crate_name@),
        ),
{
    match captures(SYSTEM_LIBRARY_PATTERN, output) {
        Some(g) => CargoFailure::MissingSystemLibrary {
            library: group_or_else(&g, 1, ""),
            crate_name: group_or_else(&g, 2, ""),
        },
        None => if str_contains(output, "error: failed to load manifest for workspace member") {
            CargoFailure::WorkspaceMemberManifest
        } else if str_contains(output, "no such command: `tauri`") {
            CargoFailure::MissingTauriCli
        } else if str_contains(output, "error: no such command: `leptos`") {
            CargoFailure::MissingCargoLeptos
        } else if str_contains(output, "Unable to find libclang") || str_contains(
            output,
            "couldn't find any valid shared libraries matching: ['clang.dll', 'libclang.dll']",
        ) {
            CargoFailure::MissingLibclang
        } else if str_contains(output, "no such command: `dx`") {
            CargoFailure::MissingDioxusCli
        } else if str_contains(output, "no such command: `scriptisto`") {
            CargoFailure::MissingScriptisto
        } else if str_contains(output, "no such command: `rust-script`") {
            CargoFailure::MissingRustScript
        } else if str_contains(output, "No platform feature enabled. Please enable one of the following features:") {
            CargoFailure::DioxusPlatformFeature
        } else {
            CargoFailure::Unrecognised
        },
    }
}

/// The lines printed for a failure, before any prompt or recovery.
pub open spec fn failure_lines(f: CargoFailure) -> Seq<Seq<char>> {
    match f {
        CargoFailure::MissingSystemLibrary { library, crate_name } => {
            let l = library@;
            let h = library_package(l);
            seq![
                "cargo-e detected missing system library '"@ + l + "' required by crate '"@ + crate_name@ + "'."@,
                "You might need to install '"@ + l + "' via your system package manager."@,
                "For example:"@,
                "  • Debian/Ubuntu: sudo apt install "@ + h,
                "  • Fedora: sudo dnf install "@ + h,
                "  • Arch: sudo pacman -S "@ + h,
                "  • macOS (Homebrew): brew install "@ + h,
            ]
        },
        CargoFailure::WorkspaceMemberManifest => seq![
            "cargo-e error: failed to load manifest for workspace member, please check your workspace configuration."@,
            "cargo-e autorecovery: removing manfifest path from argument and changing to parent of Cargo.toml."@,
        ],
        CargoFailure::MissingTauriCli => seq![
            "cargo tauri is not installed, please install it with cargo install tauri-cli"@,
        ],
        CargoFailure::MissingCargoLeptos => seq![
            "cargo-leptos is not installed, please install it with cargo install cargo-leptos"@,
        ],
        CargoFailure::MissingLibclang => Seq::empty(),
        CargoFailure::MissingDioxusCli => seq![
            "cargo dx is not installed, please install it with cargo install dioxus-cli"@,
        ],
        CargoFailure::MissingScriptisto => seq![
            "cargo scriptisto is not installed, please install it with cargo install scriptisto"@,
        ],
        CargoFailure::MissingRustScript => seq![
            "cargo rust-script is not installed, please install it with cargo install rust-script"@,
        ],
        CargoFailure::DioxusPlatformFeature => seq![
            "cargo e sees a dioxus issue; maybe a prompt in the future or auto-resolution."@,
        ],
        CargoFailure::Unrecognised => Seq::empty(),
    }
}

fn text_of(a: &str, b: &str) -> (r: String)
    ensures
        r@ == a@ + b@,
{
    let mut r = String::from_str(a);
    r.append(b);
    r
}

fn push_line(v: &mut Vec<String>, s: String)
    ensures
        crate::text::strings_view(final(v)@) == crate::text::strings_view(old(v)@).push(s@),
{
    v.push(s);
    assert(crate::text::strings_view(v@) =~= crate::text::strings_view(old(v)@).push(s@));
}

/// The lines to print for a failure.
pub fn failure_report(f: &CargoFailure) -> (r: Vec<String>)
    ensures
        crate::text::strings_view(r@) == failure_lines(*f),
{
    let mut r: Vec<String> = Vec::new();
    match f {
        CargoFailure::MissingSystemLibrary { library, crate_name } => {
            let h = library_hint(library.as_str());
            let mut first = text_of("cargo-e detected missing system library '", library.as_str());
            first.append("' required by crate '");
            first.append(crate_name.as_str());
            first.append("'.");
            push_line(&mut r, first);
            let mut second = text_of("You might need to install '", library.as_str());
            second.append("' via your system package manager.");
            push_line(&mut r, second);
            push_line(&mut r, String::from_str("For example:"));
            push_line(&mut r, text_of("  • Debian/Ubuntu: sudo apt install ", h.as_str()));
            push_line(&mut r, text_of("  • Fedora: sudo dnf install ", h.as_str()));
            push_line(&mut r, text_of("  • Arch: sudo pacman -S ", h.as_str()));
            push_line(&mut r, text_of("  • macOS (Homebrew): brew install ", h.as_str()));
        },
        CargoFailure::WorkspaceMemberManifest => {
            push_line(&mut r, String::from_str(
                "cargo-e error: failed to load manifest for workspace member, please check your workspace configuration."));
            push_line(&mut r, String::from_str(
                "cargo-e autorecovery: removing manfifest path from argument and changing to parent of Cargo.toml."));
        },
        CargoFailure::MissingTauriCli => {
            push_line(&mut r, String::from_str(
                "cargo tauri is not installed, please install it with cargo install tauri-cli"));
        },
        CargoFailure::MissingCargoLeptos => {
            push_line(&mut r, String::from_str(
                "cargo-leptos is not installed, please install it with cargo install cargo-leptos"));
        },
        CargoFailure::MissingLibclang => {},
        CargoFailure::MissingDioxusCli => {
            push_line(&mut r, String::from_str(
                "cargo dx is not installed, please install it with cargo install dioxus-cli"));
        },
        CargoFailure::MissingScriptisto => {
            push_line(&mut r, String::from_str(
                "cargo scriptisto is not installed, please install it with cargo install scriptisto"));
        },
        CargoFailure::MissingRustScript => {
            push_line(&mut r, String::from_str(
                "cargo rust-script is not installed, please install it with cargo install rust-script"));
        },
        CargoFailure::DioxusPlatformFeature => {
            push_line(&mut r, String::from_str(
                "cargo e sees a dioxus issue; maybe a prompt in the future or auto-resolution."));
        },
        CargoFailure::Unrecognised => {},
    }
    assert(crate::text::strings_view(r@) =~= failure_lines(*f));
    r
}

/// The first index at which `x` occurs in `v`.
pub open spec fn first_index(v: Seq<Seq<char>>, x: Seq<char>) -> Option<int> {
    if exists|i: int| 0 <= i < v.len() && v[i] == x {
        Some(choose|i: int| 0 <= i < v.len() && v[i] == x && forall|j: int| 0 <= j < i ==> v[j] != x)
    } else {
        None
    }
}

/// The arguments with the first `--manifest-path` and the argument after it,
/// if there is one, removed.
pub open spec fn without_manifest_path(v: Seq<Seq<char>>) -> Seq<Seq<char>> {
    match first_index(v, "--manifest-path"@) {
        Some(i) => if i + 1 < v.len() {
            v.remove(i).remove(i)
        } else {
            v.remove(i)
        },
        None => v,
    }
}

/// Removes `--manifest-path` and its value from the arguments, so that a
/// retry runs from the manifest's directory instead.
pub fn remove_manifest_path_arg(args: &mut Vec<String>)
    ensures
        crate::text::strings_view(final(args)@) == without_manifest_path(crate::text::strings_view(old(args)@)),
{
    let ghost v = crate::text::strings_view(args@);
    let mut i: usize = 0;
    while i < args.len()
        invariant
            v == crate::text::strings_view(args@),
            v == crate::text::strings_view(old(args)@),
            i <= args.len(),
            forall|j: int| 0 <= j < i ==> v[j] != "--manifest-path"@,
        decreases args.len() - i,
    {
        if str_eq_exact(args[i].as_str(), "--manifest-path") {
            proof {
                assert(v[i as int] == "--manifest-path"@);
                let k = choose|k: int| 0 <= k < v.len() && v[k] == "--manifest-path"@ && forall|j: int| 0 <= j < k ==> v[j] != "--manifest-path"@;
                if k < i {
                } else if k > i {
                    assert(v[i as int] != "--manifest-path"@);
                }
                assert(k == i);
            }
            let _ = args.remove(i);
            if i < args.len() {
                let _ = args.remove(i);
            }
            assert(crate::text::strings_view(args@) =~= without_manifest_path(v));
            return;
        }
        i = i + 1;
    }
    assert(first_index(v, "--manifest-path"@) is None);
}

/// The text before the first `c` in `s` and the text after it.
pub open spec fn split_once(s: Seq<char>, c: char) -> Option<(Seq<char>, Seq<char>)>
    decreases s.len(),
{
    if s.len() == 0 {
        None
    } else if s[0] == c {
        Some((Seq::empty(), s.drop_first()))
    } else {
        match split_once(s.drop_first(), c) {
            Some((a, b)) => Some((seq![s[0]] + a, b)),
            None => None,
        }
    }
}

pub proof fn lemma_split_once_at(s: Seq<char>, c: char, i: int)
    requires
        0 <= i < s.len(),
        s[i] == c,
        forall|j: int| 0 <= j < i ==> s[j] != c,
    ensures
        split_once(s, c) == Some((s.take(i), s.skip(i + 1))),
    decreases i,
{
    if i > 0 {
        lemma_split_once_at(s.drop_first(), c, i - 1);
        assert(seq![s[0]] + s.drop_first().take(i - 1) == s.take(i));
        assert(s.drop_first().skip(i) == s.skip(i + 1));
    }
}

pub proof fn lemma_split_once_none(s: Seq<char>, c: char)
    requires
        forall|j: int| 0 <= j < s.len() ==> s[j] != c,
    ensures
        split_once(s, c) is None,
    decreases s.len(),
{
    if s.len() > 0 {
        lemma_split_once_none(s.drop_first(), c);
    }
}

/// Splits `s` at its first `c`, as `str::split_once` does.
pub fn split_once_char(s: &str, c: char) -> (r: Option<(String, String)>)
    ensures
        match r {
            Some((a, b)) => split_once(s@, c) == Some((a@, b@)),
            None => split_once(s@, c) is None,
        },
{
    let v = chars_of(s);
    let mut i: usize = 0;
    while i < v.len()
        invariant
            v@ == s@,
            i <= v.len(),
            forall|j: int| 0 <= j < i ==> v@[j] != c,
        decreases v.len() - i,
    {
        if v[i] == c {
            proof {
                lemma_split_once_at(s@, c, i as int);
            }
            let mut a = String::new();
            let mut k: usize = 0;
            while k < i
                invariant
                    v@ == s@,
                    k <= i < v.len(),
                    a@ == s@.take(k as int),
                decreases i - k,
            {
                crate::text::push_char(&mut a, v[k]);
                k = k + 1;
                assert(a@ == s@.take(k as int));
            }
            let mut b = String::new();
            let mut k2: usize = i + 1;
            while k2 < v.len()
                invariant
                    v@ == s@,
                    i + 1 <= k2 <= v.len(),
                    b@ == s@.subrange(i + 1, k2 as int),
                decreases v.len() - k2,
            {
                crate::text::push_char(&mut b, v[k2]);
                k2 = k2 + 1;
                assert(b@ == s@.subrange(i + 1, k2 as int));
            }
            assert(s@.subrange(i + 1, v.len() as int) == s@.skip(i + 1));
            return Some((a, b));
        }
        i = i + 1;
    }
    proof {
        lemma_split_once_none(s@, c);
    }
    None
}

/// A diagnostic location `file:line:col` taken apart: the file, and
/// `line:col`; the column is everything after the second colon.
pub open spec fn lineref_parts(lineref: Seq<char>) -> Option<(Seq<char>, Seq<char>)> {
    match split_once(lineref, ':') {
        Some((f, rest)) => match split_once(rest, ':') {
            Some((l, c)) => Some((f, l + ":"@ + c)),
            None => None,
        },
        None => None,
    }
}

/// The file a diagnostic location names, and its `line:col`.
pub fn split_lineref(lineref: &str) -> (r: Option<(String, String)>)
    ensures
        match r {
            Some((f, g)) => lineref_parts(lineref@) == Some((f@, g@)),
            None => lineref_parts(lineref@) is None,
        },
{
    match split_once_char(lineref, ':') {
        Some((f, rest)) => match split_once_char(rest.as_str(), ':') {
            Some((l, c)) => {
                let mut goto = l;
                goto.append(":");
                goto.append(c.as_str());
                Some((f, goto))
            },
            None => None,
        },
        None => None,
    }
}

/// The entry listing error number `index` (already padded): its message,
/// an anchor line, and the editor command that jumps to it.
pub open spec fn error_entry(index: Seq<char>, d: CargoDiagnostic, file: Seq<char>, goto: Seq<char>, code: Seq<char>) -> Seq<char> {
    let msg = trim(d.message@);
    index + ": "@ + msg + "\nanchor:"@ + index + ": "@ + msg + "\\n "@ + d.lineref@ + "|\""@ + code
        + "\" --goto \""@ + file + ":"@ + goto + "\"\n"@
}

/// The number of digits in the error count, at least one.
pub open spec fn index_width(n: nat) -> nat {
    decimal(n).len()
}

/// The entry for the `i`-th error of `errors`, given the path each error's
/// file resolved to (`None` where it has no `file:line:col` location) and the
/// editor command.  The resolved path loses any `\\?\` prefix.
pub open spec fn error_line(errors: Seq<CargoDiagnostic>, resolved: Seq<Option<Seq<char>>>, code: Seq<char>, i: int) -> Seq<char> {
    let index = zero_pad(decimal((i + 1) as nat), index_width(errors.len()));
    let d = errors[i];
    match lineref_parts(d.lineref@) {
        Some((_, goto)) => {
            let full = crate::pattern::group_or(resolved, i, Seq::empty());
            error_entry(index, d, replace_all(full, "\\\\?\\"@, Seq::empty()), goto, code)
        },
        None => error_entry(index, d, Seq::empty(), Seq::empty(), code),
    }
}

/// The entries for the errors of a failed build, one per error, in order:
/// `errors` are the diagnostics whose level is `error`, `resolved[i]` the
/// full path the file of error `i` resolved to, `code` the editor command.
pub fn error_lines(errors: &Vec<CargoDiagnostic>, resolved: &Vec<Option<String>>, code: &str) -> (r: Vec<String>)
    requires
        errors@.len() < u64::MAX,
    ensures
        r@.len() == errors@.len(),
        forall|i: int| 0 <= i < r@.len() ==> (#[trigger] r@[i])@ == error_line(errors@,
            crate::pattern::groups_view(resolved@), code@, i),
{
    let n = errors.len();
    let width = crate::text::decimal_chars(n as u64).len();
    let mut r: Vec<String> = Vec::new();
    let mut i: usize = 0;
    while i < n
        invariant
            n == errors@.len(),
            n < u64::MAX,
            width == index_width(n as nat),
            i <= n,
            r@.len() == i,
            forall|k: int| 0 <= k < i ==> (#[trigger] r@[k])@ == error_line(errors@,
                crate::pattern::groups_view(resolved@), code@, k),
        decreases n - i,
    {
        let index = u64_to_padded((i + 1) as u64, width);
        let d = &errors[i];
        let msg = trim_str(d.message.as_str());
        let ghost rv = crate::pattern::groups_view(resolved@);
        let ghost parts = lineref_parts(d.lineref@);
        let (file, goto) = match split_lineref(d.lineref.as_str()) {
            Some((_, goto)) => {
                let full = match crate::pattern::group(resolved, i) {
                    Some(p) => p,
                    None => String::new(),
                };
                assert(full@ == crate::pattern::group_or(rv, i as int, Seq::empty()));
                proof {
                    reveal_strlit("\\\\?\\");
                    reveal_strlit("");
                    assert(""@ =~= Seq::<char>::empty());
                }
                let stripped = replace_str(full.as_str(), "\\\\?\\", "");
                assert(stripped@ == replace_all(crate::pattern::group_or(rv, i as int, Seq::empty()), "\\\\?\\"@, Seq::empty()));
                (stripped, goto)
            },
            None => (String::new(), String::new()),
        };
        let ghost file_spec = match parts {
            Some((_, g)) => replace_all(crate::pattern::group_or(rv, i as int, Seq::empty()), "\\\\?\\"@, Seq::empty()),
            None => Seq::<char>::empty(),
        };
        let ghost goto_spec = match parts {
            Some((_, g)) => g,
            None => Seq::<char>::empty(),
        };
        proof {
            reveal_strlit("");
        }
        assert(file@ == file_spec);
        assert(goto@ == goto_spec);
        assert(index@ == zero_pad(decimal((i + 1) as nat), index_width(errors@.len())));
        assert(msg@ == trim(errors@[i as int].message@));
        let mut e = index.clone();
        e.append(": ");
        e.append(msg.as_str());
        e.append("\nanchor:");
        e.append(index.as_str());
        e.append(": ");
        e.append(msg.as_str());
        e.append("\\n ");
        e.append(d.lineref.as_str());
        e.append("|\"");
        e.append(code);
        e.append("\" --goto \"");
        e.append(file.as_str());
        e.append(":");
        e.append(goto.as_str());
        e.append("\"\n");
        assert(e@ == error_entry(index@, errors@[i as int], file_spec, goto_spec, code@));
        assert(e@ == error_line(errors@, rv, code@, i as int));
        r.push(e);
        i = i + 1;
    }
    r
}

/// The card describing a failed build for the error window: its title and
/// size, a table with the target and the tool's version, and the errors.
pub open spec fn failure_card_text(target: Seq<char>, version: Seq<char>, count: nat, lines: Seq<Seq<char>>) -> Seq<char> {
    "--title \"failed build: "@ + target + "\" --width 400 --height 300 --decode-debug\ntarget | "@ + target
        + " | string\ncargo-e | "@ + version + " | string\n\nfailed build: "@ + target + "\n"@ + decimal(count)
        + " errors.\n\n"@ + join_lines(lines)
}

/// The card for the error window.
pub fn failure_card(target: &str, version: &str, count: usize, lines: &Vec<String>) -> (r: String)
    ensures
        r@ == failure_card_text(target@, version@, count as nat, crate::text::strings_view(lines@)),
{
    let mut r = String::from_str("--title \"failed build: ");
    r.append(target);
    r.append("\" --width 400 --height 300 --decode-debug\ntarget | ");
    r.append(target);
    r.append(" | string\ncargo-e | ");
    r.append(version);
    r.append(" | string\n\nfailed build: ");
    r.append(target);
    r.append("\n");
    r.append(u64_to_string(count as u64).as_str());
    r.append(" errors.\n\n");
    r.append(crate::text::join_newline(lines).as_str());
    r
}

/// A script's first line marks it as run by `tool`: a `#` line naming the tool.
pub open spec fn script_header(first_line: Seq<char>, tool: Seq<char>) -> bool {
    seq_contains(first_line, tool) && crate::text::seq_starts_with(first_line, "#"@)
}

/// Whether a file whose first line is `first_line` is a script for `tool`
/// (`scriptisto` or `rust-script`).
pub fn is_script_for(first_line: &str, tool: &str) -> (r: bool)
    ensures
        r == script_header(first_line@, tool@),
{
    crate::text::str_contains(first_line, tool) && crate::text::str_starts_with(first_line, "#")
}

/// The first component of a path is `.` or `..`, as `Path::components` tells it.
pub uninterp spec fn leads_with_dot(p: Seq<char>) -> bool;

/// Calls `Path::components().next()` and tells whether it is `.` or `..`.
#[verifier::external_body]
fn first_component_is_dot(path: &str) -> (r: bool)
    ensures
        r == leads_with_dot(path@),
{
    matches!(
        std::path::Path::new(path).components().next(),
        Some(std::path::Component::CurDir) | Some(std::path::Component::ParentDir)
    )
}

/// A path as shown relative to the working directory `cwd`: with `cwd`
/// taken off its front where it is a prefix, `.` for the directory itself,
/// and `./` put before it unless it starts with `.` or `..`.
pub open spec fn relative_form(path: Seq<char>, cwd: Seq<char>) -> Seq<char> {
    let stripped = match crate::main_name::stripped_path(path, cwd) {
        Some(r) => r,
        None => path,
    };
    let rel = if crate::paths::component_count(stripped) == 0 { "."@ } else { stripped };
    if leads_with_dot(rel) {
        rel
    } else {
        crate::runnable::joined_path("."@, rel)
    }
}

/// Shows a path relative to the working directory `cwd`.
pub fn make_relative(path: &str, cwd: &str) -> (r: String)
    ensures
        r@ == relative_form(path@, cwd@),
{
    let stripped = match crate::main_name::path_strip_prefix(path, cwd) {
        Some(r) => r,
        None => String::from_str(path),
    };
    let rel = if crate::paths::path_depth(stripped.as_str()) == 0 {
        String::from_str(".")
    } else {
        stripped
    };
    if first_component_is_dot(rel.as_str()) {
        rel
    } else {
        crate::runnable::path_join(".", rel.as_str())
    }
}

} // verus!
