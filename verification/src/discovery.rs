//! Classification of a candidate source file into a target kind.
use vstd::prelude::*;
use crate::target::TargetKind;
use crate::text::{seq_contains, str_contains, eq_ignore_ascii_case, str_eq_ignore_ascii_case};
use crate::cli::str_eq_exact;
use crate::paths::{parent_of, file_name_of, same_path, path_parent, path_file_name, paths_equal};

verus! {

/// What the file system says around a candidate; gathered by the caller.
pub struct FsFacts {
    /// `tauri.conf.json` exists beside the manifest.
    pub tauri_conf_beside_manifest: bool,
    /// A `src-tauri` entry exists beside the manifest.
    pub src_tauri_beside_manifest: bool,
    /// `tauri.conf.json` exists beside the candidate.
    pub tauri_conf_beside_candidate: bool,
    /// The path of `Cargo.toml` beside the candidate, when that file exists.
    pub manifest_beside_candidate: Option<String>,
}

/// The manifest lies in a directory called `src-tauri` (ignoring ASCII case).
pub open spec fn in_src_tauri(manifest_path: Seq<char>) -> bool {
    match parent_of(manifest_path) {
        Some(p) => match file_name_of(p) {
            Some(n) => eq_ignore_ascii_case(n, "src-tauri"@),
            None => false,
        },
        None => false,
    }
}

/// Whether a Tauri project surrounds the manifest or the candidate.
pub open spec fn tauri_detected(manifest_path: Seq<char>, facts: FsFacts) -> bool {
    in_src_tauri(manifest_path)
        || (parent_of(manifest_path) is Some && facts.tauri_conf_beside_manifest)
        || (parent_of(manifest_path) is Some && facts.src_tauri_beside_manifest)
        || facts.tauri_conf_beside_candidate
}

/// The name of the folder holding the candidate, if it has one.
pub open spec fn candidate_folder(candidate: Seq<char>) -> Option<Seq<char>> {
    match parent_of(candidate) {
        Some(p) => file_name_of(p),
        None => None,
    }
}

/// Whether a file holding `fn main` is an example: one in a folder called
/// `examples` is, one in a folder called `bin` is not, and elsewhere the
/// caller's flag decides.
pub open spec fn main_is_example(candidate: Seq<char>, example: bool) -> bool {
    match candidate_folder(candidate) {
        Some(n) => if n == "examples"@ {
            true
        } else if n == "bin"@ {
            false
        } else {
            example
        },
        None => example,
    }
}

/// The kind for a file holding `fn main`.
pub open spec fn main_kind(example: bool, extended: bool) -> TargetKind {
    if example {
        if extended { TargetKind::ExtendedExample } else { TargetKind::Example }
    } else if extended {
        TargetKind::ExtendedBinary
    } else {
        TargetKind::Binary
    }
}

/// The kind and manifest path decided for a candidate file.
pub open spec fn target_kind_and_manifest(
    manifest_path: Seq<char>,
    candidate: Seq<char>,
    contents: Seq<char>,
    example: bool,
    extended: bool,
    incoming_kind: Option<TargetKind>,
    facts: FsFacts,
) -> (TargetKind, Seq<char>) {
    if incoming_kind == Some(TargetKind::Test) || incoming_kind == Some(TargetKind::Bench) {
        (incoming_kind.unwrap(), manifest_path)
    } else if tauri_detected(manifest_path, facts) {
        if example {
            (TargetKind::ManifestTauriExample, manifest_path)
        } else {
            match facts.manifest_beside_candidate {
                Some(m) => (TargetKind::ManifestTauri, m@),
                None => (TargetKind::ManifestTauri, manifest_path),
            }
        }
    } else if seq_contains(contents, "dioxus::"@) {
        (if example { TargetKind::ManifestDioxusExample } else { TargetKind::ManifestDioxus }, manifest_path)
    } else if seq_contains(contents, "leptos::"@) {
        (TargetKind::ManifestLeptos, manifest_path)
    } else if seq_contains(contents, "fn main"@) {
        (main_kind(main_is_example(candidate, example), extended), manifest_path)
    } else if seq_contains(contents, "#[test]"@) {
        (TargetKind::Test, manifest_path)
    } else {
        (TargetKind::Example, manifest_path)
    }
}

/// A file mentioning `dioxus::`, with no Tauri project around and no test
/// or bench kind handed in, is a Dioxus app of its manifest: the example
/// kind exactly when it was found as an example, the package kind otherwise.
pub proof fn lemma_dioxus_kind(
    manifest_path: Seq<char>,
    candidate: Seq<char>,
    contents: Seq<char>,
    example: bool,
    extended: bool,
    incoming_kind: Option<TargetKind>,
    facts: FsFacts,
)
    requires
        incoming_kind != Some(TargetKind::Test),
        incoming_kind != Some(TargetKind::Bench),
        !tauri_detected(manifest_path, facts),
        exists|i: int| crate::text::occurs_at(contents, "dioxus::"@, i),
    ensures
        target_kind_and_manifest(manifest_path, candidate, contents, example, extended, incoming_kind, facts).1
            == manifest_path,
        target_kind_and_manifest(manifest_path, candidate, contents, example, extended, incoming_kind, facts).0
            == TargetKind::ManifestDioxusExample <==> example,
        target_kind_and_manifest(manifest_path, candidate, contents, example, extended, incoming_kind, facts).0
            == TargetKind::ManifestDioxus <==> !example,
{
}

/// Whether a file holding `fn main` is an example, by its folder.
fn main_is_example_exec(candidate: &str, example: bool) -> (r: bool)
    ensures
        r == main_is_example(candidate@, example),
{
    match path_parent(candidate) {
        Some(p) => match path_file_name(p.as_str()) {
            Some(n) => {
                proof {
                    reveal_strlit("examples");
                    reveal_strlit("bin");
                }
                if str_eq_exact(n.as_str(), "examples") {
                    true
                } else if str_eq_exact(n.as_str(), "bin") {
                    false
                } else {
                    example
                }
            },
            None => example,
        },
        None => example,
    }
}

fn manifest_in_src_tauri(manifest_path: &str) -> (r: bool)
    ensures
        r == in_src_tauri(manifest_path@),
{
    match path_parent(manifest_path) {
        Some(p) => match path_file_name(p.as_str()) {
            Some(n) => str_eq_ignore_ascii_case(n.as_str(), "src-tauri"),
            None => false,
        },
        None => false,
    }
}

/// Decides the kind of a candidate file and the manifest it belongs to.
///
/// Test and bench kinds handed in are kept. A Tauri project (manifest in
/// `src-tauri`, or a Tauri configuration beside the manifest or the
/// candidate) gives `ManifestTauriExample` for examples and otherwise
/// `ManifestTauri`, moving to a `Cargo.toml` beside the candidate when there
/// is one. Then `dioxus::` gives a Dioxus kind, `leptos::` a Leptos kind,
/// `fn main` an example kind in a folder called `examples`, a binary kind in
/// one called `bin`, and elsewhere as `example` says (extended when
/// `extended` is set); `#[test]` gives a test, and anything else is an example.
pub fn determine_target_kind_and_manifest(
    manifest_path: &str,
    candidate: &str,
    file_contents: &str,
    example: bool,
    extended: bool,
    incoming_kind: Option<TargetKind>,
    facts: &FsFacts,
) -> (r: (TargetKind, String))
    ensures
        (r.0, r.1@) == target_kind_and_manifest(
            manifest_path@,
            candidate@,
            file_contents@,
            example,
            extended,
            incoming_kind,
            *facts,
        ),
{
    if let Some(kind) = incoming_kind {
        if kind == TargetKind::Test || kind == TargetKind::Bench {
            return (kind, String::from_str(manifest_path));
        }
    }
    let has_parent = path_parent(manifest_path).is_some();
    let tauri = manifest_in_src_tauri(manifest_path)
        || (has_parent && facts.tauri_conf_beside_manifest)
        || (has_parent && facts.src_tauri_beside_manifest)
        || facts.tauri_conf_beside_candidate;
    if tauri {
        if example {
            return (TargetKind::ManifestTauriExample, String::from_str(manifest_path));
        }
        return match &facts.manifest_beside_candidate {
            Some(m) => (TargetKind::ManifestTauri, m.clone()),
            None => (TargetKind::ManifestTauri, String::from_str(manifest_path)),
        };
    }
    if str_contains(file_contents, "dioxus::") {
        let kind = if example {
            TargetKind::ManifestDioxusExample
        } else {
            TargetKind::ManifestDioxus
        };
        return (kind, String::from_str(manifest_path));
    }
    if str_contains(file_contents, "leptos::") {
        return (TargetKind::ManifestLeptos, String::from_str(manifest_path));
    }
    if str_contains(file_contents, "fn main") {
        let kind = if main_is_example_exec(candidate, example) {
            if extended {
                TargetKind::ExtendedExample
            } else {
                TargetKind::Example
            }
        } else if extended {
            TargetKind::ExtendedBinary
        } else {
            TargetKind::Binary
        };
        return (kind, String::from_str(manifest_path));
    }
    if str_contains(file_contents, "#[test]") {
        return (TargetKind::Test, String::from_str(manifest_path));
    }
    (TargetKind::Example, String::from_str(manifest_path))
}

/// The candidate is not directly in the project root (the manifest's directory).
pub open spec fn extended_target(manifest_path: Seq<char>, candidate: Seq<char>) -> bool {
    match parent_of(manifest_path) {
        Some(root) => match parent_of(candidate) {
            Some(p) => !same_path(p, root),
            None => false,
        },
        None => false,
    }
}

/// Returns true if the candidate file is not located directly in the project root.
pub fn is_extended_target(manifest_path: &str, candidate: &str) -> (r: bool)
    ensures
        r == extended_target(manifest_path@, candidate@),
{
    match path_parent(manifest_path) {
        Some(root) => match path_parent(candidate) {
            Some(p) => !paths_equal(p.as_str(), root.as_str()),
            None => false,
        },
        None => false,
    }
}


/// The target a source file makes, if it is runnable: named after the file's
/// stem, with the kind and manifest the classification gives, found as a
/// single file; `None` where the classification finds nothing to run.
pub fn target_from_source_file(
    stem: &str,
    file_path: &str,
    manifest_path: &str,
    file_contents: &str,
    example: bool,
    extended: bool,
    facts: &FsFacts,
) -> (r: Option<crate::target::CargoTarget>)
    ensures
        ({
            let (k, m) = target_kind_and_manifest(manifest_path@, file_path@, file_contents@, example, extended, None, *facts);
            match r {
                None => k == TargetKind::Unknown,
                Some(t) => k != TargetKind::Unknown && t.kind == k && t.manifest_path@ == m && t.name@ == stem@
                    && t.display_name@ == stem@ && t.extended == extended && !t.toml_specified
                    && (t.origin matches Some(crate::target::TargetOrigin::SingleFile(p)) && p@ == file_path@),
            }
        }),
{
    let (kind, manifest) = determine_target_kind_and_manifest(manifest_path, file_path, file_contents, example, extended, None, facts);
    if kind == TargetKind::Unknown {
        return None;
    }
    Some(crate::target::CargoTarget {
        name: String::from_str(stem),
        display_name: String::from_str(stem),
        manifest_path: manifest,
        kind,
        extended,
        toml_specified: false,
        origin: Some(crate::target::TargetOrigin::SingleFile(String::from_str(file_path))),
    })
}

impl crate::target::CargoTarget {
    /// Re-classifies a target found as a file from the file's text, keeping
    /// its kind as the starting point: the kind and manifest change as the
    /// classification says.  Other targets are left as they are.
    pub fn refine_kind(&mut self, file_contents: &str, facts: &FsFacts)
        ensures
            match old(self).origin {
                Some(crate::target::TargetOrigin::SingleFile(p)) | Some(crate::target::TargetOrigin::DefaultBinary(p)) => {
                    let (k, m) = target_kind_and_manifest(old(self).manifest_path@, p@, file_contents@,
                        crate::target::kind_is_example(old(self).kind), old(self).extended, Some(old(self).kind), *facts);
                    &&& final(self).kind == k
                    &&& final(self).manifest_path@ == m
                    &&& final(self).name == old(self).name
                    &&& final(self).display_name == old(self).display_name
                    &&& final(self).origin == old(self).origin
                    &&& final(self).extended == old(self).extended
                    &&& final(self).toml_specified == old(self).toml_specified
                },
                _ => *final(self) == *old(self),
            },
    {
        let path = match &self.origin {
            Some(crate::target::TargetOrigin::SingleFile(p)) | Some(crate::target::TargetOrigin::DefaultBinary(p)) => p.clone(),
            _ => {
                return;
            },
        };
        let example = self.is_example();
        let (kind, manifest) = determine_target_kind_and_manifest(self.manifest_path.as_str(), path.as_str(),
            file_contents, example, self.extended, Some(self.kind), facts);
        self.kind = kind;
        self.manifest_path = manifest;
    }
}


/// The display name of a folder that is a subproject: the folder's parent's
/// name, or the grandparent's where the parent has the folder's own name;
/// `None` where a name it needs is missing.
pub open spec fn subproject_display(folder: Seq<char>) -> Option<Seq<char>> {
    match file_name_of(folder) {
        None => None,
        Some(name) => match parent_of(folder) {
            None => Some(name),
            Some(parent) => match file_name_of(parent) {
                None => None,
                Some(pn) => if pn == name {
                    match parent_of(parent) {
                        Some(gp) => file_name_of(gp),
                        None => Some(name),
                    }
                } else {
                    Some(pn)
                },
            },
        },
    }
}

/// The target a folder holding its own `Cargo.toml` (at `sub_manifest`)
/// makes: named after the folder, displayed by `subproject_display`, a
/// manifest kind found as a subproject.
pub fn subproject_target(folder: &str, sub_manifest: &str) -> (r: Option<crate::target::CargoTarget>)
    ensures
        match r {
            None => subproject_display(folder@) is None,
            Some(t) => subproject_display(folder@) == Some(t.display_name@) && file_name_of(folder@) == Some(t.name@)
                && t.manifest_path@ == sub_manifest@ && t.kind == TargetKind::Manifest && t.extended
                && !t.toml_specified && (t.origin matches Some(crate::target::TargetOrigin::SubProject(p)) && p@ == sub_manifest@),
        },
{
    let name = match path_file_name(folder) {
        Some(n) => n,
        None => {
            return None;
        },
    };
    let display = match path_parent(folder) {
        None => name.clone(),
        Some(parent) => match path_file_name(parent.as_str()) {
            None => {
                return None;
            },
            Some(pn) => if crate::cli::str_eq_exact(pn.as_str(), name.as_str()) {
                match path_parent(parent.as_str()) {
                    Some(gp) => match path_file_name(gp.as_str()) {
                        Some(g) => g,
                        None => {
                            return None;
                        },
                    },
                    None => name.clone(),
                }
            } else {
                pn
            },
        },
    };
    Some(crate::target::CargoTarget {
        name,
        display_name: display,
        manifest_path: String::from_str(sub_manifest),
        kind: TargetKind::Manifest,
        extended: true,
        toml_specified: false,
        origin: Some(crate::target::TargetOrigin::SubProject(String::from_str(sub_manifest))),
    })
}

/// The files a folder's runnable source is looked for in, in order:
/// `<folder>/<name>.rs`, `<folder>/src/main.rs`, `<folder>/main.rs`.
pub fn folder_candidates(folder: &str, folder_name: &str) -> (r: Vec<String>)
    ensures
        r@.len() == 3,
        r@[0]@ == crate::runnable::joined_path(folder@, folder_name@ + ".rs"@),
        r@[1]@ == crate::runnable::joined_path(folder@, "src/main.rs"@),
        r@[2]@ == crate::runnable::joined_path(folder@, "main.rs"@),
{
    let mut own = String::from_str(folder_name);
    own.append(".rs");
    let mut r: Vec<String> = Vec::new();
    r.push(crate::runnable::path_join(folder, own.as_str()));
    r.push(crate::runnable::path_join(folder, "src/main.rs"));
    r.push(crate::runnable::path_join(folder, "main.rs"));
    r
}

/// A file is a candidate when its text holds `fn main`.
pub fn has_main(contents: &str) -> (r: bool)
    ensures
        r == seq_contains(contents@, "fn main"@),
{
    str_contains(contents, "fn main")
}


/// The directory a Tauri target runs in: the first of the candidate's
/// directory, the manifest's directory and its parent that holds a Tauri
/// configuration (`*_conf` says which do); failing that, the manifest's
/// directory, or, with a candidate but no manifest grandparent, the
/// candidate's directory.
pub open spec fn tauri_dir_choice(
    candidate_dir: Option<Seq<char>>,
    candidate_conf: bool,
    manifest_dir: Option<Seq<char>>,
    manifest_conf: bool,
    grandparent: Option<Seq<char>>,
    grandparent_conf: bool,
) -> Option<Seq<char>> {
    match candidate_dir {
        Some(cd) => if candidate_conf {
            Some(cd)
        } else {
            match manifest_dir {
                Some(md) => if manifest_conf {
                    Some(md)
                } else {
                    match grandparent {
                        Some(gp) => if grandparent_conf { Some(gp) } else { Some(md) },
                        None => Some(cd),
                    }
                },
                None => None,
            }
        },
        None => match manifest_dir {
            Some(md) => if manifest_conf {
                Some(md)
            } else {
                match grandparent {
                    Some(gp) => if grandparent_conf { Some(gp) } else { Some(md) },
                    None => None,
                }
            },
            None => None,
        },
    }
}

/// Chooses the directory a Tauri target runs in.
pub fn tauri_execution_dir(
    candidate_dir: &Option<String>,
    candidate_conf: bool,
    manifest_dir: &Option<String>,
    manifest_conf: bool,
    grandparent: &Option<String>,
    grandparent_conf: bool,
) -> (r: Option<String>)
    ensures
        crate::pattern::opt_view(r) == tauri_dir_choice(crate::pattern::opt_view(*candidate_dir), candidate_conf,
            crate::pattern::opt_view(*manifest_dir), manifest_conf, crate::pattern::opt_view(*grandparent), grandparent_conf),
{
    let from_manifest = match manifest_dir {
        Some(md) => if manifest_conf {
            Some(md.clone())
        } else {
            match grandparent {
                Some(gp) => if grandparent_conf { Some(gp.clone()) } else { Some(md.clone()) },
                None => None,
            }
        },
        None => None,
    };
    match candidate_dir {
        Some(cd) => if candidate_conf {
            Some(cd.clone())
        } else {
            match manifest_dir {
                Some(md) => if !manifest_conf && grandparent.is_none() { Some(cd.clone()) } else { from_manifest },
                None => None,
            }
        },
        None => from_manifest,
    }
}

} // verus!
