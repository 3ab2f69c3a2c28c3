//! Naming a target found as a source file: which manifest it belongs to, the
//! name its manifest gives it, and, for a file called `main.rs`, the name of
//! the folder it stands in.
use vstd::prelude::*;
use crate::target::{CargoTarget, TargetOrigin};
use crate::paths::{
    component_count, parent_of, file_name_of, file_stem_of, same_path, path_depth, path_parent,
    path_file_name, path_file_stem, paths_equal,
};
use crate::pattern::opt_view;
use crate::text::{eq_ignore_ascii_case, str_eq_ignore_ascii_case};
use crate::cli::str_eq_exact;
use crate::manifest::ManifestEntry;

verus! {

/// The Unicode lowercase of a string, as `str::to_lowercase` gives it.
pub uninterp spec fn lowercase_of(s: Seq<char>) -> Seq<char>;

/// Calls `str::to_lowercase`.  The contract names the result.
#[verifier::external_body]
pub(crate) fn to_lowercase_str(s: &str) -> (r: String)
    ensures
        r@ == lowercase_of(s@),
{
    s.to_lowercase()
}

/// What `Path::strip_prefix` leaves of `path` once `base` is taken off its
/// front, as a string; `None` where `base` is not a prefix of `path`.
pub uninterp spec fn stripped_path(path: Seq<char>, base: Seq<char>) -> Option<Seq<char>>;

/// Calls `Path::strip_prefix`, converting the rest to a string.  The contract
/// names the result.
#[verifier::external_body]
pub(crate) fn path_strip_prefix(path: &str, base: &str) -> (r: Option<String>)
    ensures
        opt_view(r) == stripped_path(path@, base@),
{
    std::path::Path::new(path).strip_prefix(base).ok().map(|p| p.to_string_lossy().to_string())
}

/// The source file a target was found as: the file of a single-file or
/// default-binary origin.
pub open spec fn main_candidate(o: Option<TargetOrigin>) -> Option<Seq<char>> {
    match o {
        Some(TargetOrigin::SingleFile(p)) => Some(p@),
        Some(TargetOrigin::DefaultBinary(p)) => Some(p@),
        _ => None,
    }
}

/// The lowercase file stem of the candidate, empty where it has none.
pub open spec fn candidate_stem(c: Seq<char>) -> Seq<char> {
    match file_stem_of(c) {
        Some(s) => lowercase_of(s),
        None => Seq::empty(),
    }
}

/// A path, or the empty path where there is none.
pub open spec fn or_empty_path(o: Option<Seq<char>>) -> Seq<char> {
    match o {
        Some(p) => p,
        None => Seq::empty(),
    }
}

/// Two optional relative paths are the same: both absent, or both present
/// and equal as paths.
pub open spec fn same_relative(a: Option<Seq<char>>, b: Option<Seq<char>>) -> bool {
    match (a, b) {
        (Some(x), Some(y)) => same_path(x, y),
        (None, None) => true,
        _ => false,
    }
}

/// The manifest a target keeps once the manifest found upward from its
/// candidate is known: the found one replaces the target's when the two are
/// different files, the found one lies deeper, and the candidate stands at
/// the same place relative to both manifests' directories.
pub open spec fn adopted_manifest(target_manifest: Seq<char>, candidate: Seq<char>, found: Seq<char>, same_file: bool) -> Seq<char> {
    if !same_file && component_count(found) > component_count(target_manifest) && same_relative(
        stripped_path(candidate, or_empty_path(parent_of(target_manifest))),
        stripped_path(candidate, or_empty_path(parent_of(found))),
    ) {
        found
    } else {
        target_manifest
    }
}

/// The name a folder gives a `main` file: the project folder's name for a
/// file in `src` or `src-tauri` (the folder above a `src-tauri` project), and
/// otherwise the name of the folder the file stands in; `main` where a folder
/// has no name.
pub open spec fn folder_name_for(candidate: Seq<char>) -> Seq<char> {
    let main = "main"@;
    match parent_of(candidate) {
        None => main,
        Some(dir) => match file_name_of(dir) {
            None => main,
            Some(dir_name) => if eq_ignore_ascii_case(dir_name, "src"@) || eq_ignore_ascii_case(dir_name, "src-tauri"@) {
                let project = match parent_of(dir) {
                    Some(pd) => match file_name_of(pd) {
                        Some(n) => n,
                        None => main,
                    },
                    None => main,
                };
                if project == "src-tauri"@ {
                    match parent_of(dir) {
                        Some(pd) => match parent_of(pd) {
                            Some(ppd) => match file_name_of(ppd) {
                                Some(n) => n,
                                None => main,
                            },
                            None => main,
                        },
                        None => main,
                    }
                } else {
                    project
                }
            } else {
                dir_name
            },
        },
    }
}

/// What the manifest says of a candidate: the name of the `[[bin]]` entry
/// whose path is the candidate, else of the `[[example]]` entry, and the
/// package name.
pub struct ManifestNames {
    pub bin_name: Option<String>,
    pub example_name: Option<String>,
    pub package_name: Option<String>,
}

/// The name a candidate gets, and whether the manifest named it: a matching
/// `[[bin]]` or `[[example]]` entry's name; for a default binary, the package
/// name; else the lowercase file stem.  A name `main` is replaced by the
/// folder's name, unless that is `main` too.
pub open spec fn decided_name(
    default_binary: bool,
    candidate: Seq<char>,
    bin: Option<Seq<char>>,
    example: Option<Seq<char>>,
    package: Option<Seq<char>>,
) -> (Seq<char>, bool) {
    let stem = candidate_stem(candidate);
    let (name, toml) = match bin {
        Some(b) => (b, true),
        None => match example {
            Some(e) => (e, true),
            None => match package {
                Some(p) => if default_binary { (p, false) } else { (stem, false) },
                None => (stem, false),
            },
        },
    };
    if name == "main"@ && folder_name_for(candidate) != "main"@ {
        (folder_name_for(candidate), toml)
    } else {
        (name, toml)
    }
}

/// The name of the folder a `main` file stands in.
pub fn folder_name(candidate: &str) -> (r: String)
    ensures
        r@ == folder_name_for(candidate@),
{
    let main = String::from_str("main");
    let dir = match path_parent(candidate) {
        None => {
            return main;
        },
        Some(d) => d,
    };
    let dir_name = match path_file_name(dir.as_str()) {
        None => {
            return main;
        },
        Some(n) => n,
    };
    if str_eq_ignore_ascii_case(dir_name.as_str(), "src") || str_eq_ignore_ascii_case(dir_name.as_str(), "src-tauri") {
        let project_dir = path_parent(dir.as_str());
        let project = match &project_dir {
            Some(pd) => match path_file_name(pd.as_str()) {
                Some(n) => n,
                None => main.clone(),
            },
            None => main.clone(),
        };
        if str_eq_exact(project.as_str(), "src-tauri") {
            match &project_dir {
                Some(pd) => match path_parent(pd.as_str()) {
                    Some(ppd) => match path_file_name(ppd.as_str()) {
                        Some(n) => n,
                        None => main,
                    },
                    None => main,
                },
                None => main,
            }
        } else {
            project
        }
    } else {
        dir_name
    }
}

/// The name a candidate gets, and whether the manifest named it.
pub fn decide_main_name(default_binary: bool, candidate: &str, names: &ManifestNames) -> (r: (String, bool))
    ensures
        (r.0@, r.1) == decided_name(default_binary, candidate@, opt_view(names.bin_name),
            opt_view(names.example_name), opt_view(names.package_name)),
{
    let stem = match path_file_stem(candidate) {
        Some(s) => to_lowercase_str(s.as_str()),
        None => String::new(),
    };
    let (name, toml) = match &names.bin_name {
        Some(b) => (b.clone(), true),
        None => match &names.example_name {
            Some(e) => (e.clone(), true),
            None => match &names.package_name {
                Some(p) => if default_binary { (p.clone(), false) } else { (stem, false) },
                None => (stem, false),
            },
        },
    };
    if str_eq_exact(name.as_str(), "main") {
        let f = folder_name(candidate);
        if !str_eq_exact(f.as_str(), "main") {
            return (f, toml);
        }
    }
    (name, toml)
}

impl CargoTarget {
    /// The source file this target was found as, if it was found as one.
    pub fn main_candidate(&self) -> (r: Option<String>)
        ensures
            opt_view(r) == main_candidate(self.origin),
    {
        match &self.origin {
            Some(TargetOrigin::SingleFile(p)) => Some(p.clone()),
            Some(TargetOrigin::DefaultBinary(p)) => Some(p.clone()),
            _ => None,
        }
    }

    /// Takes the manifest found upward from the candidate (`found`; `same_file`
    /// says whether it and the target's manifest are the same file) when it
    /// belongs to the candidate more closely than the target's own.
    pub fn adopt_found_manifest(&mut self, found: &str, same_file: bool)
        ensures
            final(self).manifest_path@ == (match main_candidate(old(self).origin) {
                Some(c) => adopted_manifest(old(self).manifest_path@, c, found@, same_file),
                None => old(self).manifest_path@,
            }),
            final(self).name == old(self).name,
            final(self).display_name == old(self).display_name,
            final(self).kind == old(self).kind,
            final(self).extended == old(self).extended,
            final(self).toml_specified == old(self).toml_specified,
            final(self).origin == old(self).origin,
    {
        let candidate = match self.main_candidate() {
            Some(c) => c,
            None => {
                return;
            },
        };
        if same_file {
            return;
        }
        if path_depth(found) > path_depth(self.manifest_path.as_str()) {
            let orig_parent = match path_parent(self.manifest_path.as_str()) {
                Some(p) => p,
                None => String::new(),
            };
            let found_parent = match path_parent(found) {
                Some(p) => p,
                None => String::new(),
            };
            let orig_rel = path_strip_prefix(candidate.as_str(), orig_parent.as_str());
            let found_rel = path_strip_prefix(candidate.as_str(), found_parent.as_str());
            let same = match (&orig_rel, &found_rel) {
                (Some(a), Some(b)) => paths_equal(a.as_str(), b.as_str()),
                (None, None) => true,
                _ => false,
            };
            if same {
                self.manifest_path = String::from_str(found);
            }
        }
    }

    /// Names a target found as a source file, from what its manifest says of
    /// it (`names`): sets its name and display name, and marks it as named by
    /// the manifest where it was.  A target not found as a source file is
    /// refused.
    pub fn figure_main_name(&mut self, names: &ManifestNames) -> (r: Result<(), String>)
        requires
            main_candidate(old(self).origin) matches Some(c) ==> decided_name(
                old(self).origin matches Some(TargetOrigin::DefaultBinary(_)),
                c,
                opt_view(names.bin_name),
                opt_view(names.example_name),
                opt_view(names.package_name),
            ).0 != "main"@,
        ensures
            match main_candidate(old(self).origin) {
                None => r is Err && *final(self) == *old(self),
                Some(c) => {
                    let (n, toml) = decided_name(
                        old(self).origin matches Some(TargetOrigin::DefaultBinary(_)),
                        c,
                        opt_view(names.bin_name),
                        opt_view(names.example_name),
                        opt_view(names.package_name),
                    );
                    &&& r is Ok
                    &&& final(self).name@ == n
                    &&& final(self).display_name@ == n
                    &&& final(self).toml_specified == (old(self).toml_specified || toml)
                    &&& final(self).manifest_path == old(self).manifest_path
                    &&& final(self).kind == old(self).kind
                    &&& final(self).extended == old(self).extended
                    &&& final(self).origin == old(self).origin
                },
            },
            r matches Err(e) ==> e@ == "No candidate file found"@,
    {
        let candidate = match self.main_candidate() {
            Some(c) => c,
            None => {
                return Err(String::from_str("No candidate file found"));
            },
        };
        let default_binary = match &self.origin {
            Some(TargetOrigin::DefaultBinary(_)) => true,
            _ => false,
        };
        let (name, toml) = decide_main_name(default_binary, candidate.as_str(), names);
        if toml {
            self.toml_specified = true;
        }
        self.display_name = name.clone();
        self.name = name;
        Ok(())
    }

    /// Names a target found as a source file as `figure_main_name` does,
    /// refusing first, with the target left as it is, where the name decided
    /// would be `main`.
    pub fn try_figure_main_name(&mut self, names: &ManifestNames) -> (r: Result<(), String>)
        ensures
            match main_candidate(old(self).origin) {
                None => r matches Err(e) && e@ == "No candidate file found"@ && *final(self) == *old(self),
                Some(c) => {
                    let (n, toml) = decided_name(
                        old(self).origin matches Some(TargetOrigin::DefaultBinary(_)),
                        c,
                        opt_view(names.bin_name),
                        opt_view(names.example_name),
                        opt_view(names.package_name),
                    );
                    if n == "main"@ {
                        r matches Err(e) && e@ == "Name is main"@ && *final(self) == *old(self)
                    } else {
                        &&& r is Ok
                        &&& final(self).name@ == n
                        &&& final(self).display_name@ == n
                        &&& final(self).toml_specified == (old(self).toml_specified || toml)
                        &&& final(self).manifest_path == old(self).manifest_path
                        &&& final(self).kind == old(self).kind
                        &&& final(self).extended == old(self).extended
                        &&& final(self).origin == old(self).origin
                    }
                },
            },
    {
        let candidate = match self.main_candidate() {
            Some(c) => c,
            None => {
                return Err(String::from_str("No candidate file found"));
            },
        };
        let default_binary = match &self.origin {
            Some(TargetOrigin::DefaultBinary(_)) => true,
            _ => false,
        };
        let (name, _) = decide_main_name(default_binary, candidate.as_str(), names);
        if str_eq_exact(name.as_str(), "main") {
            proof {
                reveal_strlit("main");
            }
            return Err(String::from_str("Name is main"));
        }
        proof {
            reveal_strlit("main");
        }
        self.figure_main_name(names)
    }
}

/// The name of the first entry with a `path` and a `name` whose path is the
/// candidate file (`matches[i]` tells whether entry `i`'s path resolves to it).
pub open spec fn explicit_match(es: Seq<ManifestEntry>, matches: Seq<bool>) -> Option<Seq<char>>
    decreases es.len(),
{
    if es.len() == 0 {
        None
    } else {
        let e = es[0];
        if e.path is Some && e.name is Some && matches.len() > 0 && matches[0] {
            Some(e.name->0@)
        } else {
            explicit_match(es.drop_first(), if matches.len() > 0 { matches.drop_first() } else { matches })
        }
    }
}

/// The name of the last entry that has a name and no `path` key.
pub open spec fn last_pathless(es: Seq<ManifestEntry>) -> Option<Seq<char>>
    decreases es.len(),
{
    if es.len() == 0 {
        None
    } else {
        let e = es.last();
        if !e.has_path && e.name is Some {
            Some(e.name->0@)
        } else {
            last_pathless(es.drop_last())
        }
    }
}

/// The name a manifest section gives a candidate file: the entry whose path
/// is the file, else the last entry without a path.
pub open spec fn candidate_name(es: Seq<ManifestEntry>, matches: Seq<bool>) -> Option<Seq<char>> {
    match explicit_match(es, matches) {
        Some(n) => Some(n),
        None => last_pathless(es),
    }
}

proof fn lemma_explicit_skip(es: Seq<ManifestEntry>, matches: Seq<bool>, i: int)
    requires
        0 <= i <= es.len(),
        i <= matches.len(),
        forall|k: int| 0 <= k < i ==> !(es[k].path is Some && es[k].name is Some && #[trigger] matches[k]),
    ensures
        explicit_match(es, matches) == explicit_match(es.skip(i), matches.skip(i)),
    decreases i,
{
    if i > 0 {
        assert(!(es[0].path is Some && es[0].name is Some && matches[0]));
        assert forall|k: int| 0 <= k < i - 1 implies !(es.drop_first()[k].path is Some && es.drop_first()[k].name
            is Some && #[trigger] matches.drop_first()[k]) by {
            assert(es.drop_first()[k] == es[k + 1]);
            assert(matches.drop_first()[k] == matches[k + 1]);
        }
        lemma_explicit_skip(es.drop_first(), matches.drop_first(), i - 1);
        assert(es.drop_first().skip(i - 1) =~= es.skip(i));
        assert(matches.drop_first().skip(i - 1) =~= matches.skip(i));
    } else {
        assert(es.skip(0) =~= es);
        assert(matches.skip(0) =~= matches);
    }
}

proof fn lemma_explicit_none(es: Seq<ManifestEntry>, matches: Seq<bool>)
    requires
        matches.len() == 0,
    ensures
        explicit_match(es, matches) is None,
    decreases es.len(),
{
    if es.len() > 0 {
        lemma_explicit_none(es.drop_first(), matches);
    }
}

/// The name a manifest section's entries give a candidate file, given for
/// each entry whether its `path` resolves to that file.
pub fn find_candidate_name(entries: &Vec<ManifestEntry>, matches: &Vec<bool>) -> (r: Option<String>)
    ensures
        opt_view(r) == candidate_name(entries@, matches@),
{
    let n = entries.len();
    let mut i: usize = 0;
    while i < n && i < matches.len()
        invariant
            n == entries.len(),
            i <= n,
            i <= matches.len(),
            forall|k: int| 0 <= k < i ==> !(entries@[k].path is Some && entries@[k].name is Some && #[trigger] matches@[k]),
        decreases n - i,
    {
        let e = &entries[i];
        if e.path.is_some() && matches[i] {
            match &e.name {
                Some(name) => {
                    proof {
                        lemma_explicit_skip(entries@, matches@, i as int);
                        assert(entries@.skip(i as int)[0] == entries@[i as int]);
                        assert(matches@.skip(i as int)[0] == matches@[i as int]);
                    }
                    return Some(name.clone());
                },
                None => {},
            }
        }
        i = i + 1;
    }
    proof {
        lemma_explicit_skip(entries@, matches@, i as int);
        if i == n {
            assert(entries@.skip(i as int).len() == 0);
        } else {
            assert(matches@.skip(i as int).len() == 0);
            lemma_explicit_none(entries@.skip(i as int), matches@.skip(i as int));
        }
    }
    assert(entries@.take(n as int) =~= entries@);
    let mut j: usize = n;
    while j > 0
        invariant
            n == entries.len(),
            j <= n,
            explicit_match(entries@, matches@) is None,
            last_pathless(entries@) == last_pathless(entries@.take(j as int)),
        decreases j,
    {
        let e = &entries[j - 1];
        assert(entries@.take(j as int).last() == entries@[j - 1]);
        assert(entries@.take(j as int).drop_last() =~= entries@.take(j - 1));
        if !e.has_path {
            match &e.name {
                Some(name) => {
                    return Some(name.clone());
                },
                None => {},
            }
        }
        j = j - 1;
    }
    None
}

} // verus!
