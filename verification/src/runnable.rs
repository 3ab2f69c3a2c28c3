//! Assembling the runnable targets of one manifest: where each declared
//! target's source is looked for, whether the project lies in an `examples`
//! folder, how targets found by scanning join those declared, and the bench
//! and test targets.
use vstd::prelude::*;
use crate::target::{CargoTarget, TargetKind, TargetOrigin, has_name, names_unique};
use crate::paths::{parent_of, file_name_of, path_parent, path_file_name};
use crate::pattern::opt_view;
use crate::text::{eq_ignore_ascii_case, str_eq_ignore_ascii_case};
use crate::cli::str_eq_exact;
use crate::manifest::{ManifestData, ManifestEntry};

verus! {

/// `base` joined with `rest`, as `Path::join` gives it (an absolute `rest`
/// replaces `base`).
pub uninterp spec fn joined_path(base: Seq<char>, rest: Seq<char>) -> Seq<char>;

/// Calls `Path::join`, converting the result to a string.  The contract
/// names the result.
#[verifier::external_body]
pub(crate) fn path_join(base: &str, rest: &str) -> (r: String)
    ensures
        r@ == joined_path(base@, rest@),
{
    std::path::Path::new(base).join(rest).to_string_lossy().to_string()
}

/// The folder of a manifest, which is the project's root.
pub fn project_root(manifest: &str) -> (r: Result<String, String>)
    ensures
        match r {
            Ok(p) => parent_of(manifest@) == Some(p@),
            Err(e) => parent_of(manifest@) is None && e@ == "Unable to determine project root"@,
        },
{
    match path_parent(manifest) {
        Some(p) => Ok(p),
        None => Err(String::from_str("Unable to determine project root")),
    }
}

/// A project whose root stands in a folder named `examples` (in any case)
/// holds extended examples.
pub open spec fn in_examples_folder(root: Seq<char>) -> bool {
    match parent_of(root) {
        Some(p) => match file_name_of(p) {
            Some(n) => eq_ignore_ascii_case(n, "examples"@),
            None => false,
        },
        None => false,
    }
}

/// Whether the project root stands in an `examples` folder.
pub fn is_in_examples_folder(root: &str) -> (r: bool)
    ensures
        r == in_examples_folder(root@),
{
    match path_parent(root) {
        Some(p) => match path_file_name(p.as_str()) {
            Some(n) => str_eq_ignore_ascii_case(n.as_str(), "examples"),
            None => false,
        },
        None => false,
    }
}

/// Where a `[[bin]]` entry's source is looked for: its `path` under the
/// root, else `src/<name>.rs`.
pub open spec fn bin_source(root: Seq<char>, name: Seq<char>, path: Option<Seq<char>>) -> Seq<char> {
    match path {
        Some(p) => joined_path(root, p),
        None => joined_path(joined_path(root, "src"@), name + ".rs"@),
    }
}

/// Where a `[[bin]]` entry's source is looked for.
pub fn bin_source_path(root: &str, name: &str, path: &Option<String>) -> (r: String)
    ensures
        r@ == bin_source(root@, name@, opt_view(*path)),
{
    match path {
        Some(p) => path_join(root, p.as_str()),
        None => {
            let src = path_join(root, "src");
            let mut file = String::from_str(name);
            file.append(".rs");
            path_join(src.as_str(), file.as_str())
        },
    }
}

/// Where an `[[example]]` entry's source is looked for: its `path` under the
/// root, else `examples/<name>.rs`.
pub open spec fn example_source(root: Seq<char>, name: Seq<char>, path: Option<Seq<char>>) -> Seq<char> {
    match path {
        Some(p) => joined_path(root, p),
        None => joined_path(root, "examples/"@ + name + ".rs"@),
    }
}

/// Where an `[[example]]` entry's source is looked for.
pub fn example_source_path(root: &str, name: &str, path: &Option<String>) -> (r: String)
    ensures
        r@ == example_source(root@, name@, opt_view(*path)),
{
    match path {
        Some(p) => path_join(root, p.as_str()),
        None => {
            let mut file = String::from_str("examples/");
            file.append(name);
            file.append(".rs");
            path_join(root, file.as_str())
        },
    }
}

/// Whether some target of `list` has the name `name`.
pub fn has_target_named(list: &Vec<CargoTarget>, name: &str) -> (r: bool)
    ensures
        r == has_name(list@, name@),
{
    let mut i: usize = 0;
    while i < list.len()
        invariant
            i <= list.len(),
            forall|k: int| 0 <= k < i ==> (#[trigger] list@[k]).name@ != name@,
        decreases list.len() - i,
    {
        if str_eq_exact(list[i].name.as_str(), name) {
            return true;
        }
        i = i + 1;
    }
    false
}

/// A scanned target as it joins the list: marked as an extended example when
/// the project is in an `examples` folder.
pub open spec fn as_joined(t: CargoTarget, extended: bool) -> CargoTarget {
    if extended {
        CargoTarget { kind: TargetKind::ExtendedExample, extended: true, ..t }
    } else {
        t
    }
}

/// The list after the scanned targets `found` join it, one by one, each only
/// if no target of its name is there yet.
pub open spec fn joined_scan(list: Seq<CargoTarget>, found: Seq<CargoTarget>, extended: bool) -> Seq<CargoTarget>
    decreases found.len(),
{
    if found.len() == 0 {
        list
    } else {
        let prev = joined_scan(list, found.drop_last(), extended);
        let t = found.last();
        if has_name(prev, t.name@) {
            prev
        } else {
            prev.push(as_joined(t, extended))
        }
    }
}

/// Adds the scanned targets whose names are not yet in the list, in order.
pub fn join_scanned(list: &mut Vec<CargoTarget>, found: Vec<CargoTarget>, extended: bool)
    ensures
        final(list)@ == joined_scan(old(list)@, found@, extended),
{
    let ghost start = list@;
    let mut j: usize = 0;
    while j < found.len()
        invariant
            j <= found.len(),
            list@ == joined_scan(start, found@.take(j as int), extended),
        decreases found.len() - j,
    {
        let t = found[j].duplicate();
        proof {
            assert(found@.take(j + 1).drop_last() == found@.take(j as int));
            assert(found@.take(j + 1).last() == t);
        }
        if !has_target_named(list, t.name.as_str()) {
            let mut t = t;
            if extended {
                t.kind = TargetKind::ExtendedExample;
                t.extended = true;
            }
            list.push(t);
        }
        j = j + 1;
    }
    assert(found@.take(found.len() as int) == found@);
}

/// Joining scanned targets keeps every target already listed, first and in
/// order, and keeps the names of the list distinct.
pub proof fn lemma_join_keeps(list: Seq<CargoTarget>, found: Seq<CargoTarget>, extended: bool)
    requires
        names_unique(list),
    ensures
        joined_scan(list, found, extended).len() >= list.len(),
        joined_scan(list, found, extended).subrange(0, list.len() as int) == list,
        names_unique(joined_scan(list, found, extended)),
        forall|k: int| 0 <= k < found.len() ==> has_name(joined_scan(list, found, extended), #[trigger] found[k].name@),
    decreases found.len(),
{
    if found.len() > 0 {
        let prev = joined_scan(list, found.drop_last(), extended);
        lemma_join_keeps(list, found.drop_last(), extended);
        let t = found.last();
        let next = joined_scan(list, found, extended);
        if !has_name(prev, t.name@) {
            assert(next.subrange(0, list.len() as int) =~= prev.subrange(0, list.len() as int));
            assert(next[prev.len() as int].name@ == t.name@);
            assert forall|k: int| 0 <= k < found.len() implies has_name(next, #[trigger] found[k].name@) by {
                if k < found.len() - 1 {
                    assert(found.drop_last()[k] == found[k]);
                    let w = choose|w: int| 0 <= w < prev.len() && #[trigger] prev[w].name@ == found[k].name@;
                    assert(next[w] == prev[w]);
                }
            }
        } else {
            assert forall|k: int| 0 <= k < found.len() implies has_name(next, #[trigger] found[k].name@) by {
                if k < found.len() - 1 {
                    assert(found.drop_last()[k] == found[k]);
                }
            }
        }
    } else {
        assert(list.subrange(0, list.len() as int) =~= list);
    }
}

/// A bench target declared in the manifest.
pub fn bench_target(name: &str, manifest: &str) -> (r: CargoTarget)
    ensures
        r.name@ == name@,
        r.display_name@ == name@,
        r.manifest_path@ == manifest@,
        r.kind == TargetKind::Bench,
        !r.extended,
        !r.toml_specified,
        r.origin is None,
{
    CargoTarget {
        name: String::from_str(name),
        display_name: String::from_str(name),
        manifest_path: String::from_str(manifest),
        kind: TargetKind::Bench,
        extended: false,
        toml_specified: false,
        origin: None,
    }
}

/// A test target found in the `tests` folder, with its source file.
pub fn test_target(name: &str, manifest: &str, source: String) -> (r: CargoTarget)
    ensures
        r.name@ == name@,
        r.display_name@ == name@,
        r.manifest_path@ == manifest@,
        r.kind == TargetKind::Test,
        !r.extended,
        !r.toml_specified,
        r.origin == Some(TargetOrigin::SingleFile(source)),
{
    CargoTarget {
        name: String::from_str(name),
        display_name: String::from_str(name),
        manifest_path: String::from_str(manifest),
        kind: TargetKind::Test,
        extended: false,
        toml_specified: false,
        origin: Some(TargetOrigin::SingleFile(source)),
    }
}

/// Where a test's source is: `tests/<name>.rs` under the root.
pub fn test_source_path(root: &str, name: &str) -> (r: String)
    ensures
        r@ == joined_path(joined_path(root@, "tests"@), name@ + ".rs"@),
{
    let tests = path_join(root, "tests");
    let mut file = String::from_str(name);
    file.append(".rs");
    path_join(tests.as_str(), file.as_str())
}

/// Where a `[[bin]]` entry's target comes from.
#[derive(Debug, Clone, Copy, PartialEq, Eq, Structural)]
pub enum BinSource {
    /// A single source file.
    File,
    /// A folder holding a project of its own.
    Folder,
    /// Nothing usable: the declared path is neither a file nor a folder.
    Skip,
}

/// An entry without a `path` (whose file is `src/<name>.rs`) or whose path is
/// a file is read as a file; a path that is a folder as a folder.
pub open spec fn bin_source_of(declared_path: bool, is_file: bool, is_dir: bool) -> BinSource {
    if !declared_path || is_file {
        BinSource::File
    } else if is_dir {
        BinSource::Folder
    } else {
        BinSource::Skip
    }
}

/// Where a `[[bin]]` entry's target comes from, given what its candidate path is.
pub fn bin_source_kind(declared_path: bool, is_file: bool, is_dir: bool) -> (r: BinSource)
    ensures
        r == bin_source_of(declared_path, is_file, is_dir),
{
    if !declared_path || is_file {
        BinSource::File
    } else if is_dir {
        BinSource::Folder
    } else {
        BinSource::Skip
    }
}

/// The file of the package's default binary: `src/main.rs` when it exists,
/// else `main.rs` at the root when that exists.
pub open spec fn default_binary_of(root: Seq<char>, src_main_exists: bool, main_exists: bool) -> Option<Seq<char>> {
    if src_main_exists {
        Some(joined_path(joined_path(root, "src"@), "main.rs"@))
    } else if main_exists {
        Some(joined_path(root, "main.rs"@))
    } else {
        None
    }
}

/// The file of the package's default binary, given which candidates exist.
pub fn default_binary_file(root: &str, src_main_exists: bool, main_exists: bool) -> (r: Option<String>)
    ensures
        opt_view(r) == default_binary_of(root@, src_main_exists, main_exists),
{
    if src_main_exists {
        let src = path_join(root, "src");
        Some(path_join(src.as_str(), "main.rs"))
    } else if main_exists {
        Some(path_join(root, "main.rs"))
    } else {
        None
    }
}

/// What was read from disk for one manifest's targets; gathered by the caller.
pub struct RunnableFacts {
    /// For each `[[bin]]` entry, in file order, the target read from its source.
    pub declared_bins: Vec<Option<CargoTarget>>,
    /// For each `[[example]]` entry, in file order, the target read from its source.
    pub declared_examples: Vec<Option<CargoTarget>>,
    /// The default binary's file and the target read from it under the package name.
    pub default_binary: Option<(String, CargoTarget)>,
    /// The targets found in `src/bin`.
    pub scanned_bins: Vec<CargoTarget>,
    /// The targets found in `examples`.
    pub scanned_examples: Vec<CargoTarget>,
    /// The targets found in `experiments`.
    pub scanned_experiments: Vec<CargoTarget>,
    /// The names of the test files found in `tests`.
    pub test_names: Vec<String>,
}

/// The entries of an optional section.
pub open spec fn entries_of(section: Option<Vec<ManifestEntry>>) -> Seq<ManifestEntry> {
    match section {
        Some(v) => v@,
        None => Seq::empty(),
    }
}

/// The targets read for the named entries, in file order (an entry without
/// a name, or whose source gave nothing, adds none).
pub open spec fn declared_targets(entries: Seq<ManifestEntry>, read: Seq<Option<CargoTarget>>) -> Seq<CargoTarget>
    decreases entries.len(),
{
    if entries.len() == 0 {
        Seq::empty()
    } else {
        let prev = declared_targets(entries.drop_last(), read);
        let i = entries.len() - 1;
        if entries.last().name is Some && i < read.len() && read[i] is Some {
            prev.push(read[i].unwrap())
        } else {
            prev
        }
    }
}

/// The declared binaries, with the default binary added (as found at its
/// file) when the package has a name that no declared binary has.
pub open spec fn with_default_binary(
    bins: Seq<CargoTarget>,
    package_name: Option<String>,
    default_binary: Option<(String, CargoTarget)>,
) -> Seq<CargoTarget> {
    match (package_name, default_binary) {
        (Some(pkg), Some((file, t))) => if has_name(bins, pkg@) {
            bins
        } else {
            bins.push(CargoTarget { origin: Some(TargetOrigin::DefaultBinary(file)), ..t })
        },
        _ => bins,
    }
}

/// The names of the named entries, in file order.
pub open spec fn entry_names(entries: Seq<ManifestEntry>) -> Seq<Seq<char>>
    decreases entries.len(),
{
    if entries.len() == 0 {
        Seq::empty()
    } else {
        let prev = entry_names(entries.drop_last());
        match entries.last().name {
            Some(n) => prev.push(n@),
            None => prev,
        }
    }
}

/// `t` is the bench target of that name in that manifest.
pub open spec fn is_bench_target(t: CargoTarget, name: Seq<char>, manifest: Seq<char>) -> bool {
    &&& t.name@ == name
    &&& t.display_name@ == name
    &&& t.manifest_path@ == manifest
    &&& t.kind == TargetKind::Bench
    &&& !t.extended
    &&& !t.toml_specified
    &&& t.origin is None
}

/// `t` is the test target of that name in that manifest, found at
/// `tests/<name>.rs` under the root.
pub open spec fn is_test_target(t: CargoTarget, name: Seq<char>, manifest: Seq<char>, root: Seq<char>) -> bool {
    &&& t.name@ == name
    &&& t.display_name@ == name
    &&& t.manifest_path@ == manifest
    &&& t.kind == TargetKind::Test
    &&& !t.extended
    &&& !t.toml_specified
    &&& t.origin matches Some(TargetOrigin::SingleFile(p)) && p@ == joined_path(
        joined_path(root, "tests"@),
        name + ".rs"@,
    )
}

/// The targets read for the named entries of a section.
fn collect_declared(entries: &Option<Vec<ManifestEntry>>, read: &Vec<Option<CargoTarget>>) -> (r: Vec<CargoTarget>)
    ensures
        r@ == declared_targets(entries_of(*entries), read@),
{
    let mut r: Vec<CargoTarget> = Vec::new();
    match entries {
        None => r,
        Some(list) => {
            let mut i: usize = 0;
            while i < list.len()
                invariant
                    i <= list.len(),
                    entries_of(*entries) == list@,
                    r@ == declared_targets(list@.take(i as int), read@),
                decreases list.len() - i,
            {
                proof {
                    assert(list@.take(i + 1).drop_last() =~= list@.take(i as int));
                    assert(list@.take(i + 1).last() == list@[i as int]);
                }
                if list[i].name.is_some() && i < read.len() {
                    match &read[i] {
                        Some(t) => r.push(t.duplicate()),
                        None => {},
                    }
                }
                i = i + 1;
            }
            assert(list@.take(list.len() as int) == list@);
            r
        },
    }
}

/// Assembles the binaries, examples, benches and tests of one manifest from
/// what was read for it.
///
/// Binaries: the target of each named `[[bin]]` entry in file order, then
/// the default binary (with a `DefaultBinary` origin) when no declared binary
/// has the package's name, then those found in `src/bin` as `join_scanned`
/// adds them. Examples: the target of each named `[[example]]` entry, then
/// those found in `examples` and then in `experiments`, as `join_scanned`
/// adds them, marked extended when the root stands in an `examples` folder.
/// Benches: one per named `[[bench]]` entry, in file order. Tests: one per
/// name found in `tests`, with its file `tests/<name>.rs` under the root.
pub fn assemble_runnable_targets(data: &ManifestData, manifest: &str, root: &str, facts: &RunnableFacts) -> (r: (
    Vec<CargoTarget>,
    Vec<CargoTarget>,
    Vec<CargoTarget>,
    Vec<CargoTarget>,
))
    ensures
        r.0@ == joined_scan(
            with_default_binary(
                declared_targets(entries_of(data.bin), facts.declared_bins@),
                data.package_name,
                facts.default_binary,
            ),
            facts.scanned_bins@,
            false,
        ),
        r.1@ == joined_scan(
            joined_scan(
                declared_targets(entries_of(data.example), facts.declared_examples@),
                facts.scanned_examples@,
                in_examples_folder(root@),
            ),
            facts.scanned_experiments@,
            in_examples_folder(root@),
        ),
        r.2@.len() == entry_names(entries_of(data.bench)).len(),
        forall|i: int| 0 <= i < r.2@.len() ==> is_bench_target(
            #[trigger] r.2@[i],
            entry_names(entries_of(data.bench))[i],
            manifest@,
        ),
        r.3@.len() == facts.test_names@.len(),
        forall|i: int| 0 <= i < r.3@.len() ==> is_test_target(
            #[trigger] r.3@[i],
            facts.test_names@[i]@,
            manifest@,
            root@,
        ),
{
    let mut bins = collect_declared(&data.bin, &facts.declared_bins);
    match (&data.package_name, &facts.default_binary) {
        (Some(pkg), Some((file, t))) => {
            if !has_target_named(&bins, pkg.as_str()) {
                let mut d = t.duplicate();
                d.origin = Some(TargetOrigin::DefaultBinary(file.clone()));
                bins.push(d);
            }
        },
        _ => {},
    }
    join_scanned(&mut bins, duplicate_all(&facts.scanned_bins), false);

    let extended = is_in_examples_folder(root);
    let mut examples = collect_declared(&data.example, &facts.declared_examples);
    join_scanned(&mut examples, duplicate_all(&facts.scanned_examples), extended);
    join_scanned(&mut examples, duplicate_all(&facts.scanned_experiments), extended);

    let mut benches: Vec<CargoTarget> = Vec::new();
    match &data.bench {
        None => {},
        Some(list) => {
            let mut i: usize = 0;
            while i < list.len()
                invariant
                    i <= list.len(),
                    entries_of(data.bench) == list@,
                    benches@.len() == entry_names(list@.take(i as int)).len(),
                    forall|k: int| 0 <= k < benches@.len() ==> is_bench_target(
                        #[trigger] benches@[k],
                        entry_names(list@.take(i as int))[k],
                        manifest@,
                    ),
                decreases list.len() - i,
            {
                proof {
                    assert(list@.take(i + 1).drop_last() =~= list@.take(i as int));
                    assert(list@.take(i + 1).last() == list@[i as int]);
                }
                match &list[i].name {
                    Some(n) => benches.push(bench_target(n.as_str(), manifest)),
                    None => {},
                }
                i = i + 1;
            }
            assert(list@.take(list.len() as int) == list@);
        },
    }

    let mut tests: Vec<CargoTarget> = Vec::new();
    let mut j: usize = 0;
    while j < facts.test_names.len()
        invariant
            j <= facts.test_names.len(),
            tests@.len() == j,
            forall|k: int| 0 <= k < j ==> is_test_target(
                #[trigger] tests@[k],
                facts.test_names@[k]@,
                manifest@,
                root@,
            ),
        decreases facts.test_names.len() - j,
    {
        let n = facts.test_names[j].as_str();
        tests.push(test_target(n, manifest, test_source_path(root, n)));
        j = j + 1;
    }
    (bins, examples, benches, tests)
}

/// A copy of each target of a list.
fn duplicate_all(v: &Vec<CargoTarget>) -> (r: Vec<CargoTarget>)
    ensures
        r@ == v@,
{
    let mut r: Vec<CargoTarget> = Vec::new();
    let mut i: usize = 0;
    while i < v.len()
        invariant
            i <= v.len(),
            r@ == v@.take(i as int),
        decreases v.len() - i,
    {
        r.push(v[i].duplicate());
        proof {
            assert(v@.take(i + 1) =~= v@.take(i as int).push(v@[i as int]));
        }
        i = i + 1;
    }
    assert(v@.take(v.len() as int) =~= v@);
    r
}

/// Joining scanned targets keeps the list as its start and adds only
/// scanned targets (as they join).
pub proof fn lemma_joined_parts(list: Seq<CargoTarget>, found: Seq<CargoTarget>, extended: bool)
    ensures
        joined_scan(list, found, extended).len() >= list.len(),
        forall|j: int| 0 <= j < list.len() ==> #[trigger] joined_scan(list, found, extended)[j] == list[j],
        forall|j: int| list.len() <= j < joined_scan(list, found, extended).len() ==> exists|k: int|
            0 <= k < found.len() && #[trigger] joined_scan(list, found, extended)[j] == as_joined(found[k], extended),
    decreases found.len(),
{
    if found.len() > 0 {
        lemma_joined_parts(list, found.drop_last(), extended);
        let prev = joined_scan(list, found.drop_last(), extended);
        let cur = joined_scan(list, found, extended);
        assert forall|j: int| list.len() <= j < cur.len() implies exists|k: int|
            0 <= k < found.len() && #[trigger] cur[j] == as_joined(found[k], extended) by {
            if j < prev.len() {
                assert(cur[j] == prev[j]);
                let k = choose|k: int| 0 <= k < found.drop_last().len() && prev[j] == as_joined(found.drop_last()[k], extended);
                assert(found.drop_last()[k] == found[k]);
            } else {
                assert(cur[j] == as_joined(found[found.len() - 1], extended));
            }
        }
        assert forall|j: int| 0 <= j < list.len() implies #[trigger] cur[j] == list[j] by {
            assert(cur[j] == prev[j]);
        }
    }
}

/// The origin is that of a default binary.
pub open spec fn is_default_binary(t: CargoTarget) -> bool {
    t.origin matches Some(TargetOrigin::DefaultBinary(_))
}

/// Where neither the declared nor the scanned binaries come from a default
/// binary, the assembled binaries hold a default binary exactly when the
/// package has a name, its default binary was read, and no declared binary
/// has that name; it then follows the declared ones.
pub proof fn lemma_default_binary_rule(
    declared: Seq<CargoTarget>,
    package_name: Option<String>,
    default_binary: Option<(String, CargoTarget)>,
    scanned: Seq<CargoTarget>,
)
    requires
        forall|i: int| 0 <= i < declared.len() ==> !is_default_binary(#[trigger] declared[i]),
        forall|i: int| 0 <= i < scanned.len() ==> !is_default_binary(#[trigger] scanned[i]),
    ensures
        ({
            let bins = joined_scan(with_default_binary(declared, package_name, default_binary), scanned, false);
            let added = package_name is Some && default_binary is Some && !has_name(declared, package_name->0@);
            &&& (exists|j: int| 0 <= j < bins.len() && is_default_binary(#[trigger] bins[j])) <==> added
            &&& (added ==> match default_binary {
                Some((file, t)) => bins[declared.len() as int] == CargoTarget {
                    origin: Some(TargetOrigin::DefaultBinary(file)),
                    ..t
                },
                None => false,
            })
        }),
{
    let list = with_default_binary(declared, package_name, default_binary);
    let bins = joined_scan(list, scanned, false);
    let added = package_name is Some && default_binary is Some && !has_name(declared, package_name->0@);
    lemma_joined_parts(list, scanned, false);
    if added {
        let j = declared.len() as int;
        assert(bins[j] == list[j]);
        assert(is_default_binary(bins[j]));
    } else {
        assert(list == declared);
        assert forall|j: int| 0 <= j < bins.len() implies !is_default_binary(#[trigger] bins[j]) by {
            if j < list.len() {
                assert(bins[j] == declared[j]);
            } else {
                let k = choose|k: int| 0 <= k < scanned.len() && bins[j] == as_joined(scanned[k], false);
                assert(bins[j] == scanned[k]);
            }
        }
    }
}

} // verus!
