//! Runnable targets: their kinds, where they came from, and the rules that
//! pick one target per name when several sources report the same name.
use vstd::prelude::*;
use crate::paths::{component_count, path_order, path_depth, compare_paths};

verus! {

/// What kind of runnable thing a target is. The declaration order is the
/// priority order used when targets are deduplicated and sorted.
#[derive(Debug, Clone, Copy, PartialEq, Eq, Hash, PartialOrd, Ord, Structural)]
pub enum TargetKind {
    Unknown,
    UnknownExample,
    UnknownExtendedExample,
    UnknownBinary,
    UnknownExtendedBinary,
    Example,
    ExtendedExample,
    Binary,
    ExtendedBinary,
    Bench,
    Test,
    Manifest,
    ManifestTauri,
    ManifestTauriExample,
    ManifestDioxusExample,
    ManifestDioxus,
    ManifestLeptos,
    ScriptRustScript,
    ScriptScriptisto,
    Plugin,
}

/// The position of a kind in the declaration order.
pub open spec fn kind_rank(k: TargetKind) -> nat {
    match k {
        TargetKind::Unknown => 0,
        TargetKind::UnknownExample => 1,
        TargetKind::UnknownExtendedExample => 2,
        TargetKind::UnknownBinary => 3,
        TargetKind::UnknownExtendedBinary => 4,
        TargetKind::Example => 5,
        TargetKind::ExtendedExample => 6,
        TargetKind::Binary => 7,
        TargetKind::ExtendedBinary => 8,
        TargetKind::Bench => 9,
        TargetKind::Test => 10,
        TargetKind::Manifest => 11,
        TargetKind::ManifestTauri => 12,
        TargetKind::ManifestTauriExample => 13,
        TargetKind::ManifestDioxusExample => 14,
        TargetKind::ManifestDioxus => 15,
        TargetKind::ManifestLeptos => 16,
        TargetKind::ScriptRustScript => 17,
        TargetKind::ScriptScriptisto => 18,
        TargetKind::Plugin => 19,
    }
}

/// The manifest section (`[[example]]`, `[[bin]]`, ...) a kind is declared in, or empty.
pub open spec fn section_text(k: TargetKind) -> Seq<char> {
    match k {
        TargetKind::Example | TargetKind::ExtendedExample => "example"@,
        TargetKind::Binary | TargetKind::ExtendedBinary => "bin"@,
        TargetKind::ManifestTauri => "bin"@,
        TargetKind::ManifestTauriExample => "example"@,
        TargetKind::ManifestDioxus => "bin"@,
        TargetKind::ManifestDioxusExample => "example"@,
        TargetKind::ManifestLeptos => "bin"@,
        TargetKind::Test => "test"@,
        TargetKind::Bench => "bench"@,
        _ => ""@,
    }
}

/// The short label shown for a kind in listings.
pub open spec fn label_text(k: TargetKind) -> Seq<char> {
    match k {
        TargetKind::ScriptScriptisto => "scriptisto"@,
        TargetKind::ScriptRustScript => "rust-script"@,
        TargetKind::UnknownExample | TargetKind::UnknownExtendedExample => "?-ex."@,
        TargetKind::UnknownBinary | TargetKind::UnknownExtendedBinary => "?-bin"@,
        TargetKind::Example => "ex."@,
        TargetKind::ExtendedExample => "exx"@,
        TargetKind::Binary => "bin"@,
        TargetKind::ExtendedBinary => "binx"@,
        TargetKind::ManifestTauri => "tauri"@,
        TargetKind::ManifestTauriExample => "tauri-e"@,
        TargetKind::ManifestDioxus => "dioxus"@,
        TargetKind::ManifestDioxusExample => "dioxus-e"@,
        TargetKind::ManifestLeptos => "leptos"@,
        TargetKind::Bench => "bench"@,
        TargetKind::Test => "test"@,
        TargetKind::Manifest => "manifest"@,
        TargetKind::Plugin => "plugin"@,
        TargetKind::Unknown => "unknown"@,
    }
}

/// Kinds that are run as examples.
pub open spec fn kind_is_example(k: TargetKind) -> bool {
    match k {
        TargetKind::Example | TargetKind::UnknownExample | TargetKind::UnknownExtendedExample
        | TargetKind::ExtendedExample | TargetKind::ManifestDioxusExample
        | TargetKind::ManifestTauriExample => true,
        _ => false,
    }
}

impl TargetKind {
    /// The position of this kind in the declaration order.
    pub fn rank(&self) -> (r: u8)
        ensures
            r as nat == kind_rank(*self),
    {
        match self {
            TargetKind::Unknown => 0,
            TargetKind::UnknownExample => 1,
            TargetKind::UnknownExtendedExample => 2,
            TargetKind::UnknownBinary => 3,
            TargetKind::UnknownExtendedBinary => 4,
            TargetKind::Example => 5,
            TargetKind::ExtendedExample => 6,
            TargetKind::Binary => 7,
            TargetKind::ExtendedBinary => 8,
            TargetKind::Bench => 9,
            TargetKind::Test => 10,
            TargetKind::Manifest => 11,
            TargetKind::ManifestTauri => 12,
            TargetKind::ManifestTauriExample => 13,
            TargetKind::ManifestDioxusExample => 14,
            TargetKind::ManifestDioxus => 15,
            TargetKind::ManifestLeptos => 16,
            TargetKind::ScriptRustScript => 17,
            TargetKind::ScriptScriptisto => 18,
            TargetKind::Plugin => 19,
        }
    }

    /// The manifest section this kind is declared in (`"example"`, `"bin"`,
    /// `"test"`, `"bench"`), or `""` for kinds without one.
    pub fn section_name(&self) -> (r: &'static str)
        ensures
            r@ == section_text(*self),
    {
        match self {
            TargetKind::Example | TargetKind::ExtendedExample => "example",
            TargetKind::Binary | TargetKind::ExtendedBinary => "bin",
            TargetKind::ManifestTauri => "bin",
            TargetKind::ManifestTauriExample => "example",
            TargetKind::ManifestDioxus => "bin",
            TargetKind::ManifestDioxusExample => "example",
            TargetKind::ManifestLeptos => "bin",
            TargetKind::Test => "test",
            TargetKind::Bench => "bench",
            _ => "",
        }
    }

    /// The short label shown for this kind.
    pub fn label(&self) -> (r: &'static str)
        ensures
            r@ == label_text(*self),
    {
        match self {
            TargetKind::ScriptScriptisto => "scriptisto",
            TargetKind::ScriptRustScript => "rust-script",
            TargetKind::UnknownExample | TargetKind::UnknownExtendedExample => "?-ex.",
            TargetKind::UnknownBinary | TargetKind::UnknownExtendedBinary => "?-bin",
            TargetKind::Example => "ex.",
            TargetKind::ExtendedExample => "exx",
            TargetKind::Binary => "bin",
            TargetKind::ExtendedBinary => "binx",
            TargetKind::ManifestTauri => "tauri",
            TargetKind::ManifestTauriExample => "tauri-e",
            TargetKind::ManifestDioxus => "dioxus",
            TargetKind::ManifestDioxusExample => "dioxus-e",
            TargetKind::ManifestLeptos => "leptos",
            TargetKind::Bench => "bench",
            TargetKind::Test => "test",
            TargetKind::Manifest => "manifest",
            TargetKind::Plugin => "plugin",
            TargetKind::Unknown => "unknown",
        }
    }
}

/// Where a target was found. Paths are held as strings.
#[derive(Debug, Clone)]
pub enum TargetOrigin {
    DefaultBinary(String),
    SingleFile(String),
    MultiFile(String),
    SubProject(String),
    TomlSpecified(String),
    Named(String),
    /// A target provided by a plugin: the plugin file and the source path it reports.
    Plugin { plugin_path: String, reported: String },
}

impl TargetOrigin {
    /// A copy of this origin.
    pub fn duplicate(&self) -> (r: TargetOrigin)
        ensures
            r == *self,
    {
        match self {
            TargetOrigin::DefaultBinary(p) => TargetOrigin::DefaultBinary(p.clone()),
            TargetOrigin::SingleFile(p) => TargetOrigin::SingleFile(p.clone()),
            TargetOrigin::MultiFile(p) => TargetOrigin::MultiFile(p.clone()),
            TargetOrigin::SubProject(p) => TargetOrigin::SubProject(p.clone()),
            TargetOrigin::TomlSpecified(p) => TargetOrigin::TomlSpecified(p.clone()),
            TargetOrigin::Named(p) => TargetOrigin::Named(p.clone()),
            TargetOrigin::Plugin { plugin_path, reported } => TargetOrigin::Plugin {
                plugin_path: plugin_path.clone(),
                reported: reported.clone(),
            },
        }
    }
}

/// A copy of an optional origin.
pub fn duplicate_origin(o: &Option<TargetOrigin>) -> (r: Option<TargetOrigin>)
    ensures
        r == *o,
{
    match o {
        Some(origin) => Some(origin.duplicate()),
        None => None,
    }
}

/// A runnable target of a Cargo project.
#[derive(Debug, Clone)]
pub struct CargoTarget {
    pub name: String,
    pub display_name: String,
    pub manifest_path: String,
    pub kind: TargetKind,
    pub extended: bool,
    pub toml_specified: bool,
    pub origin: Option<TargetOrigin>,
}

impl CargoTarget {
    /// A copy of this target.
    pub fn duplicate(&self) -> (r: CargoTarget)
        ensures
            r == *self,
    {
        CargoTarget {
            name: self.name.clone(),
            display_name: self.display_name.clone(),
            manifest_path: self.manifest_path.clone(),
            kind: self.kind,
            extended: self.extended,
            toml_specified: self.toml_specified,
            origin: duplicate_origin(&self.origin),
        }
    }

    /// The kind's label, with a `*` suffix when the target is named in the manifest.
    pub fn display_label(&self) -> (r: String)
        ensures
            r@ == if self.toml_specified { label_text(self.kind).push('*') } else { label_text(self.kind) },
    {
        let mut label = String::from_str(self.kind.label());
        if self.toml_specified {
            crate::text::push_char(&mut label, '*');
        }
        label
    }

    /// Whether the target is run as an example.
    pub fn is_example(&self) -> (r: bool)
        ensures
            r == kind_is_example(self.kind),
    {
        match self.kind {
            TargetKind::Example | TargetKind::UnknownExample | TargetKind::UnknownExtendedExample
            | TargetKind::ExtendedExample | TargetKind::ManifestDioxusExample
            | TargetKind::ManifestTauriExample => true,
            _ => false,
        }
    }
}


/// Lexicographic order of two character sequences by code point, the order
/// `String` comparison follows: -1, 0 or 1.
pub open spec fn lex_order(a: Seq<char>, b: Seq<char>) -> int
    decreases a.len(),
{
    if a.len() == 0 {
        if b.len() == 0 { 0 } else { -1 }
    } else if b.len() == 0 {
        1
    } else if a[0] < b[0] {
        -1
    } else if a[0] > b[0] {
        1
    } else {
        lex_order(a.drop_first(), b.drop_first())
    }
}

/// `lex_order` is antisymmetric and only equal sequences compare equal.
pub proof fn lemma_lex_order_basic(a: Seq<char>, b: Seq<char>)
    ensures
        lex_order(a, b) == -lex_order(b, a),
        -1 <= lex_order(a, b) <= 1,
        lex_order(a, b) == 0 <==> a == b,
    decreases a.len(),
{
    if a.len() > 0 && b.len() > 0 && a[0] == b[0] {
        lemma_lex_order_basic(a.drop_first(), b.drop_first());
        if a.drop_first() == b.drop_first() {
            assert(a == seq![a[0]] + a.drop_first());
            assert(b == seq![b[0]] + b.drop_first());
        }
        if a == b {
            assert(a.drop_first() == b.drop_first());
        }
    }
    if a.len() == 0 && b.len() == 0 {
        assert(a =~= b);
    }
}

/// `lex_order` is transitive on `-1`.
pub proof fn lemma_lex_order_transitive(a: Seq<char>, b: Seq<char>, c: Seq<char>)
    requires
        lex_order(a, b) == -1,
        lex_order(b, c) == -1,
    ensures
        lex_order(a, c) == -1,
    decreases a.len(),
{
    if a.len() > 0 && b.len() > 0 && c.len() > 0 && a[0] == b[0]
        && b[0] == c[0] {
        lemma_lex_order_transitive(a.drop_first(), b.drop_first(), c.drop_first());
    }
}

/// Compares two strings lexicographically by code point: -1, 0 or 1.
pub fn compare_names(a: &String, b: &String) -> (r: i8)
    ensures
        r as int == lex_order(a@, b@),
{
    let av = crate::text::chars_of(a.as_str());
    let bv = crate::text::chars_of(b.as_str());
    let mut i: usize = 0;
    assert(a@.skip(0) == a@);
    assert(b@.skip(0) == b@);
    while i < av.len() && i < bv.len()
        invariant
            i <= av.len(),
            i <= bv.len(),
            av@ == a@,
            bv@ == b@,
            lex_order(a@, b@) == lex_order(a@.skip(i as int), b@.skip(i as int)),
        decreases av.len() - i,
    {
        let x = av[i];
        let y = bv[i];
        assert(a@.skip(i as int)[0] == x);
        assert(b@.skip(i as int)[0] == y);
        if x < y {
            return -1;
        }
        if x > y {
            return 1;
        }
        assert(a@.skip(i as int).drop_first() == a@.skip(i + 1));
        assert(b@.skip(i as int).drop_first() == b@.skip(i + 1));
        i = i + 1;
    }
    if i < av.len() {
        1
    } else if i < bv.len() {
        -1
    } else {
        0
    }
}

/// The declaration index of an origin's variant.
pub open spec fn origin_variant(o: TargetOrigin) -> nat {
    match o {
        TargetOrigin::DefaultBinary(_) => 0,
        TargetOrigin::SingleFile(_) => 1,
        TargetOrigin::MultiFile(_) => 2,
        TargetOrigin::SubProject(_) => 3,
        TargetOrigin::TomlSpecified(_) => 4,
        TargetOrigin::Named(_) => 5,
        TargetOrigin::Plugin { .. } => 6,
    }
}

/// The ordering (-1, 0, 1) of two origins of the same variant.
pub open spec fn same_variant_order(x: TargetOrigin, y: TargetOrigin) -> int {
    match (x, y) {
        (TargetOrigin::DefaultBinary(p), TargetOrigin::DefaultBinary(q)) => path_order(p@, q@),
        (TargetOrigin::SingleFile(p), TargetOrigin::SingleFile(q)) => path_order(p@, q@),
        (TargetOrigin::MultiFile(p), TargetOrigin::MultiFile(q)) => path_order(p@, q@),
        (TargetOrigin::SubProject(p), TargetOrigin::SubProject(q)) => path_order(p@, q@),
        (TargetOrigin::TomlSpecified(p), TargetOrigin::TomlSpecified(q)) => path_order(p@, q@),
        (TargetOrigin::Named(p), TargetOrigin::Named(q)) => lex_order(p@, q@),
        (
            TargetOrigin::Plugin { plugin_path: p1, reported: r1 },
            TargetOrigin::Plugin { plugin_path: p2, reported: r2 },
        ) => if path_order(p1@, p2@) != 0 { path_order(p1@, p2@) } else { path_order(r1@, r2@) },
        _ => 0,
    }
}

/// The ordering (-1, 0, 1) of two optional origins: `None` first, then by
/// variant, then by the paths (or names) they hold.
pub open spec fn origin_order(a: Option<TargetOrigin>, b: Option<TargetOrigin>) -> int {
    match (a, b) {
        (None, None) => 0,
        (None, Some(_)) => -1,
        (Some(_), None) => 1,
        (Some(x), Some(y)) => if origin_variant(x) < origin_variant(y) {
            -1
        } else if origin_variant(x) > origin_variant(y) {
            1
        } else {
            same_variant_order(x, y)
        },
    }
}

fn origin_variant_exec(o: &TargetOrigin) -> (r: u8)
    ensures
        r as nat == origin_variant(*o),
{
    match o {
        TargetOrigin::DefaultBinary(_) => 0,
        TargetOrigin::SingleFile(_) => 1,
        TargetOrigin::MultiFile(_) => 2,
        TargetOrigin::SubProject(_) => 3,
        TargetOrigin::TomlSpecified(_) => 4,
        TargetOrigin::Named(_) => 5,
        TargetOrigin::Plugin { .. } => 6,
    }
}

/// Compares two optional origins: -1, 0 or 1.
pub fn compare_origins(a: &Option<TargetOrigin>, b: &Option<TargetOrigin>) -> (r: i8)
    ensures
        r as int == origin_order(*a, *b),
{
    match (a, b) {
        (None, None) => 0,
        (None, Some(_)) => -1,
        (Some(_), None) => 1,
        (Some(x), Some(y)) => {
            let vx = origin_variant_exec(x);
            let vy = origin_variant_exec(y);
            if vx < vy {
                -1
            } else if vx > vy {
                1
            } else {
                match (x, y) {
                    (TargetOrigin::DefaultBinary(p), TargetOrigin::DefaultBinary(q)) => compare_paths(p, q),
                    (TargetOrigin::SingleFile(p), TargetOrigin::SingleFile(q)) => compare_paths(p, q),
                    (TargetOrigin::MultiFile(p), TargetOrigin::MultiFile(q)) => compare_paths(p, q),
                    (TargetOrigin::SubProject(p), TargetOrigin::SubProject(q)) => compare_paths(p, q),
                    (TargetOrigin::TomlSpecified(p), TargetOrigin::TomlSpecified(q)) => compare_paths(p, q),
                    (TargetOrigin::Named(p), TargetOrigin::Named(q)) => compare_names(p, q),
                    (
                        TargetOrigin::Plugin { plugin_path: p1, reported: r1 },
                        TargetOrigin::Plugin { plugin_path: p2, reported: r2 },
                    ) => {
                        let o = compare_paths(p1, p2);
                        if o != 0 { o } else { compare_paths(r1, r2) }
                    },
                    _ => 0,
                }
            }
        },
    }
}


/// Whether an incoming target takes the place of the existing target of the
/// same name: a kind above `Manifest` replaces any kind that is not, and a
/// lower one above `Manifest`; a kind that is not above `Manifest` never
/// replaces one that is; otherwise the greater `(origin, kind)` pair wins,
/// and for equal pairs the deeper manifest path.
pub open spec fn replaces(t: CargoTarget, e: CargoTarget) -> bool {
    let manifest = kind_rank(TargetKind::Manifest);
    let tr = kind_rank(t.kind);
    let er = kind_rank(e.kind);
    let o = origin_order(t.origin, e.origin);
    if tr > manifest {
        er <= manifest || tr > er
    } else if er > manifest {
        false
    } else {
        o > 0 || (o == 0 && (tr > er || (tr == er && component_count(t.manifest_path@)
            > component_count(e.manifest_path@))))
    }
}

/// The incoming target, keeping the manifest flag if either had it.
pub open spec fn merged(t: CargoTarget, e: CargoTarget) -> CargoTarget {
    CargoTarget {
        name: t.name,
        display_name: t.display_name,
        manifest_path: t.manifest_path,
        kind: t.kind,
        extended: t.extended,
        toml_specified: e.toml_specified || t.toml_specified,
        origin: t.origin,
    }
}

/// Some target in `g` is called `name`.
pub open spec fn has_name(g: Seq<CargoTarget>, name: Seq<char>) -> bool {
    exists|i: int| 0 <= i < g.len() && #[trigger] g[i].name@ == name
}

/// No two targets of `g` share a name.
pub open spec fn names_unique(g: Seq<CargoTarget>) -> bool {
    forall|i: int, j: int| 0 <= i < j < g.len() ==> #[trigger] g[i].name@ != #[trigger] g[j].name@
}

/// One step of grouping by name: `t` joins the group of its name.
pub open spec fn insert_group(g: Seq<CargoTarget>, t: CargoTarget) -> Seq<CargoTarget> {
    if has_name(g, t.name@) {
        let i = choose|i: int| 0 <= i < g.len() && #[trigger] g[i].name@ == t.name@;
        if replaces(t, g[i]) {
            g.update(i, merged(t, g[i]))
        } else {
            g
        }
    } else {
        g.push(t)
    }
}

/// The targets grouped by name, in order of first appearance, each group
/// holding the winner of the replacement rules.
pub open spec fn group_all(ts: Seq<CargoTarget>) -> Seq<CargoTarget>
    decreases ts.len(),
{
    if ts.len() == 0 {
        Seq::empty()
    } else {
        insert_group(group_all(ts.drop_last()), ts.last())
    }
}

/// Some target of `ts` called `name` has a `TomlSpecified` origin.
pub open spec fn has_toml_origin(ts: Seq<CargoTarget>, name: Seq<char>) -> bool {
    exists|k: int|
        0 <= k < ts.len() && #[trigger] ts[k].name@ == name && (ts[k].origin matches Some(
            TargetOrigin::TomlSpecified(_),
        ))
}

/// Some target of `ts` called `name` is flagged as named in the manifest.
pub open spec fn has_toml_flag(ts: Seq<CargoTarget>, name: Seq<char>) -> bool {
    exists|k: int| 0 <= k < ts.len() && #[trigger] ts[k].name@ == name && ts[k].toml_specified
}

/// A group's winner with the manifest flag set when any target of its name
/// was flagged or had a `TomlSpecified` origin.
pub open spec fn finalize(g: CargoTarget, ts: Seq<CargoTarget>) -> CargoTarget {
    CargoTarget {
        name: g.name,
        display_name: g.display_name,
        manifest_path: g.manifest_path,
        kind: g.kind,
        extended: g.extended,
        toml_specified: g.toml_specified || has_toml_flag(ts, g.name@) || has_toml_origin(ts, g.name@),
        origin: g.origin,
    }
}

/// The deduplicated targets before sorting.
pub open spec fn deduped(ts: Seq<CargoTarget>) -> Seq<CargoTarget> {
    group_all(ts).map_values(|g: CargoTarget| finalize(g, ts))
}

/// The order of the result: by kind rank, then by name.
pub open spec fn key_less(a: CargoTarget, b: CargoTarget) -> bool {
    kind_rank(a.kind) < kind_rank(b.kind) || (kind_rank(a.kind) == kind_rank(b.kind) && lex_order(
        a.name@,
        b.name@,
    ) == -1)
}

proof fn lemma_key_less_transitive(a: CargoTarget, b: CargoTarget, c: CargoTarget)
    requires
        key_less(a, b),
        key_less(b, c),
    ensures
        key_less(a, c),
{
    if kind_rank(a.kind) == kind_rank(b.kind) && kind_rank(b.kind) == kind_rank(c.kind) {
        lemma_lex_order_transitive(a.name@, b.name@, c.name@);
    }
}

proof fn lemma_key_less_total(a: CargoTarget, b: CargoTarget)
    requires
        a.name@ != b.name@,
        !key_less(a, b),
    ensures
        key_less(b, a),
{
    lemma_lex_order_basic(a.name@, b.name@);
}

/// Grouping keeps names unique and keeps exactly the names of the input.
proof fn lemma_group_all(ts: Seq<CargoTarget>)
    ensures
        names_unique(group_all(ts)),
        forall|k: int| 0 <= k < ts.len() ==> has_name(group_all(ts), #[trigger] ts[k].name@),
        forall|i: int|
            #![trigger group_all(ts)[i]]
            0 <= i < group_all(ts).len() ==> exists|k: int|
                0 <= k < ts.len() && #[trigger] ts[k].name@ == group_all(ts)[i].name@,
    decreases ts.len(),
{
    if ts.len() > 0 {
        let prev = ts.drop_last();
        lemma_group_all(prev);
        let g = group_all(prev);
        let t = ts.last();
        let g2 = group_all(ts);
        assert(g2 == insert_group(g, t));
        if has_name(g, t.name@) {
            let i = choose|i: int| 0 <= i < g.len() && #[trigger] g[i].name@ == t.name@;
            assert forall|x: int, y: int| 0 <= x < y < g2.len() implies #[trigger] g2[x].name@
                != #[trigger] g2[y].name@ by {
                assert(g2[x].name@ == g[x].name@);
                assert(g2[y].name@ == g[y].name@);
            }
            assert forall|k: int| 0 <= k < ts.len() implies has_name(g2, #[trigger] ts[k].name@) by {
                if k < ts.len() - 1 {
                    assert(ts[k] == prev[k]);
                    let w = choose|w: int| 0 <= w < g.len() && #[trigger] g[w].name@ == prev[k].name@;
                    assert(g2[w].name@ == g[w].name@);
                } else {
                    assert(g2[i].name@ == t.name@);
                }
            }
            assert forall|x: int| #![trigger g2[x]] 0 <= x < g2.len() implies exists|k: int|
                0 <= k < ts.len() && #[trigger] ts[k].name@ == g2[x].name@ by {
                assert(g2[x].name@ == g[x].name@);
                let k = choose|k: int| 0 <= k < prev.len() && #[trigger] prev[k].name@ == g[x].name@;
                assert(ts[k] == prev[k]);
            }
        } else {
            assert(g2 == g.push(t));
            assert forall|x: int, y: int| 0 <= x < y < g2.len() implies #[trigger] g2[x].name@
                != #[trigger] g2[y].name@ by {
                if y == g.len() {
                    assert(g2[x] == g[x]);
                }
            }
            assert forall|k: int| 0 <= k < ts.len() implies has_name(g2, #[trigger] ts[k].name@) by {
                if k < ts.len() - 1 {
                    assert(ts[k] == prev[k]);
                    let w = choose|w: int| 0 <= w < g.len() && #[trigger] g[w].name@ == prev[k].name@;
                    assert(g2[w] == g[w]);
                } else {
                    assert(g2[g.len() as int] == t);
                }
            }
            assert forall|x: int| #![trigger g2[x]] 0 <= x < g2.len() implies exists|k: int|
                0 <= k < ts.len() && #[trigger] ts[k].name@ == g2[x].name@ by {
                if x < g.len() {
                    assert(g2[x] == g[x]);
                    let k = choose|k: int| 0 <= k < prev.len() && #[trigger] prev[k].name@ == g[x].name@;
                    assert(ts[k] == prev[k]);
                } else {
                    assert(ts[ts.len() - 1] == t);
                }
            }
        }
    }
}

/// Each group's winner has the name and origin of one of the targets.
proof fn lemma_group_origins(ts: Seq<CargoTarget>)
    ensures
        forall|i: int|
            #![trigger group_all(ts)[i]]
            0 <= i < group_all(ts).len() ==> exists|k: int|
                0 <= k < ts.len() && #[trigger] ts[k].name@ == group_all(ts)[i].name@ && ts[k].origin
                    == group_all(ts)[i].origin,
    decreases ts.len(),
{
    if ts.len() > 0 {
        let prev = ts.drop_last();
        lemma_group_origins(prev);
        let g = group_all(prev);
        let t = ts.last();
        let g2 = group_all(ts);
        assert(g2 == insert_group(g, t));
        assert forall|x: int| #![trigger g2[x]] 0 <= x < g2.len() implies exists|k: int|
            0 <= k < ts.len() && #[trigger] ts[k].name@ == g2[x].name@ && ts[k].origin == g2[x].origin by {
            if x < g.len() && g2[x] == g[x] {
                let k = choose|k: int|
                    0 <= k < prev.len() && #[trigger] prev[k].name@ == g[x].name@ && prev[k].origin == g[x].origin;
                assert(ts[k] == prev[k]);
            } else {
                assert(ts[ts.len() - 1] == t);
                assert(g2[x].name@ == t.name@ && g2[x].origin == t.origin);
            }
        }
    }
}


/// `a` and `b` are the same target, but perhaps for the manifest flag.
pub open spec fn same_but_flag(a: CargoTarget, b: CargoTarget) -> bool {
    &&& a.name == b.name
    &&& a.display_name == b.display_name
    &&& a.manifest_path == b.manifest_path
    &&& a.kind == b.kind
    &&& a.extended == b.extended
    &&& a.origin == b.origin
}

/// Each group's winner is one of the targets up to its flag, and is flagged
/// only when some target of its name was.
proof fn lemma_group_members(ts: Seq<CargoTarget>)
    ensures
        forall|i: int|
            #![trigger group_all(ts)[i]]
            0 <= i < group_all(ts).len() ==> (exists|k: int|
                0 <= k < ts.len() && same_but_flag(#[trigger] ts[k], group_all(ts)[i]))
                && (group_all(ts)[i].toml_specified ==> has_toml_flag(ts, group_all(ts)[i].name@)),
    decreases ts.len(),
{
    if ts.len() > 0 {
        let prev = ts.drop_last();
        lemma_group_members(prev);
        let g = group_all(prev);
        let t = ts.last();
        let g2 = group_all(ts);
        assert(g2 == insert_group(g, t));
        assert(ts[ts.len() - 1] == t);
        assert forall|x: int| #![trigger g2[x]] 0 <= x < g2.len() implies (exists|k: int|
            0 <= k < ts.len() && same_but_flag(#[trigger] ts[k], g2[x]))
            && (g2[x].toml_specified ==> has_toml_flag(ts, g2[x].name@)) by {
            if x < g.len() && g2[x] == g[x] {
                let k = choose|k: int| 0 <= k < prev.len() && same_but_flag(#[trigger] prev[k], g[x]);
                assert(ts[k] == prev[k]);
                if g[x].toml_specified {
                    let q = choose|q: int| 0 <= q < prev.len() && #[trigger] prev[q].name@ == g[x].name@
                        && prev[q].toml_specified;
                    assert(ts[q] == prev[q]);
                }
            } else {
                assert(same_but_flag(ts[ts.len() - 1], g2[x]));
                if g2[x].toml_specified {
                    if t.toml_specified {
                        assert(ts[ts.len() - 1].name@ == g2[x].name@);
                    } else {
                        let i = choose|i: int| 0 <= i < g.len() && #[trigger] g[i].name@ == t.name@;
                        assert(g2[x] == merged(t, g[i]));
                        assert(g[i].toml_specified);
                        let q = choose|q: int| 0 <= q < prev.len() && #[trigger] prev[q].name@ == g[i].name@
                            && prev[q].toml_specified;
                        assert(ts[q] == prev[q]);
                    }
                }
            }
        }
    }
}

/// The deduplicated targets flag every target whose origin is `TomlSpecified`.
proof fn lemma_result_flagged(targets: Seq<CargoTarget>, r: Seq<CargoTarget>)
    requires
        same_targets(r, deduped(targets)),
    ensures
        toml_flagged(r),
{
    lemma_group_origins(targets);
    let d = deduped(targets);
    let g0 = group_all(targets);
    assert forall|i: int| 0 <= i < r.len() implies ((#[trigger] r[i]).origin matches Some(
        TargetOrigin::TomlSpecified(_),
    )) ==> r[i].toml_specified by {
        let j = choose|j: int| 0 <= j < d.len() && r[i] == d[j];
        assert(d[j] == finalize(g0[j], targets));
        let k = choose|k: int|
            0 <= k < targets.len() && #[trigger] targets[k].name@ == g0[j].name@ && targets[k].origin
                == g0[j].origin;
    }
}


/// Whether `t` replaces `e` under the deduplication rules.
fn replaces_exec(t: &CargoTarget, e: &CargoTarget) -> (r: bool)
    ensures
        r == replaces(*t, *e),
{
    let manifest: u8 = 11;
    let tr = t.kind.rank();
    let er = e.kind.rank();
    if tr > manifest {
        er <= manifest || tr > er
    } else if er > manifest {
        false
    } else {
        let o = compare_origins(&t.origin, &e.origin);
        if o > 0 {
            true
        } else if o < 0 {
            false
        } else if tr != er {
            tr > er
        } else {
            path_depth(t.manifest_path.as_str()) > path_depth(e.manifest_path.as_str())
        }
    }
}

/// Whether `a` sorts before `b`: by kind rank, then by name.
fn key_less_exec(a: &CargoTarget, b: &CargoTarget) -> (r: bool)
    ensures
        r == key_less(*a, *b),
{
    let ra = a.kind.rank();
    let rb = b.kind.rank();
    if ra < rb {
        true
    } else if ra == rb {
        compare_names(&a.name, &b.name) == -1
    } else {
        false
    }
}

/// The index of the target called `name` in `g`, if any.
fn find_by_name(g: &Vec<CargoTarget>, name: &String) -> (r: Option<usize>)
    ensures
        match r {
            Some(i) => i < g.len() && g@[i as int].name@ == name@,
            None => !has_name(g@, name@),
        },
{
    let mut j: usize = 0;
    while j < g.len()
        invariant
            j <= g.len(),
            forall|k: int| 0 <= k < j ==> #[trigger] g@[k].name@ != name@,
        decreases g.len() - j,
    {
        if g[j].name == *name {
            return Some(j);
        }
        j = j + 1;
    }
    None
}

/// Groups targets by name, keeping one target per name by the replacement rules.
fn group_targets(targets: &Vec<CargoTarget>) -> (g: Vec<CargoTarget>)
    ensures
        g@ == group_all(targets@),
{
    let mut groups: Vec<CargoTarget> = Vec::new();
    let mut i: usize = 0;
    while i < targets.len()
        invariant
            i <= targets.len(),
            groups@ == group_all(targets@.take(i as int)),
        decreases targets.len() - i,
    {
        proof {
            lemma_group_all(targets@.take(i as int));
            assert(targets@.take(i + 1).drop_last() == targets@.take(i as int));
            assert(targets@.take(i + 1).last() == targets@[i as int]);
        }
        let t = &targets[i];
        match find_by_name(&groups, &t.name) {
            Some(j) => {
                proof {
                    let c = choose|c: int| 0 <= c < groups@.len() && #[trigger] groups@[c].name@ == t.name@;
                    if c != j {
                        if c < j {
                            assert(groups@[c].name@ != groups@[j as int].name@);
                        } else {
                            assert(groups@[j as int].name@ != groups@[c].name@);
                        }
                    }
                }
                if replaces_exec(t, &groups[j]) {
                    let keep = groups[j].toml_specified;
                    let mut n = t.duplicate();
                    n.toml_specified = keep || t.toml_specified;
                    groups.set(j, n);
                }
            },
            None => {
                groups.push(t.duplicate());
            },
        }
        i = i + 1;
    }
    assert(targets@.take(targets.len() as int) == targets@);
    groups
}

/// Whether some target called `name` is flagged as named in the manifest.
fn toml_flag_named(targets: &Vec<CargoTarget>, name: &String) -> (r: bool)
    ensures
        r == has_toml_flag(targets@, name@),
{
    let mut k: usize = 0;
    while k < targets.len()
        invariant
            k <= targets.len(),
            forall|q: int| 0 <= q < k ==> !(#[trigger] targets@[q].name@ == name@ && targets@[q].toml_specified),
        decreases targets.len() - k,
    {
        if targets[k].toml_specified && targets[k].name == *name {
            return true;
        }
        k = k + 1;
    }
    false
}

/// Whether some target called `name` has a `TomlSpecified` origin.
fn toml_origin_named(targets: &Vec<CargoTarget>, name: &String) -> (r: bool)
    ensures
        r == has_toml_origin(targets@, name@),
{
    let mut k: usize = 0;
    while k < targets.len()
        invariant
            k <= targets.len(),
            forall|q: int|
                0 <= q < k ==> !(#[trigger] targets@[q].name@ == name@ && (targets@[q].origin matches Some(
                    TargetOrigin::TomlSpecified(_),
                ))),
        decreases targets.len() - k,
    {
        if targets[k].name == *name {
            if let Some(TargetOrigin::TomlSpecified(_)) = &targets[k].origin {
                return true;
            }
        }
        k = k + 1;
    }
    false
}


/// `r` lists exactly the targets of `f`, in some order.
pub open spec fn same_targets(r: Seq<CargoTarget>, f: Seq<CargoTarget>) -> bool {
    &&& r.len() == f.len()
    &&& forall|j: int| #![trigger f[j]] 0 <= j < f.len() ==> exists|i: int| 0 <= i < r.len() && r[i] == f[j]
    &&& forall|i: int| #![trigger r[i]] 0 <= i < r.len() ==> exists|j: int| 0 <= j < f.len() && r[i] == f[j]
}

/// `r` is strictly ordered by kind rank, then name.
pub open spec fn sorted_by_key(r: Seq<CargoTarget>) -> bool {
    forall|a: int, b: int| 0 <= a < b < r.len() ==> key_less(#[trigger] r[a], #[trigger] r[b])
}

proof fn lemma_insert_sorted(old_r: Seq<CargoTarget>, pos: int, x: CargoTarget)
    requires
        sorted_by_key(old_r),
        0 <= pos <= old_r.len(),
        forall|q: int| 0 <= q < pos ==> key_less(#[trigger] old_r[q], x),
        pos < old_r.len() ==> key_less(x, old_r[pos]),
    ensures
        sorted_by_key(old_r.insert(pos, x)),
{
    let r = old_r.insert(pos, x);
    old_r.insert_ensures(pos, x);
    assert forall|a: int, b: int| 0 <= a < b < r.len() implies key_less(#[trigger] r[a], #[trigger] r[b]) by {
        if b < pos {
        } else if b == pos {
            assert(r[a] == old_r[a]);
        } else if a < pos {
            assert(r[b] == old_r[b - 1]);
            assert(r[a] == old_r[a]);
        } else if a == pos {
            assert(r[b] == old_r[b - 1]);
            if b - 1 > pos {
                lemma_key_less_transitive(x, old_r[pos], old_r[b - 1]);
            }
        } else {
            assert(r[b] == old_r[b - 1]);
            assert(r[a] == old_r[a - 1]);
        }
    }
}

proof fn lemma_insert_same(old_r: Seq<CargoTarget>, pos: int, x: CargoTarget, fp: Seq<CargoTarget>)
    requires
        same_targets(old_r, fp),
        0 <= pos <= old_r.len(),
    ensures
        same_targets(old_r.insert(pos, x), fp.push(x)),
{
    let r = old_r.insert(pos, x);
    let fi = fp.push(x);
    old_r.insert_ensures(pos, x);
    assert forall|j: int| #![trigger fi[j]] 0 <= j < fi.len() implies exists|k: int|
        0 <= k < r.len() && r[k] == fi[j] by {
        if j == fp.len() {
            assert(r[pos] == fi[j]);
        } else {
            assert(fi[j] == fp[j]);
            let k = choose|k: int| 0 <= k < old_r.len() && old_r[k] == fp[j];
            if k < pos {
                assert(r[k] == old_r[k]);
            } else {
                assert(r[k + 1] == old_r[k]);
            }
        }
    }
    assert forall|k: int| #![trigger r[k]] 0 <= k < r.len() implies exists|j: int|
        0 <= j < fi.len() && r[k] == fi[j] by {
        if k == pos {
            assert(fi[fp.len() as int] == x);
        } else {
            let ok = if k < pos { k } else { k - 1 };
            assert(r[k] == old_r[ok]);
            let j = choose|j: int| 0 <= j < fp.len() && old_r[ok] == fp[j];
            assert(fi[j] == fp[j]);
        }
    }
}

/// Sorts targets with distinct names by kind rank, then name.
#[verifier::spinoff_prover]
#[verifier::rlimit(40)]
fn sort_by_key(f: Vec<CargoTarget>) -> (r: Vec<CargoTarget>)
    requires
        names_unique(f@),
    ensures
        same_targets(r@, f@),
        sorted_by_key(r@),
{
    let mut r: Vec<CargoTarget> = Vec::new();
    let mut i: usize = 0;
    while i < f.len()
        invariant
            i <= f.len(),
            names_unique(f@),
            same_targets(r@, f@.take(i as int)),
            sorted_by_key(r@),
        decreases f.len() - i,
    {
        let x = f[i].duplicate();
        let mut pos: usize = 0;
        while pos < r.len() && key_less_exec(&r[pos], &x)
            invariant
                pos <= r.len(),
                forall|q: int| 0 <= q < pos ==> key_less(#[trigger] r@[q], x),
            decreases r.len() - pos,
        {
            pos = pos + 1;
        }
        proof {
            if pos < r.len() {
                let j = choose|j: int| 0 <= j < f@.take(i as int).len() && r@[pos as int] == f@.take(i as int)[j];
                assert(f@[j] == r@[pos as int]);
                assert(f@[j].name@ != f@[i as int].name@);
                lemma_key_less_total(r@[pos as int], x);
            }
            lemma_insert_sorted(r@, pos as int, x);
            lemma_insert_same(r@, pos as int, x, f@.take(i as int));
            assert(f@.take(i as int).push(x) == f@.take(i + 1));
        }
        r.insert(pos, x);
        i = i + 1;
    }
    assert(f@.take(f.len() as int) == f@);
    r
}

proof fn lemma_dedup_result(targets: Seq<CargoTarget>, r: Seq<CargoTarget>)
    requires
        same_targets(r, deduped(targets)),
        sorted_by_key(r),
    ensures
        names_unique(r),
        forall|k: int| 0 <= k < targets.len() ==> has_name(r, #[trigger] targets[k].name@),
        forall|i: int| #![trigger r[i]] 0 <= i < r.len() ==> exists|k: int|
            0 <= k < targets.len() && #[trigger] targets[k].name@ == r[i].name@,
        forall|i: int| #![trigger r[i]] 0 <= i < r.len() ==> (has_toml_origin(targets, r[i].name@) ==> r[i].toml_specified),
{
    lemma_group_all(targets);
    let g0 = group_all(targets);
    let d = deduped(targets);
    assert forall|a: int, b: int| 0 <= a < b < r.len() implies #[trigger] r[a].name@
        != #[trigger] r[b].name@ by {
        let ja = choose|j: int| 0 <= j < d.len() && r[a] == d[j];
        let jb = choose|j: int| 0 <= j < d.len() && r[b] == d[j];
        assert(key_less(r[a], r[b]));
        lemma_lex_order_basic(r[a].name@, r[b].name@);
        if ja != jb {
            assert(d[ja].name@ == g0[ja].name@);
            assert(d[jb].name@ == g0[jb].name@);
        }
    }
    assert forall|k: int| 0 <= k < targets.len() implies has_name(r, #[trigger] targets[k].name@) by {
        let w = choose|w: int| 0 <= w < g0.len() && #[trigger] g0[w].name@ == targets[k].name@;
        assert(d[w].name@ == g0[w].name@);
        let i = choose|i: int| 0 <= i < r.len() && r[i] == d[w];
        assert(r[i].name@ == targets[k].name@);
    }
    assert forall|i: int| #![trigger r[i]] 0 <= i < r.len() implies exists|k: int|
        0 <= k < targets.len() && #[trigger] targets[k].name@ == r[i].name@ by {
        let j = choose|j: int| 0 <= j < d.len() && r[i] == d[j];
        assert(d[j].name@ == g0[j].name@);
        assert(g0[j] == group_all(targets)[j]);
    }
    assert forall|i: int| #![trigger r[i]] 0 <= i < r.len() && has_toml_origin(targets, r[i].name@)
        implies r[i].toml_specified by {
        let j = choose|j: int| 0 <= j < d.len() && r[i] == d[j];
        assert(d[j] == finalize(g0[j], targets));
    }
}

proof fn lemma_result_members(targets: Seq<CargoTarget>, r: Seq<CargoTarget>)
    requires
        same_targets(r, deduped(targets)),
    ensures
        forall|i: int| #![trigger r[i]] 0 <= i < r.len() ==> (r[i].toml_specified <==> (has_toml_flag(
            targets,
            r[i].name@,
        ) || has_toml_origin(targets, r[i].name@))),
        forall|i: int| #![trigger r[i]] 0 <= i < r.len() ==> exists|k: int|
            0 <= k < targets.len() && same_but_flag(#[trigger] targets[k], r[i]),
{
    lemma_group_members(targets);
    let g0 = group_all(targets);
    let d = deduped(targets);
    assert forall|i: int| #![trigger r[i]] 0 <= i < r.len() implies (r[i].toml_specified <==> (
    has_toml_flag(targets, r[i].name@) || has_toml_origin(targets, r[i].name@))) && exists|k: int|
        0 <= k < targets.len() && same_but_flag(#[trigger] targets[k], r[i]) by {
        let j = choose|j: int| 0 <= j < d.len() && r[i] == d[j];
        assert(d[j] == finalize(g0[j], targets));
        assert(g0[j] == group_all(targets)[j]);
        let k = choose|k: int| 0 <= k < targets.len() && same_but_flag(#[trigger] targets[k], g0[j]);
        assert(same_but_flag(targets[k], r[i]));
    }
}

/// Sets the manifest flag of each group whose name was flagged, or had a
/// `TomlSpecified` origin, in any target.
fn finalize_groups(groups: &mut Vec<CargoTarget>, targets: &Vec<CargoTarget>)
    requires
        old(groups)@ == group_all(targets@),
    ensures
        final(groups)@ == deduped(targets@),
{
    let ghost g0 = groups@;
    let mut i: usize = 0;
    while i < groups.len()
        invariant
            i <= groups.len(),
            groups@.len() == g0.len(),
            g0 == group_all(targets@),
            forall|q: int| #![trigger groups@[q]] 0 <= q < i ==> groups@[q] == finalize(g0[q], targets@),
            forall|q: int| #![trigger groups@[q]] i <= q < groups@.len() ==> groups@[q] == g0[q],
        decreases groups.len() - i,
    {
        if toml_flag_named(targets, &groups[i].name) || toml_origin_named(targets, &groups[i].name) {
            let mut n = groups[i].duplicate();
            n.toml_specified = true;
            groups.set(i, n);
        }
        i = i + 1;
    }
    assert(groups@ =~= deduped(targets@));
}

/// Deduplicates targets by name and sorts the survivors by kind, then name.
///
/// For each name one target survives: a target whose kind ranks above
/// `Manifest` replaces one that does not, or one of lower rank; one whose
/// kind does not never replaces one whose kind does; between two kinds not
/// above `Manifest` the greater `(origin, kind)` pair wins, then, for equal
/// pairs, the deeper manifest path. The survivor is flagged as named in the
/// manifest exactly when some target of its name was flagged or had a
/// `TomlSpecified` origin.
pub fn dedup_targets(targets: Vec<CargoTarget>) -> (r: Vec<CargoTarget>)
    ensures
        same_targets(r@, deduped(targets@)),
        sorted_by_key(r@),
        names_unique(r@),
        forall|k: int| 0 <= k < targets@.len() ==> has_name(r@, #[trigger] targets@[k].name@),
        forall|i: int| #![trigger r@[i]] 0 <= i < r@.len() ==> exists|k: int|
            0 <= k < targets@.len() && #[trigger] targets@[k].name@ == r@[i].name@,
        forall|i: int| #![trigger r@[i]] 0 <= i < r@.len() ==> (r@[i].toml_specified <==> (has_toml_flag(
            targets@,
            r@[i].name@,
        ) || has_toml_origin(targets@, r@[i].name@))),
        forall|i: int| #![trigger r@[i]] 0 <= i < r@.len() ==> exists|k: int|
            0 <= k < targets@.len() && same_but_flag(#[trigger] targets@[k], r@[i]),
        toml_flagged(r@),
{
    let mut groups = group_targets(&targets);
    finalize_groups(&mut groups, &targets);
    proof {
        lemma_group_all(targets@);
        let d = deduped(targets@);
        let g0 = group_all(targets@);
        assert forall|x: int, y: int| 0 <= x < y < d.len() implies #[trigger] d[x].name@
            != #[trigger] d[y].name@ by {
            assert(d[x].name@ == g0[x].name@);
            assert(d[y].name@ == g0[y].name@);
        }
    }
    let r = sort_by_key(groups);
    proof {
        lemma_dedup_result(targets@, r@);
        lemma_result_flagged(targets@, r@);
        lemma_result_members(targets@, r@);
    }
    r
}

/// Every target whose origin is `TomlSpecified` is flagged as named in the manifest.
pub open spec fn toml_flagged(r: Seq<CargoTarget>) -> bool {
    forall|i: int| 0 <= i < r.len() ==> ((#[trigger] r[i]).origin matches Some(TargetOrigin::TomlSpecified(_)))
        ==> r[i].toml_specified
}

proof fn lemma_key_less_strict(x: CargoTarget, y: CargoTarget)
    ensures
        !key_less(x, x),
        key_less(x, y) ==> !key_less(y, x),
{
    lemma_lex_order_basic(x.name@, x.name@);
    lemma_lex_order_basic(x.name@, y.name@);
}

proof fn lemma_group_all_unique(r: Seq<CargoTarget>)
    requires
        names_unique(r),
    ensures
        group_all(r) == r,
    decreases r.len(),
{
    if r.len() > 0 {
        let p = r.drop_last();
        assert(names_unique(p)) by {
            assert forall|i: int, j: int| 0 <= i < j < p.len() implies #[trigger] p[i].name@ != #[trigger] p[j].name@ by {
                assert(p[i] == r[i] && p[j] == r[j]);
            }
        }
        lemma_group_all_unique(p);
        assert(!has_name(p, r.last().name@)) by {
            if has_name(p, r.last().name@) {
                let i = choose|i: int| 0 <= i < p.len() && #[trigger] p[i].name@ == r.last().name@;
                assert(r[i].name@ == r[r.len() - 1].name@);
            }
        }
        assert(p.push(r.last()) =~= r);
    }
}

/// A list whose names are unique and whose manifest-named targets are
/// flagged is its own deduplication.
proof fn lemma_deduped_fixed(r: Seq<CargoTarget>)
    requires
        names_unique(r),
        toml_flagged(r),
    ensures
        deduped(r) == r,
{
    lemma_group_all_unique(r);
    assert forall|i: int| 0 <= i < r.len() implies finalize(r[i], r) == r[i] by {
        if has_toml_origin(r, r[i].name@) {
            let k = choose|k: int|
                0 <= k < r.len() && #[trigger] r[k].name@ == r[i].name@ && (r[k].origin matches Some(
                    TargetOrigin::TomlSpecified(_),
                ));
            if k != i {
                if k < i {
                    assert(r[k].name@ != r[i].name@);
                } else {
                    assert(r[i].name@ != r[k].name@);
                }
            }
            assert(r[i].toml_specified);
        }
        if has_toml_flag(r, r[i].name@) {
            let k = choose|k: int| 0 <= k < r.len() && #[trigger] r[k].name@ == r[i].name@ && r[k].toml_specified;
            if k != i {
                if k < i {
                    assert(r[k].name@ != r[i].name@);
                } else {
                    assert(r[i].name@ != r[k].name@);
                }
            }
        }
    }
    assert(deduped(r) =~= r);
}

/// The position in `b` of the target `x`.
spec fn pos_in(b: Seq<CargoTarget>, x: CargoTarget) -> int {
    choose|j: int| 0 <= j < b.len() && b[j] == x
}

proof fn lemma_pos_in(a: Seq<CargoTarget>, b: Seq<CargoTarget>, i: int)
    requires
        same_targets(b, a),
        0 <= i < a.len(),
    ensures
        0 <= pos_in(b, a[i]) < b.len(),
        b[pos_in(b, a[i])] == a[i],
{
    let x = a[i];
    assert(exists|k: int| 0 <= k < b.len() && b[k] == a[i]);
}

proof fn lemma_pos_increasing(a: Seq<CargoTarget>, b: Seq<CargoTarget>, i1: int, i2: int)
    requires
        same_targets(b, a),
        sorted_by_key(a),
        sorted_by_key(b),
        0 <= i1 < i2 < a.len(),
    ensures
        0 <= pos_in(b, a[i1]) < pos_in(b, a[i2]) < b.len(),
        b[pos_in(b, a[i1])] == a[i1],
        b[pos_in(b, a[i2])] == a[i2],
{
    lemma_pos_in(a, b, i1);
    lemma_pos_in(a, b, i2);
    let j1 = pos_in(b, a[i1]);
    let j2 = pos_in(b, a[i2]);
    assert(key_less(a[i1], a[i2]));
    lemma_key_less_strict(a[i1], a[i2]);
    if j1 == j2 {
        lemma_key_less_strict(a[i1], a[i1]);
    } else if j1 > j2 {
        assert(key_less(b[j2], b[j1]));
    }
}

proof fn lemma_pos_at_least(a: Seq<CargoTarget>, b: Seq<CargoTarget>, i: int)
    requires
        same_targets(b, a),
        sorted_by_key(a),
        sorted_by_key(b),
        0 <= i < a.len(),
    ensures
        pos_in(b, a[i]) >= i,
    decreases i,
{
    lemma_pos_in(a, b, i);
    if i > 0 {
        lemma_pos_at_least(a, b, i - 1);
        lemma_pos_increasing(a, b, i - 1, i);
    }
}

proof fn lemma_pos_at_most(a: Seq<CargoTarget>, b: Seq<CargoTarget>, i: int)
    requires
        same_targets(b, a),
        sorted_by_key(a),
        sorted_by_key(b),
        0 <= i < a.len(),
    ensures
        pos_in(b, a[i]) <= i,
    decreases a.len() - i,
{
    lemma_pos_in(a, b, i);
    if i < a.len() - 1 {
        lemma_pos_at_most(a, b, i + 1);
        lemma_pos_increasing(a, b, i, i + 1);
    }
}

/// Two lists holding the same targets, both in key order, are the same list.
proof fn lemma_sorted_same(a: Seq<CargoTarget>, b: Seq<CargoTarget>)
    requires
        same_targets(b, a),
        sorted_by_key(a),
        sorted_by_key(b),
    ensures
        b == a,
{
    assert forall|i: int| 0 <= i < a.len() implies b[i] == a[i] by {
        lemma_pos_in(a, b, i);
        lemma_pos_at_least(a, b, i);
        lemma_pos_at_most(a, b, i);
    }
    assert(b =~= a);
}

/// Deduplication is idempotent: deduplicating a result of `dedup_targets`
/// again (whose names are unique, which is in key order, and whose
/// manifest-named targets are flagged) gives that same list back.
pub proof fn lemma_dedup_idempotent(r: Seq<CargoTarget>, again: Seq<CargoTarget>)
    requires
        names_unique(r),
        sorted_by_key(r),
        toml_flagged(r),
        same_targets(again, deduped(r)),
        sorted_by_key(again),
    ensures
        again == r,
{
    lemma_deduped_fixed(r);
    lemma_sorted_same(r, again);
}

} // verus!
