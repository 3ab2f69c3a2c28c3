//! What the library reads from a Cargo manifest, and the searches over it.
use vstd::prelude::*;
use crate::target::{TargetKind, section_text};
use crate::paths::{parent_of, path_parent};
use crate::cli::{views, str_eq_exact};
use crate::text::{push_char, chars_of, string_from_chars};

verus! {

/// `has_manifest` said no for the `j`-th ancestor of `start`.
pub open spec fn declined_at<F: Fn(&str) -> bool>(has_manifest: F, start: Seq<char>, j: nat) -> bool {
    exists|s: &str| #![trigger has_manifest.ensures((s,), false)] ancestor(start, j) == Some(s@) && has_manifest.ensures((s,), false)
}

/// `has_manifest` said no for every ancestor of `start` before the `k`-th.
pub open spec fn declined_below<F: Fn(&str) -> bool>(has_manifest: F, start: Seq<char>, k: nat) -> bool {
    forall|j: nat| j < k ==> #[trigger] declined_at(has_manifest, start, j)
}

/// The `k`-th ancestor of a path: the path itself, then parent after parent.
pub open spec fn ancestor(start: Seq<char>, k: nat) -> Option<Seq<char>>
    decreases k,
{
    if k == 0 {
        Some(start)
    } else {
        match ancestor(start, (k - 1) as nat) {
            Some(p) => parent_of(p),
            None => None,
        }
    }
}

/// Searches upward from `start` (the directory itself, then each parent)
/// for the first directory that `has_manifest` says holds a `Cargo.toml`.
/// The directory found is an ancestor for which `has_manifest` said yes,
/// after it said no for every nearer ancestor; nothing is found only when it
/// said no for every ancestor up to one without a parent.
pub fn find_manifest_dir_from<F: Fn(&str) -> bool>(start: &str, has_manifest: &F) -> (r: Option<String>)
    requires
        forall|s: &str| has_manifest.requires((s,)),
    ensures
        match r {
            Some(d) => (exists|k: nat| ancestor(start@, k) == Some(d@) && declined_below(*has_manifest, start@, k))
                && exists|s: &str| s@ == d@ && #[trigger] has_manifest.ensures((s,), true),
            None => exists|k: nat| #[trigger] ancestor(start@, k) matches Some(top) && parent_of(top) is None
                && declined_below(*has_manifest, start@, k + 1),
        },
{
    let mut dir = String::from_str(start);
    let ghost mut k: nat = 0;
    loop
        invariant
            forall|s: &str| has_manifest.requires((s,)),
            ancestor(start@, k) == Some(dir@),
            declined_below(*has_manifest, start@, k),
        decreases dir@.len(),
    {
        let here = dir.as_str();
        if has_manifest(here) {
            assert(has_manifest.ensures((here,), true));
            return Some(dir);
        }
        proof {
            assert(has_manifest.ensures((here,), false));
            assert(declined_at(*has_manifest, start@, k));
            assert forall|j: nat| j < k + 1 implies #[trigger] declined_at(*has_manifest, start@, j) by {
                if j < k {
                    assert(declined_at(*has_manifest, start@, j));
                }
            }
        }
        match path_parent(dir.as_str()) {
            Some(p) => {
                proof {
                    assert(ancestor(start@, k + 1) == parent_of(dir@));
                    k = k + 1;
                }
                dir = p;
            },
            None => {
                assert(ancestor(start@, k) matches Some(top) && parent_of(top) is None
                    && declined_below(*has_manifest, start@, k + 1));
                return None;
            },
        }
    }
}

/// One `[[bin]]`, `[[example]]`, `[[test]]` or `[[bench]]` entry of a manifest.
pub struct ManifestEntry {
    /// The `name` key, when it is a string.
    pub name: Option<String>,
    /// The `path` key, when it is a string.
    pub path: Option<String>,
    /// The entry has a `path` key at all.
    pub has_path: bool,
    /// The `required-features` key, when it is an array: its string elements
    /// (`None` for an element that is not a string).
    pub required_features: Option<Vec<Option<String>>>,
}

/// The parts of a manifest the library reads.
pub struct ManifestData {
    /// `package.name`, when it is a string.
    pub package_name: Option<String>,
    /// The manifest has a `[workspace]` table.
    pub has_workspace: bool,
    /// `workspace.members`, when it is an array (`None` for non-string elements).
    pub workspace_members: Option<Vec<Option<String>>>,
    /// The `[[bin]]` entries, when `bin` is an array.
    pub bin: Option<Vec<ManifestEntry>>,
    /// The `[[example]]` entries, when `example` is an array.
    pub example: Option<Vec<ManifestEntry>>,
    /// The `[[test]]` entries, when `test` is an array.
    pub test: Option<Vec<ManifestEntry>>,
    /// The `[[bench]]` entries, when `bench` is an array.
    pub bench: Option<Vec<ManifestEntry>>,
}

/// A TOML value as the library reads it: strings, integers, booleans,
/// arrays and tables (their key-value pairs in order); floats and dates,
/// which the library never reads, are `Other`.
pub enum TomlValue {
    Text(String),
    Integer(i64),
    Boolean(bool),
    Array(Vec<TomlValue>),
    Table(Vec<(String, TomlValue)>),
    Other,
}

/// `toml::Value`, converted into a `TomlValue` where it is parsed.
#[verifier::external_type_specification]
#[verifier::external_body]
pub struct ExTomlValue(toml::Value);

/// The value that `toml` parses `text` into (the text parsed as a
/// `toml::Value`, then converted), or `None` where the text is not TOML.
pub uninterp spec fn toml_parsed(text: Seq<char>) -> Option<TomlValue>;

/// Converts a `toml::Value` into a `TomlValue`, variant for variant: a
/// string, integer, boolean, array or table keeps its contents (converted
/// in turn, a table's pairs in the table's order); a float or a date becomes
/// `Other`.
#[verifier::external_body]
fn toml_value_of(v: &toml::Value) -> TomlValue {
    match v {
        toml::Value::String(s) => TomlValue::Text(s.clone()),
        toml::Value::Integer(i) => TomlValue::Integer(*i),
        toml::Value::Boolean(b) => TomlValue::Boolean(*b),
        toml::Value::Array(a) => TomlValue::Array(a.iter().map(toml_value_of).collect()),
        toml::Value::Table(t) => TomlValue::Table(t.iter().map(|(k, x)| (k.clone(), toml_value_of(x))).collect()),
        _ => TomlValue::Other,
    }
}

/// Calls `str::parse::<toml::Value>` (the `toml` crate's `FromStr`) and
/// converts what it gives; `None` where it reports an error. The contract
/// names the result.
#[verifier::external_body]
pub(crate) fn parse_toml(text: &str) -> (r: Option<TomlValue>)
    ensures
        r == toml_parsed(text@),
{
    text.parse::<toml::Value>().ok().map(|v| toml_value_of(&v))
}

/// The value of the first pair with key `key`.
pub open spec fn pairs_lookup(pairs: Seq<(String, TomlValue)>, key: Seq<char>) -> Option<TomlValue>
    decreases pairs.len(),
{
    if pairs.len() == 0 {
        None
    } else if pairs[0].0@ == key {
        Some(pairs[0].1)
    } else {
        pairs_lookup(pairs.drop_first(), key)
    }
}

/// What `toml::Value::get` gives for a key: the key's value in a table,
/// nothing for any other value.
pub open spec fn toml_get(v: TomlValue, key: Seq<char>) -> Option<TomlValue> {
    match v {
        TomlValue::Table(pairs) => pairs_lookup(pairs@, key),
        _ => None,
    }
}

/// What `toml::Value::get` gives for a key of an optional value.
pub open spec fn toml_get_opt(v: Option<TomlValue>, key: Seq<char>) -> Option<TomlValue> {
    match v {
        Some(x) => toml_get(x, key),
        None => None,
    }
}

/// A value's text, when it is a string.
pub open spec fn toml_text(v: Option<TomlValue>) -> Option<Seq<char>> {
    match v {
        Some(TomlValue::Text(s)) => Some(s@),
        _ => None,
    }
}

/// A value's elements, when it is an array.
pub open spec fn toml_items(v: Option<TomlValue>) -> Option<Seq<TomlValue>> {
    match v {
        Some(TomlValue::Array(a)) => Some(a@),
        _ => None,
    }
}

/// `texts` holds, element for element, the text of each string of `items`
/// (`None` for an element that is not a string); both are absent together.
pub open spec fn texts_of(texts: Option<Vec<Option<String>>>, items: Option<Seq<TomlValue>>) -> bool {
    match (texts, items) {
        (None, None) => true,
        (Some(t), Some(xs)) => t@.len() == xs.len() && forall|i: int| 0 <= i < xs.len()
            ==> crate::pattern::opt_view(#[trigger] t@[i]) == toml_text(Some(xs[i])),
        _ => false,
    }
}

/// `e` is what the library reads of the manifest entry `v`.
pub open spec fn entry_of(e: ManifestEntry, v: TomlValue) -> bool {
    &&& crate::pattern::opt_view(e.name) == toml_text(toml_get(v, "name"@))
    &&& crate::pattern::opt_view(e.path) == toml_text(toml_get(v, "path"@))
    &&& e.has_path == toml_get(v, "path"@) is Some
    &&& texts_of(e.required_features, toml_items(toml_get(v, "required-features"@)))
}

/// `es` holds, entry for entry, what the library reads of each element of
/// `items`; both are absent together.
pub open spec fn entries_of_items(es: Option<Vec<ManifestEntry>>, items: Option<Seq<TomlValue>>) -> bool {
    match (es, items) {
        (None, None) => true,
        (Some(e), Some(xs)) => e@.len() == xs.len() && forall|i: int| 0 <= i < xs.len()
            ==> entry_of(#[trigger] e@[i], xs[i]),
        _ => false,
    }
}

/// `d` is what the library reads of the manifest `v`: `package.name`,
/// whether there is a `workspace` key, `workspace.members`, and the `bin`,
/// `example`, `test` and `bench` arrays.
pub open spec fn manifest_of(d: ManifestData, v: TomlValue) -> bool {
    &&& crate::pattern::opt_view(d.package_name) == toml_text(toml_get_opt(toml_get(v, "package"@), "name"@))
    &&& d.has_workspace == toml_get(v, "workspace"@) is Some
    &&& texts_of(d.workspace_members, toml_items(toml_get_opt(toml_get(v, "workspace"@), "members"@)))
    &&& entries_of_items(d.bin, toml_items(toml_get(v, "bin"@)))
    &&& entries_of_items(d.example, toml_items(toml_get(v, "example"@)))
    &&& entries_of_items(d.test, toml_items(toml_get(v, "test"@)))
    &&& entries_of_items(d.bench, toml_items(toml_get(v, "bench"@)))
}

/// An optional borrowed value, as a value.
pub open spec fn opt_deref(v: Option<&TomlValue>) -> Option<TomlValue> {
    match v {
        Some(x) => Some(*x),
        None => None,
    }
}

/// The value of a key of a table, as `toml::Value::get` gives it.
pub fn toml_lookup<'a>(v: &'a TomlValue, key: &str) -> (r: Option<&'a TomlValue>)
    ensures
        opt_deref(r) == toml_get(*v, key@),
{
    match v {
        TomlValue::Table(pairs) => {
            let mut i: usize = 0;
            assert(pairs@.skip(0) =~= pairs@);
            while i < pairs.len()
                invariant
                    i <= pairs.len(),
                    toml_get(*v, key@) == pairs_lookup(pairs@, key@),
                    pairs_lookup(pairs@.skip(i as int), key@) == pairs_lookup(pairs@, key@),
                decreases pairs.len() - i,
            {
                assert(pairs@.skip(i as int)[0] == pairs@[i as int]);
                assert(pairs@.skip(i as int).drop_first() =~= pairs@.skip(i + 1));
                if str_eq_exact(pairs[i].0.as_str(), key) {
                    assert(pairs_lookup(pairs@.skip(i as int), key@) == Some(pairs@[i as int].1));
                    return Some(&pairs[i].1);
                }
                i = i + 1;
            }
            assert(pairs@.skip(i as int).len() == 0);
            None
        },
        _ => None,
    }
}

fn lookup_in<'a>(v: Option<&'a TomlValue>, key: &str) -> (r: Option<&'a TomlValue>)
    ensures
        opt_deref(r) == toml_get_opt(opt_deref(v), key@),
{
    match v {
        Some(x) => toml_lookup(x, key),
        None => None,
    }
}

fn text_value(v: Option<&TomlValue>) -> (r: Option<String>)
    ensures
        crate::pattern::opt_view(r) == toml_text(opt_deref(v)),
{
    match v {
        Some(TomlValue::Text(s)) => Some(s.clone()),
        _ => None,
    }
}

fn text_values(v: Option<&TomlValue>) -> (r: Option<Vec<Option<String>>>)
    ensures
        texts_of(r, toml_items(opt_deref(v))),
{
    match v {
        Some(TomlValue::Array(xs)) => {
            let mut r: Vec<Option<String>> = Vec::new();
            let mut i: usize = 0;
            while i < xs.len()
                invariant
                    i <= xs.len(),
                    r@.len() == i,
                    forall|k: int| 0 <= k < i ==> crate::pattern::opt_view(#[trigger] r@[k]) == toml_text(Some(xs@[k])),
                decreases xs.len() - i,
            {
                r.push(text_value(Some(&xs[i])));
                i = i + 1;
            }
            Some(r)
        },
        _ => None,
    }
}

fn entry_from_toml(v: &TomlValue) -> (r: ManifestEntry)
    ensures
        entry_of(r, *v),
{
    let path = toml_lookup(v, "path");
    ManifestEntry {
        name: text_value(toml_lookup(v, "name")),
        path: text_value(path),
        has_path: path.is_some(),
        required_features: text_values(toml_lookup(v, "required-features")),
    }
}

fn entries_from_toml(v: Option<&TomlValue>) -> (r: Option<Vec<ManifestEntry>>)
    ensures
        entries_of_items(r, toml_items(opt_deref(v))),
{
    match v {
        Some(TomlValue::Array(xs)) => {
            let mut r: Vec<ManifestEntry> = Vec::new();
            let mut i: usize = 0;
            while i < xs.len()
                invariant
                    i <= xs.len(),
                    r@.len() == i,
                    forall|k: int| 0 <= k < i ==> entry_of(#[trigger] r@[k], xs@[k]),
                decreases xs.len() - i,
            {
                r.push(entry_from_toml(&xs[i]));
                i = i + 1;
            }
            Some(r)
        },
        _ => None,
    }
}

/// What the library reads of a parsed manifest.
pub fn manifest_from_toml(v: &TomlValue) -> (r: ManifestData)
    ensures
        manifest_of(r, *v),
{
    let workspace = toml_lookup(v, "workspace");
    ManifestData {
        package_name: text_value(lookup_in(toml_lookup(v, "package"), "name")),
        has_workspace: workspace.is_some(),
        workspace_members: text_values(lookup_in(workspace, "members")),
        bin: entries_from_toml(toml_lookup(v, "bin")),
        example: entries_from_toml(toml_lookup(v, "example")),
        test: entries_from_toml(toml_lookup(v, "test")),
        bench: entries_from_toml(toml_lookup(v, "bench")),
    }
}

/// Parses the text of a manifest and reads what the library needs of it;
/// `None` exactly where the text is not TOML.
pub fn parse_manifest(text: &str) -> (r: Option<ManifestData>)
    ensures
        match (r, toml_parsed(text@)) {
            (Some(d), Some(v)) => manifest_of(d, v),
            (None, None) => true,
            _ => false,
        },
{
    match parse_toml(text) {
        Some(v) => Some(manifest_from_toml(&v)),
        None => None,
    }
}

/// The string elements of an optional list, in order.
pub open spec fn string_items(v: Seq<Option<String>>) -> Seq<Seq<char>>
    decreases v.len(),
{
    if v.len() == 0 {
        Seq::empty()
    } else {
        match v.last() {
            Some(s) => string_items(v.drop_last()).push(s@),
            None => string_items(v.drop_last()),
        }
    }
}

/// The items joined with `,` between them.
pub open spec fn join_comma(items: Seq<Seq<char>>) -> Seq<char>
    decreases items.len(),
{
    if items.len() == 0 {
        Seq::empty()
    } else if items.len() == 1 {
        items[0]
    } else {
        join_comma(items.drop_last()) + seq![','] + items.last()
    }
}

/// The features an entry requires, when it names `target` and lists a non-empty set.
pub open spec fn entry_features(e: ManifestEntry, target: Seq<char>) -> Option<Seq<char>> {
    match e.name {
        Some(n) => if n@ == target {
            match e.required_features {
                Some(feats) => if join_comma(string_items(feats@)).len() > 0 {
                    Some(join_comma(string_items(feats@)))
                } else {
                    None
                },
                None => None,
            }
        } else {
            None
        },
        None => None,
    }
}

/// The first entry that yields features for `target`.
pub open spec fn features_in_entries(entries: Seq<ManifestEntry>, target: Seq<char>) -> Option<Seq<char>>
    decreases entries.len(),
{
    if entries.len() == 0 {
        None
    } else {
        match entry_features(entries[0], target) {
            Some(f) => Some(f),
            None => features_in_entries(entries.drop_first(), target),
        }
    }
}

/// The entries of the section named by `section`, if the manifest has them.
pub open spec fn section_entries(m: ManifestData, section: Seq<char>) -> Option<Seq<ManifestEntry>> {
    if section == "bin"@ {
        match m.bin { Some(v) => Some(v@), None => None }
    } else if section == "example"@ {
        match m.example { Some(v) => Some(v@), None => None }
    } else if section == "test"@ {
        match m.test { Some(v) => Some(v@), None => None }
    } else if section == "bench"@ {
        match m.bench { Some(v) => Some(v@), None => None }
    } else {
        None
    }
}

/// The features a target of `kind` called `target` requires according to
/// this manifest alone.
pub open spec fn manifest_features(m: ManifestData, kind: TargetKind, target: Seq<char>) -> Option<Seq<char>> {
    match section_entries(m, section_text(kind)) {
        Some(entries) => features_in_entries(entries, target),
        None => None,
    }
}

/// The entry is named `target` and its required features join to a
/// non-empty list.
pub open spec fn entry_lists_features(e: ManifestEntry, target: Seq<char>) -> bool {
    &&& (e.name matches Some(n) && n@ == target)
    &&& (e.required_features matches Some(fs) && join_comma(string_items(fs@)).len() > 0)
}

/// The comma-joined string items of an entry's required features.
pub open spec fn entry_feature_list(e: ManifestEntry) -> Seq<char> {
    match e.required_features {
        Some(fs) => join_comma(string_items(fs@)),
        None => Seq::empty(),
    }
}

/// The features found among `entries` for `target` are those of the first
/// entry named `target` whose required features join to a non-empty list:
/// the comma-joined string items of that entry; none where no entry does.
pub proof fn lemma_features_in_entries(entries: Seq<ManifestEntry>, target: Seq<char>)
    ensures
        match features_in_entries(entries, target) {
            Some(f) => exists|k: int| {
                &&& 0 <= k < entries.len()
                &&& #[trigger] entry_lists_features(entries[k], target)
                &&& f == entry_feature_list(entries[k])
                &&& forall|j: int| 0 <= j < k ==> !entry_lists_features(#[trigger] entries[j], target)
            },
            None => forall|j: int| 0 <= j < entries.len() ==> !entry_lists_features(#[trigger] entries[j], target),
        },
    decreases entries.len(),
{
    if entries.len() > 0 {
        let rest = entries.drop_first();
        lemma_features_in_entries(rest, target);
        if entry_lists_features(entries[0], target) {
            assert(features_in_entries(entries, target) == Some(entry_feature_list(entries[0])));
        } else {
            assert(entry_features(entries[0], target) is None);
            match features_in_entries(rest, target) {
                Some(f) => {
                    let k = choose|k: int| {
                        &&& 0 <= k < rest.len()
                        &&& #[trigger] entry_lists_features(rest[k], target)
                        &&& f == entry_feature_list(rest[k])
                        &&& forall|j: int| 0 <= j < k ==> !entry_lists_features(#[trigger] rest[j], target)
                    };
                    assert(entries[k + 1] == rest[k]);
                    assert forall|j: int| 0 <= j < k + 1 implies !entry_lists_features(#[trigger] entries[j], target) by {
                        if j > 0 {
                            assert(entries[j] == rest[j - 1]);
                        }
                    }
                },
                None => {
                    assert forall|j: int| 0 <= j < entries.len() implies !entry_lists_features(#[trigger] entries[j], target) by {
                        if j > 0 {
                            assert(entries[j] == rest[j - 1]);
                        }
                    }
                },
            }
        }
    }
}

/// An example's required features are looked up among the manifest's
/// `[[example]]` entries alone, and a binary's among its `[[bin]]` entries
/// alone: with no such section there are none, and the other sections play no
/// part.
pub proof fn lemma_features_section(m: ManifestData, kind: TargetKind, target: Seq<char>)
    ensures
        (kind == TargetKind::Example || kind == TargetKind::ExtendedExample) ==> manifest_features(m, kind, target)
            == match m.example {
                Some(v) => features_in_entries(v@, target),
                None => None,
            },
        (kind == TargetKind::Binary || kind == TargetKind::ExtendedBinary) ==> manifest_features(m, kind, target)
            == match m.bin {
                Some(v) => features_in_entries(v@, target),
                None => None,
            },
{
    reveal_strlit("bin");
    reveal_strlit("example");
    assert("example"@ != "bin"@) by {
        assert("example"@.len() == 7 && "bin"@.len() == 3);
    }
}

/// The first `Some` among a list of results.
pub open spec fn first_some(v: Seq<Option<String>>) -> Option<Seq<char>>
    decreases v.len(),
{
    if v.len() == 0 {
        None
    } else {
        match v[0] {
            Some(s) => Some(s@),
            None => first_some(v.drop_first()),
        }
    }
}

/// Joins the string items of a list with commas.
fn join_features(feats: &Vec<Option<String>>) -> (r: String)
    ensures
        r@ == join_comma(string_items(feats@)),
{
    let mut out = String::new();
    let mut count: usize = 0;
    let mut i: usize = 0;
    while i < feats.len()
        invariant
            i <= feats.len(),
            out@ == join_comma(string_items(feats@.take(i as int))),
            count as nat == string_items(feats@.take(i as int)).len(),
            count <= i,
        decreases feats.len() - i,
    {
        proof {
            assert(feats@.take(i + 1).drop_last() == feats@.take(i as int));
            assert(feats@.take(i + 1).last() == feats@[i as int]);
        }
        match &feats[i] {
            Some(f) => {
                let ghost items = string_items(feats@.take(i as int));
                if count > 0 {
                    push_char(&mut out, ',');
                }
                out.append(f.as_str());
                proof {
                    let items2 = items.push(f@);
                    assert(items2.drop_last() == items);
                    if items.len() == 0 {
                        assert(out@ =~= f@);
                    }
                }
                count = count + 1;
            },
            None => {},
        }
        i = i + 1;
    }
    assert(feats@.take(feats.len() as int) == feats@);
    out
}

/// The features in the first entry that names `target` with a non-empty list.
fn features_from_entries(entries: &Vec<ManifestEntry>, target: &str) -> (r: Option<String>)
    ensures
        match r {
            Some(s) => features_in_entries(entries@, target@) == Some(s@),
            None => features_in_entries(entries@, target@) is None,
        },
{
    let mut i: usize = 0;
    assert(entries@.skip(0) == entries@);
    while i < entries.len()
        invariant
            i <= entries.len(),
            features_in_entries(entries@, target@) == features_in_entries(entries@.skip(i as int), target@),
        decreases entries.len() - i,
    {
        proof {
            assert(entries@.skip(i as int)[0] == entries@[i as int]);
            assert(entries@.skip(i as int).drop_first() == entries@.skip(i + 1));
        }
        let e = &entries[i];
        if let Some(n) = &e.name {
            if str_eq_exact(n.as_str(), target) {
                if let Some(feats) = &e.required_features {
                    let joined = join_features(feats);
                    if chars_of(joined.as_str()).len() > 0 {
                        return Some(joined);
                    }
                }
            }
        }
        i = i + 1;
    }
    None
}

/// Returns the comma-separated required features of the target of `kind`
/// called `target_name`, from the `[[bin]]`, `[[example]]`, `[[test]]` or
/// `[[bench]]` section its kind belongs to. When this manifest has none and
/// is a workspace, the first result found among its members (given in
/// `member_results`, in member order) is returned.
pub fn get_required_features_from_manifest(
    manifest: &ManifestData,
    kind: &TargetKind,
    target_name: &str,
    member_results: &Vec<Option<String>>,
) -> (r: Option<String>)
    ensures
        match r {
            Some(s) => Some(s@) == (match manifest_features(*manifest, *kind, target_name@) {
                Some(f) => Some(f),
                None => if manifest.has_workspace { first_some(member_results@) } else { None },
            }),
            None => manifest_features(*manifest, *kind, target_name@) is None && (manifest.has_workspace
                ==> first_some(member_results@) is None),
        },
{
    let section = kind.section_name();
    let entries = if str_eq_exact(section, "bin") {
        &manifest.bin
    } else if str_eq_exact(section, "example") {
        &manifest.example
    } else if str_eq_exact(section, "test") {
        &manifest.test
    } else if str_eq_exact(section, "bench") {
        &manifest.bench
    } else {
        &None
    };
    let own = match entries {
        Some(v) => features_from_entries(v, target_name),
        None => None,
    };
    if own.is_some() {
        return own;
    }
    if manifest.has_workspace {
        let mut i: usize = 0;
        assert(member_results@.skip(0) == member_results@);
        while i < member_results.len()
            invariant
                i <= member_results.len(),
                first_some(member_results@) == first_some(member_results@.skip(i as int)),
                manifest_features(*manifest, *kind, target_name@) is None,
                manifest.has_workspace,
            decreases member_results.len() - i,
        {
            proof {
                assert(member_results@.skip(i as int)[0] == member_results@[i as int]);
                assert(member_results@.skip(i as int).drop_first() == member_results@.skip(i + 1));
            }
            if let Some(f) = &member_results[i] {
                return Some(f.clone());
            }
            i = i + 1;
        }
    }
    None
}

/// What cargo says of a package that believes it is in a workspace that does not list it.
pub const WORKSPACE_ERROR_MARKER: &'static str = "current package believes it's in a workspace when it's not:";

/// The manifest text that opts a package out of an enclosing workspace, when
/// cargo reported the workspace error and the manifest has no `[workspace]`
/// table yet: the manifest's text with an empty `[workspace]` table appended.
pub open spec fn opt_out_patch(stderr: Seq<char>, text: Seq<char>) -> Option<Seq<char>> {
    if crate::text::seq_contains(stderr, WORKSPACE_ERROR_MARKER@) && !crate::text::seq_contains(text, "[workspace]"@) {
        Some(text + "\n[workspace]\n"@)
    } else {
        None
    }
}

/// The patched manifest text to write before running cargo again, if any.
pub fn workspace_opt_out(stderr: &str, text: &str) -> (r: Option<String>)
    ensures
        crate::pattern::opt_view(r) == opt_out_patch(stderr@, text@),
{
    if crate::text::str_contains(stderr, WORKSPACE_ERROR_MARKER) && !crate::text::str_contains(text, "[workspace]") {
        let mut patched = String::from_str(text);
        patched.append("\n[workspace]\n");
        Some(patched)
    } else {
        None
    }
}

} // verus!
