//! The table in which the targets of several manifests are gathered, keyed
//! by manifest and name: a target arriving under a key already held may
//! upgrade the kind of the one there, and a sub-project's target is replaced
//! by the targets of the project it points to.
use vstd::prelude::*;
use crate::cli::str_eq_exact;
use crate::target::{CargoTarget, TargetKind, TargetOrigin};

verus! {

/// A target and the (canonical) manifest path under which it is keyed.
pub struct TableEntry {
    pub manifest_key: String,
    pub target: CargoTarget,
}

/// The key of an entry: its manifest and its target's name.
pub open spec fn entry_key(e: TableEntry) -> (Seq<char>, Seq<char>) {
    (e.manifest_key@, e.target.name@)
}

/// No two entries share a key.
pub open spec fn keys_unique(es: Seq<TableEntry>) -> bool {
    forall|i: int, j: int| 0 <= i < j < es.len() ==> entry_key(#[trigger] es[i]) != entry_key(#[trigger] es[j])
}

/// Some entry has key `k`.
pub open spec fn has_key(es: Seq<TableEntry>, k: (Seq<char>, Seq<char>)) -> bool {
    exists|i: int| 0 <= i < es.len() && entry_key(#[trigger] es[i]) == k
}

/// The position of the entry with key `k`.
pub open spec fn key_pos(es: Seq<TableEntry>, k: (Seq<char>, Seq<char>)) -> int {
    choose|i: int| 0 <= i < es.len() && entry_key(#[trigger] es[i]) == k
}

/// The kind kept under a key when a target of kind `new` arrives where one
/// of kind `old` is: an example becomes an extended example, a binary an
/// extended binary, and any kind gives way to a Tauri or Dioxus manifest
/// kind; otherwise the old kind stays.
pub open spec fn upgraded_kind(old: TargetKind, new: TargetKind) -> TargetKind {
    match new {
        TargetKind::ExtendedExample => if old == TargetKind::Example { new } else { old },
        TargetKind::ExtendedBinary => if old == TargetKind::Binary { new } else { old },
        TargetKind::ManifestTauriExample | TargetKind::ManifestTauri | TargetKind::ManifestDioxus
        | TargetKind::ManifestDioxusExample => new,
        _ => old,
    }
}

/// The table after `e` arrives: the entry under its key keeps everything but
/// takes the upgraded kind; with no such entry, `e` is appended.
pub open spec fn merged(es: Seq<TableEntry>, e: TableEntry) -> Seq<TableEntry> {
    if has_key(es, entry_key(e)) {
        let i = key_pos(es, entry_key(e));
        es.update(
            i,
            TableEntry {
                target: CargoTarget { kind: upgraded_kind(es[i].target.kind, e.target.kind), ..es[i].target },
                ..es[i]
            },
        )
    } else {
        es.push(e)
    }
}

/// `out` is `e` with its display name set to `sub_display > name`.
pub open spec fn renamed_entry(out: TableEntry, sub_display: Seq<char>, e: TableEntry) -> bool {
    &&& out.manifest_key == e.manifest_key
    &&& out.target == CargoTarget { display_name: out.target.display_name, ..e.target }
    &&& out.target.display_name@ == sub_display + " > "@ + e.target.name@
}

/// `e` with its manifest flag set.
pub open spec fn flagged(e: TableEntry) -> TableEntry {
    TableEntry { target: CargoTarget { toml_specified: true, ..e.target }, ..e }
}

/// `new` is `old` after a target `e` of a sub-project whose display name is
/// `sub_display` arrives: it replaces the entry under its key, taking the
/// manifest flag of the one it replaces; with no such entry it is appended,
/// its display name prefixed by the sub-project's.
pub open spec fn expanded_into(old: Seq<TableEntry>, new: Seq<TableEntry>, sub_display: Seq<char>, e: TableEntry) -> bool {
    if has_key(old, entry_key(e)) {
        let i = key_pos(old, entry_key(e));
        new == old.update(i, if old[i].target.toml_specified { flagged(e) } else { e })
    } else {
        &&& new.len() == old.len() + 1
        &&& new.take(old.len() as int) == old
        &&& renamed_entry(new.last(), sub_display, e)
    }
}

/// The keys of the entries whose target is a sub-project, in table order.
pub open spec fn subproject_keys_of(es: Seq<TableEntry>) -> Seq<(Seq<char>, Seq<char>)>
    decreases es.len(),
{
    if es.len() == 0 {
        Seq::empty()
    } else {
        let rest = subproject_keys_of(es.drop_last());
        if es.last().target.origin matches Some(TargetOrigin::SubProject(_)) {
            rest.push(entry_key(es.last()))
        } else {
            rest
        }
    }
}

/// The kind kept under a key when a target of kind `new` arrives where one of kind `old` is.
pub fn upgrade_kind(old: TargetKind, new: TargetKind) -> (r: TargetKind)
    ensures
        r == upgraded_kind(old, new),
{
    match new {
        TargetKind::ExtendedExample => if old == TargetKind::Example { new } else { old },
        TargetKind::ExtendedBinary => if old == TargetKind::Binary { new } else { old },
        TargetKind::ManifestTauriExample | TargetKind::ManifestTauri | TargetKind::ManifestDioxus
        | TargetKind::ManifestDioxusExample => new,
        _ => old,
    }
}

/// The position of the entry keyed by `manifest_key` and `name`, if any.
fn find_key(entries: &Vec<TableEntry>, manifest_key: &str, name: &str) -> (r: Option<usize>)
    requires
        keys_unique(entries@),
    ensures
        match r {
            Some(i) => i < entries@.len() && entry_key(entries@[i as int]) == (manifest_key@, name@)
                && has_key(entries@, (manifest_key@, name@)) && key_pos(entries@, (manifest_key@, name@)) == i,
            None => !has_key(entries@, (manifest_key@, name@)),
        },
{
    let mut i: usize = 0;
    while i < entries.len()
        invariant
            keys_unique(entries@),
            i <= entries.len(),
            forall|j: int| 0 <= j < i ==> entry_key(#[trigger] entries@[j]) != (manifest_key@, name@),
        decreases entries.len() - i,
    {
        if str_eq_exact(entries[i].manifest_key.as_str(), manifest_key) && str_eq_exact(
            entries[i].target.name.as_str(),
            name,
        ) {
            let ghost k = (manifest_key@, name@);
            assert(entry_key(entries@[i as int]) == k);
            assert(has_key(entries@, k));
            let ghost p = key_pos(entries@, k);
            assert(p == i) by {
                if p != i {
                    if p < i {
                        assert(entry_key(entries@[p]) != k);
                    } else {
                        assert(entry_key(entries@[i as int]) != entry_key(entries@[p]));
                    }
                }
            }
            return Some(i);
        }
        i = i + 1;
    }
    None
}

/// Targets gathered under keys of manifest and name, no key twice.
pub struct TargetTable {
    entries: Vec<TableEntry>,
}

impl View for TargetTable {
    type V = Seq<TableEntry>;

    closed spec fn view(&self) -> Seq<TableEntry> {
        self.entries@
    }
}

impl TargetTable {
    /// The table is well formed: no key occurs twice.
    pub open spec fn wf(&self) -> bool {
        keys_unique(self@)
    }

    /// An empty table.
    pub fn new() -> (r: TargetTable)
        ensures
            r.wf(),
            r@.len() == 0,
    {
        TargetTable { entries: Vec::new() }
    }

    /// The number of entries.
    pub fn len(&self) -> (r: usize)
        ensures
            r == self@.len(),
    {
        self.entries.len()
    }

    /// Adds a target under its manifest key and name: where that key is held,
    /// the entry there keeps all but its kind, which is upgraded.
    pub fn merge(&mut self, manifest_key: String, target: CargoTarget)
        requires
            old(self).wf(),
        ensures
            final(self).wf(),
            final(self)@ == merged(old(self)@, (TableEntry { manifest_key, target })),
            has_key(final(self)@, (manifest_key@, target.name@)),
            has_key(old(self)@, (manifest_key@, target.name@)) ==> final(self)@.len() == old(self)@.len(),
    {
        let ghost e = TableEntry { manifest_key, target };
        match find_key(&self.entries, manifest_key.as_str(), target.name.as_str()) {
            Some(i) => {
                let mut t = self.entries[i].target.duplicate();
                t.kind = upgrade_kind(t.kind, target.kind);
                let entry = TableEntry { manifest_key: self.entries[i].manifest_key.clone(), target: t };
                self.entries.set(i, entry);
                proof {
                    assert(self@ == merged(old(self)@, e));
                    assert(entry_key(self@[i as int]) == entry_key(e));
                    assert forall|a: int, b: int| 0 <= a < b < self@.len() implies entry_key(#[trigger] self@[a])
                        != entry_key(#[trigger] self@[b]) by {
                        assert(entry_key(self@[a]) == entry_key(old(self)@[a]));
                        assert(entry_key(self@[b]) == entry_key(old(self)@[b]));
                    }
                }
            },
            None => {
                self.entries.push(TableEntry { manifest_key, target });
                proof {
                    let n = old(self)@.len() as int;
                    assert(entry_key(self@[n]) == entry_key(e));
                    assert forall|a: int, b: int| 0 <= a < b < self@.len() implies entry_key(#[trigger] self@[a])
                        != entry_key(#[trigger] self@[b]) by {
                        if b == n {
                            assert(self@[a] == old(self)@[a]);
                        } else {
                            assert(self@[a] == old(self)@[a]);
                            assert(self@[b] == old(self)@[b]);
                        }
                    }
                }
            },
        }
    }

    /// Adds a target only when its key is not held yet.
    pub fn add_if_absent(&mut self, manifest_key: String, target: CargoTarget)
        requires
            old(self).wf(),
        ensures
            final(self).wf(),
            final(self)@ == if has_key(old(self)@, (manifest_key@, target.name@)) {
                old(self)@
            } else {
                old(self)@.push((TableEntry { manifest_key, target }))
            },
    {
        match find_key(&self.entries, manifest_key.as_str(), target.name.as_str()) {
            Some(_) => {},
            None => {
                let ghost e = TableEntry { manifest_key, target };
                self.entries.push(TableEntry { manifest_key, target });
                proof {
                    let n = old(self)@.len() as int;
                    assert(entry_key(self@[n]) == entry_key(e));
                    assert forall|a: int, b: int| 0 <= a < b < self@.len() implies entry_key(#[trigger] self@[a])
                        != entry_key(#[trigger] self@[b]) by {
                        assert(self@[a] == old(self)@[a]);
                        if b < n {
                            assert(self@[b] == old(self)@[b]);
                        }
                    }
                }
            },
        }
    }

    /// The keys of the sub-project targets, in table order.
    pub fn subproject_keys(&self) -> (r: Vec<(String, String)>)
        ensures
            r@.len() == subproject_keys_of(self@).len(),
            forall|i: int| 0 <= i < r@.len() ==> ((#[trigger] r@[i]).0@, r@[i].1@) == subproject_keys_of(self@)[i],
    {
        let mut r: Vec<(String, String)> = Vec::new();
        let mut i: usize = 0;
        while i < self.entries.len()
            invariant
                i <= self.entries.len(),
                r@.len() == subproject_keys_of(self@.take(i as int)).len(),
                forall|j: int| 0 <= j < r@.len() ==> ((#[trigger] r@[j]).0@, r@[j].1@) == subproject_keys_of(
                    self@.take(i as int),
                )[j],
            decreases self.entries.len() - i,
        {
            let e = &self.entries[i];
            assert(self@.take(i + 1).drop_last() == self@.take(i as int));
            assert(self@.take(i + 1).last() == self@[i as int]);
            match &e.target.origin {
                Some(TargetOrigin::SubProject(_)) => {
                    r.push((e.manifest_key.clone(), e.target.name.clone()));
                },
                _ => {},
            }
            i = i + 1;
        }
        assert(self@.take(self@.len() as int) == self@);
        r
    }

    /// Takes out the target under a key, if one is there.
    pub fn remove(&mut self, manifest_key: &str, name: &str) -> (r: Option<CargoTarget>)
        requires
            old(self).wf(),
        ensures
            final(self).wf(),
            match r {
                Some(t) => has_key(old(self)@, (manifest_key@, name@)) && t == old(self)@[key_pos(
                    old(self)@,
                    (manifest_key@, name@),
                )].target && final(self)@ == old(self)@.remove(key_pos(old(self)@, (manifest_key@, name@))),
                None => !has_key(old(self)@, (manifest_key@, name@)) && final(self)@ == old(self)@,
            },
    {
        match find_key(&self.entries, manifest_key, name) {
            Some(i) => {
                let e = self.entries.remove(i);
                proof {
                    assert forall|a: int, b: int| 0 <= a < b < self@.len() implies entry_key(#[trigger] self@[a])
                        != entry_key(#[trigger] self@[b]) by {
                        let oa = if a < i { a } else { a + 1 };
                        let ob = if b < i { b } else { b + 1 };
                        assert(self@[a] == old(self)@[oa]);
                        assert(self@[b] == old(self)@[ob]);
                    }
                }
                Some(e.target)
            },
            None => None,
        }
    }

    /// Adds a target found in a sub-project whose display name is
    /// `sub_display`: it replaces the entry under its key, taking that
    /// entry's manifest flag, or is appended with its display name prefixed
    /// by the sub-project's.
    pub fn insert_expanded(&mut self, sub_display: &str, manifest_key: String, target: CargoTarget)
        requires
            old(self).wf(),
        ensures
            final(self).wf(),
            expanded_into(old(self)@, final(self)@, sub_display@, (TableEntry { manifest_key, target })),
    {
        let ghost e = TableEntry { manifest_key, target };
        match find_key(&self.entries, manifest_key.as_str(), target.name.as_str()) {
            Some(i) => {
                let mut t = target;
                if self.entries[i].target.toml_specified {
                    t.toml_specified = true;
                }
                self.entries.set(i, TableEntry { manifest_key, target: t });
                proof {
                    assert forall|a: int, b: int| 0 <= a < b < self@.len() implies entry_key(#[trigger] self@[a])
                        != entry_key(#[trigger] self@[b]) by {
                        assert(entry_key(self@[a]) == entry_key(old(self)@[a]));
                        assert(entry_key(self@[b]) == entry_key(old(self)@[b]));
                    }
                }
            },
            None => {
                let mut t = target;
                let mut display = String::from_str(sub_display);
                display.append(" > ");
                display.append(t.name.as_str());
                t.display_name = display;
                self.entries.push(TableEntry { manifest_key, target: t });
                proof {
                    let n = old(self)@.len() as int;
                    assert(self@.take(n) =~= old(self)@);
                    assert(entry_key(self@[n]) == entry_key(e));
                    assert forall|a: int, b: int| 0 <= a < b < self@.len() implies entry_key(#[trigger] self@[a])
                        != entry_key(#[trigger] self@[b]) by {
                        assert(self@[a] == old(self)@[a]);
                        if b < n {
                            assert(self@[b] == old(self)@[b]);
                        }
                    }
                }
            },
        }
    }

    /// The targets of the table, in table order.
    pub fn into_targets(self) -> (r: Vec<CargoTarget>)
        ensures
            r@.len() == self@.len(),
            forall|i: int| 0 <= i < r@.len() ==> #[trigger] r@[i] == self@[i].target,
    {
        let mut r: Vec<CargoTarget> = Vec::new();
        let mut entries = self.entries;
        let ghost es = entries@;
        let mut i: usize = 0;
        while i < entries.len()
            invariant
                entries@ == es,
                i <= entries.len(),
                r@.len() == i,
                forall|j: int| 0 <= j < i ==> #[trigger] r@[j] == es[j].target,
            decreases entries.len() - i,
        {
            r.push(entries[i].target.duplicate());
            i = i + 1;
        }
        r
    }
}

impl CargoTarget {
    /// The manifest of the sub-project this target stands for, if it is one.
    pub fn subproject_manifest(&self) -> (r: Option<String>)
        ensures
            match self.origin {
                Some(TargetOrigin::SubProject(p)) => r == Some(p),
                _ => r is None,
            },
    {
        match &self.origin {
            Some(TargetOrigin::SubProject(p)) => Some(p.clone()),
            _ => None,
        }
    }
}

/// Merging a target whose key is absent and then removing that key gives
/// back the table as it was.
pub proof fn lemma_remove_undoes_merge(es: Seq<TableEntry>, e: TableEntry)
    requires
        keys_unique(es),
        !has_key(es, entry_key(e)),
    ensures
        has_key(merged(es, e), entry_key(e)),
        merged(es, e).remove(key_pos(merged(es, e), entry_key(e))) == es,
{
    let m = merged(es, e);
    let n = es.len() as int;
    assert(entry_key(m[n]) == entry_key(e));
    let p = key_pos(m, entry_key(e));
    assert(p == n) by {
        if p != n {
            assert(m[p] == es[p]);
        }
    }
    assert(m.remove(n) =~= es);
}

/// Merging the same target twice leaves the table as merging it once.
pub proof fn lemma_merge_idempotent(es: Seq<TableEntry>, e: TableEntry)
    requires
        keys_unique(es),
    ensures
        merged(merged(es, e), e) == merged(es, e),
{
    let m = merged(es, e);
    let k = entry_key(e);
    if has_key(es, k) {
        let i = key_pos(es, k);
        assert(entry_key(m[i]) == k);
        assert(has_key(m, k));
        let j = key_pos(m, k);
        assert(j == i) by {
            if j != i {
                assert(entry_key(m[j]) == entry_key(es[j]));
            }
        }
        assert(merged(m, e) =~= m);
    } else {
        let n = es.len() as int;
        assert(entry_key(m[n]) == k);
        assert(has_key(m, k));
        let j = key_pos(m, k);
        assert(j == n) by {
            if j != n {
                assert(m[j] == es[j]);
            }
        }
        assert(upgraded_kind(e.target.kind, e.target.kind) == e.target.kind);
        assert(merged(m, e) =~= m);
    }
}

} // verus!
