//! Gathering targets across manifests: keeping one target per source file,
//! naming manifests for display, and cleaning workspace member patterns.
use vstd::prelude::*;
use crate::target::{CargoTarget, TargetKind, TargetOrigin};
use crate::paths::{component_count, parent_of, file_name_of, path_depth, path_parent, path_file_name};
use crate::pattern::opt_view;
use crate::text::{seq_contains, str_contains, occurs_at, chars_of, push_char, decimal, u64_to_string};
use crate::runnable::{joined_path, path_join};

verus! {

/// The key two targets collide on: the canonical path of the file of a
/// single-file, default-binary or subproject origin (given in `canonical`),
/// and no key for other targets.
pub open spec fn origin_key(t: CargoTarget, canonical: Option<Seq<char>>) -> Option<Seq<char>> {
    match t.origin {
        Some(TargetOrigin::SingleFile(_)) => canonical,
        Some(TargetOrigin::DefaultBinary(_)) => canonical,
        Some(TargetOrigin::SubProject(_)) => canonical,
        _ => None,
    }
}

/// Whether `t` replaces `e`, the target kept so far for the same key: a
/// target named in a manifest beats one that is not; a single file beats a
/// default binary; otherwise the deeper manifest wins.
pub open spec fn replaces_kept(t: CargoTarget, e: CargoTarget) -> bool {
    if t.toml_specified && !e.toml_specified {
        true
    } else if !t.toml_specified && e.toml_specified {
        false
    } else if t.origin matches Some(TargetOrigin::SingleFile(_)) && e.origin matches Some(TargetOrigin::DefaultBinary(_)) {
        true
    } else if t.origin matches Some(TargetOrigin::DefaultBinary(_)) && e.origin matches Some(TargetOrigin::SingleFile(_)) {
        false
    } else {
        component_count(t.manifest_path@) > component_count(e.manifest_path@)
    }
}

/// The index of the entry with key `k`, if any.
pub open spec fn key_index(entries: Seq<(Option<Seq<char>>, CargoTarget)>, k: Option<Seq<char>>) -> Option<int> {
    if exists|i: int| 0 <= i < entries.len() && entries[i].0 == k {
        Some(choose|i: int| 0 <= i < entries.len() && entries[i].0 == k)
    } else {
        None
    }
}

/// The kept target per key after the first `n` targets, keys in the order
/// they were first seen.
pub open spec fn kept_entries(
    ts: Seq<CargoTarget>,
    canon: Seq<Option<Seq<char>>>,
    n: int,
) -> Seq<(Option<Seq<char>>, CargoTarget)>
    decreases n,
{
    if n <= 0 {
        Seq::empty()
    } else {
        let prev = kept_entries(ts, canon, n - 1);
        let t = ts[n - 1];
        let k = origin_key(t, crate::pattern::group_at(canon, n - 1));
        match key_index(prev, k) {
            Some(i) => if replaces_kept(t, prev[i].1) {
                prev.update(i, (k, t))
            } else {
                prev
            },
            None => prev.push((k, t)),
        }
    }
}

/// The keys of the entries are distinct.
pub open spec fn keys_distinct(entries: Seq<(Option<Seq<char>>, CargoTarget)>) -> bool {
    forall|i: int, j: int| 0 <= i < j < entries.len() ==> #[trigger] entries[i].0 != #[trigger] entries[j].0
}

/// Keeps one target per source file (by the canonical path given for each
/// target, index for index): the result holds the kept target of each key,
/// keys in the order first seen.
///
/// Each kept target is an input target, kept under its own key; no two are
/// kept under one key and every input's key has one; where a target of a key
/// is named in a manifest the one kept is too; and of a key held by exactly
/// one single-file target and one default-binary target, equally named in a
/// manifest or not, the single-file target is kept.
pub fn dedup_single_file_over_default_binary(targets: Vec<CargoTarget>, canonical: &Vec<Option<String>>) -> (r: Vec<CargoTarget>)
    ensures
        r@ == kept_entries(targets@, crate::pattern::groups_view(canonical@), targets@.len() as int).map_values(
            |e: (Option<Seq<char>>, CargoTarget)| e.1,
        ),
        dedup_laws(targets@, crate::pattern::groups_view(canonical@), r@),
{
    let ghost cv = crate::pattern::groups_view(canonical@);
    let mut keys: Vec<Option<String>> = Vec::new();
    let mut kept: Vec<CargoTarget> = Vec::new();
    let mut n: usize = 0;
    while n < targets.len()
        invariant
            n <= targets.len(),
            cv == crate::pattern::groups_view(canonical@),
            keys@.len() == kept@.len(),
            kept_entries(targets@, cv, n as int).len() == kept@.len(),
            forall|i: int| 0 <= i < kept@.len() ==> (#[trigger] kept_entries(targets@, cv, n as int)[i]) == (
                opt_view(keys@[i]), kept@[i]),
            keys_distinct(kept_entries(targets@, cv, n as int)),
        decreases targets.len() - n,
    {
        let t = &targets[n];
        let canon = crate::pattern::group(canonical, n);
        let key: Option<String> = match &t.origin {
            Some(TargetOrigin::SingleFile(_)) | Some(TargetOrigin::DefaultBinary(_)) | Some(TargetOrigin::SubProject(_)) => canon,
            _ => None,
        };
        let ghost prev = kept_entries(targets@, cv, n as int);
        let ghost k = origin_key(targets@[n as int], crate::pattern::group_at(cv, n as int));
        assert(opt_view(key) == k);
        let mut found: Option<usize> = None;
        let mut i: usize = 0;
        while i < keys.len()
            invariant
                keys@.len() == kept@.len(),
                prev.len() == kept@.len(),
                forall|q: int| 0 <= q < kept@.len() ==> (#[trigger] prev[q]) == (opt_view(keys@[q]), kept@[q]),
                i <= keys.len(),
                opt_view(key) == k,
                found is None ==> forall|q: int| 0 <= q < i ==> prev[q].0 != k,
                found matches Some(f) ==> f < keys.len() && prev[f as int].0 == k,
            decreases keys.len() - i,
        {
            assert(prev[i as int] == (opt_view(keys@[i as int]), kept@[i as int]));
            if found.is_none() {
                let same = match (&keys[i], &key) {
                    (Some(a), Some(b)) => crate::cli::str_eq_exact(a.as_str(), b.as_str()),
                    (None, None) => true,
                    _ => false,
                };
                assert(same == (prev[i as int].0 == k));
                if same {
                    found = Some(i);
                }
            }
            i = i + 1;
        }
        match found {
            Some(f) => {
                proof {
                    assert(key_index(prev, k) is Some);
                    let c = choose|q: int| 0 <= q < prev.len() && prev[q].0 == k;
                    if c != f {
                        if c < f {
                            assert(prev[c].0 != prev[f as int].0);
                        } else {
                            assert(prev[f as int].0 != prev[c].0);
                        }
                    }
                }
                let e = &kept[f];
                let replace = if t.toml_specified && !e.toml_specified {
                    true
                } else if !t.toml_specified && e.toml_specified {
                    false
                } else {
                    match (&t.origin, &e.origin) {
                        (Some(TargetOrigin::SingleFile(_)), Some(TargetOrigin::DefaultBinary(_))) => true,
                        (Some(TargetOrigin::DefaultBinary(_)), Some(TargetOrigin::SingleFile(_))) => false,
                        _ => path_depth(t.manifest_path.as_str()) > path_depth(e.manifest_path.as_str()),
                    }
                };
                if replace {
                    kept.set(f, t.duplicate());
                    keys.set(f, key);
                }
            },
            None => {
                proof {
                    assert(key_index(prev, k) is None);
                }
                kept.push(t.duplicate());
                keys.push(key);
            },
        }
        n = n + 1;
    }
    proof {
        let ent = kept_entries(targets@, cv, targets@.len() as int);
        assert(ent.map_values(|e: (Option<Seq<char>>, CargoTarget)| e.1) =~= kept@);
        lemma_dedup_laws(targets@, cv);
    }
    kept
}

/// Keeping one target per source file leaves exactly one target for each
/// key: no two kept targets share a key, and every target's key is kept.
pub proof fn lemma_one_per_key(ts: Seq<CargoTarget>, canon: Seq<Option<Seq<char>>>, n: int)
    requires
        0 <= n <= ts.len(),
    ensures
        keys_distinct(kept_entries(ts, canon, n)),
        forall|i: int| #![trigger ts[i]] 0 <= i < n ==> exists|j: int| 0 <= j < kept_entries(ts, canon, n).len()
            && #[trigger] kept_entries(ts, canon, n)[j].0 == origin_key(ts[i], crate::pattern::group_at(canon, i)),
    decreases n,
{
    if n > 0 {
        lemma_one_per_key(ts, canon, n - 1);
        let prev = kept_entries(ts, canon, n - 1);
        let cur = kept_entries(ts, canon, n);
        let t = ts[n - 1];
        let k = origin_key(t, crate::pattern::group_at(canon, n - 1));
        match key_index(prev, k) {
            Some(idx) => {
                assert forall|i: int| 0 <= i < cur.len() implies #[trigger] cur[i].0 == prev[i].0 by {}
                assert forall|i: int| #![trigger ts[i]] 0 <= i < n implies exists|j: int| 0 <= j < cur.len()
                    && #[trigger] cur[j].0 == origin_key(ts[i], crate::pattern::group_at(canon, i)) by {
                    if i < n - 1 {
                        let j = choose|j: int| 0 <= j < prev.len() && #[trigger] prev[j].0 == origin_key(ts[i], crate::pattern::group_at(canon, i));
                        assert(cur[j].0 == prev[j].0);
                    } else {
                        assert(cur[idx].0 == k);
                    }
                }
            },
            None => {
                assert forall|i: int| #![trigger ts[i]] 0 <= i < n implies exists|j: int| 0 <= j < cur.len()
                    && #[trigger] cur[j].0 == origin_key(ts[i], crate::pattern::group_at(canon, i)) by {
                    if i < n - 1 {
                        let j = choose|j: int| 0 <= j < prev.len() && #[trigger] prev[j].0 == origin_key(ts[i], crate::pattern::group_at(canon, i));
                        assert(cur[j] == prev[j]);
                    } else {
                        assert(cur[prev.len() as int].0 == k);
                    }
                }
            },
        }
    }
}

/// The key of the `i`-th target.
pub open spec fn key_of(ts: Seq<CargoTarget>, canon: Seq<Option<Seq<char>>>, i: int) -> Option<Seq<char>> {
    origin_key(ts[i], crate::pattern::group_at(canon, i))
}

/// Keeping one target per source file keeps input targets only, each under
/// its own key.
pub proof fn lemma_kept_are_inputs(ts: Seq<CargoTarget>, canon: Seq<Option<Seq<char>>>, n: int)
    requires
        0 <= n <= ts.len(),
    ensures
        forall|j: int| #![trigger kept_entries(ts, canon, n)[j]] 0 <= j < kept_entries(ts, canon, n).len()
            ==> exists|i: int| 0 <= i < n && ts[i] == kept_entries(ts, canon, n)[j].1 && #[trigger] key_of(ts, canon, i)
                == kept_entries(ts, canon, n)[j].0,
    decreases n,
{
    if n > 0 {
        lemma_kept_are_inputs(ts, canon, n - 1);
        let prev = kept_entries(ts, canon, n - 1);
        let cur = kept_entries(ts, canon, n);
        let t = ts[n - 1];
        let k = key_of(ts, canon, n - 1);
        assert forall|j: int| #![trigger cur[j]] 0 <= j < cur.len() implies exists|i: int|
            0 <= i < n && ts[i] == cur[j].1 && #[trigger] key_of(ts, canon, i) == cur[j].0 by {
            if cur[j] == (k, t) {
                assert(key_of(ts, canon, n - 1) == cur[j].0);
            } else {
                assert(j < prev.len() && cur[j] == prev[j]);
                let i = choose|i: int| 0 <= i < n - 1 && ts[i] == prev[j].1 && #[trigger] key_of(ts, canon, i) == prev[j].0;
                assert(key_of(ts, canon, i) == cur[j].0);
            }
        }
    }
}

/// Where any target of a key is named in a manifest, the target kept for
/// that key is too.
#[verifier::rlimit(30)]
pub proof fn lemma_kept_prefers_manifest(ts: Seq<CargoTarget>, canon: Seq<Option<Seq<char>>>, n: int)
    requires
        0 <= n <= ts.len(),
    ensures
        forall|j: int, i: int|
            0 <= j < kept_entries(ts, canon, n).len() && 0 <= i < n && #[trigger] key_of(ts, canon, i)
                == #[trigger] kept_entries(ts, canon, n)[j].0 && ts[i].toml_specified
                ==> kept_entries(ts, canon, n)[j].1.toml_specified,
    decreases n,
{
    if n > 0 {
        lemma_kept_prefers_manifest(ts, canon, n - 1);
        lemma_one_per_key(ts, canon, n - 1);
        let prev = kept_entries(ts, canon, n - 1);
        let cur = kept_entries(ts, canon, n);
        let t = ts[n - 1];
        let k = key_of(ts, canon, n - 1);
        assert forall|j: int, i: int|
            0 <= j < cur.len() && 0 <= i < n && #[trigger] key_of(ts, canon, i) == #[trigger] cur[j].0
                && ts[i].toml_specified implies cur[j].1.toml_specified by {
            match key_index(prev, k) {
                Some(idx) => {
                    if j == idx {
                        if i < n - 1 {
                            assert(key_of(ts, canon, i) == prev[j].0);
                            assert(prev[j].1.toml_specified);
                        }
                    } else {
                        assert(cur[j] == prev[j]);
                        if i == n - 1 {
                            if j < idx {
                                assert(prev[j].0 != prev[idx].0);
                            } else {
                                assert(prev[idx].0 != prev[j].0);
                            }
                        }
                    }
                },
                None => {
                    if j == prev.len() {
                        if i < n - 1 {
                            let w = choose|w: int| 0 <= w < prev.len() && #[trigger] prev[w].0 == origin_key(ts[i], crate::pattern::group_at(canon, i));
                            assert(prev[w].0 == k);
                        }
                    } else {
                        assert(cur[j] == prev[j]);
                        if i == n - 1 {
                            assert(prev[j].0 != k);
                        }
                    }
                },
            }
        }
    }
}

/// The pair's conditions: `a` a single file and `b` a default binary,
/// equally flagged, the only two targets of their key.
pub open spec fn sole_pair(ts: Seq<CargoTarget>, canon: Seq<Option<Seq<char>>>, a: int, b: int) -> bool {
    &&& 0 <= a < ts.len()
    &&& 0 <= b < ts.len()
    &&& a != b
    &&& ts[a].origin matches Some(TargetOrigin::SingleFile(_))
    &&& ts[b].origin matches Some(TargetOrigin::DefaultBinary(_))
    &&& ts[a].toml_specified == ts[b].toml_specified
    &&& key_of(ts, canon, a) == key_of(ts, canon, b)
    &&& forall|i: int| 0 <= i < ts.len() && #[trigger] key_of(ts, canon, i) == key_of(ts, canon, a) ==> i == a || i == b
}

/// The target the pair's key keeps after the first `n` targets.
pub open spec fn pair_kept_after(ts: Seq<CargoTarget>, canon: Seq<Option<Seq<char>>>, a: int, b: int, n: int) -> bool {
    forall|j: int| 0 <= j < kept_entries(ts, canon, n).len() && (#[trigger] kept_entries(ts, canon, n)[j]).0
        == key_of(ts, canon, a) ==> kept_entries(ts, canon, n)[j].1 == if a < n { ts[a] } else { ts[b] }
}

/// No kept entry has the pair's key while neither member has been seen.
proof fn lemma_pair_absent(ts: Seq<CargoTarget>, canon: Seq<Option<Seq<char>>>, a: int, b: int, n: int)
    requires
        sole_pair(ts, canon, a, b),
        0 <= n <= ts.len(),
        n <= a,
        n <= b,
    ensures
        key_index(kept_entries(ts, canon, n), key_of(ts, canon, a)) is None,
        forall|j: int| 0 <= j < kept_entries(ts, canon, n).len() ==> (#[trigger] kept_entries(ts, canon, n)[j]).0
            != key_of(ts, canon, a),
{
    lemma_kept_are_inputs(ts, canon, n);
    let prev = kept_entries(ts, canon, n);
    assert forall|j: int| 0 <= j < prev.len() implies (#[trigger] prev[j]).0 != key_of(ts, canon, a) by {
        let i = choose|i: int| 0 <= i < n && ts[i] == prev[j].1 && #[trigger] key_of(ts, canon, i) == prev[j].0;
        if prev[j].0 == key_of(ts, canon, a) {
            assert(i == a || i == b);
        }
    }
}

/// The entry of the pair's key after one member has been seen.
proof fn lemma_pair_present(ts: Seq<CargoTarget>, canon: Seq<Option<Seq<char>>>, a: int, b: int, n: int, m: int)
    requires
        sole_pair(ts, canon, a, b),
        0 <= n <= ts.len(),
        m == a || m == b,
        m < n,
    ensures
        key_index(kept_entries(ts, canon, n), key_of(ts, canon, a)) is Some,
{
    lemma_one_per_key(ts, canon, n);
    let prev = kept_entries(ts, canon, n);
    let w = choose|w: int| 0 <= w < prev.len() && #[trigger] prev[w].0 == origin_key(ts[m], crate::pattern::group_at(canon, m));
    assert(prev[w].0 == key_of(ts, canon, a));
}

proof fn lemma_pair_step(ts: Seq<CargoTarget>, canon: Seq<Option<Seq<char>>>, a: int, b: int, n: int, j: int)
    requires
        sole_pair(ts, canon, a, b),
        0 < n <= ts.len(),
        pair_kept_after(ts, canon, a, b, n - 1),
        0 <= j < kept_entries(ts, canon, n).len(),
        kept_entries(ts, canon, n)[j].0 == key_of(ts, canon, a),
    ensures
        kept_entries(ts, canon, n)[j].1 == if a < n { ts[a] } else { ts[b] },
{
    let kk = key_of(ts, canon, a);
    let prev = kept_entries(ts, canon, n - 1);
    let cur = kept_entries(ts, canon, n);
    let t = ts[n - 1];
    let k = key_of(ts, canon, n - 1);
    if k != kk {
        match key_index(prev, k) {
            Some(idx) => {
                assert(prev[idx].0 == k);
                if j == idx && replaces_kept(t, prev[idx].1) {
                    assert(cur[j].0 == k);
                }
                assert(cur[j] == prev[j]);
            },
            None => {
                if j == prev.len() {
                    assert(cur[j].0 == k);
                }
                assert(cur[j] == prev[j]);
            },
        }
        assert(n - 1 != a && n - 1 != b);
    } else {
        assert(n - 1 == a || n - 1 == b);
        let other = if n - 1 == a { b } else { a };
        lemma_one_per_key(ts, canon, n);
        if other < n - 1 {
            lemma_pair_present(ts, canon, a, b, n - 1, other);
            let idx = key_index(prev, k).unwrap();
            assert(prev[idx].0 == kk);
            assert(prev[idx].1 == ts[other]);
            if n - 1 == a {
                assert(replaces_kept(t, prev[idx].1));
                assert(cur[idx] == (k, t));
            } else {
                assert(!replaces_kept(t, prev[idx].1));
                assert(cur[idx] == prev[idx]);
            }
            if j != idx {
                if j < idx {
                    assert(cur[j].0 != cur[idx].0);
                } else {
                    assert(cur[idx].0 != cur[j].0);
                }
            }
        } else {
            lemma_pair_absent(ts, canon, a, b, n - 1);
            assert(cur == prev.push((k, t)));
            if j != prev.len() {
                assert(cur[j] == prev[j]);
            }
        }
    }
}

proof fn lemma_pair_kept(ts: Seq<CargoTarget>, canon: Seq<Option<Seq<char>>>, a: int, b: int, n: int)
    requires
        sole_pair(ts, canon, a, b),
        0 <= n <= ts.len(),
    ensures
        pair_kept_after(ts, canon, a, b, n),
    decreases n,
{
    if n > 0 {
        lemma_pair_kept(ts, canon, a, b, n - 1);
        assert forall|j: int| 0 <= j < kept_entries(ts, canon, n).len() && (#[trigger] kept_entries(ts, canon, n)[j]).0
            == key_of(ts, canon, a) implies kept_entries(ts, canon, n)[j].1 == if a < n { ts[a] } else { ts[b] } by {
            lemma_pair_step(ts, canon, a, b, n, j);
        }
    }
}

/// Of a key held by exactly one single-file target and one default-binary
/// target, equally named or not named in a manifest, the single-file target
/// is kept.
pub proof fn lemma_single_file_over_default_binary(
    ts: Seq<CargoTarget>,
    canon: Seq<Option<Seq<char>>>,
    a: int,
    b: int,
)
    requires
        0 <= a < ts.len(),
        0 <= b < ts.len(),
        ts[a].origin matches Some(TargetOrigin::SingleFile(_)),
        ts[b].origin matches Some(TargetOrigin::DefaultBinary(_)),
        ts[a].toml_specified == ts[b].toml_specified,
        key_of(ts, canon, a) == key_of(ts, canon, b),
        forall|i: int| 0 <= i < ts.len() && #[trigger] key_of(ts, canon, i) == key_of(ts, canon, a) ==> i == a || i == b,
    ensures
        forall|j: int| 0 <= j < kept_entries(ts, canon, ts.len() as int).len() && (#[trigger] kept_entries(
            ts,
            canon,
            ts.len() as int,
        )[j]).0 == key_of(ts, canon, a) ==> kept_entries(ts, canon, ts.len() as int)[j].1 == ts[a],
{
    lemma_pair_kept(ts, canon, a, b, ts.len() as int);
}

/// `t` is an input target whose key is `k`.
pub open spec fn input_of_key(ts: Seq<CargoTarget>, canon: Seq<Option<Seq<char>>>, t: CargoTarget, k: Option<Seq<char>>) -> bool {
    exists|i: int| 0 <= i < ts.len() && ts[i] == t && #[trigger] key_of(ts, canon, i) == k
}

/// What keeping one target per source file promises of its result `r`, the
/// `j`-th of which is kept under the key `kept_entries(..)[j].0`: each is an
/// input target of that key; the keys are distinct and every input's key is
/// among them; a key with a target named in a manifest keeps such a target;
/// a key held by exactly one single-file and one default-binary target,
/// equally named or not, keeps the single-file one.
pub open spec fn dedup_laws(ts: Seq<CargoTarget>, canon: Seq<Option<Seq<char>>>, r: Seq<CargoTarget>) -> bool {
    let kept = kept_entries(ts, canon, ts.len() as int);
    &&& r.len() == kept.len()
    &&& forall|j: int| 0 <= j < r.len() ==> input_of_key(ts, canon, #[trigger] r[j], kept[j].0)
    &&& keys_distinct(kept)
    &&& forall|i: int| #![trigger ts[i]] 0 <= i < ts.len() ==> exists|j: int| 0 <= j < kept.len()
        && #[trigger] kept[j].0 == key_of(ts, canon, i)
    &&& forall|j: int, i: int|
        0 <= j < r.len() && 0 <= i < ts.len() && #[trigger] key_of(ts, canon, i) == #[trigger] kept[j].0
            && ts[i].toml_specified ==> r[j].toml_specified
    &&& forall|a: int, b: int, j: int|
        sole_pair(ts, canon, a, b) && 0 <= j < r.len() && #[trigger] kept[j].0 == #[trigger] key_of(ts, canon, a)
            && #[trigger] key_of(ts, canon, b) == key_of(ts, canon, a) ==> r[j] == ts[a]
}

proof fn lemma_laws_inputs(ts: Seq<CargoTarget>, canon: Seq<Option<Seq<char>>>, r: Seq<CargoTarget>)
    requires
        r == kept_entries(ts, canon, ts.len() as int).map_values(|e: (Option<Seq<char>>, CargoTarget)| e.1),
    ensures
        r.len() == kept_entries(ts, canon, ts.len() as int).len(),
        forall|j: int| 0 <= j < r.len() ==> input_of_key(ts, canon, #[trigger] r[j], kept_entries(ts, canon, ts.len() as int)[j].0),
{
    let n = ts.len() as int;
    let kept = kept_entries(ts, canon, n);
    lemma_kept_are_inputs(ts, canon, n);
    assert forall|j: int| 0 <= j < r.len() implies input_of_key(ts, canon, #[trigger] r[j], kept_entries(ts, canon, ts.len() as int)[j].0) by {
        assert(r[j] == kept[j].1);
        let i = choose|i: int| 0 <= i < n && ts[i] == kept_entries(ts, canon, n)[j].1 && #[trigger] key_of(ts, canon, i)
            == kept_entries(ts, canon, n)[j].0;
        assert(ts[i] == r[j] && key_of(ts, canon, i) == kept_entries(ts, canon, ts.len() as int)[j].0);
    }
}

proof fn lemma_laws_keys(ts: Seq<CargoTarget>, canon: Seq<Option<Seq<char>>>)
    ensures
        keys_distinct(kept_entries(ts, canon, ts.len() as int)),
        forall|i: int| #![trigger ts[i]] 0 <= i < ts.len() ==> exists|j: int| 0 <= j < kept_entries(ts, canon, ts.len() as int).len()
            && #[trigger] kept_entries(ts, canon, ts.len() as int)[j].0 == key_of(ts, canon, i),
{
    lemma_one_per_key(ts, canon, ts.len() as int);
}

proof fn lemma_laws_manifest(ts: Seq<CargoTarget>, canon: Seq<Option<Seq<char>>>, r: Seq<CargoTarget>)
    requires
        r == kept_entries(ts, canon, ts.len() as int).map_values(|e: (Option<Seq<char>>, CargoTarget)| e.1),
    ensures
        forall|j: int, i: int|
            0 <= j < r.len() && 0 <= i < ts.len() && #[trigger] key_of(ts, canon, i) == #[trigger] kept_entries(ts, canon, ts.len() as int)[j].0
                && ts[i].toml_specified ==> r[j].toml_specified,
{
    let kept = kept_entries(ts, canon, ts.len() as int);
    lemma_kept_prefers_manifest(ts, canon, ts.len() as int);
    assert forall|j: int, i: int|
        0 <= j < r.len() && 0 <= i < ts.len() && #[trigger] key_of(ts, canon, i) == #[trigger] kept[j].0
            && ts[i].toml_specified implies r[j].toml_specified by {
        assert(r[j] == kept[j].1);
    }
}

proof fn lemma_laws_pair(ts: Seq<CargoTarget>, canon: Seq<Option<Seq<char>>>, r: Seq<CargoTarget>)
    requires
        r == kept_entries(ts, canon, ts.len() as int).map_values(|e: (Option<Seq<char>>, CargoTarget)| e.1),
    ensures
        forall|a: int, b: int, j: int|
            sole_pair(ts, canon, a, b) && 0 <= j < r.len() && #[trigger] kept_entries(ts, canon, ts.len() as int)[j].0
                == #[trigger] key_of(ts, canon, a) && #[trigger] key_of(ts, canon, b) == key_of(ts, canon, a) ==> r[j] == ts[a],
{
    let kept = kept_entries(ts, canon, ts.len() as int);
    assert forall|a: int, b: int, j: int|
        sole_pair(ts, canon, a, b) && 0 <= j < r.len() && #[trigger] kept[j].0 == #[trigger] key_of(ts, canon, a)
            && #[trigger] key_of(ts, canon, b) == key_of(ts, canon, a) implies r[j] == ts[a] by {
        lemma_pair_kept(ts, canon, a, b, ts.len() as int);
        assert(r[j] == kept[j].1);
    }
}

/// The promises of keeping one target per source file hold of its result.
pub proof fn lemma_dedup_laws(ts: Seq<CargoTarget>, canon: Seq<Option<Seq<char>>>)
    ensures
        dedup_laws(ts, canon, kept_entries(ts, canon, ts.len() as int).map_values(
            |e: (Option<Seq<char>>, CargoTarget)| e.1,
        )),
{
    let r = kept_entries(ts, canon, ts.len() as int).map_values(|e: (Option<Seq<char>>, CargoTarget)| e.1);
    lemma_laws_inputs(ts, canon, r);
    lemma_laws_keys(ts, canon);
    lemma_laws_manifest(ts, canon, r);
    lemma_laws_pair(ts, canon, r);
}

/// A manifest's name for display: its folder's name, a slash, its file name.
pub open spec fn package_label(manifest: Seq<char>) -> Seq<char> {
    let pkg = match parent_of(manifest) {
        Some(p) => match file_name_of(p) {
            Some(n) => n,
            None => Seq::empty(),
        },
        None => Seq::empty(),
    };
    pkg + "/"@ + file_name_of(manifest).unwrap()
}

/// A manifest's name for display, as `<package>/Cargo.toml`.
pub fn format_package(manifest: &str) -> (r: String)
    requires
        file_name_of(manifest@) is Some,
    ensures
        r@ == package_label(manifest@),
{
    let mut r = match path_parent(manifest) {
        Some(p) => match path_file_name(p.as_str()) {
            Some(n) => n,
            None => String::new(),
        },
        None => String::new(),
    };
    r.append("/");
    match path_file_name(manifest) {
        Some(f) => r.append(f.as_str()),
        None => {},
    }
    r
}

/// A workspace member's manifest for display: the workspace folder's name,
/// the member's folder name, and the workspace manifest's file name.
pub open spec fn workspace_label(ws_manifest: Seq<char>, member: Seq<char>) -> Seq<char> {
    let ws_name = match file_name_of(parent_of(ws_manifest).unwrap()) {
        Some(n) => n,
        None => Seq::empty(),
    };
    let pkg = match parent_of(member) {
        Some(p) => match file_name_of(p) {
            Some(n) => n,
            None => Seq::empty(),
        },
        None => Seq::empty(),
    };
    ws_name + "/"@ + pkg + "/"@ + file_name_of(ws_manifest).unwrap()
}

/// A workspace member's manifest for display, as `<workspace>/<package>/Cargo.toml`.
pub fn format_workspace(ws_manifest: &str, member: &str) -> (r: String)
    requires
        parent_of(ws_manifest@) is Some,
        file_name_of(ws_manifest@) is Some,
    ensures
        r@ == workspace_label(ws_manifest@, member@),
{
    let mut r = match path_parent(ws_manifest) {
        Some(root) => match path_file_name(root.as_str()) {
            Some(n) => n,
            None => String::new(),
        },
        None => String::new(),
    };
    r.append("/");
    match path_parent(member) {
        Some(p) => match path_file_name(p.as_str()) {
            Some(n) => r.append(n.as_str()),
            None => {},
        },
        None => {},
    }
    r.append("/");
    match path_file_name(ws_manifest) {
        Some(f) => r.append(f.as_str()),
        None => {},
    }
    proof {
        reveal_strlit("");
        assert(""@ =~= Seq::<char>::empty());
    }
    r
}

/// A manifest's name for display, or `None` where the manifest path has no
/// file name (where formatting it would abort).
pub fn try_format_package(manifest: &str) -> (r: Option<String>)
    ensures
        match r {
            Some(t) => file_name_of(manifest@) is Some && t@ == package_label(manifest@),
            None => file_name_of(manifest@) is None,
        },
{
    match path_file_name(manifest) {
        Some(_) => Some(format_package(manifest)),
        None => None,
    }
}

/// A workspace member's manifest for display, or `None` where the
/// workspace manifest has no folder or no file name.
pub fn try_format_workspace(ws_manifest: &str, member: &str) -> (r: Option<String>)
    ensures
        match r {
            Some(t) => parent_of(ws_manifest@) is Some && file_name_of(ws_manifest@) is Some
                && t@ == workspace_label(ws_manifest@, member@),
            None => parent_of(ws_manifest@) is None || file_name_of(ws_manifest@) is None,
        },
{
    match (path_parent(ws_manifest), path_file_name(ws_manifest)) {
        (Some(_), Some(_)) => Some(format_workspace(ws_manifest, member)),
        _ => None,
    }
}

/// `s` with every trailing `/*` removed, as `str::trim_end_matches("/*")` does.
pub open spec fn trim_end_glob(s: Seq<char>) -> Seq<char>
    decreases s.len(),
{
    if s.len() >= 2 && s[s.len() - 2] == '/' && s[s.len() - 1] == '*' {
        trim_end_glob(s.subrange(0, s.len() - 2))
    } else {
        s
    }
}

/// A workspace member pattern without its trailing `/*` globs, where it has a `*`.
pub open spec fn clean_member_text(m: Seq<char>) -> Seq<char> {
    if m.contains('*') { trim_end_glob(m) } else { m }
}

/// A workspace member pattern without its trailing globs.
pub fn clean_member(member: &str) -> (r: String)
    ensures
        r@ == clean_member_text(member@),
{
    let v = chars_of(member);
    let mut has_star = false;
    let mut i: usize = 0;
    while i < v.len()
        invariant
            v@ == member@,
            i <= v.len(),
            has_star == (exists|k: int| 0 <= k < i && v@[k] == '*'),
        decreases v.len() - i,
    {
        if v[i] == '*' {
            has_star = true;
        }
        i = i + 1;
    }
    if !has_star {
        assert(!member@.contains('*'));
        return String::from_str(member);
    }
    let mut end: usize = v.len();
    assert(member@.subrange(0, end as int) == member@);
    while end >= 2 && v[end - 2] == '/' && v[end - 1] == '*'
        invariant
            v@ == member@,
            end <= v.len(),
            trim_end_glob(member@) == trim_end_glob(member@.subrange(0, end as int)),
        decreases end,
    {
        assert(member@.subrange(0, end as int).subrange(0, end - 2) == member@.subrange(0, end - 2));
        end = end - 2;
    }
    let mut r = String::new();
    let mut k: usize = 0;
    while k < end
        invariant
            v@ == member@,
            k <= end <= v.len(),
            r@ == member@.subrange(0, k as int),
        decreases end - k,
    {
        push_char(&mut r, v[k]);
        k = k + 1;
        assert(r@ == member@.subrange(0, k as int));
    }
    assert(member@.contains('*'));
    r
}

/// The manifest of a workspace member: `<root>/<member>/Cargo.toml`.
pub fn member_manifest_path(root: &str, member: &str) -> (r: String)
    ensures
        r@ == joined_path(joined_path(root@, clean_member_text(member@)), "Cargo.toml"@),
{
    let clean = clean_member(member);
    let dir = path_join(root, clean.as_str());
    path_join(dir.as_str(), "Cargo.toml")
}


/// The numbered member names, `1. a, 2. b, ...`, of the first `n` members.
pub open spec fn member_list(m: Seq<Seq<char>>, n: int) -> Seq<char>
    decreases n,
{
    if n <= 0 {
        Seq::empty()
    } else if n == 1 {
        decimal(1) + ". "@ + m[0]
    } else {
        member_list(m, n - 1) + ", "@ + decimal(n as nat) + ". "@ + m[n - 1]
    }
}

/// The line announcing a workspace: its label and its numbered members.
pub fn workspace_line(ws_label: &str, members: &Vec<String>) -> (r: String)
    requires
        members@.len() < u64::MAX,
    ensures
        r@ == "workspace: "@ + ws_label@ + " ["@ + member_list(crate::text::strings_view(members@), members@.len() as int) + "]"@,
{
    let ghost m = crate::text::strings_view(members@);
    let mut list = String::new();
    let mut i: usize = 0;
    while i < members.len()
        invariant
            i <= members.len(),
            members@.len() < u64::MAX,
            m == crate::text::strings_view(members@),
            list@ == member_list(m, i as int),
        decreases members.len() - i,
    {
        if i > 0 {
            list.append(", ");
        }
        list.append(u64_to_string((i + 1) as u64).as_str());
        list.append(". ");
        list.append(members[i].as_str());
        proof {
            if i == 0 {
                assert(list@ =~= decimal(1) + ". "@ + m[0]);
            }
        }
        i = i + 1;
    }
    let mut r = String::from_str("workspace: ");
    r.append(ws_label);
    r.append(" [");
    r.append(list.as_str());
    r.append("]");
    r
}

/// The manifests to collect targets from: the package's own, marked `-`,
/// then each workspace member's, marked `$<member>` and extended.
pub open spec fn manifest_infos(bi: Seq<char>, members: Seq<(Seq<char>, Seq<char>)>) -> Seq<(Seq<char>, Seq<char>, bool)> {
    seq![("-"@, bi, false)] + members.map_values(|p: (Seq<char>, Seq<char>)| ("$"@ + p.0, p.1, true))
}

/// The manifests to collect targets from, for a package and its workspace members.
pub fn collect_manifest_infos(bi: &str, members: &Vec<(String, String)>) -> (r: Vec<(String, String, bool)>)
    ensures
        r@.map_values(|t: (String, String, bool)| (t.0@, t.1@, t.2)) == manifest_infos(
            bi@,
            members@.map_values(|p: (String, String)| (p.0@, p.1@)),
        ),
{
    let ghost target = manifest_infos(bi@, members@.map_values(|p: (String, String)| (p.0@, p.1@)));
    let mut r: Vec<(String, String, bool)> = Vec::new();
    r.push((String::from_str("-"), String::from_str(bi), false));
    let mut i: usize = 0;
    assert(r@.map_values(|t: (String, String, bool)| (t.0@, t.1@, t.2)) =~= target.take(1));
    while i < members.len()
        invariant
            i <= members.len(),
            target == manifest_infos(bi@, members@.map_values(|p: (String, String)| (p.0@, p.1@))),
            r@.map_values(|t: (String, String, bool)| (t.0@, t.1@, t.2)) == target.take(i + 1),
        decreases members.len() - i,
    {
        let mut tag = String::from_str("$");
        tag.append(members[i].0.as_str());
        let ghost before = r@.map_values(|t: (String, String, bool)| (t.0@, t.1@, t.2));
        r.push((tag, members[i].1.clone(), true));
        assert(r@.map_values(|t: (String, String, bool)| (t.0@, t.1@, t.2)) =~= before.push(target[i + 1]));
        i = i + 1;
        assert(target.take(i + 1) =~= before.push(target[i as int]));
    }
    assert(target.take(members.len() + 1) =~= target);
    r
}

/// The manifest lies in a `src-tauri` folder.
pub open spec fn in_tauri_folder(manifest: Seq<char>) -> bool {
    match parent_of(manifest) {
        Some(p) => file_name_of(p) == Some("src-tauri"@),
        None => false,
    }
}

/// The kind of a target cargo lists as available: a Tauri manifest in a
/// `src-tauri` folder, else an (extended) binary or example.
pub open spec fn available_kind(manifest: Seq<char>, extended: bool, binary: bool) -> TargetKind {
    if in_tauri_folder(manifest) {
        TargetKind::ManifestTauri
    } else if binary {
        if extended { TargetKind::ExtendedBinary } else { TargetKind::Binary }
    } else {
        if extended { TargetKind::ExtendedExample } else { TargetKind::Example }
    }
}

/// How an available binary is shown: under a workspace member (`$` prefix)
/// as `prefix > binary > name`, extended or plain as `prefix name`, and a
/// built-in one as `builtin binary: name`.
pub open spec fn binary_display(prefix: Seq<char>, name: Seq<char>, extended: bool) -> Seq<char> {
    if crate::text::seq_starts_with(prefix, "$"@) {
        prefix + " > binary > "@ + name
    } else if extended {
        prefix + " "@ + name
    } else if crate::text::seq_starts_with(prefix, "builtin"@) {
        "builtin binary: "@ + name
    } else {
        prefix + " "@ + name
    }
}

/// `t` is the target for an available binary (or example) `name` of `manifest`.
pub open spec fn is_available_target(
    t: CargoTarget,
    prefix: Seq<char>,
    manifest: Seq<char>,
    name: Seq<char>,
    extended: bool,
    binary: bool,
) -> bool {
    &&& t.name@ == name
    &&& t.display_name@ == (if binary { binary_display(prefix, name, extended) } else { name })
    &&& t.manifest_path@ == manifest
    &&& t.kind == available_kind(manifest, extended, binary)
    &&& t.extended == extended
    &&& t.toml_specified
    &&& t.origin matches Some(TargetOrigin::TomlSpecified(p)) && p@ == manifest
}

fn in_tauri_folder_exec(manifest: &str) -> (r: bool)
    ensures
        r == in_tauri_folder(manifest@),
{
    match path_parent(manifest) {
        Some(p) => match path_file_name(p.as_str()) {
            Some(n) => crate::cli::str_eq_exact(n.as_str(), "src-tauri"),
            None => false,
        },
        None => false,
    }
}

fn available_target(prefix: &str, manifest: &str, name: &str, extended: bool, binary: bool, tauri: bool) -> (r: CargoTarget)
    requires
        tauri == in_tauri_folder(manifest@),
    ensures
        is_available_target(r, prefix@, manifest@, name@, extended, binary),
{
    let kind = if tauri {
        TargetKind::ManifestTauri
    } else if binary {
        if extended { TargetKind::ExtendedBinary } else { TargetKind::Binary }
    } else {
        if extended { TargetKind::ExtendedExample } else { TargetKind::Example }
    };
    let display_name = if !binary {
        String::from_str(name)
    } else {
        let mut d = if crate::text::str_starts_with(prefix, "$") {
            let mut d = String::from_str(prefix);
            d.append(" > binary > ");
            d
        } else if extended {
            let mut d = String::from_str(prefix);
            d.append(" ");
            d
        } else if crate::text::str_starts_with(prefix, "builtin") {
            String::from_str("builtin binary: ")
        } else {
            let mut d = String::from_str(prefix);
            d.append(" ");
            d
        };
        d.append(name);
        d
    };
    CargoTarget {
        name: String::from_str(name),
        display_name,
        manifest_path: String::from_str(manifest),
        kind,
        extended,
        toml_specified: true,
        origin: Some(TargetOrigin::TomlSpecified(String::from_str(manifest))),
    }
}

/// The targets for the binaries and examples cargo lists as available for a
/// manifest: the binaries first, then the examples, each in the order given.
pub fn available_targets(
    prefix: &str,
    manifest: &str,
    bin_names: &Vec<String>,
    example_names: &Vec<String>,
    extended: bool,
) -> (r: Vec<CargoTarget>)
    ensures
        r@.len() == bin_names@.len() + example_names@.len(),
        forall|i: int| 0 <= i < bin_names@.len() ==> is_available_target(#[trigger] r@[i], prefix@, manifest@,
            bin_names@[i]@, extended, true),
        forall|i: int| bin_names@.len() <= i < r@.len() ==> is_available_target(#[trigger] r@[i], prefix@, manifest@,
            example_names@[i - bin_names@.len()]@, extended, false),
{
    let tauri = in_tauri_folder_exec(manifest);
    let mut r: Vec<CargoTarget> = Vec::new();
    let mut i: usize = 0;
    while i < bin_names.len()
        invariant
            tauri == in_tauri_folder(manifest@),
            i <= bin_names.len(),
            r@.len() == i,
            forall|k: int| 0 <= k < i ==> is_available_target(#[trigger] r@[k], prefix@, manifest@, bin_names@[k]@,
                extended, true),
        decreases bin_names.len() - i,
    {
        r.push(available_target(prefix, manifest, bin_names[i].as_str(), extended, true, tauri));
        i = i + 1;
    }
    let n = bin_names.len();
    let mut j: usize = 0;
    while j < example_names.len()
        invariant
            tauri == in_tauri_folder(manifest@),
            n == bin_names@.len(),
            j <= example_names.len(),
            r@.len() == n + j,
            forall|k: int| 0 <= k < n ==> is_available_target(#[trigger] r@[k], prefix@, manifest@, bin_names@[k]@,
                extended, true),
            forall|k: int| n <= k < n + j ==> is_available_target(#[trigger] r@[k], prefix@, manifest@,
                example_names@[k - n]@, extended, false),
        decreases example_names.len() - j,
    {
        r.push(available_target(prefix, manifest, example_names[j].as_str(), extended, false, tauri));
        j = j + 1;
    }
    r
}

} // verus!
