//! Choosing what to run: a target named on the command line, the only
//! example when exactly one is defined, or the candidates of a partial,
//! case-insensitive search by name.
use vstd::prelude::*;
use crate::cli::str_eq_exact;
use crate::main_name::{lowercase_of, to_lowercase_str};
use crate::target::{CargoTarget, kind_is_example};
use crate::text::{seq_contains, str_contains};

verus! {

/// What the command line asks to run.
#[derive(Debug, Clone, PartialEq, Eq)]
pub enum Selection {
    /// Run the target at this position.
    Run(usize),
    /// No target has the name asked for; these positions hold the targets
    /// whose name contains it, ignoring case, to choose from.
    Partial(Vec<usize>),
    /// No target has the name asked for, nor contains it.
    NotFound,
    /// No name was given and there is not exactly one example: the user chooses.
    Choose,
}

/// The positions `0..n` of `ts` whose target satisfies `p`, in order.
pub open spec fn positions(ts: Seq<CargoTarget>, p: spec_fn(CargoTarget) -> bool, n: int) -> Seq<usize>
    decreases n,
{
    if n <= 0 {
        Seq::empty()
    } else {
        let rest = positions(ts, p, n - 1);
        if p(ts[n - 1]) {
            rest.push((n - 1) as usize)
        } else {
            rest
        }
    }
}

/// The target is an example.
pub open spec fn is_example_target() -> spec_fn(CargoTarget) -> bool {
    |t: CargoTarget| kind_is_example(t.kind)
}

/// The target's name contains `name`, both lowercased.
pub open spec fn partial_match(name: Seq<char>) -> spec_fn(CargoTarget) -> bool {
    |t: CargoTarget| seq_contains(lowercase_of(t.name@), lowercase_of(name))
}

/// The first position whose target is named exactly `name`.
pub open spec fn first_named(ts: Seq<CargoTarget>, name: Seq<char>, i: int) -> Option<int>
    decreases ts.len() - i,
{
    if i < 0 || i >= ts.len() {
        None
    } else if ts[i].name@ == name {
        Some(i)
    } else {
        first_named(ts, name, i + 1)
    }
}

/// What to run: with a name, the first target of that name, else the
/// targets whose name contains it ignoring case, else nothing; without a
/// name, the example when exactly one is defined, else the user's choice.
pub open spec fn selection(ts: Seq<CargoTarget>, explicit: Option<Seq<char>>) -> (Option<int>, Option<Seq<usize>>) {
    match explicit {
        Some(name) => match first_named(ts, name, 0) {
            Some(i) => (Some(i), None),
            None => (None, Some(positions(ts, partial_match(name), ts.len() as int))),
        },
        None => {
            let ex = positions(ts, is_example_target(), ts.len() as int);
            if ex.len() == 1 {
                (Some(ex[0] as int), None)
            } else {
                (None, None)
            }
        },
    }
}

/// The meaning of a selection: the position to run, or the candidates.
pub open spec fn selection_meaning(s: Selection) -> (Option<int>, Option<Seq<usize>>) {
    match s {
        Selection::Run(i) => (Some(i as int), None),
        Selection::Partial(v) => (None, Some(v@)),
        Selection::NotFound => (None, Some(Seq::empty())),
        Selection::Choose => (None, None),
    }
}

proof fn lemma_positions_bound(ts: Seq<CargoTarget>, p: spec_fn(CargoTarget) -> bool, n: int)
    requires
        0 <= n <= ts.len(),
        ts.len() <= usize::MAX,
    ensures
        positions(ts, p, n).len() <= n,
        forall|k: int| 0 <= k < positions(ts, p, n).len() ==> (#[trigger] positions(ts, p, n)[k]) < n && p(ts[positions(ts, p, n)[k] as int]),
    decreases n,
{
    if n > 0 {
        lemma_positions_bound(ts, p, n - 1);
        let rest = positions(ts, p, n - 1);
        let all = positions(ts, p, n);
        assert forall|k: int| 0 <= k < all.len() implies (#[trigger] all[k]) < n && p(ts[all[k] as int]) by {
            if k < rest.len() {
                assert(all[k] == rest[k]);
            }
        }
    }
}

proof fn lemma_first_named_skip(ts: Seq<CargoTarget>, name: Seq<char>, i: int)
    requires
        0 <= i <= ts.len(),
        forall|k: int| 0 <= k < i ==> (#[trigger] ts[k]).name@ != name,
    ensures
        first_named(ts, name, 0) == first_named(ts, name, i),
    decreases i,
{
    if i > 0 {
        lemma_first_named_skip(ts, name, i - 1);
    }
}

/// The positions `0..n` satisfying `p` are listed in increasing order, each
/// exactly when its target satisfies `p`.
proof fn lemma_positions_members(ts: Seq<CargoTarget>, p: spec_fn(CargoTarget) -> bool, n: int)
    requires
        0 <= n <= ts.len(),
        ts.len() <= usize::MAX,
    ensures
        forall|a: int, b: int| 0 <= a < b < positions(ts, p, n).len() ==> positions(ts, p, n)[a] < positions(ts, p, n)[b],
        forall|i: int| 0 <= i < n ==> (positions(ts, p, n).contains(i as usize) <==> p(#[trigger] ts[i])),
        forall|k: int| 0 <= k < positions(ts, p, n).len() ==> (#[trigger] positions(ts, p, n)[k]) < n,
    decreases n,
{
    if n > 0 {
        lemma_positions_members(ts, p, n - 1);
        let rest = positions(ts, p, n - 1);
        let all = positions(ts, p, n);
        assert forall|k: int| 0 <= k < all.len() implies (#[trigger] all[k]) < n by {
            if k < rest.len() {
                assert(all[k] == rest[k]);
            }
        }
        assert forall|a: int, b: int| 0 <= a < b < all.len() implies all[a] < all[b] by {
            if b < rest.len() {
                assert(all[a] == rest[a] && all[b] == rest[b]);
            } else {
                assert(all[a] == rest[a]);
            }
        }
        assert forall|i: int| 0 <= i < n implies (all.contains(i as usize) <==> p(#[trigger] ts[i])) by {
            if i < n - 1 {
                if all.contains(i as usize) {
                    let k = choose|k: int| 0 <= k < all.len() && all[k] == i as usize;
                    if k < rest.len() {
                        assert(rest[k] == i as usize);
                    }
                }
                if rest.contains(i as usize) {
                    let k = choose|k: int| 0 <= k < rest.len() && rest[k] == i as usize;
                    assert(all[k] == i as usize);
                }
            } else {
                if all.contains(i as usize) {
                    let k = choose|k: int| 0 <= k < all.len() && all[k] == i as usize;
                    if k < rest.len() {
                        assert(rest[k] == i as usize);
                    }
                }
                if p(ts[i]) {
                    assert(all[rest.len() as int] == i as usize);
                }
            }
        }
    }
}

/// When no target is named exactly `name`, the candidates are, in increasing
/// order, exactly the positions whose name, lowercased, holds the lowercased
/// `name` somewhere (at any index, not only at the start).
pub proof fn lemma_partial_candidates(ts: Seq<CargoTarget>, name: Seq<char>)
    requires
        ts.len() <= usize::MAX,
        first_named(ts, name, 0) is None,
    ensures
        selection(ts, Some(name)).0 is None,
        selection(ts, Some(name)).1 matches Some(c) && {
            &&& forall|a: int, b: int| 0 <= a < b < c.len() ==> c[a] < c[b]
            &&& forall|k: int| 0 <= k < c.len() ==> (#[trigger] c[k]) < ts.len()
            &&& forall|i: int| 0 <= i < ts.len() ==> (c.contains(i as usize) <==> exists|at: int|
                crate::text::occurs_at(lowercase_of((#[trigger] ts[i]).name@), lowercase_of(name), at))
        },
{
    lemma_positions_members(ts, partial_match(name), ts.len() as int);
}

/// The first position of a target named exactly `name`.
fn exact_index(targets: &Vec<CargoTarget>, name: &str) -> (r: Option<usize>)
    ensures
        match r {
            Some(i) => first_named(targets@, name@, 0) == Some(i as int) && i < targets@.len(),
            None => first_named(targets@, name@, 0) is None,
        },
{
    let mut i: usize = 0;
    while i < targets.len()
        invariant
            i <= targets.len(),
            forall|k: int| 0 <= k < i ==> (#[trigger] targets@[k]).name@ != name@,
        decreases targets.len() - i,
    {
        if str_eq_exact(targets[i].name.as_str(), name) {
            proof {
                lemma_first_named_skip(targets@, name@, i as int);
            }
            return Some(i);
        }
        i = i + 1;
    }
    proof {
        lemma_first_named_skip(targets@, name@, i as int);
    }
    None
}

/// Decides what the command line asks to run among `targets`.
pub fn select_target(targets: &Vec<CargoTarget>, explicit: &Option<String>) -> (r: Selection)
    ensures
        selection_meaning(r) == selection(targets@, crate::pattern::opt_view(*explicit)),
        r matches Selection::Run(i) ==> i < targets@.len(),
{
    match explicit {
        Some(name) => {
            match exact_index(targets, name.as_str()) {
                Some(i) => Selection::Run(i),
                None => {
                    let wanted = to_lowercase_str(name.as_str());
                    let ghost p = partial_match(name@);
                    let mut found: Vec<usize> = Vec::new();
                    let mut i: usize = 0;
                    while i < targets.len()
                        invariant
                            i <= targets.len(),
                            wanted@ == lowercase_of(name@),
                            p == partial_match(name@),
                            found@ == positions(targets@, p, i as int),
                        decreases targets.len() - i,
                    {
                        let lower = to_lowercase_str(targets[i].name.as_str());
                        if str_contains(lower.as_str(), wanted.as_str()) {
                            found.push(i);
                        }
                        i = i + 1;
                    }
                    if found.len() == 0 {
                        assert(found@ =~= Seq::<usize>::empty());
                        Selection::NotFound
                    } else {
                        Selection::Partial(found)
                    }
                },
            }
        },
        None => {
            let ghost p = is_example_target();
            let mut count: usize = 0;
            let mut first: usize = 0;
            let mut i: usize = 0;
            while i < targets.len()
                invariant
                    i <= targets.len(),
                    p == is_example_target(),
                    count == positions(targets@, p, i as int).len(),
                    count >= 1 ==> first == positions(targets@, p, i as int)[0],
                    count <= i,
                decreases targets.len() - i,
            {
                proof {
                    lemma_positions_bound(targets@, p, i as int);
                }
                if targets[i].is_example() {
                    if count == 0 {
                        first = i;
                    }
                    count = count + 1;
                }
                i = i + 1;
            }
            proof {
                lemma_positions_bound(targets@, p, targets@.len() as int);
            }
            if count == 1 {
                Selection::Run(first)
            } else {
                Selection::Choose
            }
        },
    }
}

/// With no name given and exactly one example among the targets, that
/// example is what runs.
pub proof fn lemma_single_example_runs(ts: Seq<CargoTarget>, k: int)
    requires
        0 <= k < ts.len(),
        ts.len() <= usize::MAX,
        kind_is_example(ts[k].kind),
        forall|j: int| 0 <= j < ts.len() && j != k ==> !kind_is_example(#[trigger] ts[j].kind),
    ensures
        selection(ts, None) == (Some(k), None::<Seq<usize>>),
{
    let p = is_example_target();
    assert(p(ts[k]));
    assert forall|j: int| 0 <= j < ts.len() && j != k implies !p(#[trigger] ts[j]) by {
        assert(!kind_is_example(ts[j].kind));
    }
    lemma_single_position(ts, p, k, ts.len() as int);
    assert(positions(ts, p, ts.len() as int) == seq![k as usize]);
}

proof fn lemma_single_position(ts: Seq<CargoTarget>, p: spec_fn(CargoTarget) -> bool, k: int, n: int)
    requires
        0 <= n <= ts.len(),
        ts.len() <= usize::MAX,
        0 <= k < ts.len(),
        p(ts[k]),
        forall|j: int| 0 <= j < ts.len() && j != k ==> !p(#[trigger] ts[j]),
    ensures
        k < n ==> positions(ts, p, n) == seq![k as usize],
        k >= n ==> positions(ts, p, n).len() == 0,
    decreases n,
{
    if n > 0 {
        lemma_single_position(ts, p, k, n - 1);
        if n - 1 == k {
            assert(positions(ts, p, n - 1).len() == 0);
            assert(positions(ts, p, n) =~= seq![k as usize]);
        } else {
            assert(!p(ts[n - 1]));
        }
    }
}

/// A target named exactly as asked is what runs, the first such when several are.
pub proof fn lemma_named_target_runs(ts: Seq<CargoTarget>, name: Seq<char>, k: int)
    requires
        0 <= k < ts.len(),
        ts[k].name@ == name,
        forall|j: int| 0 <= j < k ==> (#[trigger] ts[j]).name@ != name,
    ensures
        selection(ts, Some(name)) == (Some(k), None::<Seq<usize>>),
{
    lemma_first_named_skip(ts, name, k);
}

} // verus!
