//! The table of running processes, keyed by process id: registering a
//! process, looking one up, and taking it out once it is done.
use vstd::prelude::*;
use std::collections::HashMap;
use vstd::std_specs::iter::IteratorSpec;

verus! {

/// Running processes by id.
pub struct ProcessTable<H> {
    entries: HashMap<u32, H>,
}

impl<H> View for ProcessTable<H> {
    type V = Map<u32, H>;

    closed spec fn view(&self) -> Map<u32, H> {
        self.entries@
    }
}

impl<H> ProcessTable<H> {
    /// An empty table.
    pub fn new() -> (r: Self)
        ensures
            r@ == Map::<u32, H>::empty(),
    {
        ProcessTable { entries: HashMap::new() }
    }

    /// Registers a process: it replaces an entry of the same id, or is added.
    pub fn register(&mut self, pid: u32, handle: H) -> (r: u32)
        ensures
            final(self)@ == old(self)@.insert(pid, handle),
            r == pid,
    {
        broadcast use vstd::std_specs::hash::group_hash_axioms;
        self.entries.insert(pid, handle);
        pid
    }

    /// The process of an id, if it is registered.
    pub fn get(&self, pid: u32) -> (r: Option<&H>)
        ensures
            match r {
                Some(h) => self@.contains_key(pid) && *h == self@[pid],
                None => !self@.contains_key(pid),
            },
    {
        broadcast use vstd::std_specs::hash::group_hash_axioms;
        self.entries.get(&pid)
    }

    /// Takes the process of an id out of the table.
    pub fn take(&mut self, pid: u32) -> (r: Option<H>)
        ensures
            final(self)@ == old(self)@.remove(pid),
            match r {
                Some(h) => old(self)@.contains_key(pid) && h == old(self)@[pid],
                None => !old(self)@.contains_key(pid),
            },
    {
        broadcast use vstd::std_specs::hash::group_hash_axioms;
        self.entries.remove(&pid)
    }

    /// The ids of the registered processes, each once, in no set order.
    pub fn list(&self) -> (r: Vec<u32>)
        ensures
            r@.to_set() == self@.dom(),
            r@.no_duplicates(),
    {
        broadcast use vstd::std_specs::hash::group_hash_axioms;
        let mut r: Vec<u32> = Vec::new();
        let keys = self.entries.keys();
        let ghost all = keys.remaining();
        assert(all.unref().to_set() == self@.dom());
        for k in it: keys
            invariant
                it.seq() == all,
                r@ == all.take(it.index()).unref(),
        {
            assert(all.take(it.index() + 1).unref() =~= all.take(it.index()).unref().push(*k));
            r.push(*k);
        }
        assert(all.take(all.len() as int) == all);
        r
    }

    /// The number of registered processes.
    pub fn len(&self) -> (r: usize)
        ensures
            r == self@.len(),
    {
        broadcast use vstd::std_specs::hash::group_hash_axioms;
        self.entries.len()
    }
}

/// The registered process of an id, looked up where it stands in the table.
pub fn get_process_results_in_place<H>(table: &ProcessTable<H>, pid: u32) -> (r: Option<&H>)
    ensures
        match r {
            Some(h) => table@.contains_key(pid) && *h == table@[pid],
            None => !table@.contains_key(pid),
        },
{
    table.get(pid)
}

/// Takes the registered process of an id out of the table.
pub fn take_process_results<H>(table: &mut ProcessTable<H>, pid: u32) -> (r: Option<H>)
    ensures
        final(table)@ == old(table)@.remove(pid),
        match r {
            Some(h) => old(table)@.contains_key(pid) && h == old(table)@[pid],
            None => !old(table)@.contains_key(pid),
        },
{
    table.take(pid)
}

/// Registering a process under a new id and then taking that id gives the
/// process back and leaves the table as it was.
pub proof fn lemma_take_undoes_register<H>(m: Map<u32, H>, pid: u32, h: H)
    requires
        !m.contains_key(pid),
    ensures
        m.insert(pid, h).contains_key(pid),
        m.insert(pid, h)[pid] == h,
        m.insert(pid, h).remove(pid) == m,
{
    assert(m.insert(pid, h).remove(pid) =~= m);
}

/// A registered process is found by its id, whatever was there before, and
/// the other ids keep their processes.
pub proof fn lemma_get_after_register<H>(m: Map<u32, H>, pid: u32, h: H, other: u32)
    ensures
        m.insert(pid, h).contains_key(pid),
        m.insert(pid, h)[pid] == h,
        other != pid ==> (m.insert(pid, h).contains_key(other) == m.contains_key(other)),
        other != pid && m.contains_key(other) ==> m.insert(pid, h)[other] == m[other],
{
}

} // verus!
