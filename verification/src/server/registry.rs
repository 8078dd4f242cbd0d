//! The registry of connections: which handler runs under which id.

use std::collections::HashMap;
use vstd::prelude::*;
use vstd::std_specs::hash::*;
use vstd::std_specs::iter::IteratorSpec;

verus! {

broadcast use group_hash_axioms;

/// The handle of each running handler, under the id of its connection.
///
/// The registry serves the shutdown alone: an entry leaves when its handler
/// is done, and what is left at the end is joined.
pub struct Registry<H> {
    handles: HashMap<u128, H>,
}

impl<H> View for Registry<H> {
    type V = Map<u128, H>;

    closed spec fn view(&self) -> Map<u128, H> {
        self.handles@
    }
}

/// Whether `entries` lists `map`: every entry of the map once, in some
/// order, and nothing else.
pub open spec fn lists<H>(entries: Seq<(u128, H)>, map: Map<u128, H>) -> bool {
    &&& entries.len() == map.len()
    &&& forall|i: int|
        0 <= i < entries.len() ==> map.contains_key((#[trigger] entries[i]).0)
            && map[entries[i].0] == entries[i].1
    &&& forall|i: int, j: int|
        0 <= i < j < entries.len() ==> (#[trigger] entries[i]).0 != (#[trigger] entries[j]).0
}

impl<H> Registry<H> {
    /// A registry without entries.
    pub fn new() -> (registry: Self)
        ensures
            registry@ == Map::<u128, H>::empty(),
    {
        Registry { handles: HashMap::new() }
    }

    /// The number of entries.
    pub fn len(&self) -> (count: usize)
        ensures
            count == self@.len(),
    {
        self.handles.len()
    }

    /// Records `handle` under `id`. An entry that stood under `id` before
    /// gives way and is returned.
    pub fn insert(&mut self, id: u128, handle: H) -> (replaced: Option<H>)
        ensures
            final(self)@ == old(self)@.insert(id, handle),
            old(self)@.contains_key(id) ==> replaced == Some(old(self)@[id]),
            !old(self)@.contains_key(id) ==> replaced is None,
    {
        self.handles.insert(id, handle)
    }

    /// Takes the entry under `id` out, if there is one.
    pub fn remove(&mut self, id: u128) -> (handle: Option<H>)
        ensures
            final(self)@ == old(self)@.remove(id),
            old(self)@.contains_key(id) ==> handle == Some(old(self)@[id]),
            !old(self)@.contains_key(id) ==> handle is None,
    {
        self.handles.remove(&id)
    }

    /// Takes every entry out.
    pub fn drain(&mut self) -> (entries: Vec<(u128, H)>)
        ensures
            final(self)@ == Map::<u128, H>::empty(),
            lists(entries@, old(self)@),
    {
        let ghost keys = spec_keys_iter(&self.handles).remaining().unref();
        let mut ids: Vec<u128> = Vec::new();
        for id in it: self.handles.keys()
            invariant
                ids@.len() == it.index(),
                it.seq().unref() == keys,
                forall|j: int| 0 <= j < ids@.len() ==> ids@[j] == keys[j],
        {
            ids.push(*id);
        }
        assert(ids@ =~= keys);
        assert forall|j: int| 0 <= j < ids@.len() implies self.handles@.contains_key(
            #[trigger] ids@[j],
        ) by {
            assert(keys.to_set().contains(keys[j]));
        }
        let mut entries: Vec<(u128, H)> = Vec::new();
        let mut taken: usize = 0;
        while taken < ids.len()
            invariant
                taken <= ids@.len(),
                ids@.no_duplicates(),
                ids@.len() == old(self)@.len(),
                ids@.to_set() == old(self)@.dom(),
                entries@.len() == taken,
                forall|k: u128|
                    self.handles@.contains_key(k) <==> exists|j: int|
                        taken <= j < ids@.len() && #[trigger] ids@[j] == k,
                forall|k: u128|
                    self.handles@.contains_key(k) ==> self.handles@[k] == old(self)@[k],
                forall|j: int|
                    0 <= j < taken ==> (#[trigger] entries@[j]).0 == ids@[j] && entries@[j].1
                        == old(self)@[ids@[j]],
            decreases ids@.len() - taken,
        {
            let id = ids[taken];
            let ghost before = self.handles@;
            assert(before.contains_key(id));
            match self.handles.remove(&id) {
                Some(handle) => {
                    entries.push((id, handle));
                },
                None => {},
            }
            assert forall|k: u128| self.handles@.contains_key(k) <==> exists|j: int|
                taken + 1 <= j < ids@.len() && #[trigger] ids@[j] == k by {
                if self.handles@.contains_key(k) {
                    let j = choose|j: int| taken <= j < ids@.len() && #[trigger] ids@[j] == k;
                    assert(j != taken);
                }
            }
            taken = taken + 1;
        }
        assert(self.handles@ =~= Map::<u128, H>::empty());
        assert forall|i: int| 0 <= i < entries@.len() implies old(self)@.contains_key(
            (#[trigger] entries@[i]).0,
        ) by {
            assert(ids@.to_set().contains(ids@[i]));
        }
        entries
    }
}

} // verus!
