use vstd::prelude::*;
use crate::types::{committed_value, find_latest, Felt, StateKey};

verus! {

/// Read-only committed state held in memory, counting its lookups.
pub struct DictStateReader {
    entries: Vec<(StateKey, Felt)>,
    reads: Vec<StateKey>,
}

impl DictStateReader {
    /// The committed entries; a later entry for a key shadows an earlier one.
    pub closed spec fn entries(&self) -> Seq<(StateKey, Felt)> {
        self.entries@
    }

    /// Every key looked up so far, in order.
    pub closed spec fn reads(&self) -> Seq<StateKey> {
        self.reads@
    }

    /// A reader over no entries.
    pub fn new() -> (r: DictStateReader)
        ensures
            r.entries() == Seq::<(StateKey, Felt)>::empty(),
            r.reads() == Seq::<StateKey>::empty(),
    {
        DictStateReader { entries: Vec::new(), reads: Vec::new() }
    }

    /// Records `v` as the committed value of `k`.
    pub fn insert(&mut self, k: StateKey, v: Felt)
        ensures
            final(self).entries() == old(self).entries().push((k, v)),
            final(self).reads() == old(self).reads(),
    {
        self.entries.push((k, v));
    }

    /// Looks `k` up: its committed value, or `None` for an undeclared class.
    pub fn get(&mut self, k: StateKey) -> (r: Option<Felt>)
        ensures
            r == committed_value(old(self).entries(), k),
            final(self).entries() == old(self).entries(),
            final(self).reads() == old(self).reads().push(k),
    {
        self.reads.push(k);
        match find_latest(&self.entries, k) {
            Some(v) => Some(v),
            None => match k {
                StateKey::CompiledClassHash(_) => None,
                _ => Some(0),
            },
        }
    }

    /// How many lookups were made so far.
    pub fn read_count(&self) -> (r: usize)
        ensures
            r == self.reads().len(),
    {
        self.reads.len()
    }
}

} // verus!
