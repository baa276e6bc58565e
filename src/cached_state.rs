use vstd::prelude::*;
use crate::reader::DictStateReader;
use crate::types::{
    committed_value, diff_value, find_latest, lemma_latest_concat, lemma_latest_some, latest, unique_keys, visible,
    Address, ClassHash, Felt, Nonce, StateError, StateKey, StorageKey,
};

verus! {

/// Names an open checkpoint by its depth in the stack.
#[derive(Clone, Copy, Debug, PartialEq, Eq, Structural)]
pub struct CheckpointHandle {
    pub depth: usize,
}

/// The changes a state holds relative to its committed baseline.
pub struct StateDiff {
    pub entries: Vec<(StateKey, Felt)>,
}

/// The address-to-class bindings of a diff, in order.
pub open spec fn deployed_part(s: Seq<(StateKey, Felt)>) -> Seq<(Address, ClassHash)>
    decreases s.len(),
{
    if s.len() == 0 {
        Seq::empty()
    } else {
        match s.last() {
            (StateKey::ClassHashAt(a), v) => deployed_part(s.drop_last()).push((a, v)),
            _ => deployed_part(s.drop_last()),
        }
    }
}

/// The class declarations of a diff, in order.
pub open spec fn declared_part(s: Seq<(StateKey, Felt)>) -> Seq<(ClassHash, Felt)>
    decreases s.len(),
{
    if s.len() == 0 {
        Seq::empty()
    } else {
        match s.last() {
            (StateKey::CompiledClassHash(c), v) => declared_part(s.drop_last()).push((c, v)),
            _ => declared_part(s.drop_last()),
        }
    }
}

/// The storage cells of a diff, in order.
pub open spec fn storage_part(s: Seq<(StateKey, Felt)>) -> Seq<(Address, StorageKey, Felt)>
    decreases s.len(),
{
    if s.len() == 0 {
        Seq::empty()
    } else {
        match s.last() {
            (StateKey::Storage(a, k), v) => storage_part(s.drop_last()).push((a, k, v)),
            _ => storage_part(s.drop_last()),
        }
    }
}

/// The nonces of a diff, in order.
pub open spec fn nonce_part(s: Seq<(StateKey, Felt)>) -> Seq<(Address, Nonce)>
    decreases s.len(),
{
    if s.len() == 0 {
        Seq::empty()
    } else {
        match s.last() {
            (StateKey::Nonce(a), v) => nonce_part(s.drop_last()).push((a, v)),
            _ => nonce_part(s.drop_last()),
        }
    }
}

impl StateDiff {
    /// The diff's value for `k`, if it has one.
    pub fn get(&self, k: StateKey) -> (r: Option<Felt>)
        ensures
            r == latest(self.entries@, k),
    {
        find_latest(&self.entries, k)
    }

    /// The number of changed cells.
    pub fn len(&self) -> (r: usize)
        ensures
            r == self.entries@.len(),
    {
        self.entries.len()
    }

    /// The new address-to-class bindings.
    pub fn deployed_contracts(&self) -> (r: Vec<(Address, ClassHash)>)
        ensures
            r@ == deployed_part(self.entries@),
    {
        let mut out: Vec<(Address, ClassHash)> = Vec::new();
        let mut i: usize = 0;
        while i < self.entries.len()
            invariant
                i <= self.entries@.len(),
                out@ == deployed_part(self.entries@.subrange(0, i as int)),
            decreases self.entries@.len() - i,
        {
            assert(self.entries@.subrange(0, i + 1).drop_last() =~= self.entries@.subrange(0, i as int));
            match self.entries[i] {
                (StateKey::ClassHashAt(a), v) => {
                    out.push((a, v));
                },
                _ => {},
            }
            i = i + 1;
        }
        assert(self.entries@.subrange(0, i as int) =~= self.entries@);
        out
    }

    /// The new class declarations, with their compiled class hashes.
    pub fn declared_classes(&self) -> (r: Vec<(ClassHash, Felt)>)
        ensures
            r@ == declared_part(self.entries@),
    {
        let mut out: Vec<(ClassHash, Felt)> = Vec::new();
        let mut i: usize = 0;
        while i < self.entries.len()
            invariant
                i <= self.entries@.len(),
                out@ == declared_part(self.entries@.subrange(0, i as int)),
            decreases self.entries@.len() - i,
        {
            assert(self.entries@.subrange(0, i + 1).drop_last() =~= self.entries@.subrange(0, i as int));
            match self.entries[i] {
                (StateKey::CompiledClassHash(c), v) => {
                    out.push((c, v));
                },
                _ => {},
            }
            i = i + 1;
        }
        assert(self.entries@.subrange(0, i as int) =~= self.entries@);
        out
    }

    /// The changed storage cells.
    pub fn storage_diffs(&self) -> (r: Vec<(Address, StorageKey, Felt)>)
        ensures
            r@ == storage_part(self.entries@),
    {
        let mut out: Vec<(Address, StorageKey, Felt)> = Vec::new();
        let mut i: usize = 0;
        while i < self.entries.len()
            invariant
                i <= self.entries@.len(),
                out@ == storage_part(self.entries@.subrange(0, i as int)),
            decreases self.entries@.len() - i,
        {
            assert(self.entries@.subrange(0, i + 1).drop_last() =~= self.entries@.subrange(0, i as int));
            match self.entries[i] {
                (StateKey::Storage(a, k), v) => {
                    out.push((a, k, v));
                },
                _ => {},
            }
            i = i + 1;
        }
        assert(self.entries@.subrange(0, i as int) =~= self.entries@);
        out
    }

    /// The new nonces.
    pub fn nonces(&self) -> (r: Vec<(Address, Nonce)>)
        ensures
            r@ == nonce_part(self.entries@),
    {
        let mut out: Vec<(Address, Nonce)> = Vec::new();
        let mut i: usize = 0;
        while i < self.entries.len()
            invariant
                i <= self.entries@.len(),
                out@ == nonce_part(self.entries@.subrange(0, i as int)),
            decreases self.entries@.len() - i,
        {
            assert(self.entries@.subrange(0, i + 1).drop_last() =~= self.entries@.subrange(0, i as int));
            match self.entries[i] {
                (StateKey::Nonce(a), v) => {
                    out.push((a, v));
                },
                _ => {},
            }
            i = i + 1;
        }
        assert(self.entries@.subrange(0, i as int) =~= self.entries@);
        out
    }
}

/// Whether `k` is written anywhere in `v` from index `start` on.
fn occurs_from(v: &Vec<(StateKey, Felt)>, start: usize, k: StateKey) -> (r: bool)
    requires
        start <= v@.len(),
    ensures
        r == latest(v@.subrange(start as int, v@.len() as int), k) is Some,
{
    let ghost s = v@.subrange(start as int, v@.len() as int);
    proof {
        lemma_latest_some(s, k);
    }
    let mut j: usize = start;
    while j < v.len()
        invariant
            start <= j <= v@.len(),
            s == v@.subrange(start as int, v@.len() as int),
            forall|t: int| start <= t < j ==> v@[t].0 != k,
        decreases v@.len() - j,
    {
        if v[j].0 == k {
            assert(s[j - start] == v@[j as int]);
            proof {
                lemma_latest_some(s, k);
            }
            return true;
        }
        j = j + 1;
    }
    assert forall|t: int| 0 <= t < s.len() implies s[t].0 != k by {
        assert(s[t] == v@[t + start]);
    }
    false
}

/// A memoizing read cache and a checkpointed write overlay over a reader.
pub struct CachedState {
    reader: DictStateReader,
    cache: Vec<(StateKey, Option<Felt>)>,
    writes: Vec<(StateKey, Felt)>,
    checkpoints: Vec<usize>,
}

impl CachedState {
    /// The committed baseline.
    pub closed spec fn base(&self) -> Seq<(StateKey, Felt)> {
        self.reader.entries()
    }

    /// The overlay, as the sequence of writes still in effect.
    pub closed spec fn log(&self) -> Seq<(StateKey, Felt)> {
        self.writes@
    }

    /// The overlay length at which each open checkpoint was opened.
    pub closed spec fn markers(&self) -> Seq<usize> {
        self.checkpoints@
    }

    /// The keys the reader was asked for, in order.
    pub closed spec fn reads(&self) -> Seq<StateKey> {
        self.reader.reads()
    }

    /// What a cell holds as seen through the overlay.
    pub open spec fn view_of(&self, k: StateKey) -> Option<Felt> {
        visible(self.base(), self.log(), k)
    }

    pub closed spec fn wf(&self) -> bool {
        &&& self.cache@.len() == self.reader.reads().len()
        &&& forall|i: int| 0 <= i < self.cache@.len() ==> {
            &&& self.cache@[i].0 == self.reader.reads()[i]
            &&& self.cache@[i].1 == committed_value(self.reader.entries(), self.cache@[i].0)
        }
        &&& self.reader.reads().no_duplicates()
        &&& forall|i: int| 0 <= i < self.checkpoints@.len() ==> self.checkpoints@[i] <= self.writes@.len()
        &&& forall|i: int, j: int| 0 <= i <= j < self.checkpoints@.len() ==> self.checkpoints@[i] <= self.checkpoints@[j]
    }

    /// A well-formed state never asks its reader twice for one key.
    pub proof fn lemma_reads_distinct(&self)
        requires
            self.wf(),
        ensures
            self.reads().no_duplicates(),
    {
    }

    /// A state over `reader` with an empty overlay and no checkpoint.
    pub fn from_reader(reader: DictStateReader) -> (r: CachedState)
        requires
            reader.reads().len() == 0,
        ensures
            r.wf(),
            r.base() == reader.entries(),
            r.log().len() == 0,
            r.markers().len() == 0,
            r.reads().len() == 0,
    {
        CachedState { reader, cache: Vec::new(), writes: Vec::new(), checkpoints: Vec::new() }
    }

    /// How many lookups the underlying reader served.
    pub fn reader_read_count(&self) -> (r: usize)
        ensures
            r == self.reads().len(),
    {
        self.reader.read_count()
    }

    /// The committed value of `k`, asking the reader only on the first lookup.
    fn committed(&mut self, k: StateKey) -> (r: Option<Felt>)
        requires
            old(self).wf(),
        ensures
            final(self).wf(),
            r == committed_value(old(self).base(), k),
            final(self).base() == old(self).base(),
            final(self).log() == old(self).log(),
            final(self).markers() == old(self).markers(),
            final(self).reads() == old(self).reads() || (!old(self).reads().contains(k)
                && final(self).reads() == old(self).reads().push(k)),
    {
        let mut i: usize = 0;
        while i < self.cache.len()
            invariant
                i <= self.cache@.len(),
                forall|j: int| 0 <= j < i ==> self.cache@[j].0 != k,
                *self == *old(self),
                self.wf(),
            decreases self.cache@.len() - i,
        {
            if self.cache[i].0 == k {
                assert(self.cache@[i as int].0 == self.reader.reads()[i as int]);
                assert(self.cache@[i as int].1 == committed_value(self.reader.entries(), self.cache@[i as int].0));
                return self.cache[i].1;
            }
            i = i + 1;
        }
        assert(!self.reader.reads().contains(k)) by {
            if self.reader.reads().contains(k) {
                let j = choose|j: int| 0 <= j < self.reader.reads().len() && self.reader.reads()[j] == k;
                assert(self.cache@[j].0 == k);
            }
        }
        let v = self.reader.get(k);
        self.cache.push((k, v));
        v
    }

    /// Reads `k` through the overlay: `Err(ClassNotFound)` for an undeclared class.
    pub fn get(&mut self, k: StateKey) -> (r: Result<Felt, StateError>)
        requires
            old(self).wf(),
        ensures
            final(self).wf(),
            r == (match old(self).view_of(k) {
                Some(v) => Ok(v),
                None => Err(StateError::ClassNotFound),
            }),
            final(self).base() == old(self).base(),
            final(self).log() == old(self).log(),
            final(self).markers() == old(self).markers(),
            final(self).reads() == old(self).reads() || (!old(self).reads().contains(k)
                && final(self).reads() == old(self).reads().push(k)),
    {
        match find_latest(&self.writes, k) {
            Some(v) => Ok(v),
            None => match self.committed(k) {
                Some(v) => Ok(v),
                None => Err(StateError::ClassNotFound),
            },
        }
    }

    /// Writes `v` to `k` in the overlay.
    pub fn set(&mut self, k: StateKey, v: Felt)
        requires
            old(self).wf(),
        ensures
            final(self).wf(),
            final(self).base() == old(self).base(),
            final(self).log() == old(self).log().push((k, v)),
            final(self).markers() == old(self).markers(),
            final(self).reads() == old(self).reads(),
    {
        self.writes.push((k, v));
    }

    /// The storage value at `(address, key)`.
    pub fn get_storage_at(&mut self, address: Address, key: StorageKey) -> (r: Felt)
        requires
            old(self).wf(),
        ensures
            final(self).wf(),
            Some(r) == old(self).view_of(StateKey::Storage(address, key)),
            final(self).base() == old(self).base(),
            final(self).log() == old(self).log(),
            final(self).markers() == old(self).markers(),
    {
        match self.get(StateKey::Storage(address, key)) {
            Ok(v) => v,
            Err(_) => 0,
        }
    }

    /// The nonce of `address`.
    pub fn get_nonce_at(&mut self, address: Address) -> (r: Nonce)
        requires
            old(self).wf(),
        ensures
            final(self).wf(),
            Some(r) == old(self).view_of(StateKey::Nonce(address)),
            final(self).base() == old(self).base(),
            final(self).log() == old(self).log(),
            final(self).markers() == old(self).markers(),
    {
        match self.get(StateKey::Nonce(address)) {
            Ok(v) => v,
            Err(_) => 0,
        }
    }

    /// The class hash `address` is bound to.
    pub fn get_class_hash_at(&mut self, address: Address) -> (r: ClassHash)
        requires
            old(self).wf(),
        ensures
            final(self).wf(),
            Some(r) == old(self).view_of(StateKey::ClassHashAt(address)),
            final(self).base() == old(self).base(),
            final(self).log() == old(self).log(),
            final(self).markers() == old(self).markers(),
    {
        match self.get(StateKey::ClassHashAt(address)) {
            Ok(v) => v,
            Err(_) => 0,
        }
    }

    /// The compiled class hash of a declared class.
    pub fn get_compiled_class_hash(&mut self, class_hash: ClassHash) -> (r: Result<Felt, StateError>)
        requires
            old(self).wf(),
        ensures
            final(self).wf(),
            r == (match old(self).view_of(StateKey::CompiledClassHash(class_hash)) {
                Some(v) => Ok(v),
                None => Err(StateError::ClassNotFound),
            }),
            final(self).base() == old(self).base(),
            final(self).log() == old(self).log(),
            final(self).markers() == old(self).markers(),
    {
        self.get(StateKey::CompiledClassHash(class_hash))
    }

    /// Opens a checkpoint at the current overlay.
    pub fn begin(&mut self) -> (h: CheckpointHandle)
        requires
            old(self).wf(),
        ensures
            final(self).wf(),
            h.depth == old(self).markers().len(),
            old(self).log().len() <= usize::MAX,
            final(self).markers() == old(self).markers().push(old(self).log().len() as usize),
            final(self).base() == old(self).base(),
            final(self).log() == old(self).log(),
            final(self).reads() == old(self).reads(),
    {
        let h = CheckpointHandle { depth: self.checkpoints.len() };
        self.checkpoints.push(self.writes.len());
        h
    }

    /// Discards every write made since checkpoint `h`, which must be the innermost.
    pub fn abort(&mut self, h: CheckpointHandle) -> (r: Result<(), StateError>)
        requires
            old(self).wf(),
        ensures
            final(self).wf(),
            final(self).base() == old(self).base(),
            final(self).reads() == old(self).reads(),
            r is Ok <==> h.depth + 1 == old(self).markers().len(),
            r is Ok ==> final(self).log() == old(self).log().subrange(0, old(self).markers().last() as int)
                && final(self).markers() == old(self).markers().drop_last(),
            r is Err ==> r == Err::<(), StateError>(StateError::InvalidCheckpoint)
                && final(self).log() == old(self).log() && final(self).markers() == old(self).markers(),
    {
        if self.checkpoints.len() == 0 || h.depth != self.checkpoints.len() - 1 {
            return Err(StateError::InvalidCheckpoint);
        }
        let ghost marks = self.checkpoints@;
        let m = self.checkpoints.pop().unwrap();
        assert(m == marks.last());
        assert(self.checkpoints@ =~= marks.drop_last());
        assert forall|i: int| 0 <= i < self.checkpoints@.len() implies self.checkpoints@[i] <= m by {
            assert(marks[i] <= marks[marks.len() - 1]);
        }
        self.writes.truncate(m);
        Ok(())
    }

    /// Closes checkpoint `h`, which must be the innermost, keeping its writes.
    pub fn commit(&mut self, h: CheckpointHandle) -> (r: Result<(), StateError>)
        requires
            old(self).wf(),
        ensures
            final(self).wf(),
            final(self).base() == old(self).base(),
            final(self).reads() == old(self).reads(),
            final(self).log() == old(self).log(),
            r is Ok <==> h.depth + 1 == old(self).markers().len(),
            r is Ok ==> final(self).markers() == old(self).markers().drop_last(),
            r is Err ==> r == Err::<(), StateError>(StateError::InvalidCheckpoint)
                && final(self).markers() == old(self).markers(),
    {
        if self.checkpoints.len() == 0 || h.depth != self.checkpoints.len() - 1 {
            return Err(StateError::InvalidCheckpoint);
        }
        self.checkpoints.pop();
        Ok(())
    }

    /// The cells whose overlay value differs from the committed baseline,
    /// each with its final value.
    pub fn to_state_diff(&mut self) -> (d: StateDiff)
        requires
            old(self).wf(),
        ensures
            final(self).wf(),
            final(self).base() == old(self).base(),
            final(self).log() == old(self).log(),
            final(self).markers() == old(self).markers(),
            unique_keys(d.entries@),
            forall|k: StateKey| latest(d.entries@, k) == diff_value(old(self).base(), old(self).log(), k),
    {
        let ghost base = self.base();
        let ghost log = self.log();
        let n = self.writes.len();
        let mut out: Vec<(StateKey, Felt)> = Vec::new();
        let mut i: usize = n;
        assert(log.subrange(n as int, n as int) =~= Seq::<(StateKey, Felt)>::empty());
        while i > 0
            invariant
                i <= n == log.len(),
                self.wf(),
                self.base() == base,
                self.log() == log,
                self.markers() == old(self).markers(),
                unique_keys(out@),
                forall|j: int| 0 <= j < out@.len() ==> latest(log.subrange(i as int, n as int), #[trigger] out@[j].0) is Some,
                forall|k: StateKey| #[trigger] latest(out@, k) == if latest(log.subrange(i as int, n as int), k) is Some {
                    diff_value(base, log, k)
                } else {
                    None
                },
            decreases i,
        {
            let e = self.writes[i - 1];
            let ghost old_suffix = log.subrange(i as int, n as int);
            let ghost suffix = log.subrange(i - 1, n as int);
            assert(suffix =~= seq![e] + old_suffix);
            assert(log =~= log.subrange(0, i - 1) + suffix);
            assert forall|k: StateKey| #[trigger] latest(suffix, k) == (match latest(old_suffix, k) {
                Some(v) => Some(v),
                None => latest(seq![e], k),
            }) by {
                lemma_latest_concat(seq![e], old_suffix, k);
            }
            assert forall|k: StateKey| latest(suffix, k) is Some implies #[trigger] latest(log, k) == latest(suffix, k) by {
                lemma_latest_concat(log.subrange(0, i - 1), suffix, k);
            }
            assert(latest(seq![e], e.0) == Some(e.1)) by {
                reveal_with_fuel(latest, 2);
            }
            assert forall|k: StateKey| k != e.0 implies #[trigger] latest(seq![e], k) is None by {
                reveal_with_fuel(latest, 2);
            }
            let ghost out0 = out@;
            let seen = occurs_from(&self.writes, i, e.0);
            if !seen {
                let b = self.committed(e.0);
                if b != Some(e.1) {
                    out.push((e.0, e.1));
                    assert(out@.drop_last() =~= out0);
                    proof {
                        lemma_latest_some(out0, e.0);
                    }
                    assert forall|j: int| 0 <= j < out@.len() - 1 implies out@[j].0 != e.0 by {
                        assert(out0[j] == out@[j]);
                        if out0[j].0 == e.0 {
                            assert(latest(old_suffix, out0[j].0) is Some);
                        }
                    }
                }
            }
            assert forall|k: StateKey| #[trigger] latest(out@, k) == if latest(suffix, k) is Some {
                diff_value(base, log, k)
            } else {
                None
            } by {
                if out@.len() > out0.len() {
                    assert(out@.drop_last() =~= out0);
                }
                if k == e.0 {
                    lemma_latest_some(out0, k);
                    if latest(out0, k) is Some {
                        let j = choose|j: int| 0 <= j < out0.len() && out0[j].0 == k;
                        assert(latest(old_suffix, out0[j].0) is Some);
                    }
                }
            }
            i = i - 1;
        }
        assert(log.subrange(0, n as int) =~= log);
        StateDiff { entries: out }
    }
}

} // verus!
