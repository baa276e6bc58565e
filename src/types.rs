use vstd::prelude::*;

verus! {

/// A field-element scalar: balances, storage values, nonces, hashes.
pub type Felt = u128;

/// Identifies a contract instance.
pub type Address = u128;

/// Identifies a declared contract class.
pub type ClassHash = u128;

/// A slot within one address's storage space.
pub type StorageKey = u128;

/// A per-address counter.
pub type Nonce = u128;

/// One cell of ledger state, in one of the four key spaces.
#[derive(Clone, Copy, Debug, PartialEq, Eq, Structural)]
pub enum StateKey {
    /// A storage slot of a contract.
    Storage(Address, StorageKey),
    /// The nonce of an address.
    Nonce(Address),
    /// The class an address is bound to.
    ClassHashAt(Address),
    /// The compiled class hash of a declared class.
    CompiledClassHash(ClassHash),
}

/// Failures of the state layer.
#[derive(Clone, Copy, Debug, PartialEq, Eq, Structural)]
pub enum StateError {
    /// A class lookup for a class that was never declared.
    ClassNotFound,
    /// A checkpoint closed out of LIFO order.
    InvalidCheckpoint,
}

/// The value a cell holds when nothing was ever written to it: zero for every
/// key space but class declarations, which are absent.
pub open spec fn default_of(k: StateKey) -> Option<Felt> {
    match k {
        StateKey::CompiledClassHash(_) => None,
        _ => Some(0),
    }
}

/// The most recent value that a sequence of writes gives `k`, if any.
pub open spec fn latest(log: Seq<(StateKey, Felt)>, k: StateKey) -> Option<Felt>
    decreases log.len(),
{
    if log.len() == 0 {
        None
    } else if log.last().0 == k {
        Some(log.last().1)
    } else {
        latest(log.drop_last(), k)
    }
}

/// What a cell holds after `log` is applied on top of `base`.
pub open spec fn visible(base: Seq<(StateKey, Felt)>, log: Seq<(StateKey, Felt)>, k: StateKey) -> Option<Felt> {
    match latest(log, k) {
        Some(v) => Some(v),
        None => committed_value(base, k),
    }
}

/// What a cell holds in committed state given by a sequence of entries.
pub open spec fn committed_value(base: Seq<(StateKey, Felt)>, k: StateKey) -> Option<Felt> {
    match latest(base, k) {
        Some(v) => Some(v),
        None => default_of(k),
    }
}

/// `visible`, with an absent value read as zero.
pub open spec fn visible_felt(base: Seq<(StateKey, Felt)>, log: Seq<(StateKey, Felt)>, k: StateKey) -> Felt {
    match visible(base, log, k) {
        Some(v) => v,
        None => 0,
    }
}

/// The diff entry for `k`: its final written value, where that differs from
/// the committed baseline.
pub open spec fn diff_value(base: Seq<(StateKey, Felt)>, log: Seq<(StateKey, Felt)>, k: StateKey) -> Option<Felt> {
    match latest(log, k) {
        Some(v) => if committed_value(base, k) != Some(v) { Some(v) } else { None },
        None => None,
    }
}

/// No key occurs twice.
pub open spec fn unique_keys(s: Seq<(StateKey, Felt)>) -> bool {
    forall|i: int, j: int| 0 <= i < j < s.len() ==> s[i].0 != s[j].0
}

/// The latest write to `k` in `a + b` is the one in `b`, if `b` has one.
pub proof fn lemma_latest_concat(a: Seq<(StateKey, Felt)>, b: Seq<(StateKey, Felt)>, k: StateKey)
    ensures
        latest(a + b, k) == (match latest(b, k) {
            Some(v) => Some(v),
            None => latest(a, k),
        }),
    decreases b.len(),
{
    if b.len() == 0 {
        assert(a + b =~= a);
    } else {
        assert((a + b).drop_last() =~= a + b.drop_last());
        lemma_latest_concat(a, b.drop_last(), k);
    }
}

/// A key has a latest value exactly when some write touches it.
pub proof fn lemma_latest_some(s: Seq<(StateKey, Felt)>, k: StateKey)
    ensures
        latest(s, k) is Some <==> exists|j: int| 0 <= j < s.len() && s[j].0 == k,
    decreases s.len(),
{
    if s.len() > 0 {
        lemma_latest_some(s.drop_last(), k);
        if exists|j: int| 0 <= j < s.len() && s[j].0 == k {
            let j = choose|j: int| 0 <= j < s.len() && s[j].0 == k;
            if j < s.len() - 1 {
                assert(s.drop_last()[j].0 == k);
            }
        }
        if exists|j: int| 0 <= j < s.len() - 1 && s.drop_last()[j].0 == k {
            let j = choose|j: int| 0 <= j < s.len() - 1 && s.drop_last()[j].0 == k;
            assert(s[j].0 == k);
        }
    }
}

/// Finds the most recent value written to `k` in `log`.
pub fn find_latest(log: &Vec<(StateKey, Felt)>, k: StateKey) -> (r: Option<Felt>)
    ensures
        r == latest(log@, k),
{
    let mut i: usize = log.len();
    assert(log@.subrange(0, i as int) =~= log@);
    while i > 0
        invariant
            i <= log.len(),
            latest(log@, k) == latest(log@.subrange(0, i as int), k),
        decreases i,
    {
        let e = log[i - 1];
        if e.0 == k {
            return Some(e.1);
        }
        assert(log@.subrange(0, i - 1) =~= log@.subrange(0, i as int).drop_last());
        i = i - 1;
    }
    None
}

} // verus!
