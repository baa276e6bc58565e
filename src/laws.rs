use vstd::prelude::*;
use crate::cached_state::CachedState;
use crate::pipeline::{
    balance_cell, bumped_log, executed_log, nonce_before, tx_final_log, tx_outcome, validated_log,
    Transaction, TxError,
};
use crate::types::{committed_value, diff_value, latest, lemma_latest_concat, visible, Felt, StateKey};

verus! {

/// Two reads of one key with no write between them agree, and a well-formed
/// state has asked its reader for each key at most once.
pub proof fn lemma_reads_repeatable(before: CachedState, after: CachedState, k: StateKey)
    requires
        after.wf(),
        after.base() == before.base(),
        after.log() == before.log(),
    ensures
        after.view_of(k) == before.view_of(k),
        after.reads().no_duplicates(),
{
    after.lemma_reads_distinct();
}

/// Aborting a checkpoint restores every cell to what it held when the
/// checkpoint was opened, whatever was written since.
pub proof fn lemma_abort_restores(
    base: Seq<(StateKey, Felt)>,
    log: Seq<(StateKey, Felt)>,
    writes: Seq<(StateKey, Felt)>,
    k: StateKey,
)
    ensures
        visible(base, (log + writes).subrange(0, log.len() as int), k) == visible(base, log, k),
{
    assert((log + writes).subrange(0, log.len() as int) =~= log);
}

/// After a write and a commit, the parent scope reads the written value.
pub proof fn lemma_commit_keeps_write(base: Seq<(StateKey, Felt)>, log: Seq<(StateKey, Felt)>, k: StateKey, v: Felt)
    ensures
        visible(base, log.push((k, v)), k) == Some(v),
{
}

/// Writing a cell's committed value leaves no diff entry for it.
pub proof fn lemma_noop_write_excluded(base: Seq<(StateKey, Felt)>, log: Seq<(StateKey, Felt)>, k: StateKey, v: Felt)
    requires
        committed_value(base, k) == Some(v),
    ensures
        diff_value(base, log.push((k, v)), k) is None,
{
}

/// When validation passes and execution fails, the transaction is included as
/// reverted, the nonce bump stays, and a cell written only by the execution
/// phase keeps the diff entry it had before the transaction.
pub proof fn lemma_nonce_survives_revert(base: Seq<(StateKey, Felt)>, log: Seq<(StateKey, Felt)>, tx: Transaction, k: StateKey)
    requires
        tx.validate_ok,
        !tx.execute_ok,
        tx_outcome(base, log, tx) is Ok,
    ensures
        tx_outcome(base, log, tx).unwrap().reverted,
        visible(base, tx_final_log(base, log, tx), StateKey::Nonce(tx.sender))
            == Some((nonce_before(base, log, tx) + 1) as Felt),
        latest(tx.validate_writes@, k) is None && k != StateKey::Nonce(tx.sender) && k != balance_cell(tx)
            ==> diff_value(base, tx_final_log(base, log, tx), k) == diff_value(base, log, k),
{
    let fin = tx_final_log(base, log, tx);
    assert(fin == bumped_log(base, log, tx).push(fin.last()));
    assert(fin.drop_last() == bumped_log(base, log, tx));
    let b = bumped_log(base, log, tx);
    assert(b.drop_last() == validated_log(base, log, tx));
    assert(latest(b, StateKey::Nonce(tx.sender)) == Some((nonce_before(base, log, tx) + 1) as Felt));
    assert(latest(fin, StateKey::Nonce(tx.sender)) == latest(b, StateKey::Nonce(tx.sender)));
    lemma_latest_concat(log, tx.validate_writes@, k);
    if latest(tx.validate_writes@, k) is None && k != StateKey::Nonce(tx.sender) && k != balance_cell(tx) {
        assert(latest(fin, k) == latest(b, k));
        assert(latest(b, k) == latest(validated_log(base, log, tx), k));
    }
}

/// An unpayable fee excludes the transaction and undoes all of it, the nonce
/// bump included: the overlay, and so the diff, is as before.
pub proof fn lemma_unpayable_undoes_all(base: Seq<(StateKey, Felt)>, log: Seq<(StateKey, Felt)>, tx: Transaction, k: StateKey)
    requires
        tx_outcome(base, log, tx) == Err::<crate::pipeline::TxOutcome, TxError>(TxError::InsufficientBalance),
    ensures
        tx_final_log(base, log, tx) == log,
        diff_value(base, tx_final_log(base, log, tx), k) == diff_value(base, log, k),
        visible(base, tx_final_log(base, log, tx), StateKey::Nonce(tx.sender))
            == visible(base, log, StateKey::Nonce(tx.sender)),
{
}

} // verus!
