use vstd::prelude::*;
use crate::cached_state::CachedState;
use crate::types::{visible_felt, Address, Felt, StateKey};

verus! {

/// One transaction, with the effects its contract calls had: the writes the
/// validation entry point made and whether it accepted, the writes the
/// execution made and whether it succeeded, and the fee its resources cost.
pub struct Transaction {
    pub sender: Address,
    pub fee_token: Address,
    pub validate_ok: bool,
    pub validate_writes: Vec<(StateKey, Felt)>,
    pub execute_ok: bool,
    pub execute_writes: Vec<(StateKey, Felt)>,
    pub fee: Felt,
}

/// A transaction that was included in the block.
#[derive(Clone, Copy, Debug, PartialEq, Eq, Structural)]
pub struct TxOutcome {
    pub fee_charged: Felt,
    pub reverted: bool,
}

/// Why a transaction was excluded from the block.
#[derive(Clone, Copy, Debug, PartialEq, Eq, Structural)]
pub enum TxError {
    ValidationFailed,
    NonceOverflow,
    InsufficientBalance,
}

/// The cell holding `sender`'s balance in the fee token: the token's storage
/// slot keyed by the account's address.
pub open spec fn balance_cell(tx: Transaction) -> StateKey {
    StateKey::Storage(tx.fee_token, tx.sender)
}

/// The overlay after the validation phase's writes.
pub open spec fn validated_log(base: Seq<(StateKey, Felt)>, log: Seq<(StateKey, Felt)>, tx: Transaction) -> Seq<(StateKey, Felt)> {
    log + tx.validate_writes@
}

/// The sender's nonce as validation leaves it.
pub open spec fn nonce_before(base: Seq<(StateKey, Felt)>, log: Seq<(StateKey, Felt)>, tx: Transaction) -> Felt {
    visible_felt(base, validated_log(base, log, tx), StateKey::Nonce(tx.sender))
}

/// The overlay after the nonce bump.
pub open spec fn bumped_log(base: Seq<(StateKey, Felt)>, log: Seq<(StateKey, Felt)>, tx: Transaction) -> Seq<(StateKey, Felt)> {
    validated_log(base, log, tx).push((StateKey::Nonce(tx.sender), (nonce_before(base, log, tx) + 1) as Felt))
}

/// The overlay after the execution phase: its writes only where it succeeded.
pub open spec fn executed_log(base: Seq<(StateKey, Felt)>, log: Seq<(StateKey, Felt)>, tx: Transaction) -> Seq<(StateKey, Felt)> {
    if tx.execute_ok {
        bumped_log(base, log, tx) + tx.execute_writes@
    } else {
        bumped_log(base, log, tx)
    }
}

/// The sender's fee-token balance when the fee is charged.
pub open spec fn balance_before_fee(base: Seq<(StateKey, Felt)>, log: Seq<(StateKey, Felt)>, tx: Transaction) -> Felt {
    visible_felt(base, executed_log(base, log, tx), balance_cell(tx))
}

/// What running `tx` returns.
pub open spec fn tx_outcome(base: Seq<(StateKey, Felt)>, log: Seq<(StateKey, Felt)>, tx: Transaction) -> Result<TxOutcome, TxError> {
    if !tx.validate_ok {
        Err(TxError::ValidationFailed)
    } else if nonce_before(base, log, tx) == u128::MAX {
        Err(TxError::NonceOverflow)
    } else if balance_before_fee(base, log, tx) < tx.fee {
        Err(TxError::InsufficientBalance)
    } else {
        Ok(TxOutcome { fee_charged: tx.fee, reverted: !tx.execute_ok })
    }
}

/// The overlay that running `tx` leaves: unchanged where it was excluded.
pub open spec fn tx_final_log(base: Seq<(StateKey, Felt)>, log: Seq<(StateKey, Felt)>, tx: Transaction) -> Seq<(StateKey, Felt)> {
    if tx_outcome(base, log, tx) is Err {
        log
    } else {
        executed_log(base, log, tx).push((balance_cell(tx), (balance_before_fee(base, log, tx) - tx.fee) as Felt))
    }
}

/// Writes each of `writes` in order.
fn apply_writes(state: &mut CachedState, writes: &Vec<(StateKey, Felt)>)
    requires
        old(state).wf(),
    ensures
        final(state).wf(),
        final(state).base() == old(state).base(),
        final(state).log() == old(state).log() + writes@,
        final(state).markers() == old(state).markers(),
{
    let mut i: usize = 0;
    while i < writes.len()
        invariant
            i <= writes@.len(),
            state.wf(),
            state.base() == old(state).base(),
            state.log() == old(state).log() + writes@.subrange(0, i as int),
            state.markers() == old(state).markers(),
        decreases writes@.len() - i,
    {
        let e = writes[i];
        state.set(e.0, e.1);
        assert(writes@.subrange(0, i + 1) =~= writes@.subrange(0, i as int).push(e));
        assert(old(state).log() + writes@.subrange(0, i + 1) =~= (old(state).log() + writes@.subrange(0, i as int)).push(e));
        i = i + 1;
    }
    assert(writes@.subrange(0, i as int) =~= writes@);
}

/// Runs `tx` on `state`: validation and the nonce bump under one checkpoint,
/// execution under a nested one, then the fee charge. A failed execution
/// discards only its own writes; a failed validation or an unpayable fee
/// leaves the overlay as it was.
pub fn execute_transaction(state: &mut CachedState, tx: &Transaction) -> (r: Result<TxOutcome, TxError>)
    requires
        old(state).wf(),
    ensures
        final(state).wf(),
        final(state).base() == old(state).base(),
        final(state).markers() == old(state).markers(),
        r == tx_outcome(old(state).base(), old(state).log(), *tx),
        final(state).log() == tx_final_log(old(state).base(), old(state).log(), *tx),
{
    let ghost base = state.base();
    let ghost log0 = state.log();
    let ghost m0 = state.markers();
    let c1 = state.begin();
    assert(state.markers().last() == log0.len());
    apply_writes(state, &tx.validate_writes);
    assert(m0.push(log0.len() as usize).drop_last() =~= m0);
    assert((log0 + tx.validate_writes@).subrange(0, log0.len() as int) =~= log0);
    if !tx.validate_ok {
        let a = state.abort(c1);
        assert(a is Ok);
        assert(state.log() =~= log0);
        return Err(TxError::ValidationFailed);
    }
    let nonce = state.get_nonce_at(tx.sender);
    if nonce == u128::MAX {
        let a = state.abort(c1);
        assert(a is Ok);
        assert(state.log() =~= log0);
        return Err(TxError::NonceOverflow);
    }
    state.set(StateKey::Nonce(tx.sender), nonce + 1);
    let ghost log1 = state.log();
    assert(log1 == bumped_log(base, log0, *tx));
    assert(log1.subrange(0, log0.len() as int) =~= log0);
    let c2 = state.begin();
    let ghost m1 = state.markers();
    apply_writes(state, &tx.execute_writes);
    assert(m1.drop_last() =~= m0.push(log0.len() as usize));
    assert((log1 + tx.execute_writes@).subrange(0, log1.len() as int) =~= log1);
    let mut c2_open = true;
    if !tx.execute_ok {
        let a = state.abort(c2);
        assert(a is Ok);
        c2_open = false;
    }
    assert(state.log() == executed_log(base, log0, *tx));
    let balance = state.get_storage_at(tx.fee_token, tx.sender);
    if balance < tx.fee {
        if c2_open {
            let a = state.abort(c2);
            assert(a is Ok);
        }
        let a = state.abort(c1);
        assert(a is Ok);
        assert(state.log() =~= log0);
        return Err(TxError::InsufficientBalance);
    }
    state.set(StateKey::Storage(tx.fee_token, tx.sender), balance - tx.fee);
    if c2_open {
        let a = state.commit(c2);
        assert(a is Ok);
    }
    let a = state.commit(c1);
    assert(a is Ok);
    Ok(TxOutcome { fee_charged: tx.fee, reverted: !tx.execute_ok })
}

} // verus!
