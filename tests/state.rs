use blockifier::cached_state::{CachedState, CheckpointHandle};
use blockifier::constants::{
    CALL_CONTRACT_CALLDATA_INDEX, EXECUTE_ENTRY_POINT_SELECTOR, VALIDATE_ENTRY_POINT_SELECTOR,
};
use blockifier::fixtures::{test_state, BlockContext, CairoVersion, FeatureContract};
use blockifier::pipeline::{execute_transaction, Transaction, TxError, TxOutcome};
use blockifier::reader::DictStateReader;
use blockifier::types::{StateError, StateKey};

const FEE_TOKEN: u128 = 0xfee;
const SENDER: u128 = 0x5e;
const CONTRACT: u128 = 0xc0;
const KEY: u128 = 0x4b;

fn base_state() -> CachedState {
    let mut reader = DictStateReader::new();
    reader.insert(StateKey::Storage(FEE_TOKEN, SENDER), 1000);
    reader.insert(StateKey::Nonce(SENDER), 0);
    CachedState::from_reader(reader)
}

fn tx(execute_ok: bool, fee: u128) -> Transaction {
    Transaction {
        sender: SENDER,
        fee_token: FEE_TOKEN,
        validate_ok: true,
        validate_writes: Vec::new(),
        execute_ok,
        execute_writes: vec![(StateKey::Storage(CONTRACT, KEY), 5)],
        fee,
    }
}

#[test]
fn repeated_reads_hit_the_reader_once() {
    let mut state = base_state();
    assert_eq!(state.get_storage_at(FEE_TOKEN, SENDER), 1000);
    assert_eq!(state.get_storage_at(FEE_TOKEN, SENDER), 1000);
    assert_eq!(state.get_storage_at(CONTRACT, KEY), 0);
    assert_eq!(state.get_storage_at(CONTRACT, KEY), 0);
    assert_eq!(state.reader_read_count(), 2);
    state.set(StateKey::Storage(CONTRACT, KEY), 9);
    assert_eq!(state.get_storage_at(CONTRACT, KEY), 9);
    assert_eq!(state.reader_read_count(), 2);
}

#[test]
fn abort_restores_prior_values() {
    let mut state = base_state();
    state.set(StateKey::Storage(CONTRACT, KEY), 3);
    let h = state.begin();
    state.set(StateKey::Storage(CONTRACT, KEY), 7);
    state.set(StateKey::Storage(CONTRACT, KEY + 1), 8);
    assert_eq!(state.abort(h), Ok(()));
    assert_eq!(state.get_storage_at(CONTRACT, KEY), 3);
    assert_eq!(state.get_storage_at(CONTRACT, KEY + 1), 0);
}

#[test]
fn abort_after_inner_commit_discards_inner_writes() {
    let mut state = base_state();
    let outer = state.begin();
    let inner = state.begin();
    state.set(StateKey::Nonce(CONTRACT), 4);
    assert_eq!(state.commit(inner), Ok(()));
    assert_eq!(state.get_nonce_at(CONTRACT), 4);
    assert_eq!(state.abort(outer), Ok(()));
    assert_eq!(state.get_nonce_at(CONTRACT), 0);
}

#[test]
fn commit_keeps_writes() {
    let mut state = base_state();
    let h = state.begin();
    state.set(StateKey::Storage(CONTRACT, KEY), 7);
    assert_eq!(state.commit(h), Ok(()));
    assert_eq!(state.get_storage_at(CONTRACT, KEY), 7);
    assert_eq!(state.to_state_diff().get(StateKey::Storage(CONTRACT, KEY)), Some(7));
}

#[test]
fn out_of_order_close_is_refused() {
    let mut state = base_state();
    let outer = state.begin();
    let _inner = state.begin();
    assert_eq!(state.abort(outer), Err(StateError::InvalidCheckpoint));
    assert_eq!(state.commit(outer), Err(StateError::InvalidCheckpoint));
    assert_eq!(state.commit(CheckpointHandle { depth: 5 }), Err(StateError::InvalidCheckpoint));
}

#[test]
fn undeclared_class_is_not_found() {
    let mut state = base_state();
    assert_eq!(state.get_compiled_class_hash(0x77), Err(StateError::ClassNotFound));
    state.set(StateKey::CompiledClassHash(0x77), 0x99);
    assert_eq!(state.get_compiled_class_hash(0x77), Ok(0x99));
    assert_eq!(state.get_class_hash_at(0x77), 0);
}

#[test]
fn noop_write_is_not_in_diff() {
    let mut state = base_state();
    state.set(StateKey::Storage(FEE_TOKEN, SENDER), 1000);
    state.set(StateKey::Storage(CONTRACT, KEY), 0);
    state.set(StateKey::Nonce(SENDER), 2);
    let diff = state.to_state_diff();
    assert_eq!(diff.len(), 1);
    assert_eq!(diff.get(StateKey::Storage(FEE_TOKEN, SENDER)), None);
    assert_eq!(diff.get(StateKey::Nonce(SENDER)), Some(2));
}

#[test]
fn last_write_decides_diff_entry() {
    let mut state = base_state();
    state.set(StateKey::Storage(CONTRACT, KEY), 4);
    state.set(StateKey::Storage(CONTRACT, KEY), 0);
    state.set(StateKey::Storage(CONTRACT, KEY + 1), 1);
    state.set(StateKey::Storage(CONTRACT, KEY + 1), 2);
    let diff = state.to_state_diff();
    assert_eq!(diff.len(), 1);
    assert_eq!(diff.get(StateKey::Storage(CONTRACT, KEY)), None);
    assert_eq!(diff.get(StateKey::Storage(CONTRACT, KEY + 1)), Some(2));
}

#[test]
fn successful_transaction_diff() {
    let mut state = base_state();
    let r = execute_transaction(&mut state, &tx(true, 50));
    assert_eq!(r, Ok(TxOutcome { fee_charged: 50, reverted: false }));
    let diff = state.to_state_diff();
    assert_eq!(diff.len(), 3);
    assert_eq!(diff.get(StateKey::Storage(FEE_TOKEN, SENDER)), Some(950));
    assert_eq!(diff.get(StateKey::Storage(CONTRACT, KEY)), Some(5));
    assert_eq!(diff.get(StateKey::Nonce(SENDER)), Some(1));
}

#[test]
fn reverted_execution_still_pays_fee() {
    let mut state = base_state();
    let r = execute_transaction(&mut state, &tx(false, 50));
    assert_eq!(r, Ok(TxOutcome { fee_charged: 50, reverted: true }));
    let diff = state.to_state_diff();
    assert_eq!(diff.len(), 2);
    assert_eq!(diff.get(StateKey::Storage(FEE_TOKEN, SENDER)), Some(950));
    assert_eq!(diff.get(StateKey::Storage(CONTRACT, KEY)), None);
    assert_eq!(diff.get(StateKey::Nonce(SENDER)), Some(1));
    assert_eq!(state.get_nonce_at(SENDER), 1);
}

#[test]
fn unpayable_fee_undoes_nonce_bump() {
    let mut state = base_state();
    let r = execute_transaction(&mut state, &tx(true, 1001));
    assert_eq!(r, Err(TxError::InsufficientBalance));
    assert_eq!(state.to_state_diff().len(), 0);
    assert_eq!(state.get_nonce_at(SENDER), 0);
    assert_eq!(state.get_storage_at(FEE_TOKEN, SENDER), 1000);
}

#[test]
fn failed_validation_is_excluded() {
    let mut state = base_state();
    let mut t = tx(true, 50);
    t.validate_ok = false;
    t.validate_writes = vec![(StateKey::Storage(SENDER, 1), 1)];
    assert_eq!(execute_transaction(&mut state, &t), Err(TxError::ValidationFailed));
    assert_eq!(state.to_state_diff().len(), 0);
}

#[test]
fn nonce_overflow_is_excluded() {
    let mut state = base_state();
    state.set(StateKey::Nonce(SENDER), u128::MAX);
    assert_eq!(execute_transaction(&mut state, &tx(true, 50)), Err(TxError::NonceOverflow));
    assert_eq!(state.get_nonce_at(SENDER), u128::MAX);
}

#[test]
fn validation_writes_survive_execution_revert() {
    let mut state = base_state();
    let mut t = tx(false, 10);
    t.validate_writes = vec![(StateKey::Storage(SENDER, 1), 6)];
    assert_eq!(execute_transaction(&mut state, &t), Ok(TxOutcome { fee_charged: 10, reverted: true }));
    assert_eq!(state.get_storage_at(SENDER, 1), 6);
    assert_eq!(state.get_storage_at(FEE_TOKEN, SENDER), 990);
}

#[test]
fn fixture_state_declares_and_funds() {
    let bc = BlockContext { eth_fee_token_address: 0x1001, strk_fee_token_address: 0x1002 };
    let long = FeatureContract::AccountWithLongValidate(CairoVersion::Cairo1);
    let mut state = test_state(&bc, 500, &[(long, 2), (FeatureContract::Empty(CairoVersion::Cairo0), 1)]);
    let erc20 = FeatureContract::ERC20.get_class_hash();
    assert_eq!(state.get_class_hash_at(0x1001), erc20);
    assert_eq!(state.get_class_hash_at(0x1002), erc20);
    let acct = FeatureContract::AccountWithoutValidations(CairoVersion::Cairo0);
    let acct_addr = acct.get_instance_address(0);
    assert_eq!(state.get_class_hash_at(acct_addr), acct.get_class_hash());
    assert_eq!(state.get_storage_at(0x1001, acct_addr), 500);
    for i in 0..2u8 {
        let a = long.get_instance_address(i);
        assert_eq!(state.get_class_hash_at(a), long.get_class_hash());
        assert_eq!(state.get_storage_at(0x1002, a), 500);
    }
    assert_eq!(state.get_storage_at(0x1002, long.get_instance_address(2)), 0);
    let empty = FeatureContract::Empty(CairoVersion::Cairo0);
    assert_eq!(state.get_storage_at(0x1001, empty.get_instance_address(0)), 0);
    assert_eq!(state.get_compiled_class_hash(empty.get_class_hash()), Ok(empty.get_class()));
    assert_ne!(long.get_instance_address(0), empty.get_instance_address(0));
    assert_eq!(state.to_state_diff().len(), 0);
}

#[test]
fn wire_constants() {
    assert_eq!(CALL_CONTRACT_CALLDATA_INDEX, 3);
    assert_eq!(
        EXECUTE_ENTRY_POINT_SELECTOR,
        "0x15d40a3d6ca2ac30f4031e42be28da9b056fef9bb7357ac5e85627ee876e5ad"
    );
    assert_eq!(
        VALIDATE_ENTRY_POINT_SELECTOR,
        "0x162da33a4585851fe8d3af3c2a9c60b557814e221e0d4f30ff0b2189d9c7775"
    );
}

#[test]
fn diff_splits_into_key_spaces() {
    let mut state = base_state();
    state.set(StateKey::ClassHashAt(CONTRACT), 0xaa);
    state.set(StateKey::CompiledClassHash(0xaa), 0xbb);
    state.set(StateKey::Storage(CONTRACT, KEY), 5);
    state.set(StateKey::Nonce(SENDER), 1);
    let diff = state.to_state_diff();
    assert_eq!(diff.deployed_contracts(), vec![(CONTRACT, 0xaa)]);
    assert_eq!(diff.declared_classes(), vec![(0xaa, 0xbb)]);
    assert_eq!(diff.storage_diffs(), vec![(CONTRACT, KEY, 5)]);
    assert_eq!(diff.nonces(), vec![(SENDER, 1)]);
}
