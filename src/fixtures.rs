use vstd::prelude::*;
use crate::cached_state::CachedState;
use crate::reader::DictStateReader;
use crate::types::{Address, ClassHash, Felt, StateKey, StorageKey};

verus! {

/// The Cairo language version a fixture contract was compiled from.
#[derive(Clone, Copy, Debug, PartialEq, Eq, Structural)]
pub enum CairoVersion {
    Cairo0,
    Cairo1,
}

/// The fixture contracts a test state can declare and deploy.
#[derive(Clone, Copy, Debug, PartialEq, Eq, Structural)]
pub enum FeatureContract {
    AccountWithLongValidate(CairoVersion),
    AccountWithoutValidations(CairoVersion),
    Empty(CairoVersion),
    TestContract(CairoVersion),
    SecurityTests,
    ERC20,
}

/// The two tokens a fee can be paid in.
#[derive(Clone, Copy, Debug, PartialEq, Eq, Structural)]
pub enum FeeType {
    Eth,
    Strk,
}

/// The block-level settings a test state depends on.
#[derive(Clone, Copy, Debug, PartialEq, Eq, Structural)]
pub struct BlockContext {
    pub eth_fee_token_address: Address,
    pub strk_fee_token_address: Address,
}

/// The fee-token storage slot naming the account allowed to mint.
pub const MINTER_VAR_KEY: StorageKey = 0x6d696e7465725f7661725f6b6579;

/// The base from which fixture class hashes are numbered.
pub const CLASS_HASH_BASE: u128 = 0x1000;

/// The base from which fixture compiled class hashes are numbered.
pub const COMPILED_CLASS_HASH_BASE: u128 = 0x2000;

/// The base from which fixture instance addresses are numbered.
pub const INSTANCE_ADDRESS_BASE: u128 = 0x10000;

pub open spec fn spec_fee_token_address(bc: BlockContext, fee_type: FeeType) -> Address {
    match fee_type {
        FeeType::Eth => bc.eth_fee_token_address,
        FeeType::Strk => bc.strk_fee_token_address,
    }
}

impl BlockContext {
    /// The address of the token that fees of `fee_type` are paid in.
    pub fn fee_token_address(&self, fee_type: &FeeType) -> (r: Address)
        ensures
            r == spec_fee_token_address(*self, *fee_type),
    {
        match fee_type {
            FeeType::Eth => self.eth_fee_token_address,
            FeeType::Strk => self.strk_fee_token_address,
        }
    }
}

/// The version offset of a fixture: 0 for Cairo 0, 1 for Cairo 1.
pub open spec fn version_code(v: CairoVersion) -> int {
    match v {
        CairoVersion::Cairo0 => 0,
        CairoVersion::Cairo1 => 1,
    }
}

/// A distinct small number for each fixture contract.
pub open spec fn contract_code(c: FeatureContract) -> int {
    match c {
        FeatureContract::AccountWithLongValidate(v) => 2 + version_code(v),
        FeatureContract::AccountWithoutValidations(v) => 4 + version_code(v),
        FeatureContract::Empty(v) => 6 + version_code(v),
        FeatureContract::TestContract(v) => 8 + version_code(v),
        FeatureContract::SecurityTests => 10,
        FeatureContract::ERC20 => 12,
    }
}

pub open spec fn spec_class_hash(c: FeatureContract) -> ClassHash {
    (CLASS_HASH_BASE + contract_code(c)) as ClassHash
}

pub open spec fn spec_compiled_class_hash(c: FeatureContract) -> Felt {
    (COMPILED_CLASS_HASH_BASE + contract_code(c)) as Felt
}

pub open spec fn spec_instance_address(c: FeatureContract, i: u8) -> Address {
    (INSTANCE_ADDRESS_BASE + contract_code(c) * 0x100 + i) as Address
}

pub open spec fn is_account(c: FeatureContract) -> bool {
    c is AccountWithLongValidate || c is AccountWithoutValidations
}

impl FeatureContract {
    fn code(&self) -> (r: u128)
        ensures
            r == contract_code(*self),
            r <= 12,
    {
        let vc = |v: CairoVersion| -> (r: u128)
            ensures
                r == version_code(v),
            {
                match v {
                    CairoVersion::Cairo0 => 0,
                    CairoVersion::Cairo1 => 1,
                }
            };
        match self {
            FeatureContract::AccountWithLongValidate(v) => 2 + vc(*v),
            FeatureContract::AccountWithoutValidations(v) => 4 + vc(*v),
            FeatureContract::Empty(v) => 6 + vc(*v),
            FeatureContract::TestContract(v) => 8 + vc(*v),
            FeatureContract::SecurityTests => 10,
            FeatureContract::ERC20 => 12,
        }
    }

    /// The hash the contract's class is declared under.
    pub fn get_class_hash(&self) -> (r: ClassHash)
        ensures
            r == spec_class_hash(*self),
    {
        CLASS_HASH_BASE + self.code()
    }

    /// The compiled class hash recorded for the contract's class.
    pub fn get_class(&self) -> (r: Felt)
        ensures
            r == spec_compiled_class_hash(*self),
    {
        COMPILED_CLASS_HASH_BASE + self.code()
    }

    /// The address of the contract's `instance`-th deployment.
    pub fn get_instance_address(&self, instance: u8) -> (r: Address)
        ensures
            r == spec_instance_address(*self, instance),
    {
        INSTANCE_ADDRESS_BASE + self.code() * 0x100 + instance as u128
    }

    /// Whether the contract is an account.
    pub fn is_account(&self) -> (r: bool)
        ensures
            r == is_account(*self),
    {
        match self {
            FeatureContract::AccountWithLongValidate(_) | FeatureContract::AccountWithoutValidations(_) => true,
            _ => false,
        }
    }
}

/// The entries that make `account` minter in both fee tokens and fund it.
pub open spec fn privileged_entries(bc: BlockContext, account: Address, balance: u128) -> Seq<(StateKey, Felt)> {
    seq![
        (StateKey::Storage(bc.strk_fee_token_address, MINTER_VAR_KEY), account),
        (StateKey::Storage(bc.strk_fee_token_address, account), balance),
        (StateKey::Storage(bc.eth_fee_token_address, MINTER_VAR_KEY), account),
        (StateKey::Storage(bc.eth_fee_token_address, account), balance),
    ]
}

/// The entries that deploy instance `i` of `c`, privileged if an account.
pub open spec fn instance_entries(bc: BlockContext, c: FeatureContract, i: u8, balance: u128) -> Seq<(StateKey, Felt)> {
    seq![(StateKey::ClassHashAt(spec_instance_address(c, i)), spec_class_hash(c))]
        + if is_account(c) { privileged_entries(bc, spec_instance_address(c, i), balance) } else { Seq::empty() }
}

/// The entries that deploy the first `n` instances of `c`.
pub open spec fn instances_entries(bc: BlockContext, c: FeatureContract, n: nat, balance: u128) -> Seq<(StateKey, Felt)>
    decreases n,
{
    if n == 0 {
        Seq::empty()
    } else {
        instances_entries(bc, c, (n - 1) as nat, balance) + instance_entries(bc, c, (n - 1) as u8, balance)
    }
}

/// The entries that declare each listed contract and deploy its instances.
pub open spec fn contracts_entries(bc: BlockContext, list: Seq<(FeatureContract, u8)>, balance: u128) -> Seq<(StateKey, Felt)>
    decreases list.len(),
{
    if list.len() == 0 {
        Seq::empty()
    } else {
        let (c, n) = list.last();
        contracts_entries(bc, list.drop_last(), balance)
            + seq![(StateKey::CompiledClassHash(spec_class_hash(c)), spec_compiled_class_hash(c))]
            + instances_entries(bc, c, n as nat, balance)
    }
}

/// The committed entries of a test state: a Cairo 0 account and the ERC20
/// class declared, the account and both fee tokens deployed, the account
/// privileged; then each listed contract declared and deployed.
pub open spec fn test_state_entries(bc: BlockContext, balance: u128, list: Seq<(FeatureContract, u8)>) -> Seq<(StateKey, Felt)> {
    let account = FeatureContract::AccountWithoutValidations(CairoVersion::Cairo0);
    let erc20 = FeatureContract::ERC20;
    seq![
        (StateKey::CompiledClassHash(spec_class_hash(account)), spec_compiled_class_hash(account)),
        (StateKey::CompiledClassHash(spec_class_hash(erc20)), spec_compiled_class_hash(erc20)),
        (StateKey::ClassHashAt(spec_instance_address(account, 0)), spec_class_hash(account)),
        (StateKey::ClassHashAt(bc.eth_fee_token_address), spec_class_hash(erc20)),
        (StateKey::ClassHashAt(bc.strk_fee_token_address), spec_class_hash(erc20)),
    ] + privileged_entries(bc, spec_instance_address(account, 0), balance)
        + contracts_entries(bc, list, balance)
}

/// Makes `account` minter in both fee tokens and funds it with `initial_balance`.
fn privileged_account(block_context: &BlockContext, account: Address, initial_balance: u128, reader: &mut DictStateReader)
    ensures
        final(reader).entries() == old(reader).entries() + privileged_entries(*block_context, account, initial_balance),
        final(reader).reads() == old(reader).reads(),
{
    let strk = block_context.fee_token_address(&FeeType::Strk);
    let eth = block_context.fee_token_address(&FeeType::Eth);
    reader.insert(StateKey::Storage(strk, MINTER_VAR_KEY), account);
    reader.insert(StateKey::Storage(strk, account), initial_balance);
    reader.insert(StateKey::Storage(eth, MINTER_VAR_KEY), account);
    reader.insert(StateKey::Storage(eth, account), initial_balance);
    assert(final(reader).entries() =~= old(reader).entries() + privileged_entries(*block_context, account, initial_balance));
}

/// A fresh state over committed entries for testing: see `test_state_entries`.
pub fn test_state(block_context: &BlockContext, initial_balances: u128, contract_instances: &[(FeatureContract, u8)]) -> (r: CachedState)
    ensures
        r.wf(),
        r.base() == test_state_entries(*block_context, initial_balances, contract_instances@),
        r.log().len() == 0,
        r.markers().len() == 0,
        r.reads().len() == 0,
{
    let mut reader = DictStateReader::new();
    let account = FeatureContract::AccountWithoutValidations(CairoVersion::Cairo0);
    let erc20 = FeatureContract::ERC20;
    let account_address = account.get_instance_address(0);
    reader.insert(StateKey::CompiledClassHash(account.get_class_hash()), account.get_class());
    reader.insert(StateKey::CompiledClassHash(erc20.get_class_hash()), erc20.get_class());
    reader.insert(StateKey::ClassHashAt(account_address), account.get_class_hash());
    reader.insert(StateKey::ClassHashAt(block_context.fee_token_address(&FeeType::Eth)), erc20.get_class_hash());
    reader.insert(StateKey::ClassHashAt(block_context.fee_token_address(&FeeType::Strk)), erc20.get_class_hash());
    privileged_account(block_context, account_address, initial_balances, &mut reader);
    let ghost head = reader.entries();
    let ghost list = contract_instances@;
    assert(contracts_entries(*block_context, list.subrange(0, 0), initial_balances) =~= Seq::<(StateKey, Felt)>::empty());
    assert(head =~= head + contracts_entries(*block_context, list.subrange(0, 0), initial_balances));
    let mut idx: usize = 0;
    while idx < contract_instances.len()
        invariant
            idx <= list.len(),
            list == contract_instances@,
            reader.reads().len() == 0,
            reader.entries() == head + contracts_entries(*block_context, list.subrange(0, idx as int), initial_balances),
        decreases list.len() - idx,
    {
        let (contract, n_instances) = contract_instances[idx];
        let class_hash = contract.get_class_hash();
        reader.insert(StateKey::CompiledClassHash(class_hash), contract.get_class());
        let ghost mid = reader.entries();
        let mut instance: u8 = 0;
        assert(mid =~= mid + instances_entries(*block_context, contract, 0, initial_balances));
        while instance < n_instances
            invariant
                instance <= n_instances,
                class_hash == spec_class_hash(contract),
                reader.reads().len() == 0,
                reader.entries() == mid + instances_entries(*block_context, contract, instance as nat, initial_balances),
            decreases n_instances - instance,
        {
            let instance_address = contract.get_instance_address(instance);
            let ghost before = reader.entries();
            reader.insert(StateKey::ClassHashAt(instance_address), class_hash);
            let ghost one = seq![(StateKey::ClassHashAt(instance_address), class_hash)];
            assert(reader.entries() =~= before + one);
            if contract.is_account() {
                privileged_account(block_context, instance_address, initial_balances, &mut reader);
                assert(reader.entries() =~= before + (one + privileged_entries(*block_context, instance_address, initial_balances)));
                assert(instance_entries(*block_context, contract, instance, initial_balances)
                    == one + privileged_entries(*block_context, instance_address, initial_balances));
            } else {
                assert(reader.entries() =~= before + (one + Seq::<(StateKey, Felt)>::empty()));
                assert(instance_entries(*block_context, contract, instance, initial_balances)
                    == one + Seq::<(StateKey, Felt)>::empty());
            }
            assert(reader.entries() =~= before + instance_entries(*block_context, contract, instance, initial_balances));
            assert(instances_entries(*block_context, contract, (instance + 1) as nat, initial_balances)
                == instances_entries(*block_context, contract, instance as nat, initial_balances)
                + instance_entries(*block_context, contract, instance, initial_balances));
            assert(reader.entries() =~= mid + instances_entries(*block_context, contract, (instance + 1) as nat, initial_balances));
            instance = instance + 1;
        }
        assert(list.subrange(0, idx + 1).drop_last() =~= list.subrange(0, idx as int));
        assert(reader.entries() =~= head + contracts_entries(*block_context, list.subrange(0, idx + 1), initial_balances));
        idx = idx + 1;
    }
    assert(list.subrange(0, idx as int) =~= list);
    CachedState::from_reader(reader)
}

} // verus!
