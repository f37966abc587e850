//! The tracker hooked into a running EVM.

use alloy_primitives::hex;
use block_access_list::inspector::journal::JournalEntry;
use block_access_list::inspector::observe::{Pending, SLOAD, SSTORE};
use block_access_list::inspector::storage::StorageChangeInspector;
use block_access_list::primitives::{
    address_from_be_bytes, address_to_be_bytes, word_from_be_bytes, word_to_be_bytes, StorageKey,
    StorageValue, Word,
};
use revm::{
    bytecode::opcode,
    context::TxEnv,
    context_interface::{
        result::{ExecutionResult, Output},
        ContextTr, JournalTr, TransactTo,
    },
    database::CacheDB,
    database_interface::EmptyDB,
    handler::EvmTr,
    inspector::JournalExt,
    interpreter::{
        interpreter_types::{InputsTr, Jumps},
        Interpreter,
    },
    primitives::{hardfork::SpecId, Address, U256},
    state::AccountInfo,
    Context, Database, DatabaseCommit, InspectEvm, Inspector, MainBuilder, MainContext,
};
use std::collections::{BTreeMap, BTreeSet};

/// Hands each instruction of the engine to a tracker.
struct Hook {
    tracker: StorageChangeInspector,
}

fn word(value: U256) -> Word {
    word_from_be_bytes(&value.to_be_bytes::<32>())
}

fn number(word: Word) -> U256 {
    U256::from_be_bytes(word_to_be_bytes(word))
}

fn account(address: Address) -> (u32, u128) {
    address_from_be_bytes(&address.into_array())
}

fn engine_address(account: (u32, u128)) -> Address {
    Address::from(address_to_be_bytes(account))
}

fn record(entry: &revm::JournalEntry) -> JournalEntry {
    match entry {
        revm::JournalEntry::StorageChanged { key, had_value, address } => {
            JournalEntry::StorageChanged {
                address: account(*address),
                key: word(*key),
                had_value: word(*had_value),
            }
        }
        _ => JournalEntry::Other,
    }
}

impl<CTX> Inspector<CTX> for Hook
where
    CTX: ContextTr<Journal: JournalExt>,
{
    fn step(&mut self, interp: &mut Interpreter, context: &mut CTX) {
        let opcode = interp.bytecode.opcode();
        let target = account(interp.input.target_address());
        let top = interp.stack.peek(0).ok().map(word);
        let below = interp.stack.peek(1).ok().map(word);
        let journal: Vec<JournalEntry> = if self.tracker.reads_journal(opcode, target, top) {
            context.journal_ref().journal().iter().map(record).collect()
        } else {
            Vec::new()
        };
        let pending = self.tracker.step(opcode, target, top, below, &journal);
        let answer = match pending {
            Pending::Nothing => None,
            Pending::PresentValue { address, key, .. } => context
                .journal_ref()
                .evm_state()
                .get(&engine_address(address))
                .and_then(|account| account.storage.get(&number(key)))
                .map(|slot| word(slot.present_value())),
            Pending::DatabaseValue { address, key, .. } => {
                context.db_mut().storage(engine_address(address), number(key)).ok().map(word)
            }
        };
        self.tracker.resolve(pending, answer);
    }
}

const COUNTER: &str = "0x6080604052348015600e575f5ffd5b506101ca8061001c5f395ff3fe608060405234801561000f575f5ffd5b506004361061003f575f3560e01c80632a1afcd9146100435780633fb5c1cb14610061578063d09de08a1461007d575b5f5ffd5b61004b610087565b60405161005891906100c2565b60405180910390f35b61007b60048036038101906100769190610109565b61008c565b005b610085610095565b005b5f5481565b805f8190555050565b60015f546100a39190610161565b5f81905550565b5f819050919050565b6100bc816100aa565b82525050565b5f6020820190506100d55f8301846100b3565b92915050565b5f5ffd5b6100e8816100aa565b81146100f2575f5ffd5b50565b5f81359050610103816100df565b92915050565b5f6020828403121561011e5761011d6100db565b5b5f61012b848285016100f5565b91505092915050565b7f4e487b71000000000000000000000000000000000000000000000000000000005f52601160045260245ffd5b5f61016b826100aa565b9150610176836100aa565b925082820190508082111561018e5761018d610134565b5b9291505056fea2646970667358221220c281b50f79c1e72e5ac83d10b85f65f491d2bf1f41954612cef2ddb77713b35864736f6c634300081c0033";

const SET_NUMBER_42: &str =
    "3fb5c1cb000000000000000000000000000000000000000000000000000000000000002a";

const INCREMENT: &str = "d09de08a";

fn slots(keys: &[StorageKey]) -> BTreeSet<StorageKey> {
    keys.iter().copied().collect()
}

fn reads_of(entries: &[((u32, u128), &[StorageKey])]) -> BTreeMap<(u32, u128), BTreeSet<StorageKey>> {
    entries.iter().map(|(address, keys)| (*address, slots(keys))).collect()
}

fn writes_of(
    entries: &[((u32, u128), StorageKey, StorageValue, StorageValue)],
) -> BTreeMap<(u32, u128), BTreeMap<StorageKey, (StorageValue, StorageValue)>> {
    let mut writes: BTreeMap<(u32, u128), BTreeMap<StorageKey, (StorageValue, StorageValue)>> =
        BTreeMap::new();
    for (address, key, pre, post) in entries {
        writes.entry(*address).or_default().insert(*key, (*pre, *post));
    }
    writes
}

/*
contract Counter {
    uint256 public storedData;

    function setNumber(uint256 x) public {
        storedData = x;
    }

    function increment() public {
        storedData = storedData + 1;
    }
}
*/
#[test]
fn test_counter_storage_change_inspector() {
    let deployer = Address::ZERO;
    let code = hex::decode(COUNTER).unwrap();
    let mut db = CacheDB::new(EmptyDB::default());
    db.insert_account_info(
        deployer,
        AccountInfo { balance: U256::from(1_000_000_000u64), ..Default::default() },
    );
    let context =
        Context::mainnet().with_db(db).modify_cfg_chained(|cfg| cfg.spec = SpecId::CANCUN);

    let mut insp_deploy = Hook { tracker: StorageChangeInspector::new() };
    let _contract = {
        let mut evm = context.clone().build_mainnet_with_inspector(&mut insp_deploy);
        let deploy_result = evm
            .inspect_tx(TxEnv {
                caller: deployer,
                gas_limit: 1_000_000,
                kind: TransactTo::Create,
                data: code.into(),
                ..Default::default()
            })
            .unwrap();

        let contract = match deploy_result.result {
            ExecutionResult::Success { output: Output::Create(_, Some(addr)), .. } => addr,
            _ => panic!("Contract deployment failed"),
        };

        evm.ctx().db_mut().commit(deploy_result.state);
        let db_after_deploy = evm.ctx().db().clone();
        let context = context.with_db(db_after_deploy);

        println!("Deployed contract: {:?}", contract);
        assert_eq!(
            contract,
            Address::from_slice(&hex::decode("bd770416a3345f91e4b34576cb804a576fa48eb1").unwrap())
        );
        let counter = account(contract);
        let slot0: StorageKey = (0, 0);

        let mut insp_set = Hook { tracker: StorageChangeInspector::new() };
        {
            let mut evm = context.clone().build_mainnet_with_inspector(&mut insp_set);
            let set_number = hex::decode(SET_NUMBER_42).unwrap(); // setNumber(42)
            let set_result = evm
                .inspect_tx(TxEnv {
                    caller: deployer,
                    gas_limit: 500_000,
                    kind: TransactTo::Call(contract),
                    data: set_number.into(),
                    nonce: 1,
                    ..Default::default()
                })
                .unwrap();
            println!("set_result: {:?}", set_result.result);
            assert!(set_result.result.is_success());
            evm.ctx().db_mut().commit(set_result.state);
        }

        println!("== setNumber(42) Writes ==");
        println!("{:#?}", insp_set.tracker.writes());
        println!("== setNumber(42) Reads ==");
        println!("{:#?}", insp_set.tracker.reads());
        assert_eq!(*insp_set.tracker.writes(), writes_of(&[(counter, slot0, (0, 0), (0, 42))]));
        assert_eq!(*insp_set.tracker.reads(), reads_of(&[]));
        assert_eq!(
            insp_set.tracker.get_bal_storage_writes(),
            writes_of(&[(counter, slot0, (0, 0), (0, 42))])
        );
        assert_eq!(insp_set.tracker.get_bal_storage_reads(), reads_of(&[]));

        // The increment runs on the state as the deployment left it: the
        // stored number is still 0.
        let mut insp_inc = Hook { tracker: StorageChangeInspector::new() };
        {
            let mut evm = context.build_mainnet_with_inspector(&mut insp_inc);
            let increment = hex::decode(INCREMENT).unwrap(); // increment()
            let inc_result = evm
                .inspect_tx(TxEnv {
                    caller: deployer,
                    gas_limit: 500_000,
                    kind: TransactTo::Call(contract),
                    data: increment.into(),
                    nonce: 1,
                    ..Default::default()
                })
                .unwrap();
            println!("inc_result: {:?}", inc_result.result);
            assert!(inc_result.result.is_success());
            evm.ctx().db_mut().commit(inc_result.state);
        }

        println!("== increment() Writes ==");
        println!("{:#?}", insp_inc.tracker.writes());
        println!("== increment() Reads ==");
        println!("{:#?}", insp_inc.tracker.reads());
        assert_eq!(*insp_inc.tracker.writes(), writes_of(&[(counter, slot0, (0, 0), (0, 1))]));
        assert_eq!(*insp_inc.tracker.reads(), reads_of(&[(counter, &[slot0])]));
        assert_eq!(
            insp_inc.tracker.get_bal_storage_writes(),
            writes_of(&[(counter, slot0, (0, 0), (0, 1))])
        );
        assert_eq!(insp_inc.tracker.get_bal_storage_reads(), reads_of(&[(counter, &[])]));

        contract
    };
}

/// A setter, then an incrementer on the state the setter left: the second
/// transaction loads 42 and stores 43.
#[test]
fn counter_set_then_increment_on_committed_state() {
    let deployer = Address::ZERO;
    let mut db = CacheDB::new(EmptyDB::default());
    db.insert_account_info(
        deployer,
        AccountInfo { balance: U256::from(1_000_000_000u64), ..Default::default() },
    );
    let context =
        Context::mainnet().with_db(db).modify_cfg_chained(|cfg| cfg.spec = SpecId::CANCUN);

    let mut hook = Hook { tracker: StorageChangeInspector::new() };
    let mut evm = context.build_mainnet_with_inspector(&mut hook);
    let deployed = evm
        .inspect_tx(TxEnv {
            caller: deployer,
            gas_limit: 1_000_000,
            kind: TransactTo::Create,
            data: hex::decode(COUNTER).unwrap().into(),
            ..Default::default()
        })
        .unwrap();
    let contract = match deployed.result {
        ExecutionResult::Success { output: Output::Create(_, Some(addr)), .. } => addr,
        _ => panic!("Contract deployment failed"),
    };
    evm.ctx().db_mut().commit(deployed.state);
    let counter = account(contract);
    let slot0: StorageKey = (0, 0);

    evm.inspector.tracker.reset();
    evm.inspector.tracker.set_tx_index(1);
    let set = evm
        .inspect_tx(TxEnv {
            caller: deployer,
            gas_limit: 500_000,
            kind: TransactTo::Call(contract),
            data: hex::decode(SET_NUMBER_42).unwrap().into(),
            nonce: 1,
            ..Default::default()
        })
        .unwrap();
    assert!(set.result.is_success());
    evm.ctx().db_mut().commit(set.state);
    assert_eq!(
        evm.inspector.tracker.get_bal_storage_writes(),
        writes_of(&[(counter, slot0, (0, 0), (0, 42))])
    );
    assert_eq!(evm.inspector.tracker.get_bal_storage_reads(), reads_of(&[]));

    evm.inspector.tracker.reset();
    evm.inspector.tracker.set_tx_index(2);
    let incremented = evm
        .inspect_tx(TxEnv {
            caller: deployer,
            gas_limit: 500_000,
            kind: TransactTo::Call(contract),
            data: hex::decode(INCREMENT).unwrap().into(),
            nonce: 2,
            ..Default::default()
        })
        .unwrap();
    assert!(incremented.result.is_success());
    evm.ctx().db_mut().commit(incremented.state);
    let tracker = &evm.inspector.tracker;
    assert_eq!(*tracker.reads(), reads_of(&[(counter, &[slot0])]));
    assert_eq!(*tracker.writes(), writes_of(&[(counter, slot0, (0, 42), (0, 43))]));
    assert_eq!(
        tracker.get_bal_storage_writes(),
        writes_of(&[(counter, slot0, (0, 42), (0, 43))])
    );
    let bal_reads = tracker.get_bal_storage_reads();
    assert!(!bal_reads.get(&counter).is_some_and(|slots| slots.contains(&slot0)));
    assert_eq!(bal_reads, reads_of(&[(counter, &[])]));
}

/// The opcodes the tracker looks for are the engine's.
#[test]
fn opcodes_are_those_of_the_engine() {
    assert_eq!(SLOAD, opcode::SLOAD);
    assert_eq!(SSTORE, opcode::SSTORE);
}
