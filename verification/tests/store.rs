use kora::change_set::{AccountUpdate, ChangeSet};
use kora::handle::{
    balance_from, basic_from, bytecode_from, code_from, code_hash_from, genesis_changes,
    nonce_from, read_failure, slot_from, slot_step, slot_value_from, stands_for_no_code,
    AccountInfo, HandleError, QmdbHandle, SlotStep, TouchedAccount,
};
use kora::overlay::OverlayState;
use kora::primitives::{Address, B256, U256};
use kora::state_db::{StateDb, StateDbError, StateDbRead, StateDbWrite};
use kora::store::{
    account_from, found_from, next_generation, writes_of, AccountEncoding, Contents,
    QmdbBatchable, QmdbError, QmdbGettable, QmdbStore, RootProvider, StorageKey, UpdateWrites,
};
use std::collections::BTreeMap;
use std::collections::HashMap;

#[derive(Debug, Default)]
struct MemoryStore<K, V> {
    data: HashMap<K, V>,
    broken: bool,
    rootless: bool,
}

impl<K, V> MemoryStore<K, V> {
    fn new() -> Self {
        Self { data: HashMap::new(), broken: false, rootless: false }
    }

    fn broken() -> Self {
        Self { data: HashMap::new(), broken: true, rootless: false }
    }

    fn rootless() -> Self {
        Self { data: HashMap::new(), broken: false, rootless: true }
    }
}

#[derive(Debug)]
struct MemoryError;

impl std::fmt::Display for MemoryError {
    fn fmt(&self, f: &mut std::fmt::Formatter<'_>) -> std::fmt::Result {
        f.write_str("memory error")
    }
}

impl std::error::Error for MemoryError {}

fn apply<K: Clone + Eq + std::hash::Hash, V: Clone>(
    data: &mut HashMap<K, V>,
    ops: &[(K, Option<V>)],
) {
    for (key, value) in ops {
        match value {
            Some(v) => {
                data.insert(key.clone(), v.clone());
            }
            None => {
                data.remove(key);
            }
        }
    }
}

fn commitment<K: Ord + std::fmt::Debug, V: std::fmt::Debug>(data: &HashMap<K, V>) -> B256 {
    let mut entries: Vec<(&K, &V)> = data.iter().collect();
    entries.sort_by(|a, b| a.0.cmp(b.0));
    let text = format!("{:?}", entries);
    B256::from_bytes(&alloy_primitives::keccak256(text.as_bytes()).0)
}

impl<K, V> QmdbGettable for MemoryStore<K, V>
where
    K: Clone + Eq + std::hash::Hash,
    V: Clone,
{
    type Key = K;
    type Value = V;
    type Error = MemoryError;

    fn contents(&self) -> Contents<K, V> {
        unreachable!()
    }

    fn get(&self, key: &K) -> Result<Option<V>, MemoryError> {
        if self.broken {
            return Err(MemoryError);
        }
        Ok(self.data.get(key).cloned())
    }
}

impl<K, V> QmdbBatchable for MemoryStore<K, V>
where
    K: Clone + Eq + std::hash::Hash,
    V: Clone,
{
    fn write_batch(&mut self, ops: Vec<(K, Option<V>)>) -> Result<(), MemoryError> {
        if self.broken {
            return Err(MemoryError);
        }
        apply(&mut self.data, &ops);
        Ok(())
    }
}

impl<K, V> RootProvider for MemoryStore<K, V>
where
    K: Clone + Eq + std::hash::Hash + Ord + std::fmt::Debug,
    V: Clone + std::fmt::Debug,
{
    fn root_of(_contents: Contents<K, V>) -> B256 {
        unreachable!()
    }

    fn root(&self) -> Result<B256, MemoryError> {
        if self.rootless {
            return Err(MemoryError);
        }
        Ok(commitment(&self.data))
    }

    fn root_after(&self, ops: &Vec<(K, Option<V>)>) -> Result<B256, MemoryError> {
        if self.rootless {
            return Err(MemoryError);
        }
        let mut data = self.data.clone();
        apply(&mut data, ops);
        Ok(commitment(&data))
    }
}

type Accounts = MemoryStore<Address, [u8; 80]>;
type Storage = MemoryStore<StorageKey, U256>;
type Code = MemoryStore<B256, Vec<u8>>;
type TestHandle = QmdbHandle<Accounts, Storage, Code>;

fn create_test_handle() -> TestHandle {
    QmdbHandle::new(MemoryStore::new(), MemoryStore::new(), MemoryStore::new())
}

fn plain_update(nonce: u64, balance: u64) -> AccountUpdate {
    AccountUpdate {
        created: false,
        selfdestructed: false,
        nonce,
        balance: U256::from_u64(balance),
        code_hash: B256::keccak_empty(),
        code: None,
        storage: BTreeMap::new(),
    }
}

#[test]
fn handle_is_clone() {
    let handle = create_test_handle();
    let _cloned = handle.clone();
}

#[test]
fn handle_clones_share_one_store() {
    let handle = create_test_handle();
    let cloned = handle.clone();
    handle.init_genesis(vec![(Address::repeat_byte(0x01), U256::from_u64(7))]).unwrap();
    assert_eq!(cloned.balance(&Address::repeat_byte(0x01)), Ok(U256::from_u64(7)));
}

#[test]
fn init_genesis_creates_accounts() {
    let handle = create_test_handle();
    let allocs = vec![
        (Address::repeat_byte(0x01), U256::from_u64(1000)),
        (Address::repeat_byte(0x02), U256::from_u64(2000)),
    ];
    handle.init_genesis(allocs).unwrap();

    let store = handle.read().unwrap();
    let acc1 = store.get_account(&Address::repeat_byte(0x01)).unwrap().unwrap();
    assert_eq!(acc1.1, U256::from_u64(1000));

    let acc2 = store.get_account(&Address::repeat_byte(0x02)).unwrap().unwrap();
    assert_eq!(acc2.1, U256::from_u64(2000));
}

#[test]
fn genesis_accounts_have_no_nonce_and_no_code() {
    let handle = create_test_handle();
    handle.init_genesis(vec![(Address::repeat_byte(0x01), U256::from_u64(1000))]).unwrap();
    let store = handle.read().unwrap();
    let account = store.get_account(&Address::repeat_byte(0x01)).unwrap().unwrap();
    assert_eq!(account, (0, U256::from_u64(1000), B256::keccak_empty(), 0));
}

#[test]
fn genesis_changes_take_the_last_balance_of_an_address() {
    let x = Address::repeat_byte(0x01);
    let changes = genesis_changes(&vec![(x, U256::from_u64(1)), (x, U256::from_u64(2))]);
    assert_eq!(changes.accounts.len(), 1);
    let update = changes.get(&x).unwrap();
    assert!(update.created);
    assert!(!update.selfdestructed);
    assert_eq!(update.balance, U256::from_u64(2));
    assert_eq!(update.code_hash, B256::keccak_empty());
}

#[test]
fn state_db_returns_error_for_missing_account() {
    let handle = create_test_handle();
    let result = handle.nonce(&Address::zero());
    assert!(matches!(result, Err(StateDbError::AccountNotFound(_))));
}

#[test]
fn state_db_returns_zero_for_missing_storage() {
    let handle = create_test_handle();
    let result = handle.storage(&Address::zero(), &U256::from_u64(1)).unwrap();
    assert_eq!(result, U256::zero());
}

#[test]
fn state_db_returns_empty_for_empty_code() {
    let handle = create_test_handle();
    let result = handle.code(&B256::keccak_empty()).unwrap();
    assert!(result.is_empty());
}

#[test]
fn state_db_returns_empty_for_zero_code_hash() {
    let handle = create_test_handle();
    assert!(handle.code(&B256::zero()).unwrap().is_empty());
}

#[test]
fn state_db_reports_missing_code() {
    let handle = create_test_handle();
    let hash = B256::repeat_byte(0x42);
    assert_eq!(handle.code(&hash), Err(StateDbError::CodeNotFound(hash)));
}

#[test]
fn state_db_merge_changes() {
    let handle = create_test_handle();
    let older = ChangeSet::new();
    let newer = ChangeSet::new();
    let merged = handle.merge_changes(older, newer);
    assert!(merged.is_empty());
}

#[test]
fn account_record_is_eighty_bytes_and_decodes_to_its_fields() {
    assert_eq!(AccountEncoding::SIZE, 80);
    let balance = U256 { hi: 3, lo: 4 };
    let hash = B256::repeat_byte(0xab);
    let bytes = AccountEncoding::encode(7, balance, hash, 9);
    assert_eq!(&bytes[0..8], &[0, 0, 0, 0, 0, 0, 0, 7]);
    assert_eq!(bytes[23], 3);
    assert_eq!(bytes[39], 4);
    assert_eq!(&bytes[40..72], &[0xab; 32]);
    assert_eq!(&bytes[72..80], &[0, 0, 0, 0, 0, 0, 0, 9]);
    assert_eq!(AccountEncoding::decode(&bytes), (7, balance, hash, 9));
}

#[test]
fn commit_then_read_sees_the_whole_change_set() {
    let x = Address::repeat_byte(0x0a);
    let y = Address::repeat_byte(0x0b);
    let handle = create_test_handle();
    handle.init_genesis(vec![(x, U256::from_u64(1000))]).unwrap();
    let genesis_root = handle.state_root().unwrap();

    let mut block = ChangeSet::new();
    block.insert(x, plain_update(1, 900));
    let mut credited = plain_update(0, 100);
    credited.created = true;
    block.insert(y, credited);

    let expected_root = handle.compute_root(&block).unwrap();
    assert_eq!(handle.state_root().unwrap(), genesis_root);

    let root = StateDbWrite::commit(&handle, block).unwrap();
    assert_eq!(handle.balance(&x), Ok(U256::from_u64(900)));
    assert_eq!(handle.balance(&y), Ok(U256::from_u64(100)));
    assert_eq!(handle.nonce(&x), Ok(1));
    assert_ne!(root, genesis_root);
    assert_eq!(root, expected_root);
    assert_eq!(handle.state_root().unwrap(), root);
}

#[test]
fn account_exists_by_nonce_or_balance() {
    let funded = Address::repeat_byte(0x01);
    let used = Address::repeat_byte(0x02);
    let empty = Address::repeat_byte(0x03);
    let handle = create_test_handle();
    let mut changes = ChangeSet::new();
    changes.insert(funded, plain_update(0, 5));
    changes.insert(used, plain_update(3, 0));
    changes.insert(empty, plain_update(0, 0));
    handle.commit(changes).unwrap();
    assert_eq!(handle.account_exists(&funded), Ok(true));
    assert_eq!(handle.account_exists(&used), Ok(true));
    assert_eq!(handle.account_exists(&empty), Ok(false));
    assert_eq!(handle.account_exists(&Address::repeat_byte(0x04)), Ok(false));
}

#[test]
fn selfdestruct_deletes_the_record_and_leaves_the_slots() {
    let x = Address::repeat_byte(0x0a);
    let slot = U256::from_u64(1);
    let handle = create_test_handle();
    let mut first = ChangeSet::new();
    let mut update = plain_update(1, 10);
    update.set_slot(slot, U256::from_u64(5));
    first.insert(x, update);
    handle.commit(first).unwrap();
    assert_eq!(handle.storage(&x, &slot), Ok(U256::from_u64(5)));

    let mut second = ChangeSet::new();
    let mut gone = plain_update(0, 0);
    gone.selfdestructed = true;
    second.insert(x, gone);
    handle.commit(second).unwrap();

    assert_eq!(handle.nonce(&x), Err(StateDbError::AccountNotFound(x)));
    assert_eq!(handle.storage(&x, &slot), Ok(U256::zero()));
    let store = handle.read().unwrap();
    let key = StorageKey::new(x, 0, slot);
    assert_eq!(store.get_storage(&key).unwrap(), Some(U256::from_u64(5)));
}

#[test]
fn recreated_account_gets_the_next_generation() {
    let x = Address::repeat_byte(0x0a);
    let slot = U256::from_u64(1);
    let handle = create_test_handle();
    let mut first = ChangeSet::new();
    let mut update = plain_update(1, 10);
    update.created = true;
    update.set_slot(slot, U256::from_u64(5));
    first.insert(x, update);
    handle.commit(first).unwrap();
    {
        let store = handle.read().unwrap();
        assert_eq!(store.get_account(&x).unwrap().unwrap().3, 0);
    }

    let mut second = ChangeSet::new();
    let mut again = plain_update(1, 10);
    again.created = true;
    second.insert(x, again);
    handle.commit(second).unwrap();

    let store = handle.read().unwrap();
    assert_eq!(store.get_account(&x).unwrap().unwrap().3, 1);
    assert_eq!(store.storage_at(&x, &slot), Ok(U256::zero()));
    assert_eq!(store.get_storage(&StorageKey::new(x, 0, slot)).unwrap(), Some(U256::from_u64(5)));
}

#[test]
fn zero_slot_value_deletes_the_slot() {
    let x = Address::repeat_byte(0x0a);
    let slot = U256::from_u64(1);
    let handle = create_test_handle();
    let mut first = ChangeSet::new();
    let mut update = plain_update(1, 10);
    update.set_slot(slot, U256::from_u64(5));
    first.insert(x, update);
    handle.commit(first).unwrap();

    let mut second = ChangeSet::new();
    let mut cleared = plain_update(2, 10);
    cleared.set_slot(slot, U256::zero());
    second.insert(x, cleared);
    handle.commit(second).unwrap();

    let store = handle.read().unwrap();
    assert_eq!(store.get_storage(&StorageKey::new(x, 0, slot)).unwrap(), None);
}

#[test]
fn commit_writes_code_under_its_hash() {
    let x = Address::repeat_byte(0x0a);
    let hash = B256::repeat_byte(0x77);
    let handle = create_test_handle();
    let mut changes = ChangeSet::new();
    let mut update = plain_update(1, 0);
    update.code_hash = hash;
    update.code = Some(vec![0x60, 0x00]);
    changes.insert(x, update);
    handle.commit(changes).unwrap();
    assert_eq!(handle.code_hash(&x), Ok(hash));
    assert_eq!(handle.code(&hash), Ok(vec![0x60, 0x00]));
}

#[test]
fn plan_lists_one_write_per_account_slot_and_code() {
    let x = Address::repeat_byte(0x0a);
    let store: QmdbStore<Accounts, Storage, Code> =
        QmdbStore::new(MemoryStore::new(), MemoryStore::new(), MemoryStore::new());
    let mut changes = ChangeSet::new();
    let mut update = plain_update(1, 2);
    update.code_hash = B256::repeat_byte(0x77);
    update.code = Some(vec![1, 2, 3]);
    update.set_slot(U256::from_u64(1), U256::from_u64(5));
    update.set_slot(U256::from_u64(2), U256::zero());
    changes.insert(x, update);
    let plan = store.plan_changes(&changes).unwrap();
    assert_eq!(
        plan.accounts,
        vec![(x, Some(AccountEncoding::encode(1, U256::from_u64(2), B256::repeat_byte(0x77), 0)))]
    );
    assert_eq!(
        plan.storage,
        vec![
            (StorageKey::new(x, 0, U256::from_u64(1)), Some(U256::from_u64(5))),
            (StorageKey::new(x, 0, U256::from_u64(2)), None),
        ]
    );
    assert_eq!(plan.code, vec![(B256::repeat_byte(0x77), Some(vec![1, 2, 3]))]);
}

#[test]
fn failing_partition_gives_a_storage_error() {
    let handle: TestHandle =
        QmdbHandle::new(MemoryStore::broken(), MemoryStore::new(), MemoryStore::new());
    let x = Address::repeat_byte(0x01);
    assert_eq!(handle.nonce(&x), Err(StateDbError::Storage("storage error: memory error".into())));
    let mut changes = ChangeSet::new();
    changes.insert(x, plain_update(0, 1));
    assert_eq!(
        handle.commit(changes),
        Err(HandleError::Store(QmdbError::Storage("memory error".into())))
    );
}

#[test]
fn error_messages() {
    assert_eq!(QmdbError::Storage("disk".into()).message(), "storage error: disk");
    assert_eq!(QmdbError::StoreUnavailable.message(), "stores unavailable");
    assert_eq!(QmdbError::DecodeError.message(), "account decode failed");
    assert_eq!(
        QmdbError::CodeNotFound(B256::repeat_byte(0x11)).message(),
        format!("code not found: 0x{}", "11".repeat(32))
    );
    assert_eq!(HandleError::LockPoisoned.message(), "lock poisoned");
    assert_eq!(HandleError::BlockHashNotFound(100).message(), "block hash not found: 100");
    assert_eq!(StateDbError::LockPoisoned.message(), "lock poisoned");
    assert_eq!(
        StateDbError::RootComputation("x".into()).message(),
        "root computation failed: x"
    );
    assert_eq!(
        StateDbError::AccountNotFound(Address::zero()).message(),
        "account not found: 0x0000000000000000000000000000000000000000"
    );
}

#[test]
fn overlay_over_the_handle_commits_the_merged_changes() {
    let x = Address::repeat_byte(0x0a);
    let handle = create_test_handle();
    handle.init_genesis(vec![(x, U256::from_u64(1000))]).unwrap();

    let mut parent = ChangeSet::new();
    let mut first = plain_update(1, 950);
    first.set_slot(U256::from_u64(1), U256::from_u64(11));
    parent.insert(x, first);
    let overlay = OverlayState::new(handle.clone(), parent);

    assert_eq!(overlay.balance(&x), Ok(U256::from_u64(950)));
    assert_eq!(handle.balance(&x), Ok(U256::from_u64(1000)));

    let mut child = ChangeSet::new();
    let mut second = plain_update(2, 900);
    second.set_slot(U256::from_u64(2), U256::from_u64(22));
    child.insert(x, second);

    let predicted = overlay.compute_root(&child).unwrap();
    let root = overlay.commit(child).unwrap();
    assert_eq!(root, predicted);
    assert_eq!(overlay.state_root(), Ok(root));
    assert_eq!(handle.balance(&x), Ok(U256::from_u64(900)));
    assert_eq!(handle.nonce(&x), Ok(2));
    assert_eq!(handle.storage(&x, &U256::from_u64(1)), Ok(U256::from_u64(11)));
    assert_eq!(handle.storage(&x, &U256::from_u64(2)), Ok(U256::from_u64(22)));
}

#[test]
fn recreated_account_reads_zero_through_the_overlay() {
    let x = Address::repeat_byte(0x0a);
    let slot = U256::from_u64(1);
    let handle = create_test_handle();
    let mut first = ChangeSet::new();
    let mut update = plain_update(1, 10);
    update.set_slot(slot, U256::from_u64(5));
    first.insert(x, update);
    handle.commit(first).unwrap();
    assert_eq!(handle.storage(&x, &slot), Ok(U256::from_u64(5)));

    let mut recreation = ChangeSet::new();
    let mut again = plain_update(1, 10);
    again.created = true;
    recreation.insert(x, again);
    let overlay = OverlayState::new(handle.clone(), recreation);
    assert_eq!(overlay.storage(&x, &slot), Ok(U256::zero()));
    assert_eq!(handle.storage(&x, &slot), Ok(U256::from_u64(5)));
}

#[test]
fn basic_ref_returns_none_for_missing() {
    let handle = create_test_handle();
    let result = handle.basic_ref(Address::zero()).unwrap();
    assert!(result.is_none());
}

#[test]
fn storage_ref_returns_zero_for_missing() {
    let handle = create_test_handle();
    let result = handle.storage_ref(Address::zero(), U256::from_u64(1)).unwrap();
    assert_eq!(result, U256::zero());
}

#[test]
fn code_by_hash_returns_empty_for_keccak_empty() {
    let handle = create_test_handle();
    let result = handle.code_by_hash_ref(B256::keccak_empty()).unwrap();
    assert!(result.is_empty());
}

#[test]
fn block_hash_returns_error() {
    let handle = create_test_handle();
    let result = handle.block_hash_ref(100);
    assert!(matches!(result, Err(HandleError::BlockHashNotFound(100))));
}

#[test]
fn executor_lookups_read_what_was_committed() {
    let x = Address::repeat_byte(0x0a);
    let hash = B256::repeat_byte(0x77);
    let handle = create_test_handle();
    let mut changes = ChangeSet::new();
    let mut update = plain_update(4, 40);
    update.code_hash = hash;
    update.code = Some(vec![0x60]);
    update.set_slot(U256::from_u64(1), U256::from_u64(5));
    changes.insert(x, update);
    handle.commit(changes).unwrap();

    assert_eq!(
        handle.basic_ref(x),
        Ok(Some(AccountInfo { nonce: 4, balance: U256::from_u64(40), code_hash: hash }))
    );
    assert_eq!(handle.code_by_hash_ref(hash), Ok(vec![0x60]));
    assert_eq!(handle.code_by_hash_ref(B256::zero()), Ok(vec![]));
    assert_eq!(
        handle.code_by_hash_ref(B256::repeat_byte(0x78)),
        Err(HandleError::CodeNotFound(B256::repeat_byte(0x78)))
    );
    assert_eq!(handle.storage_ref(x, U256::from_u64(1)), Ok(U256::from_u64(5)));
    assert_eq!(handle.storage_ref(x, U256::from_u64(2)), Ok(U256::zero()));

    let broken: TestHandle =
        QmdbHandle::new(MemoryStore::broken(), MemoryStore::new(), MemoryStore::new());
    assert_eq!(
        broken.basic_ref(x),
        Err(HandleError::Store(QmdbError::Storage("memory error".into())))
    );
}

#[test]
fn failing_root_gives_a_root_computation_error() {
    let handle: TestHandle =
        QmdbHandle::new(MemoryStore::rootless(), MemoryStore::new(), MemoryStore::new());
    let expected = Err(StateDbError::RootComputation("storage error: memory error".into()));
    assert_eq!(handle.state_root(), expected);
    assert_eq!(handle.compute_root(&ChangeSet::new()), expected);
    assert_eq!(StateDbWrite::commit(&handle, ChangeSet::new()), expected);
}

#[test]
fn commits_in_sequence_leave_what_a_commit_of_the_merge_leaves() {
    let x = Address::repeat_byte(0x0a);
    let y = Address::repeat_byte(0x0b);
    let z = Address::repeat_byte(0x0c);

    let mut older = ChangeSet::new();
    let mut first = plain_update(1, 900);
    first.set_slot(U256::from_u64(1), U256::from_u64(11));
    first.set_slot(U256::from_u64(2), U256::from_u64(12));
    older.insert(x, first);
    let mut created = plain_update(0, 100);
    created.created = true;
    created.code_hash = B256::repeat_byte(0x77);
    created.code = Some(vec![1, 2, 3]);
    older.insert(y, created);

    let mut newer = ChangeSet::new();
    let mut second = plain_update(2, 800);
    second.set_slot(U256::from_u64(2), U256::zero());
    second.set_slot(U256::from_u64(3), U256::from_u64(33));
    newer.insert(x, second);
    let mut used = plain_update(1, 150);
    used.code_hash = B256::repeat_byte(0x77);
    used.code = Some(vec![1, 2, 3]);
    newer.insert(y, used);
    newer.insert(z, plain_update(0, 50));

    let stepwise = create_test_handle();
    stepwise.init_genesis(vec![(x, U256::from_u64(1000))]).unwrap();
    stepwise.commit(older.clone()).unwrap();
    stepwise.commit(newer.clone()).unwrap();

    let at_once = create_test_handle();
    at_once.init_genesis(vec![(x, U256::from_u64(1000))]).unwrap();
    let mut merged = older;
    merged.merge(newer);
    at_once.commit(merged).unwrap();

    assert_eq!(stepwise.state_root(), at_once.state_root());
    assert_eq!(at_once.balance(&x), Ok(U256::from_u64(800)));
    assert_eq!(at_once.storage(&x, &U256::from_u64(1)), Ok(U256::from_u64(11)));
    assert_eq!(at_once.storage(&x, &U256::from_u64(2)), Ok(U256::zero()));
    assert_eq!(at_once.storage(&x, &U256::from_u64(3)), Ok(U256::from_u64(33)));
    assert_eq!(at_once.code(&B256::repeat_byte(0x77)), Ok(vec![1, 2, 3]));
}

#[test]
fn recreation_in_the_newer_set_is_not_a_commit_of_the_merge() {
    let x = Address::repeat_byte(0x0a);
    let slot = U256::from_u64(1);
    let mut older = ChangeSet::new();
    let mut first = plain_update(1, 10);
    first.set_slot(slot, U256::from_u64(5));
    older.insert(x, first);
    let mut newer = ChangeSet::new();
    let mut again = plain_update(1, 10);
    again.created = true;
    newer.insert(x, again);

    let stepwise = create_test_handle();
    stepwise.init_genesis(vec![(x, U256::from_u64(10))]).unwrap();
    stepwise.commit(older.clone()).unwrap();
    stepwise.commit(newer.clone()).unwrap();
    assert_eq!(stepwise.storage(&x, &slot), Ok(U256::zero()));

    let at_once = create_test_handle();
    at_once.init_genesis(vec![(x, U256::from_u64(10))]).unwrap();
    let mut merged = older;
    merged.merge(newer);
    at_once.commit(merged).unwrap();
    assert_eq!(at_once.storage(&x, &slot), Ok(U256::from_u64(5)));
    assert_ne!(stepwise.state_root(), at_once.state_root());
}

#[test]
fn code_written_twice_under_one_hash_is_that_of_the_greatest_address() {
    let low = Address::repeat_byte(0x01);
    let high = Address::repeat_byte(0x02);
    let hash = B256::repeat_byte(0x77);
    let mut changes = ChangeSet::new();
    let mut first = plain_update(1, 0);
    first.code_hash = hash;
    first.code = Some(vec![0xaa]);
    let mut second = plain_update(1, 0);
    second.code_hash = hash;
    second.code = Some(vec![0xbb, 0xcc]);
    changes.insert(high, second);
    changes.insert(low, first);

    let store: QmdbStore<Accounts, Storage, Code> =
        QmdbStore::new(MemoryStore::new(), MemoryStore::new(), MemoryStore::new());
    let plan = store.plan_changes(&changes).unwrap();
    assert_eq!(plan.code, vec![(hash, Some(vec![0xbb, 0xcc]))]);

    let handle = create_test_handle();
    handle.commit(changes).unwrap();
    assert_eq!(handle.code(&hash), Ok(vec![0xbb, 0xcc]));
}

#[test]
fn computed_root_is_that_of_the_store_after_the_commit() {
    let x = Address::repeat_byte(0x0a);
    let mut changes = ChangeSet::new();
    let mut update = plain_update(3, 30);
    update.code_hash = B256::repeat_byte(0x77);
    update.code = Some(vec![1, 2, 3]);
    update.set_slot(U256::from_u64(1), U256::from_u64(5));
    changes.insert(x, update);
    let handle = create_test_handle();
    handle.init_genesis(vec![(x, U256::from_u64(10))]).unwrap();
    let before = handle.state_root().unwrap();
    let computed = handle.compute_root(&changes).unwrap();
    assert_eq!(handle.state_root(), Ok(before));
    assert_eq!(StateDbWrite::commit(&handle, changes), Ok(computed));
    assert_eq!(handle.state_root(), Ok(computed));
    assert_ne!(computed, before);
}

#[test]
fn commit_of_touched_accounts_commits_their_updates() {
    let x = Address::repeat_byte(0x0a);
    let y = Address::repeat_byte(0x0b);
    let touched = TouchedAccount {
        touched: true,
        created: true,
        selfdestructed: false,
        nonce: 4,
        balance: U256::from_u64(40),
        code_hash: B256::keccak_empty(),
        code: None,
        storage: vec![(U256::from_u64(1), U256::from_u64(5)), (U256::from_u64(1), U256::from_u64(6))],
    };
    let untouched = TouchedAccount {
        touched: false,
        created: false,
        selfdestructed: false,
        nonce: 9,
        balance: U256::from_u64(90),
        code_hash: B256::keccak_empty(),
        code: None,
        storage: vec![],
    };
    let handle = create_test_handle();
    assert_eq!(handle.commit_accounts(vec![(x, touched), (y, untouched)]), Ok(()));
    assert_eq!(handle.nonce(&x), Ok(4));
    assert_eq!(handle.balance(&x), Ok(U256::from_u64(40)));
    assert_eq!(handle.storage(&x, &U256::from_u64(1)), Ok(U256::from_u64(6)));
    assert_eq!(handle.nonce(&y), Err(StateDbError::AccountNotFound(y)));

    let failing: TestHandle =
        QmdbHandle::new(MemoryStore::broken(), MemoryStore::new(), MemoryStore::new());
    let again = TouchedAccount {
        touched: true,
        created: false,
        selfdestructed: false,
        nonce: 1,
        balance: U256::zero(),
        code_hash: B256::keccak_empty(),
        code: None,
        storage: vec![],
    };
    assert!(matches!(
        failing.commit_accounts(vec![(x, again)]),
        Err(HandleError::Store(QmdbError::Storage(_)))
    ));
}

#[test]
fn two_destructions_in_sequence_read_as_their_merge() {
    let x = Address::repeat_byte(0x0a);
    let slot = U256::from_u64(1);
    let mut gone = plain_update(0, 0);
    gone.selfdestructed = true;
    let mut older = ChangeSet::new();
    older.insert(x, gone.clone());
    let mut newer = ChangeSet::new();
    newer.insert(x, gone);

    let mut seed = ChangeSet::new();
    let mut held = plain_update(1, 10);
    held.set_slot(slot, U256::from_u64(5));
    seed.insert(x, held);

    let stepwise = create_test_handle();
    stepwise.commit(seed.clone()).unwrap();
    stepwise.commit(older.clone()).unwrap();
    stepwise.commit(newer.clone()).unwrap();

    let at_once = create_test_handle();
    at_once.commit(seed).unwrap();
    let mut merged = older;
    merged.merge(newer);
    at_once.commit(merged).unwrap();

    assert_eq!(stepwise.nonce(&x), Err(StateDbError::AccountNotFound(x)));
    assert_eq!(at_once.nonce(&x), Err(StateDbError::AccountNotFound(x)));
    assert_eq!(stepwise.storage(&x, &slot), at_once.storage(&x, &slot));
    assert_eq!(stepwise.state_root(), at_once.state_root());
}

#[test]
fn code_that_the_newer_update_leaves_out_is_not_in_the_merge() {
    let x = Address::repeat_byte(0x0a);
    let hash = B256::repeat_byte(0x77);
    let mut older = ChangeSet::new();
    let mut with_code = plain_update(1, 10);
    with_code.code_hash = hash;
    with_code.code = Some(vec![0x60, 0x00]);
    older.insert(x, with_code);
    let mut newer = ChangeSet::new();
    let mut without_code = plain_update(2, 10);
    without_code.code_hash = hash;
    newer.insert(x, without_code);

    let stepwise = create_test_handle();
    stepwise.commit(older.clone()).unwrap();
    stepwise.commit(newer.clone()).unwrap();
    assert_eq!(stepwise.code(&hash), Ok(vec![0x60, 0x00]));

    let at_once = create_test_handle();
    let mut merged = older;
    merged.merge(newer);
    at_once.commit(merged).unwrap();
    assert_eq!(at_once.code(&hash), Err(StateDbError::CodeNotFound(hash)));
    assert_eq!(stepwise.nonce(&x), at_once.nonce(&x));
}

#[test]
fn update_after_a_destruction_in_sequence_reads_as_the_merge_on_a_fresh_account() {
    let x = Address::repeat_byte(0x0a);
    let slot = U256::from_u64(1);
    let mut older = ChangeSet::new();
    let mut gone = plain_update(0, 0);
    gone.selfdestructed = true;
    older.insert(x, gone);
    let mut newer = ChangeSet::new();
    let mut back = plain_update(1, 5);
    back.set_slot(slot, U256::from_u64(9));
    newer.insert(x, back);

    let stepwise = create_test_handle();
    stepwise.init_genesis(vec![(x, U256::from_u64(10))]).unwrap();
    stepwise.commit(older.clone()).unwrap();
    stepwise.commit(newer.clone()).unwrap();

    let at_once = create_test_handle();
    at_once.init_genesis(vec![(x, U256::from_u64(10))]).unwrap();
    let mut merged = older;
    merged.merge(newer);
    at_once.commit(merged).unwrap();

    assert_eq!(stepwise.nonce(&x), Ok(1));
    assert_eq!(at_once.nonce(&x), Ok(1));
    assert_eq!(stepwise.balance(&x), at_once.balance(&x));
    assert_eq!(stepwise.storage(&x, &slot), Ok(U256::from_u64(9)));
    assert_eq!(at_once.storage(&x, &slot), Ok(U256::from_u64(9)));
    assert_eq!(stepwise.state_root(), at_once.state_root());
}

#[test]
fn account_reads_follow_what_the_lookup_gave() {
    let x = Address::repeat_byte(0x0a);
    let hash = B256::repeat_byte(0x77);
    let fields = (7u64, U256::from_u64(900), hash, 3u64);
    assert_eq!(nonce_from(Ok(Some(fields)), x), Ok(7));
    assert_eq!(balance_from(Ok(Some(fields)), x), Ok(U256::from_u64(900)));
    assert_eq!(code_hash_from(Ok(Some(fields)), x), Ok(hash));
    assert_eq!(nonce_from(Ok(None), x), Err(StateDbError::AccountNotFound(x)));
    assert_eq!(balance_from(Ok(None), x), Err(StateDbError::AccountNotFound(x)));
    assert_eq!(code_hash_from(Ok(None), x), Err(StateDbError::AccountNotFound(x)));
    let failed = || Err(QmdbError::Storage("down".into()));
    let told = || StateDbError::Storage("storage error: down".into());
    assert_eq!(nonce_from(failed(), x), Err(told()));
    assert_eq!(balance_from(failed(), x), Err(told()));
    assert_eq!(code_hash_from(failed(), x), Err(told()));
    assert_eq!(read_failure(QmdbError::StoreUnavailable), StateDbError::Storage("stores unavailable".into()));
    assert_eq!(
        basic_from(Ok(Some(fields))),
        Ok(Some(AccountInfo { nonce: 7, balance: U256::from_u64(900), code_hash: hash }))
    );
    assert_eq!(basic_from(Ok(None)), Ok(None));
    assert_eq!(basic_from(failed()), Err(HandleError::Store(QmdbError::Storage("down".into()))));
}

#[test]
fn code_reads_follow_what_the_lookup_gave() {
    let hash = B256::repeat_byte(0x77);
    assert_eq!(code_from(Ok(Some(vec![1, 2])), hash), Ok(vec![1, 2]));
    assert_eq!(code_from(Ok(None), hash), Err(StateDbError::CodeNotFound(hash)));
    assert_eq!(
        code_from(Err(QmdbError::Storage("down".into())), hash),
        Err(StateDbError::Storage("storage error: down".into()))
    );
    assert_eq!(bytecode_from(Ok(Some(vec![1, 2])), hash), Ok(vec![1, 2]));
    assert_eq!(bytecode_from(Ok(None), hash), Err(HandleError::CodeNotFound(hash)));
    assert_eq!(
        bytecode_from(Err(QmdbError::Storage("down".into())), hash),
        Err(HandleError::Store(QmdbError::Storage("down".into())))
    );
    assert!(stands_for_no_code(&B256::keccak_empty()));
    assert!(stands_for_no_code(&B256::zero()));
    assert!(!stands_for_no_code(&hash));
}

#[test]
fn slot_reads_follow_what_the_lookups_gave() {
    let x = Address::repeat_byte(0x0a);
    let slot = U256::from_u64(5);
    let fields = (7u64, U256::from_u64(900), B256::keccak_empty(), 3u64);
    assert_eq!(slot_step(Ok(Some(fields)), x, slot), SlotStep::Read(StorageKey::new(x, 3, slot)));
    assert_eq!(slot_step(Ok(None), x, slot), SlotStep::Zero);
    assert_eq!(
        slot_step(Err(QmdbError::Storage("down".into())), x, slot),
        SlotStep::Fail(QmdbError::Storage("down".into()))
    );
    assert_eq!(slot_from(Ok(Some(U256::from_u64(9)))), Ok(U256::from_u64(9)));
    assert_eq!(slot_from(Ok(None)), Ok(U256::zero()));
    assert_eq!(
        slot_from(Err(QmdbError::Storage("down".into()))),
        Err(StateDbError::Storage("storage error: down".into()))
    );
    assert_eq!(slot_value_from(Ok(Some(U256::from_u64(9)))), Ok(U256::from_u64(9)));
    assert_eq!(slot_value_from(Ok(None)), Ok(U256::zero()));
    assert_eq!(
        slot_value_from(Err(QmdbError::Storage("down".into()))),
        Err(HandleError::Store(QmdbError::Storage("down".into())))
    );
}

#[test]
fn writes_of_an_update_follow_what_the_accounts_partition_answered() {
    let x = Address::repeat_byte(0x0a);
    let hash = B256::repeat_byte(0x77);
    let mut update = plain_update(4, 40);
    update.code_hash = hash;
    update.code = Some(vec![1, 2, 3]);
    update.set_slot(U256::from_u64(2), U256::zero());
    update.set_slot(U256::from_u64(1), U256::from_u64(5));
    let held = Some((1u64, U256::from_u64(10), B256::keccak_empty(), 6u64));

    let fresh = writes_of(x, &update, None);
    assert_eq!(fresh.account, Some(AccountEncoding::encode(4, U256::from_u64(40), hash, 0)));
    assert_eq!(
        fresh.slots,
        vec![
            (StorageKey::new(x, 0, U256::from_u64(1)), Some(U256::from_u64(5))),
            (StorageKey::new(x, 0, U256::from_u64(2)), None),
        ]
    );
    assert_eq!(fresh.code, Some(vec![1, 2, 3]));

    let kept = writes_of(x, &update, held);
    assert_eq!(kept.account, Some(AccountEncoding::encode(4, U256::from_u64(40), hash, 6)));
    assert_eq!(kept.slots[0].0, StorageKey::new(x, 6, U256::from_u64(1)));

    update.created = true;
    let again = writes_of(x, &update, held);
    assert_eq!(again.account, Some(AccountEncoding::encode(4, U256::from_u64(40), hash, 7)));
    assert_eq!(again.slots[1].0, StorageKey::new(x, 7, U256::from_u64(2)));

    update.selfdestructed = true;
    assert_eq!(
        writes_of(x, &update, held),
        UpdateWrites { account: None, slots: vec![], code: None }
    );
}

#[test]
fn generation_follows_the_held_record() {
    let record = |generation: u64| Some((0u64, U256::zero(), B256::keccak_empty(), generation));
    assert_eq!(next_generation(None, false), 0);
    assert_eq!(next_generation(None, true), 0);
    assert_eq!(next_generation(record(4), false), 4);
    assert_eq!(next_generation(record(4), true), 5);
    assert_eq!(next_generation(record(u64::MAX), true), u64::MAX);
}

#[test]
fn account_written_again_after_a_destroying_commit_starts_at_generation_zero() {
    let x = Address::repeat_byte(0x0a);
    let slot = U256::from_u64(1);
    let handle = create_test_handle();
    let mut first = ChangeSet::new();
    let mut born = plain_update(1, 10);
    born.created = true;
    born.set_slot(slot, U256::from_u64(5));
    first.insert(x, born);
    handle.commit(first).unwrap();

    let mut second = ChangeSet::new();
    let mut gone = plain_update(0, 0);
    gone.selfdestructed = true;
    second.insert(x, gone);
    handle.commit(second).unwrap();
    assert_eq!(handle.storage(&x, &slot), Ok(U256::zero()));

    let mut third = ChangeSet::new();
    let mut back = plain_update(1, 10);
    back.created = true;
    third.insert(x, back);
    handle.commit(third).unwrap();
    assert_eq!(handle.storage(&x, &slot), Ok(U256::from_u64(5)));
}

#[test]
fn lookups_follow_what_the_partition_answered() {
    let record = AccountEncoding::encode(7, U256::from_u64(900), B256::repeat_byte(0x77), 3);
    assert_eq!(
        account_from(Ok(Some(record))),
        Ok(Some((7, U256::from_u64(900), B256::repeat_byte(0x77), 3)))
    );
    assert_eq!(account_from(Ok(None)), Ok(None));
    assert_eq!(account_from(Err("down".into())), Err(QmdbError::Storage("down".into())));
    assert_eq!(found_from(Ok(Some(U256::from_u64(9)))), Ok(Some(U256::from_u64(9))));
    assert_eq!(found_from::<U256>(Ok(None)), Ok(None));
    assert_eq!(found_from::<Vec<u8>>(Err("down".into())), Err(QmdbError::Storage("down".into())));
}
