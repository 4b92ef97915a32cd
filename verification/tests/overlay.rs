use kora::change_set::{AccountUpdate, ChangeSet, ChangeSetView};
use kora::overlay::OverlayState;
use kora::primitives::{Address, B256, U256};
use kora::state_db::{StateDb, StateDbError, StateDbRead, StateDbWrite};
use std::collections::BTreeMap;
use std::sync::Arc;
use std::sync::Mutex;

/// A base that answers every read with fixed values and records what is
/// committed to it.
#[derive(Clone)]
struct FixedBase {
    committed: Arc<Mutex<Vec<ChangeSet>>>,
}

impl FixedBase {
    fn new() -> Self {
        FixedBase { committed: Arc::new(Mutex::new(Vec::new())) }
    }
}

impl StateDbRead for FixedBase {
    fn admits_nonce(&self, _address: Address, _r: Result<u64, StateDbError>) -> bool {
        unreachable!()
    }

    fn admits_balance(&self, _address: Address, _r: Result<U256, StateDbError>) -> bool {
        unreachable!()
    }

    fn admits_code_hash(&self, _address: Address, _r: Result<B256, StateDbError>) -> bool {
        unreachable!()
    }

    fn admits_code(&self, _code_hash: B256, _r: Result<Vec<u8>, StateDbError>) -> bool {
        unreachable!()
    }

    fn admits_storage(&self, _address: Address, _slot: U256, _r: Result<U256, StateDbError>) -> bool {
        unreachable!()
    }

    fn nonce(&self, _address: &Address) -> Result<u64, StateDbError> {
        Ok(77)
    }

    fn balance(&self, _address: &Address) -> Result<U256, StateDbError> {
        Ok(U256::from_u64(7777))
    }

    fn code_hash(&self, _address: &Address) -> Result<B256, StateDbError> {
        Ok(B256::repeat_byte(0x77))
    }

    fn code(&self, code_hash: &B256) -> Result<Vec<u8>, StateDbError> {
        Err(StateDbError::CodeNotFound(*code_hash))
    }

    fn storage(&self, _address: &Address, _slot: &U256) -> Result<U256, StateDbError> {
        Ok(U256::from_u64(999))
    }
}

impl StateDbWrite for FixedBase {
    fn admits_commit(&self, _changes: ChangeSetView, _r: Result<B256, StateDbError>) -> bool {
        unreachable!()
    }

    fn admits_compute_root(&self, _changes: ChangeSetView, _r: Result<B256, StateDbError>) -> bool {
        unreachable!()
    }

    fn commit(&self, changes: ChangeSet) -> Result<B256, StateDbError> {
        let count = changes.accounts.len() as u8;
        self.committed.lock().unwrap().push(changes);
        Ok(B256::repeat_byte(count))
    }

    fn compute_root(&self, changes: &ChangeSet) -> Result<B256, StateDbError> {
        Ok(B256::repeat_byte(changes.accounts.len() as u8))
    }

    fn merge_changes(&self, older: ChangeSet, newer: ChangeSet) -> ChangeSet {
        let mut merged = older;
        merged.merge(newer);
        merged
    }
}

impl StateDb for FixedBase {
    fn admits_state_root(&self, _r: Result<B256, StateDbError>) -> bool {
        unreachable!()
    }

    fn state_root(&self) -> Result<B256, StateDbError> {
        Ok(B256::repeat_byte(0xee))
    }
}

fn update(nonce: u64, balance: u64, slots: &[(u64, u64)]) -> AccountUpdate {
    let mut storage = BTreeMap::new();
    for (slot, value) in slots {
        storage.insert(U256::from_u64(*slot).key(), U256::from_u64(*value));
    }
    AccountUpdate {
        created: false,
        selfdestructed: false,
        nonce,
        balance: U256::from_u64(balance),
        code_hash: B256::repeat_byte(0x01),
        code: None,
        storage,
    }
}

fn overlay_with(entries: Vec<(u8, AccountUpdate)>) -> OverlayState<FixedBase> {
    let mut changes = ChangeSet::new();
    for (byte, update) in entries {
        changes.insert(Address::repeat_byte(byte), update);
    }
    OverlayState::new(FixedBase::new(), changes)
}

#[test]
fn account_fields_come_from_the_overlay_where_it_touches_the_address() {
    let overlay = overlay_with(vec![(1, update(3, 30, &[]))]);
    let touched = Address::repeat_byte(1);
    let other = Address::repeat_byte(2);
    assert_eq!(overlay.nonce(&touched), Ok(3));
    assert_eq!(overlay.balance(&touched), Ok(U256::from_u64(30)));
    assert_eq!(overlay.code_hash(&touched), Ok(B256::repeat_byte(0x01)));
    assert_eq!(overlay.nonce(&other), Ok(77));
    assert_eq!(overlay.balance(&other), Ok(U256::from_u64(7777)));
    assert_eq!(overlay.code_hash(&other), Ok(B256::repeat_byte(0x77)));
}

#[test]
fn selfdestructed_account_reads_zero_whatever_the_base_holds() {
    let mut gone = update(0, 0, &[(1, 5)]);
    gone.selfdestructed = true;
    let overlay = overlay_with(vec![(1, gone)]);
    let address = Address::repeat_byte(1);
    assert_eq!(overlay.storage(&address, &U256::from_u64(1)), Ok(U256::zero()));
    assert_eq!(overlay.storage(&address, &U256::from_u64(2)), Ok(U256::zero()));
}

#[test]
fn created_account_reads_zero_for_slots_it_does_not_hold() {
    let mut fresh = update(1, 0, &[(1, 5)]);
    fresh.created = true;
    let overlay = overlay_with(vec![(1, fresh)]);
    let address = Address::repeat_byte(1);
    assert_eq!(overlay.storage(&address, &U256::from_u64(1)), Ok(U256::from_u64(5)));
    assert_eq!(overlay.storage(&address, &U256::from_u64(2)), Ok(U256::zero()));
}

#[test]
fn destroyed_and_recreated_account_reads_zero_for_its_old_slot() {
    let mut again = update(1, 0, &[]);
    again.created = true;
    let overlay = overlay_with(vec![(1, again)]);
    assert_eq!(overlay.storage(&Address::repeat_byte(1), &U256::from_u64(1)), Ok(U256::zero()));
}

#[test]
fn plain_update_falls_through_to_the_base_for_other_slots() {
    let overlay = overlay_with(vec![(1, update(1, 0, &[(1, 5)]))]);
    let address = Address::repeat_byte(1);
    assert_eq!(overlay.storage(&address, &U256::from_u64(1)), Ok(U256::from_u64(5)));
    assert_eq!(overlay.storage(&address, &U256::from_u64(2)), Ok(U256::from_u64(999)));
    assert_eq!(overlay.storage(&Address::repeat_byte(2), &U256::from_u64(1)), Ok(U256::from_u64(999)));
}

#[test]
fn code_comes_from_an_update_that_carries_it() {
    let hash = B256::repeat_byte(0x0c);
    let mut with_code = update(1, 0, &[]);
    with_code.code_hash = hash;
    with_code.code = Some(vec![0x60, 0x01]);
    let mut without_code = update(1, 0, &[]);
    without_code.code_hash = B256::repeat_byte(0x0d);
    let overlay = overlay_with(vec![(1, without_code), (2, with_code)]);
    assert_eq!(overlay.code(&hash), Ok(vec![0x60, 0x01]));
    assert_eq!(
        overlay.code(&B256::repeat_byte(0x0d)),
        Err(StateDbError::CodeNotFound(B256::repeat_byte(0x0d)))
    );
}

#[test]
fn commit_hands_the_base_the_merged_change_set() {
    let base = FixedBase::new();
    let mut parent = ChangeSet::new();
    parent.insert(Address::repeat_byte(1), update(1, 10, &[(1, 100)]));
    let overlay = OverlayState::new(base.clone(), parent);

    let mut child = ChangeSet::new();
    child.insert(Address::repeat_byte(1), update(2, 20, &[(2, 200)]));
    child.insert(Address::repeat_byte(2), update(1, 1, &[]));

    assert_eq!(overlay.compute_root(&child), Ok(B256::repeat_byte(2)));
    assert!(base.committed.lock().unwrap().is_empty());

    let expected = overlay.merge_changes(child.clone());
    assert_eq!(overlay.commit(child), Ok(B256::repeat_byte(2)));
    let committed = base.committed.lock().unwrap();
    assert_eq!(committed.len(), 1);
    assert_eq!(committed[0], expected);
    let one = committed[0].get(&Address::repeat_byte(1)).unwrap();
    assert_eq!(one.nonce, 2);
    assert_eq!(one.slot(&U256::from_u64(1)), Some(U256::from_u64(100)));
    assert_eq!(one.slot(&U256::from_u64(2)), Some(U256::from_u64(200)));
}

#[test]
fn overlay_on_overlay_reads_as_one_overlay_with_the_merged_changes() {
    let base = FixedBase::new();
    let mut first = ChangeSet::new();
    first.insert(Address::repeat_byte(1), update(1, 10, &[(1, 100)]));
    first.insert(Address::repeat_byte(2), update(5, 50, &[]));
    let mut second = ChangeSet::new();
    second.insert(Address::repeat_byte(1), update(2, 20, &[(2, 200)]));

    let inner = OverlayState::new(base.clone(), first.clone());
    let outer = OverlayState::new(inner.clone(), second.clone());
    let flat = OverlayState::new(base, inner.merge_changes(second));

    for byte in [1u8, 2, 3] {
        let address = Address::repeat_byte(byte);
        assert_eq!(outer.nonce(&address), flat.nonce(&address));
        assert_eq!(outer.balance(&address), flat.balance(&address));
        assert_eq!(outer.code_hash(&address), flat.code_hash(&address));
        for slot in [1u64, 2, 3] {
            let slot = U256::from_u64(slot);
            assert_eq!(outer.storage(&address, &slot), flat.storage(&address, &slot));
        }
    }
    assert_eq!(outer.state_root(), Ok(B256::repeat_byte(0xee)));
}

#[test]
fn overlay_clone_and_base() {
    let overlay = overlay_with(vec![(1, update(3, 30, &[]))]);
    let copy = overlay.clone();
    assert_eq!(copy.nonce(&Address::repeat_byte(1)), Ok(3));
    let base = overlay.base();
    assert_eq!(base.nonce(&Address::repeat_byte(1)), Ok(77));
    assert_eq!(overlay.account_exists(&Address::repeat_byte(1)), Ok(true));
    let merged = overlay.merge_changes(base.merge_changes(ChangeSet::new(), ChangeSet::new()));
    assert_eq!(merged.accounts.len(), 1);
}

#[test]
fn code_carried_twice_under_one_hash_is_that_of_the_least_address() {
    let hash = B256::repeat_byte(0x0c);
    let mut low = update(1, 0, &[]);
    low.code_hash = hash;
    low.code = Some(vec![0xaa]);
    let mut middle = update(1, 0, &[]);
    middle.code_hash = hash;
    let mut high = update(1, 0, &[]);
    high.code_hash = hash;
    high.code = Some(vec![0xbb, 0xcc]);
    let overlay = overlay_with(vec![(3, high.clone()), (2, low.clone()), (1, middle.clone())]);
    assert_eq!(overlay.code(&hash), Ok(vec![0xaa]));
    let overlay = overlay_with(vec![(1, middle), (2, high), (3, low)]);
    assert_eq!(overlay.code(&hash), Ok(vec![0xbb, 0xcc]));
}
