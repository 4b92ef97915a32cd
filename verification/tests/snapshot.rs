use kora::change_set::{AccountUpdate, ChangeSet};
use kora::overlay::OverlayState;
use kora::primitives::{Address, B256, U256};
use kora::snapshot::{BrokenChain, ConsensusDigest, DigestStatus, LedgerSnapshot, SnapshotStore};
use kora::state_db::{StateDbError, StateDbRead};
use std::collections::BTreeMap;

#[derive(Clone)]
struct NoBase;

impl StateDbRead for NoBase {
    fn admits_nonce(&self, _address: Address, _r: Result<u64, StateDbError>) -> bool {
        unreachable!()
    }

    fn admits_balance(&self, _address: Address, _r: Result<U256, StateDbError>) -> bool {
        unreachable!()
    }

    fn admits_code_hash(&self, _address: Address, _r: Result<B256, StateDbError>) -> bool {
        unreachable!()
    }

    fn admits_code(&self, _code_hash: B256, _r: Result<Vec<u8>, StateDbError>) -> bool {
        unreachable!()
    }

    fn admits_storage(&self, _address: Address, _slot: U256, _r: Result<U256, StateDbError>) -> bool {
        unreachable!()
    }

    fn nonce(&self, address: &Address) -> Result<u64, StateDbError> {
        Err(StateDbError::AccountNotFound(*address))
    }

    fn balance(&self, address: &Address) -> Result<U256, StateDbError> {
        Err(StateDbError::AccountNotFound(*address))
    }

    fn code_hash(&self, address: &Address) -> Result<B256, StateDbError> {
        Err(StateDbError::AccountNotFound(*address))
    }

    fn code(&self, code_hash: &B256) -> Result<Vec<u8>, StateDbError> {
        Err(StateDbError::CodeNotFound(*code_hash))
    }

    fn storage(&self, _address: &Address, _slot: &U256) -> Result<U256, StateDbError> {
        Ok(U256::zero())
    }
}

fn digest(byte: u8) -> ConsensusDigest {
    ConsensusDigest::repeat_byte(byte)
}

fn changes(nonce: u64, slots: &[(u64, u64)]) -> ChangeSet {
    let mut storage = BTreeMap::new();
    for (slot, value) in slots {
        storage.insert(U256::from_u64(*slot).key(), U256::from_u64(*value));
    }
    let mut set = ChangeSet::new();
    set.insert(
        Address::repeat_byte(0xaa),
        AccountUpdate {
            created: false,
            selfdestructed: false,
            nonce,
            balance: U256::from_u64(nonce * 10),
            code_hash: B256::keccak_empty(),
            code: None,
            storage,
        },
    );
    set
}

fn snapshot(parent: Option<u8>, own: ChangeSet) -> LedgerSnapshot<NoBase> {
    LedgerSnapshot {
        parent: parent.map(digest),
        state: OverlayState::new(NoBase, own.clone()),
        state_root: B256::zero(),
        changes: own,
    }
}

/// genesis (0) <- 1 <- 2 <- 3, each block with its own change set.
fn chain_of_three() -> SnapshotStore<NoBase> {
    let mut store = SnapshotStore::new(digest(0), snapshot(None, ChangeSet::new()));
    store.insert(digest(1), snapshot(Some(0), changes(1, &[(1, 10), (2, 20)])));
    store.insert(digest(2), snapshot(Some(1), changes(2, &[(2, 22), (3, 30)])));
    store.insert(digest(3), snapshot(Some(2), changes(3, &[(3, 33)])));
    store
}

#[test]
fn genesis_is_recorded_and_persisted() {
    let store = SnapshotStore::new(digest(0), snapshot(None, ChangeSet::new()));
    assert!(store.get(&digest(0)).is_some());
    assert!(store.contains(&digest(0)));
    assert!(store.is_persisted(&digest(0)));
    assert!(store.get(&digest(1)).is_none());
    assert_eq!(store.status(&digest(0)), DigestStatus::Persisted);
    assert_eq!(store.status(&digest(1)), DigestStatus::Unknown);
}

#[test]
fn persisted_digest_gives_an_empty_chain_and_an_empty_change_set() {
    let store = chain_of_three();
    let (chain, merged) = store.merged_changes_for_persist(digest(0)).unwrap();
    assert!(chain.is_empty());
    assert!(merged.is_empty());
}

#[test]
fn chain_comes_oldest_first_and_changes_are_folded_in_that_order() {
    let store = chain_of_three();
    let (chain, merged) = store.merged_changes_for_persist(digest(3)).unwrap();
    assert_eq!(chain, vec![digest(1), digest(2), digest(3)]);

    let mut folded = ChangeSet::new();
    for d in &chain {
        folded.merge(store.get(d).unwrap().changes.clone());
    }
    assert_eq!(merged, folded);

    let account = merged.get(&Address::repeat_byte(0xaa)).unwrap();
    assert_eq!(account.nonce, 3);
    assert_eq!(account.slot(&U256::from_u64(1)), Some(U256::from_u64(10)));
    assert_eq!(account.slot(&U256::from_u64(2)), Some(U256::from_u64(22)));
    assert_eq!(account.slot(&U256::from_u64(3)), Some(U256::from_u64(33)));
}

#[test]
fn chain_stops_at_the_last_persisted_ancestor() {
    let mut store = chain_of_three();
    store.mark_persisted_chain(&[digest(1)]);
    let (chain, merged) = store.merged_changes_for_persist(digest(3)).unwrap();
    assert_eq!(chain, vec![digest(2), digest(3)]);
    let account = merged.get(&Address::repeat_byte(0xaa)).unwrap();
    assert_eq!(account.slot(&U256::from_u64(1)), None);
    assert_eq!(account.slot(&U256::from_u64(2)), Some(U256::from_u64(22)));

    let (single, _) = store.merged_changes_for_persist(digest(2)).unwrap();
    assert_eq!(single, vec![digest(2)]);
}

#[test]
fn unknown_digest_breaks_the_chain() {
    let store = chain_of_three();
    assert_eq!(store.merged_changes_for_persist(digest(9)).err(), Some(BrokenChain::MissingSnapshot));
    assert_eq!(BrokenChain::MissingSnapshot.message(), "missing snapshot");
}

#[test]
fn unpersisted_snapshot_without_parent_breaks_the_chain() {
    let mut store = chain_of_three();
    store.insert(digest(7), snapshot(None, changes(1, &[])));
    store.insert(digest(8), snapshot(Some(7), changes(2, &[])));
    assert_eq!(store.merged_changes_for_persist(digest(7)).err(), Some(BrokenChain::MissingParent));
    assert_eq!(store.merged_changes_for_persist(digest(8)).err(), Some(BrokenChain::MissingParent));
    assert_eq!(BrokenChain::MissingParent.message(), "missing parent snapshot");
}

#[test]
fn digest_goes_from_unknown_to_pending_to_persisting_to_persisted() {
    let mut store = SnapshotStore::new(digest(0), snapshot(None, ChangeSet::new()));
    assert_eq!(store.status(&digest(1)), DigestStatus::Unknown);
    store.insert(digest(1), snapshot(Some(0), changes(1, &[])));
    assert_eq!(store.status(&digest(1)), DigestStatus::Pending);
    assert!(store.can_persist_chain(&[digest(1)]));
    store.mark_persisting_chain(&[digest(1)]);
    assert_eq!(store.status(&digest(1)), DigestStatus::Persisting);
    assert!(!store.can_persist_chain(&[digest(1)]));
    store.mark_persisted_chain(&[digest(1)]);
    assert_eq!(store.status(&digest(1)), DigestStatus::Persisted);
    assert!(store.is_persisted(&digest(1)));
    assert!(!store.can_persist_chain(&[digest(1)]));
}

#[test]
fn failed_commit_can_be_tried_again() {
    let mut store = chain_of_three();
    let (chain, _) = store.merged_changes_for_persist(digest(3)).unwrap();
    assert!(store.can_persist_chain(&chain));
    store.mark_persisting_chain(&chain);
    assert!(!store.can_persist_chain(&chain));
    assert!(!store.can_persist_chain(&[digest(2)]));

    store.clear_persisting_chain(&chain);
    assert!(store.can_persist_chain(&chain));
    for d in &chain {
        assert_eq!(store.status(d), DigestStatus::Pending);
        assert!(!store.is_persisted(d));
    }
    let (again, _) = store.merged_changes_for_persist(digest(3)).unwrap();
    assert_eq!(again, chain);
}

#[test]
fn chain_with_a_persisted_digest_cannot_be_persisted() {
    let store = chain_of_three();
    assert!(store.can_persist_chain(&[]));
    assert!(store.can_persist_chain(&[digest(1), digest(2)]));
    assert!(!store.can_persist_chain(&[digest(0), digest(1)]));
    assert!(store.can_persist_chain(&[digest(9)]));
}

#[test]
fn clearing_releases_only_the_digests_of_the_chain() {
    let mut store = chain_of_three();
    store.mark_persisting_chain(&[digest(1), digest(2)]);
    store.clear_persisting_chain(&[digest(1)]);
    assert_eq!(store.status(&digest(1)), DigestStatus::Pending);
    assert_eq!(store.status(&digest(2)), DigestStatus::Persisting);
}

#[test]
fn snapshot_keeps_what_it_was_recorded_with() {
    let store = chain_of_three();
    let second = store.get(&digest(2)).unwrap();
    assert_eq!(second.parent, Some(digest(1)));
    assert_eq!(second.state_root, B256::zero());
    assert_eq!(second.changes, changes(2, &[(2, 22), (3, 30)]));
    assert_eq!(second.state.nonce(&Address::repeat_byte(0xaa)), Ok(2));
    let copy = second.clone();
    assert_eq!(copy.parent, second.parent);
    assert_eq!(copy.changes, second.changes);
}
