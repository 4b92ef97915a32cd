//! Overlay state: a view that behaves as if a change set had already been
//! applied on top of a base state, without touching the base.

use crate::change_set::{
    among, lemma_among_all, lemma_among_step, map_keys, merge_changes, ChangeSet, ChangeSetView,
};
use crate::primitives::{Address, AddressKey, B256, U256};
use crate::state_db::{StateDb, StateDbError, StateDbRead, StateDbWrite};
use crate::store::{comes_before, key_before};
use crate::sync::share;
use std::sync::Arc;
use vstd::prelude::*;

verus! {

/// Whether the update of address `a` in `delta` carries the code with hash
/// `code_hash`.
pub open spec fn carries_code(delta: ChangeSetView, a: AddressKey, code_hash: B256) -> bool {
    delta.contains_key(a) && delta[a].code_hash == code_hash && delta[a].code is Some
}

/// Whether the update of address `a` is the first of `delta` to carry code
/// under `code_hash`: it carries it, and no update of an address before it
/// does.
pub open spec fn first_carrier(delta: ChangeSetView, a: AddressKey, code_hash: B256) -> bool {
    &&& carries_code(delta, a, code_hash)
    &&& forall|o: AddressKey| #[trigger] carries_code(delta, o, code_hash) ==> !key_before(o, a)
}

/// The code that a read through `delta` finds under `code_hash`: that of the
/// update of the least address that carries code under the hash; `None`
/// where no update does.
pub open spec fn carried_code(delta: ChangeSetView, code_hash: B256) -> Option<Seq<u8>> {
    if exists|a: AddressKey| carries_code(delta, a, code_hash) {
        delta[choose|a: AddressKey| first_carrier(delta, a, code_hash)].code
    } else {
        None
    }
}

/// The code found under a hash is that of the one update that is the first
/// to carry it.
pub proof fn lemma_carried_code(delta: ChangeSetView, a: AddressKey, code_hash: B256)
    requires
        first_carrier(delta, a, code_hash),
    ensures
        carried_code(delta, code_hash) == delta[a].code,
        carried_code(delta, code_hash) is Some,
{
    let chosen = choose|o: AddressKey| first_carrier(delta, o, code_hash);
    assert(carries_code(delta, a, code_hash));
    assert(carries_code(delta, chosen, code_hash));
    assert(!key_before(a, chosen) && !key_before(chosen, a));
    assert(chosen == a);
}

/// What a storage read through a change set `delta` decides by itself:
/// `Some` of the value where `delta` settles the read, `None` where the read
/// goes on to the base.
pub open spec fn overlay_slot(delta: ChangeSetView, address: Address, slot: U256) -> Option<U256> {
    if delta.contains_key(address@) {
        let update = delta[address@];
        if update.selfdestructed {
            Some(U256 { hi: 0, lo: 0 })
        } else if update.storage.contains_key(slot@) {
            Some(update.storage[slot@])
        } else if update.created {
            Some(U256 { hi: 0, lo: 0 })
        } else {
            None
        }
    } else {
        None
    }
}

/// A base state with an uncommitted change set laid over it.
#[verifier::reject_recursive_types(S)]
pub struct OverlayState<S> {
    base: S,
    changes: Arc<ChangeSet>,
}

impl<S> OverlayState<S> {
    /// The state under the overlay.
    pub closed spec fn base_state(&self) -> S {
        self.base
    }

    /// The change set laid over the base.
    pub closed spec fn delta(&self) -> ChangeSetView {
        (*self.changes)@
    }

    /// Lays `changes` over `base`.
    pub fn new(base: S, changes: ChangeSet) -> (overlay: Self)
        ensures
            overlay.base_state() == base,
            overlay.delta() == changes@,
    {
        OverlayState { base, changes: Arc::new(changes) }
    }

    /// The overlay's own change set followed by `newer`.
    pub fn merge_changes(&self, newer: ChangeSet) -> (merged: ChangeSet)
        ensures
            merged@ == merge_changes(self.delta(), newer@),
    {
        let mut merged = (*self.changes).clone();
        merged.merge(newer);
        merged
    }
}

impl<S: Clone> OverlayState<S> {
    /// A copy of the state under the overlay.
    pub fn base(&self) -> (base: S)
        ensures
            cloned(self.base_state(), base),
    {
        self.base.clone()
    }
}

impl<S: Clone> Clone for OverlayState<S> {
    fn clone(&self) -> (copy: Self)
        ensures
            cloned(self.base_state(), copy.base_state()),
            copy.delta() == self.delta(),
    {
        OverlayState { base: self.base.clone(), changes: share(&self.changes) }
    }
}

impl<S: StateDbRead> StateDbRead for OverlayState<S> {
    /// The nonce of the overlay's update where it touches the address, else
    /// whatever the base gives.
    open spec fn admits_nonce(&self, address: Address, r: Result<u64, StateDbError>) -> bool {
        if self.delta().contains_key(address@) {
            r == Ok::<u64, StateDbError>(self.delta()[address@].nonce)
        } else {
            self.base_state().admits_nonce(address, r)
        }
    }

    /// The balance of the overlay's update where it touches the address, else
    /// whatever the base gives.
    open spec fn admits_balance(&self, address: Address, r: Result<U256, StateDbError>) -> bool {
        if self.delta().contains_key(address@) {
            r == Ok::<U256, StateDbError>(self.delta()[address@].balance)
        } else {
            self.base_state().admits_balance(address, r)
        }
    }

    /// The code hash of the overlay's update where it touches the address,
    /// else whatever the base gives.
    open spec fn admits_code_hash(&self, address: Address, r: Result<B256, StateDbError>) -> bool {
        if self.delta().contains_key(address@) {
            r == Ok::<B256, StateDbError>(self.delta()[address@].code_hash)
        } else {
            self.base_state().admits_code_hash(address, r)
        }
    }

    /// The code of the first update of the overlay that carries the hash,
    /// where there is one, else whatever the base gives.
    open spec fn admits_code(&self, code_hash: B256, r: Result<Vec<u8>, StateDbError>) -> bool {
        if exists|a: AddressKey| carries_code(self.delta(), a, code_hash) {
            r matches Ok(bytes) && Some(bytes@) == carried_code(self.delta(), code_hash)
        } else {
            self.base_state().admits_code(code_hash, r)
        }
    }

    /// What the overlay decides by itself, else whatever the base gives.
    open spec fn admits_storage(&self, address: Address, slot: U256, r: Result<U256, StateDbError>) -> bool {
        match overlay_slot(self.delta(), address, slot) {
            Some(value) => r == Ok::<U256, StateDbError>(value),
            None => self.base_state().admits_storage(address, slot, r),
        }
    }

    fn nonce(&self, address: &Address) -> (r: Result<u64, StateDbError>) {
        match self.changes.get(address) {
            Some(update) => Ok(update.nonce),
            None => self.base.nonce(address),
        }
    }

    fn balance(&self, address: &Address) -> (r: Result<U256, StateDbError>) {
        match self.changes.get(address) {
            Some(update) => Ok(update.balance),
            None => self.base.balance(address),
        }
    }

    fn code_hash(&self, address: &Address) -> (r: Result<B256, StateDbError>) {
        match self.changes.get(address) {
            Some(update) => Ok(update.code_hash),
            None => self.base.code_hash(address),
        }
    }

    fn code(&self, code_hash: &B256) -> (r: Result<Vec<u8>, StateDbError>) {
        let keys = map_keys(&self.changes.accounts);
        let mut first: Option<AddressKey> = None;
        let mut i: usize = 0;
        proof {
            lemma_among_all(keys@);
        }
        while i < keys.len()
            invariant
                i <= keys@.len(),
                keys@.to_set() == self.changes.accounts@.dom(),
                first is Some ==> carries_code(self.delta(), first->Some_0, *code_hash),
                forall|a: AddressKey|
                    among(keys@, i as int, a) && #[trigger] carries_code(self.delta(), a, *code_hash)
                        ==> first is Some && !key_before(a, first->Some_0),
            decreases keys@.len() - i,
        {
            let k = keys[i];
            assert(keys@.to_set().contains(k)) by {
                assert(keys@.contains(k));
            }
            proof {
                lemma_among_step(keys@, i as int);
            }
            let update = self.changes.accounts.get(&k).unwrap();
            if update.code_hash == *code_hash && update.code.is_some() {
                let sooner = match first {
                    Some(f) => comes_before(k, f),
                    None => true,
                };
                if sooner {
                    first = Some(k);
                }
            }
            i = i + 1;
        }
        proof {
            lemma_among_all(keys@);
            assert forall|a: AddressKey| #[trigger]
                carries_code(self.delta(), a, *code_hash) implies among(
                keys@,
                i as int,
                a,
            ) by {
                assert(self.changes.accounts@.dom().contains(a));
                assert(keys@.to_set().contains(a));
                assert(among(keys@, keys@.len() as int, a));
            }
        }
        match first {
            Some(f) => {
                proof {
                    lemma_carried_code(self.delta(), f, *code_hash);
                }
                let update = self.changes.accounts.get(&f).unwrap();
                match &update.code {
                    Some(code) => Ok(code.clone()),
                    None => self.base.code(code_hash),
                }
            },
            None => self.base.code(code_hash),
        }
    }

    fn storage(&self, address: &Address, slot: &U256) -> (r: Result<U256, StateDbError>) {
        match self.changes.get(address) {
            Some(update) => {
                if update.selfdestructed {
                    return Ok(U256::zero());
                }
                match update.slot(slot) {
                    Some(value) => {
                        return Ok(value);
                    },
                    None => {},
                }
                if update.created {
                    return Ok(U256::zero());
                }
            },
            None => {},
        }
        self.base.storage(address, slot)
    }
}

impl<S: StateDbWrite> StateDbWrite for OverlayState<S> {
    /// Whatever the base gives for the overlay's change set followed by
    /// `changes`.
    open spec fn admits_commit(&self, changes: ChangeSetView, r: Result<B256, StateDbError>) -> bool {
        self.base_state().admits_commit(merge_changes(self.delta(), changes), r)
    }

    /// Whatever the base gives for the overlay's change set followed by
    /// `changes`.
    open spec fn admits_compute_root(&self, changes: ChangeSetView, r: Result<B256, StateDbError>) -> bool {
        self.base_state().admits_compute_root(merge_changes(self.delta(), changes), r)
    }

    fn commit(&self, changes: ChangeSet) -> (r: Result<B256, StateDbError>) {
        let merged = OverlayState::merge_changes(self, changes);
        self.base.commit(merged)
    }

    fn compute_root(&self, changes: &ChangeSet) -> (r: Result<B256, StateDbError>) {
        let merged = OverlayState::merge_changes(self, changes.clone());
        self.base.compute_root(&merged)
    }

    fn merge_changes(&self, older: ChangeSet, newer: ChangeSet) -> (merged: ChangeSet) {
        self.base.merge_changes(older, newer)
    }
}

impl<S: StateDb> StateDb for OverlayState<S> {
    /// Whatever the base gives.
    open spec fn admits_state_root(&self, r: Result<B256, StateDbError>) -> bool {
        self.base_state().admits_state_root(r)
    }

    fn state_root(&self) -> (r: Result<B256, StateDbError>) {
        self.base.state_root()
    }
}

/// A storage read through an overlay gives zero for an account that the
/// overlay marks as destroyed, whatever the base holds.
pub proof fn lemma_selfdestructed_reads_zero<S: StateDbRead>(
    overlay: OverlayState<S>,
    address: Address,
    slot: U256,
    r: Result<U256, StateDbError>,
)
    requires
        overlay.delta().contains_key(address@),
        overlay.delta()[address@].selfdestructed,
        overlay.admits_storage(address, slot, r),
    ensures
        r == Ok::<U256, StateDbError>(U256 { hi: 0, lo: 0 }),
{
}

/// A storage read through an overlay gives zero for a slot that the update of
/// a created account does not hold, never the value of the base.
pub proof fn lemma_created_reads_zero<S: StateDbRead>(
    overlay: OverlayState<S>,
    address: Address,
    slot: U256,
    r: Result<U256, StateDbError>,
)
    requires
        overlay.delta().contains_key(address@),
        overlay.delta()[address@].created,
        !overlay.delta()[address@].storage.contains_key(slot@),
        overlay.admits_storage(address, slot, r),
    ensures
        r == Ok::<U256, StateDbError>(U256 { hi: 0, lo: 0 }),
{
}

/// An overlay laid over an overlay reads accounts and commits as one overlay
/// that holds the first change set followed by the second.
pub proof fn lemma_overlay_on_overlay<S: StateDb>(
    inner: OverlayState<S>,
    outer: OverlayState<OverlayState<S>>,
    flat: OverlayState<S>,
    address: Address,
    changes: ChangeSetView,
)
    requires
        outer.base_state() == inner,
        flat.base_state() == inner.base_state(),
        flat.delta() == merge_changes(inner.delta(), outer.delta()),
    ensures
        forall|r: Result<u64, StateDbError>|
            outer.admits_nonce(address, r) == flat.admits_nonce(address, r),
        forall|r: Result<U256, StateDbError>|
            outer.admits_balance(address, r) == flat.admits_balance(address, r),
        forall|r: Result<B256, StateDbError>|
            outer.admits_code_hash(address, r) == flat.admits_code_hash(address, r),
        forall|r: Result<B256, StateDbError>|
            outer.admits_commit(changes, r) == flat.admits_commit(changes, r),
        forall|r: Result<B256, StateDbError>|
            outer.admits_compute_root(changes, r) == flat.admits_compute_root(changes, r),
        forall|r: Result<B256, StateDbError>| outer.admits_state_root(r) == flat.admits_state_root(r),
{
    crate::change_set::lemma_merge_associative(inner.delta(), outer.delta(), changes);
}

} // verus!
