//! Change sets: the pending per-account mutations that executing one block
//! produces, and how an older set is merged with a newer one.

use crate::primitives::{Address, AddressKey, WordKey, B256, U256};
use std::collections::BTreeMap;
use vstd::prelude::*;
use vstd::std_specs::btree::key_obeys_cmp_spec;
use vstd::std_specs::btree::spec_keys_iter;
use vstd::std_specs::iter::IteratorSpec;

verus! {

/// What an account update says, as a mathematical value.
pub struct AccountUpdateView {
    pub created: bool,
    pub selfdestructed: bool,
    pub nonce: u64,
    pub balance: U256,
    pub code_hash: B256,
    pub code: Option<Seq<u8>>,
    pub storage: Map<WordKey, U256>,
}

/// What a change set says: the update of each touched address.
pub type ChangeSetView = Map<AddressKey, AccountUpdateView>;

/// The update that stands for `older` followed by `newer` on one address: the
/// scalar fields of `newer`, and both storage maps with the slots of `newer`
/// overriding those of `older`.
pub open spec fn merge_update(older: AccountUpdateView, newer: AccountUpdateView) -> AccountUpdateView {
    AccountUpdateView {
        created: newer.created,
        selfdestructed: newer.selfdestructed,
        nonce: newer.nonce,
        balance: newer.balance,
        code_hash: newer.code_hash,
        code: newer.code,
        storage: older.storage.union_prefer_right(newer.storage),
    }
}

/// The change set that stands for `older` followed by `newer`.
pub open spec fn merge_changes(older: ChangeSetView, newer: ChangeSetView) -> ChangeSetView {
    Map::new(
        |a: AddressKey| older.contains_key(a) || newer.contains_key(a),
        |a: AddressKey|
            if older.contains_key(a) && newer.contains_key(a) {
                merge_update(older[a], newer[a])
            } else if newer.contains_key(a) {
                newer[a]
            } else {
                older[a]
            },
    )
}

/// The change sets of `chain` merged one after the other, the first one
/// applied first.
pub open spec fn merge_all(chain: Seq<ChangeSetView>) -> ChangeSetView
    decreases chain.len(),
{
    if chain.len() == 0 {
        Map::empty()
    } else {
        merge_changes(merge_all(chain.drop_last()), chain.last())
    }
}

/// Merging updates is associative.
pub proof fn lemma_merge_update_associative(
    a: AccountUpdateView,
    b: AccountUpdateView,
    c: AccountUpdateView,
)
    ensures
        merge_update(merge_update(a, b), c) == merge_update(a, merge_update(b, c)),
{
    assert(a.storage.union_prefer_right(b.storage).union_prefer_right(c.storage)
        =~= a.storage.union_prefer_right(b.storage.union_prefer_right(c.storage)));
}

/// Merging change sets is associative: merging `a` with `b` and the result
/// with `c` gives the same change set as merging `a` with the merge of `b`
/// and `c`.
pub proof fn lemma_merge_associative(a: ChangeSetView, b: ChangeSetView, c: ChangeSetView)
    ensures
        merge_changes(merge_changes(a, b), c) == merge_changes(a, merge_changes(b, c)),
{
    let left = merge_changes(merge_changes(a, b), c);
    let right = merge_changes(a, merge_changes(b, c));
    assert forall|k: AddressKey| left.contains_key(k) implies #[trigger] left[k] == right[k] by {
        if a.contains_key(k) && b.contains_key(k) && c.contains_key(k) {
            lemma_merge_update_associative(a[k], b[k], c[k]);
        }
    }
    assert(left =~= right);
}

/// The empty change set is a unit of merging on both sides.
pub proof fn lemma_merge_empty(a: ChangeSetView)
    ensures
        merge_changes(Map::empty(), a) == a,
        merge_changes(a, Map::empty()) == a,
{
    assert(merge_changes(Map::empty(), a) =~= a);
    assert(merge_changes(a, Map::empty()) =~= a);
}

/// Whether `k` is one of the first `n` keys of `keys`.
pub open spec fn among<K>(keys: Seq<K>, n: int, k: K) -> bool {
    exists|j: int| 0 <= j < n && keys[j] == k
}

/// One more key is among the first `n + 1`: the key at `n`.
pub proof fn lemma_among_step<K>(keys: Seq<K>, n: int)
    requires
        0 <= n < keys.len(),
    ensures
        forall|k: K| #[trigger] among(keys, n + 1, k) <==> among(keys, n, k) || keys[n] == k,
{
    assert forall|k: K| #[trigger] among(keys, n + 1, k) <==> among(keys, n, k) || keys[n] == k by {
        if among(keys, n + 1, k) {
            let j = choose|j: int| 0 <= j < n + 1 && keys[j] == k;
            if j < n {
                assert(among(keys, n, k));
            }
        }
        if among(keys, n, k) {
            let j = choose|j: int| 0 <= j < n && keys[j] == k;
            assert(0 <= j < n + 1 && keys[j] == k);
        }
        if keys[n] == k {
            assert(0 <= n < n + 1 && keys[n] == k);
        }
    }
}

/// The keys among all of `keys` are those of the set of `keys`.
pub proof fn lemma_among_all<K>(keys: Seq<K>)
    ensures
        forall|k: K| #[trigger] among(keys, keys.len() as int, k) <==> keys.to_set().contains(k),
        forall|k: K| !#[trigger] among(keys, 0, k),
{
    assert forall|k: K| #[trigger] among(keys, keys.len() as int, k) <==> keys.to_set().contains(
        k,
    ) by {
        if among(keys, keys.len() as int, k) {
            let j = choose|j: int| 0 <= j < keys.len() && keys[j] == k;
            assert(keys.contains(k));
        }
        if keys.to_set().contains(k) {
            assert(keys.contains(k));
            let j = choose|j: int| 0 <= j < keys.len() && keys[j] == k;
            assert(0 <= j < keys.len() as int && keys[j] == k);
        }
    }
}

/// The keys of an ordered map, each once.
pub(crate) fn map_keys<K: Copy, V>(m: &BTreeMap<K, V>) -> (keys: Vec<K>)
    requires
        key_obeys_cmp_spec::<K>(),
    ensures
        keys@.no_duplicates(),
        keys@.to_set() == m@.dom(),
{
    let mut keys: Vec<K> = Vec::new();
    for k in it: m.keys()
        invariant
            it.seq() == spec_keys_iter(m).remaining(),
            keys@.len() == it.index(),
            forall|j: int| 0 <= j < keys@.len() ==> keys@[j] == *it.seq()[j],
    {
        keys.push(*k);
    }
    proof {
        assert(keys@ =~= spec_keys_iter(m).remaining().unref());
    }
    keys
}

/// The net effect of one account's activity in one block.
#[derive(Debug, PartialEq, Eq)]
pub struct AccountUpdate {
    /// The account was created in this block.
    pub created: bool,
    /// The account was destroyed in this block.
    pub selfdestructed: bool,
    /// The nonce after the block.
    pub nonce: u64,
    /// The balance after the block.
    pub balance: U256,
    /// The hash of the account's code after the block.
    pub code_hash: B256,
    /// The code itself, where the block brought it.
    pub code: Option<Vec<u8>>,
    /// The storage slots that the block wrote, with their new values.
    pub storage: BTreeMap<WordKey, U256>,
}

impl View for AccountUpdate {
    type V = AccountUpdateView;

    open spec fn view(&self) -> AccountUpdateView {
        AccountUpdateView {
            created: self.created,
            selfdestructed: self.selfdestructed,
            nonce: self.nonce,
            balance: self.balance,
            code_hash: self.code_hash,
            code: match self.code {
                Some(c) => Some(c@),
                None => None,
            },
            storage: self.storage@,
        }
    }
}

impl Clone for AccountUpdate {
    fn clone(&self) -> (copy: Self)
        ensures
            copy@ == self@,
    {
        let code = match &self.code {
            Some(c) => Some(c.clone()),
            None => None,
        };
        AccountUpdate {
            created: self.created,
            selfdestructed: self.selfdestructed,
            nonce: self.nonce,
            balance: self.balance,
            code_hash: self.code_hash,
            code,
            storage: self.storage.clone(),
        }
    }
}

impl AccountUpdate {
    /// The value that slot `slot` has in this update, if the update wrote it.
    pub fn slot(&self, slot: &U256) -> (value: Option<U256>)
        ensures
            value == (if self@.storage.contains_key(slot@) {
                Some(self@.storage[slot@])
            } else {
                None
            }),
    {
        match self.storage.get(&slot.key()) {
            Some(v) => Some(*v),
            None => None,
        }
    }

    /// Writes `value` to slot `slot` in this update.
    pub fn set_slot(&mut self, slot: U256, value: U256)
        ensures
            final(self)@ == (AccountUpdateView {
                storage: old(self)@.storage.insert(slot@, value),
                ..old(self)@
            }),
    {
        self.storage.insert(slot.key(), value);
    }

    /// This update followed by `newer`: the scalar fields of `newer`, and both
    /// storage maps, the slots of `newer` overriding.
    pub fn merge(self, newer: AccountUpdate) -> (merged: AccountUpdate)
        ensures
            merged@ == merge_update(self@, newer@),
    {
        let AccountUpdate { created, selfdestructed, nonce, balance, code_hash, code, storage: written } = newer;
        let mut storage = self.storage;
        let ghost before = storage@;
        let keys = map_keys(&written);
        let mut i: usize = 0;
        proof {
            lemma_among_all(keys@);
        }
        while i < keys.len()
            invariant
                i <= keys@.len(),
                keys@.to_set() == written@.dom(),
                forall|k: WordKey|
                    #![trigger storage@.contains_key(k)]
                    storage@.contains_key(k) <==> before.contains_key(k) || among(
                        keys@,
                        i as int,
                        k,
                    ),
                forall|k: WordKey|
                    #![trigger storage@[k]]
                    storage@.contains_key(k) ==> storage@[k] == (if among(keys@, i as int, k) {
                        written@[k]
                    } else {
                        before[k]
                    }),
            decreases keys@.len() - i,
        {
            let k = keys[i];
            assert(keys@.to_set().contains(k)) by {
                assert(keys@.contains(k));
            }
            proof {
                lemma_among_step(keys@, i as int);
            }
            let value = *written.get(&k).unwrap();
            storage.insert(k, value);
            i = i + 1;
        }
        proof {
            lemma_among_all(keys@);
            assert(storage@ =~= before.union_prefer_right(written@));
        }
        AccountUpdate { created, selfdestructed, nonce, balance, code_hash, code, storage }
    }
}

/// The pending mutations of one block, by address.
#[derive(Debug, PartialEq, Eq)]
pub struct ChangeSet {
    /// The update of each touched account.
    pub accounts: BTreeMap<AddressKey, AccountUpdate>,
}

impl View for ChangeSet {
    type V = ChangeSetView;

    open spec fn view(&self) -> ChangeSetView {
        Map::new(
            |a: AddressKey| self.accounts@.contains_key(a),
            |a: AddressKey| self.accounts@[a]@,
        )
    }
}

impl Clone for ChangeSet {
    fn clone(&self) -> (copy: Self)
        ensures
            copy@ == self@,
    {
        let copy = ChangeSet { accounts: self.accounts.clone() };
        assert(copy@ =~= self@);
        copy
    }
}

impl Default for ChangeSet {
    fn default() -> (changes: Self)
        ensures
            changes@ == Map::<AddressKey, AccountUpdateView>::empty(),
    {
        ChangeSet::new()
    }
}

impl ChangeSet {
    /// The change set that touches no account.
    pub fn new() -> (changes: Self)
        ensures
            changes@ == Map::<AddressKey, AccountUpdateView>::empty(),
    {
        let changes = ChangeSet { accounts: BTreeMap::new() };
        assert(changes@ =~= Map::<AddressKey, AccountUpdateView>::empty());
        changes
    }

    /// Whether the change set touches no account.
    pub fn is_empty(&self) -> (empty: bool)
        ensures
            empty == (self@ == Map::<AddressKey, AccountUpdateView>::empty()),
    {
        let empty = self.accounts.is_empty();
        proof {
            if empty {
                assert(self@ =~= Map::<AddressKey, AccountUpdateView>::empty());
            } else {
                let k = choose|k: AddressKey| self.accounts@.contains_key(k);
                assert(self.accounts@.dom().contains(k));
                assert(self@.contains_key(k));
            }
        }
        empty
    }

    /// The update of `address`, if the change set touches it.
    pub fn get(&self, address: &Address) -> (update: Option<&AccountUpdate>)
        ensures
            update is Some == self@.contains_key(address@),
            update matches Some(u) ==> u@ == self@[address@],
    {
        self.accounts.get(&address.key())
    }

    /// Records `update` as the update of `address`, in place of any earlier one.
    pub fn insert(&mut self, address: Address, update: AccountUpdate)
        ensures
            final(self)@ == old(self)@.insert(address@, update@),
    {
        self.accounts.insert(address.key(), update);
        assert(self@ =~= old(self)@.insert(address@, update@));
    }

    /// Merges `newer` into this change set. On an address that both touch the
    /// result has the scalar fields of `newer` and both storage maps, the
    /// slots of `newer` overriding.
    pub fn merge(&mut self, newer: ChangeSet)
        ensures
            final(self)@ == merge_changes(old(self)@, newer@),
    {
        let ghost older = self.accounts@;
        let ghost added = newer.accounts@;
        let mut rest = newer.accounts;
        let keys = map_keys(&rest);
        let mut i: usize = 0;
        proof {
            lemma_among_all(keys@);
        }
        while i < keys.len()
            invariant
                i <= keys@.len(),
                keys@.no_duplicates(),
                keys@.to_set() == added.dom(),
                forall|k: AddressKey|
                    #![trigger rest@.contains_key(k)]
                    rest@.contains_key(k) <==> added.contains_key(k) && !among(keys@, i as int, k),
                forall|k: AddressKey|
                    #![trigger rest@[k]]
                    rest@.contains_key(k) ==> rest@[k] == added[k],
                forall|k: AddressKey|
                    #![trigger self.accounts@.contains_key(k)]
                    self.accounts@.contains_key(k) <==> older.contains_key(k) || among(
                        keys@,
                        i as int,
                        k,
                    ),
                forall|k: AddressKey|
                    #![trigger self.accounts@[k]]
                    self.accounts@.contains_key(k) ==> self.accounts@[k]@ == (if among(
                        keys@,
                        i as int,
                        k,
                    ) {
                        if older.contains_key(k) {
                            merge_update(older[k]@, added[k]@)
                        } else {
                            added[k]@
                        }
                    } else {
                        older[k]@
                    }),
            decreases keys@.len() - i,
        {
            let k = keys[i];
            assert(keys@.to_set().contains(k)) by {
                assert(keys@.contains(k));
            }
            assert(!among(keys@, i as int, k)) by {
                if among(keys@, i as int, k) {
                    let j = choose|j: int| 0 <= j < i && keys@[j] == k;
                    assert(keys@[j] == keys@[i as int]);
                }
            }
            proof {
                lemma_among_step(keys@, i as int);
            }
            let update = rest.remove(&k).unwrap();
            let merged = match self.accounts.remove(&k) {
                Some(existing) => existing.merge(update),
                None => update,
            };
            self.accounts.insert(k, merged);
            i = i + 1;
        }
        proof {
            lemma_among_all(keys@);
            assert(self@ =~= merge_changes(old(self)@, newer@));
        }
    }
}

} // verus!
