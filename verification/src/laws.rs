//! Laws that relate merging, committing and reading through overlays.

use crate::change_set::{merge_changes, merge_update, AccountUpdateView, ChangeSetView};
use crate::handle::{
    balance_of, basic_of, bytecode_of, code_hash_of, code_of, genesis_changes_of, genesis_update,
    no_code, nonce_of, slot_of, HandleError,
};
use crate::overlay::{overlay_slot, OverlayState};
use crate::primitives::{keccak256_empty, Address, AddressKey, WordKey, B256, U256};
use crate::state_db::{StateDbError, StateDbRead};
use crate::store::{
    account_at, accounts_committed, address_of, bump, bytes_of, code_committed, code_written,
    committed, generation_after, holds, lemma_commit_is_a_function, lemma_top_code, same_at,
    slot_write, slot_written, some_code_written, storage_committed, store_root, top_code,
    top_writer, AccountContents, CodeContents, QmdbGettable, QmdbStore, RootProvider,
    StorageContents, StorageKey, StoreContents,
};
use vstd::prelude::*;

verus! {

/// What reading the nonce, balance and code hash of `address` gives on a
/// store that holds `contents`; `None` where it holds no such account.
pub open spec fn account_read(contents: StoreContents, address: Address) -> Option<(u64, U256, B256)> {
    match account_at(contents.accounts, address) {
        Some(fields) => Some((fields.0, fields.1, fields.2)),
        None => None,
    }
}

/// What reading slot `slot` of `address` gives on a store that holds
/// `contents`: what stands under the account's generation, and zero where
/// there is no such account or no such slot.
pub open spec fn slot_read(contents: StoreContents, address: Address, slot: U256) -> U256 {
    match account_at(contents.accounts, address) {
        Some(fields) => {
            let key = StorageKey { address, generation: fields.3, slot };
            if contents.storage.contains_key(key) {
                contents.storage[key]
            } else {
                U256 { hi: 0, lo: 0 }
            }
        },
        None => U256 { hi: 0, lo: 0 },
    }
}

/// The bytes that reading the code under `code_hash` gives on a store that
/// holds `contents`; `None` where it holds none.
pub open spec fn code_read(contents: StoreContents, code_hash: B256) -> Option<Seq<u8>> {
    if contents.code.contains_key(code_hash) {
        Some(contents.code[code_hash]@)
    } else {
        None
    }
}

/// Whether every read gives the same on two stores: the nonce, balance and
/// code hash of every address, every slot, and the code under every hash
/// that stands for code.
pub open spec fn reads_alike(one: StoreContents, other: StoreContents) -> bool {
    &&& forall|a: Address| #[trigger] account_read(one, a) == account_read(other, a)
    &&& forall|a: Address, slot: U256| #[trigger] slot_read(one, a, slot) == slot_read(other, a, slot)
    &&& forall|h: B256| !no_code(h) ==> #[trigger] code_read(one, h) == code_read(other, h)
}

/// The generation of the account at `address` after `older` and then `newer`
/// were committed, where `newer` does not destroy it: zero where `older`
/// destroyed it, else the generation that `older` wrote under, raised where
/// `newer` creates the account again.
pub open spec fn generation_in_sequence(
    accounts: AccountContents,
    address: Address,
    older: AccountUpdateView,
    newer: AccountUpdateView,
) -> u64 {
    if older.selfdestructed {
        0
    } else if newer.created {
        bump(generation_after(accounts, address, older))
    } else {
        generation_after(accounts, address, older)
    }
}

/// Whether the slots of an address that both change sets touch read the
/// same after the two commits as after the commit of the merge, whatever
/// slots the store holds. That is so where the newer update destroys the
/// account; else the merge must write under the generation that the
/// sequence ends in, and each slot that only the older update writes must
/// have been written under it.
pub open spec fn slots_agree(
    accounts: AccountContents,
    address: Address,
    older: AccountUpdateView,
    newer: AccountUpdateView,
) -> bool {
    let last = generation_in_sequence(accounts, address, older, newer);
    newer.selfdestructed || (generation_after(accounts, address, merge_update(older, newer))
        == last && forall|slot: WordKey|
        #![trigger older.storage.contains_key(slot)]
        older.storage.contains_key(slot) && !newer.storage.contains_key(slot)
            ==> !older.selfdestructed && generation_after(accounts, address, older) == last)
}

/// The code that stands under `code_hash` after `older` and then `newer`
/// were committed, where either writes under it: that of `newer` where it
/// does, else that of `older`.
pub open spec fn code_in_sequence(older: ChangeSetView, newer: ChangeSetView, code_hash: B256) -> Option<
    Seq<u8>,
> {
    if some_code_written(newer, code_hash) {
        top_code(newer, code_hash)
    } else {
        top_code(older, code_hash)
    }
}

/// Whether committing `older` and then `newer` to a store whose accounts
/// partition holds `accounts` reads as committing their merge does,
/// whatever slots and code the store holds: the slots of every address that
/// both touch agree, and under every hash that stands for code the sequence
/// leaves the code that the merge leaves.
pub open spec fn compatible(accounts: AccountContents, older: ChangeSetView, newer: ChangeSetView) -> bool {
    &&& forall|k: AddressKey|
        #![trigger older.contains_key(k), newer.contains_key(k)]
        older.contains_key(k) && newer.contains_key(k) ==> slots_agree(
            accounts,
            address_of(k),
            older[k],
            newer[k],
        )
    &&& forall|h: B256|
        #![trigger top_code(merge_changes(older, newer), h)]
        !no_code(h) ==> code_in_sequence(older, newer, h) == top_code(merge_changes(older, newer), h)
}

/// What a commit leaves in the accounts partition: no record of an account
/// that it destroys, the record of its update for any other account that it
/// updates, under the generation that the held record gives, and what was
/// there for every other address.
pub proof fn lemma_account_after(
    before: AccountContents,
    changes: ChangeSetView,
    after: AccountContents,
    a: Address,
)
    requires
        accounts_committed(before, changes, after),
    ensures
        changes.contains_key(a@) ==> account_at(after, a) == (if changes[a@].selfdestructed {
            None::<(u64, U256, B256, u64)>
        } else {
            Some(
                (
                    changes[a@].nonce,
                    changes[a@].balance,
                    changes[a@].code_hash,
                    generation_after(before, a, changes[a@]),
                ),
            )
        }),
        !changes.contains_key(a@) ==> account_at(after, a) == account_at(before, a),
{
    assert(after.contains_key(a) || !after.contains_key(a));
    if changes.contains_key(a@) && !changes[a@].selfdestructed {
        crate::store::lemma_record_roundtrip(
            (
                changes[a@].nonce,
                changes[a@].balance,
                changes[a@].code_hash,
                generation_after(before, a, changes[a@]),
            ),
        );
    }
}

/// What a commit leaves under one storage key: the new value of a slot that
/// it writes, nothing where that value is zero, and what was there under
/// every other key, the slots of a destroyed account among them.
pub proof fn lemma_slot_after(
    accounts: AccountContents,
    before: StorageContents,
    changes: ChangeSetView,
    after: StorageContents,
    key: StorageKey,
)
    requires
        storage_committed(accounts, before, changes, after),
    ensures
        slot_written(accounts, changes, key) ==> holds(
            after,
            key,
            slot_write(changes[key.address@].storage[key.slot@]),
        ),
        !slot_written(accounts, changes, key) ==> same_at(after, before, key),
{
    assert(after.contains_key(key) || !after.contains_key(key));
}

/// What a commit leaves under one code hash: the code of the greatest
/// address whose update brings code under it, and what was there under
/// every hash for which no update brings code.
pub proof fn lemma_code_after(before: CodeContents, changes: ChangeSetView, after: CodeContents, h: B256)
    requires
        code_committed(before, changes, after),
    ensures
        some_code_written(changes, h) ==> after.contains_key(h) && Some(after[h]@) == top_code(
            changes,
            h,
        ),
        !some_code_written(changes, h) ==> same_at(after, before, h),
{
    assert(after.contains_key(h) || !after.contains_key(h));
}

/// Committing `older` and then `newer` reads as committing their merge does,
/// for change sets that are compatible on the store: every nonce, balance,
/// code hash, slot and code is the same on the store that took the two
/// commits as on a store that held the same and took the one.
pub proof fn lemma_merge_commits_in_sequence(
    before: StoreContents,
    older: ChangeSetView,
    between: StoreContents,
    newer: ChangeSetView,
    after: StoreContents,
    at_once: StoreContents,
)
    requires
        committed(before, older, between),
        committed(between, newer, after),
        committed(before, merge_changes(older, newer), at_once),
        compatible(before.accounts, older, newer),
    ensures
        reads_alike(after, at_once),
{
    let merged = merge_changes(older, newer);
    assert forall|a: Address| #[trigger] account_read(after, a) == account_read(at_once, a) by {
        lemma_account_after(before.accounts, older, between.accounts, a);
        lemma_account_after(between.accounts, newer, after.accounts, a);
        lemma_account_after(before.accounts, merged, at_once.accounts, a);
        assert(merged.contains_key(a@) == (older.contains_key(a@) || newer.contains_key(a@)));
    }
    assert forall|a: Address, slot: U256| #[trigger]
        slot_read(after, a, slot) == slot_read(at_once, a, slot) by {
        let k = a@;
        lemma_account_after(before.accounts, older, between.accounts, a);
        lemma_account_after(between.accounts, newer, after.accounts, a);
        lemma_account_after(before.accounts, merged, at_once.accounts, a);
        assert(address_of(k) == a);
        assert(merged.contains_key(k) == (older.contains_key(k) || newer.contains_key(k)));
        if account_at(after.accounts, a) is Some && account_at(at_once.accounts, a) is Some {
            let last = account_at(after.accounts, a)->Some_0.3;
            let once = account_at(at_once.accounts, a)->Some_0.3;
            if older.contains_key(k) && newer.contains_key(k) {
                assert(slots_agree(before.accounts, a, older[k], newer[k]));
                assert(merged[k] == merge_update(older[k], newer[k]));
                assert(last == generation_in_sequence(before.accounts, a, older[k], newer[k]));
                let both = older[k].storage.union_prefer_right(newer[k].storage);
                assert(merged[k].storage == both);
                assert(both.contains_key(slot@) == (older[k].storage.contains_key(slot@)
                    || newer[k].storage.contains_key(slot@)));
                if newer[k].storage.contains_key(slot@) {
                    assert(both[slot@] == newer[k].storage[slot@]);
                } else if older[k].storage.contains_key(slot@) {
                    assert(both[slot@] == older[k].storage[slot@]);
                }
            } else if newer.contains_key(k) {
                assert(merged[k] == newer[k]);
            } else if older.contains_key(k) {
                assert(merged[k] == older[k]);
            }
            assert(last == once);
            let key = StorageKey { address: a, generation: last, slot };
            lemma_slot_after(before.accounts, before.storage, older, between.storage, key);
            lemma_slot_after(between.accounts, between.storage, newer, after.storage, key);
            lemma_slot_after(before.accounts, before.storage, merged, at_once.storage, key);
        }
    }
    assert forall|h: B256| !no_code(h) implies #[trigger] code_read(after, h) == code_read(
        at_once,
        h,
    ) by {
        lemma_code_after(before.code, older, between.code, h);
        lemma_code_after(between.code, newer, after.code, h);
        lemma_code_after(before.code, merged, at_once.code, h);
        assert(code_in_sequence(older, newer, h) == top_code(merged, h));
        if some_code_written(newer, h) {
            let w = choose|k: AddressKey| code_written(newer, k, h);
            assert(code_written(merged, w, h));
            assert(some_code_written(merged, h));
        } else if some_code_written(older, h) {
            if !some_code_written(merged, h) {
                assert(top_code(merged, h) is None);
            }
        } else {
            if some_code_written(merged, h) {
                let w = choose|k: AddressKey| code_written(merged, k, h);
                if newer.contains_key(w) {
                    assert(code_written(newer, w, h));
                } else {
                    assert(code_written(older, w, h));
                }
                assert(false);
            }
        }
    }
}

/// Whether neither update of an address that both change sets touch writes
/// slot `slot`.
pub open spec fn unwritten(older: ChangeSetView, newer: ChangeSetView, slot: U256) -> bool {
    forall|k: AddressKey|
        #![trigger older.contains_key(k), newer.contains_key(k)]
        older.contains_key(k) && newer.contains_key(k) ==> !older[k].storage.contains_key(slot@)
            && !newer[k].storage.contains_key(slot@)
}

/// The one storage entry with which a store shows that the slots of the
/// address with key `k` do not agree: under the generation that the
/// sequence ends in, at the free slot where the merge writes under another
/// generation, else at a slot that only the older update holds, and there
/// only where that update holds zero.
pub open spec fn telling_storage(
    accounts: AccountContents,
    older: ChangeSetView,
    newer: ChangeSetView,
    k: AddressKey,
    free: U256,
) -> StorageContents {
    let a = address_of(k);
    let last = generation_in_sequence(accounts, a, older[k], newer[k]);
    let one = U256 { hi: 0, lo: 1 };
    if generation_after(accounts, a, merge_update(older[k], newer[k])) != last {
        Map::<StorageKey, U256>::empty().insert(
            StorageKey { address: a, generation: last, slot: free },
            one,
        )
    } else {
        let w = lone_slot(accounts, older, newer, k);
        if older[k].storage[w]@ == (0u128, 0u128) {
            Map::<StorageKey, U256>::empty().insert(
                StorageKey { address: a, generation: last, slot: U256 { hi: w.0, lo: w.1 } },
                one,
            )
        } else {
            Map::<StorageKey, U256>::empty()
        }
    }
}

/// A slot that only the older update of the address with key `k` holds and
/// that it did not write under the generation that the sequence ends in,
/// where there is one.
pub open spec fn lone_slot(
    accounts: AccountContents,
    older: ChangeSetView,
    newer: ChangeSetView,
    k: AddressKey,
) -> WordKey {
    let a = address_of(k);
    choose|w: WordKey|
        older[k].storage.contains_key(w) && !newer[k].storage.contains_key(w) && (
        older[k].selfdestructed || generation_after(accounts, a, older[k])
            != generation_in_sequence(accounts, a, older[k], newer[k]))
}

/// The condition on slots is needed: where the slots of an address that
/// both change sets touch do not agree, and some slot is written by neither
/// update, a store with these accounts and one telling storage entry reads
/// differently after the two commits than after the commit of the merge.
pub proof fn lemma_slots_that_disagree_read_apart(
    accounts: AccountContents,
    older: ChangeSetView,
    newer: ChangeSetView,
    k: AddressKey,
    free: U256,
)
    requires
        older.contains_key(k),
        newer.contains_key(k),
        !slots_agree(accounts, address_of(k), older[k], newer[k]),
        unwritten(older, newer, free),
    ensures
        forall|before: StoreContents, between: StoreContents, after: StoreContents, at_once: StoreContents|
            #![trigger committed(before, older, between), committed(between, newer, after), committed(before, merge_changes(older, newer), at_once)]
            before.accounts == accounts && before.storage == telling_storage(
                accounts,
                older,
                newer,
                k,
                free,
            ) && committed(before, older, between) && committed(between, newer, after) && committed(
                before,
                merge_changes(older, newer),
                at_once,
            ) ==> !reads_alike(after, at_once),
{
    let merged = merge_changes(older, newer);
    let a = address_of(k);
    let last = generation_in_sequence(accounts, a, older[k], newer[k]);
    let once = generation_after(accounts, a, merge_update(older[k], newer[k]));
    let gone = generation_after(accounts, a, older[k]);
    let one = U256 { hi: 0, lo: 1 };
    let both = older[k].storage.union_prefer_right(newer[k].storage);
    assert(a@ == k);
    assert(merged.contains_key(k) && merged[k] == merge_update(older[k], newer[k]));
    assert(merged[k].storage == both);
    assert forall|before: StoreContents, between: StoreContents, after: StoreContents, at_once: StoreContents|
        #![trigger committed(before, older, between), committed(between, newer, after), committed(before, merged, at_once)]
        before.accounts == accounts && before.storage == telling_storage(
            accounts,
            older,
            newer,
            k,
            free,
        ) && committed(before, older, between) && committed(between, newer, after) && committed(
            before,
            merged,
            at_once,
        ) implies !reads_alike(after, at_once) by {
        lemma_account_after(before.accounts, older, between.accounts, a);
        lemma_account_after(between.accounts, newer, after.accounts, a);
        lemma_account_after(before.accounts, merged, at_once.accounts, a);
        assert(account_at(after.accounts, a)->Some_0.3 == last);
        assert(account_at(at_once.accounts, a)->Some_0.3 == once);
        if once != last {
            let near = StorageKey { address: a, generation: last, slot: free };
            let far = StorageKey { address: a, generation: once, slot: free };
            assert(!both.contains_key(free@));
            lemma_slot_after(before.accounts, before.storage, older, between.storage, near);
            lemma_slot_after(between.accounts, between.storage, newer, after.storage, near);
            lemma_slot_after(before.accounts, before.storage, merged, at_once.storage, far);
            assert(near != far);
            assert(slot_read(after, a, free) == one);
            assert(slot_read(at_once, a, free) == U256 { hi: 0, lo: 0 });
        } else {
            let w = lone_slot(accounts, older, newer, k);
            let slot = U256 { hi: w.0, lo: w.1 };
            assert(slot@ == w);
            let key = StorageKey { address: a, generation: last, slot };
            assert(both.contains_key(w) && both[w] == older[k].storage[w]);
            lemma_slot_after(before.accounts, before.storage, older, between.storage, key);
            lemma_slot_after(between.accounts, between.storage, newer, after.storage, key);
            lemma_slot_after(before.accounts, before.storage, merged, at_once.storage, key);
            assert(slot_written(accounts, merged, key));
            if older[k].storage[w]@ == (0u128, 0u128) {
                assert(slot_read(after, a, slot) == one);
                assert(slot_read(at_once, a, slot) == U256 { hi: 0, lo: 0 });
            } else {
                assert(slot_read(after, a, slot) == U256 { hi: 0, lo: 0 });
                assert(slot_read(at_once, a, slot) == older[k].storage[w]);
            }
        }
    }
}

/// The condition on code is needed: where the sequence leaves other code
/// under a hash that stands for code than the merge does, a store that holds
/// no code reads differently after the two commits than after the commit of
/// the merge.
pub proof fn lemma_code_that_disagrees_reads_apart(
    older: ChangeSetView,
    newer: ChangeSetView,
    code_hash: B256,
)
    requires
        !no_code(code_hash),
        code_in_sequence(older, newer, code_hash) != top_code(
            merge_changes(older, newer),
            code_hash,
        ),
    ensures
        forall|before: StoreContents, between: StoreContents, after: StoreContents, at_once: StoreContents|
            #![trigger committed(before, older, between), committed(between, newer, after), committed(before, merge_changes(older, newer), at_once)]
            before.code == Map::<B256, Vec<u8>>::empty() && committed(before, older, between)
                && committed(between, newer, after) && committed(
                before,
                merge_changes(older, newer),
                at_once,
            ) ==> !reads_alike(after, at_once),
{
    let merged = merge_changes(older, newer);
    let h = code_hash;
    assert forall|before: StoreContents, between: StoreContents, after: StoreContents, at_once: StoreContents|
        #![trigger committed(before, older, between), committed(between, newer, after), committed(before, merged, at_once)]
        before.code == Map::<B256, Vec<u8>>::empty() && committed(before, older, between)
            && committed(between, newer, after) && committed(
            before,
            merged,
            at_once,
        ) implies !reads_alike(after, at_once) by {
        lemma_code_after(before.code, older, between.code, h);
        lemma_code_after(between.code, newer, after.code, h);
        lemma_code_after(before.code, merged, at_once.code, h);
        assert(code_read(after, h) == code_in_sequence(older, newer, h));
        assert(code_read(at_once, h) == top_code(merged, h));
    }
}

/// The condition of the law is needed. For change sets that are not
/// compatible on a store's accounts, and a slot that neither update of a
/// shared address writes, there is a storage such that every store with
/// these accounts, that storage and no code reads differently after the two
/// commits than after the commit of the merge.
pub proof fn lemma_incompatible_commits_read_apart(
    accounts: AccountContents,
    older: ChangeSetView,
    newer: ChangeSetView,
    free: U256,
) -> (storage: StorageContents)
    requires
        !compatible(accounts, older, newer),
        unwritten(older, newer, free),
    ensures
        forall|before: StoreContents, between: StoreContents, after: StoreContents, at_once: StoreContents|
            #![trigger committed(before, older, between), committed(between, newer, after), committed(before, merge_changes(older, newer), at_once)]
            before.accounts == accounts && before.storage == storage && before.code == Map::<
                B256,
                Vec<u8>,
            >::empty() && committed(before, older, between) && committed(between, newer, after)
                && committed(before, merge_changes(older, newer), at_once) ==> !reads_alike(
                after,
                at_once,
            ),
{
    if exists|k: AddressKey|
        older.contains_key(k) && newer.contains_key(k) && !slots_agree(
            accounts,
            address_of(k),
            older[k],
            newer[k],
        ) {
        let k = choose|k: AddressKey|
            older.contains_key(k) && newer.contains_key(k) && !slots_agree(
                accounts,
                address_of(k),
                older[k],
                newer[k],
            );
        lemma_slots_that_disagree_read_apart(accounts, older, newer, k, free);
        telling_storage(accounts, older, newer, k, free)
    } else {
        let h = choose|h: B256|
            !no_code(h) && code_in_sequence(older, newer, h) != top_code(
                merge_changes(older, newer),
                h,
            );
        lemma_code_that_disagrees_reads_apart(older, newer, h);
        Map::<StorageKey, U256>::empty()
    }
}

/// A commit leaves the reads of what it does not touch as they were: the
/// nonce, balance, code hash and every slot of an address that the change
/// set does not update, and the code under a hash for which no update
/// brings code.
pub proof fn lemma_untouched_reads_stay<A, S, C>(
    before: QmdbStore<A, S, C>,
    changes: ChangeSetView,
    after: QmdbStore<A, S, C>,
    address: Address,
    slot: U256,
    code_hash: B256,
) where
    A: QmdbGettable<Key = Address, Value = [u8; 80]>,
    S: QmdbGettable<Key = StorageKey, Value = U256>,
    C: QmdbGettable<Key = B256, Value = Vec<u8>>,

    requires
        committed(before.contents(), changes, after.contents()),
    ensures
        !changes.contains_key(address@) ==> nonce_of(after, address) == nonce_of(before, address)
            && balance_of(after, address) == balance_of(before, address) && code_hash_of(
            after,
            address,
        ) == code_hash_of(before, address) && basic_of(after, address) == basic_of(before, address)
            && slot_of(after, address, slot) == slot_of(before, address, slot),
        !some_code_written(changes, code_hash) ==> code_of(after, code_hash) == code_of(
            before,
            code_hash,
        ) && bytecode_of(after, code_hash) == bytecode_of(before, code_hash),
{
    let old = before.contents();
    let new = after.contents();
    lemma_account_after(old.accounts, changes, new.accounts, address);
    lemma_code_after(old.code, changes, new.code, code_hash);
    if !changes.contains_key(address@) {
        match account_at(old.accounts, address) {
            Some(fields) => {
                let key = StorageKey { address, generation: fields.3, slot };
                lemma_slot_after(old.accounts, old.storage, changes, new.storage, key);
            },
            None => {},
        }
    }
}

/// A commit is read back. An account that the change set destroys is not
/// found and its slots read zero. Any other account that it updates reads
/// the nonce, balance and code hash of its update; a slot that the update
/// writes reads the written value; and a slot that it does not write reads
/// what it read before, where the store held the account and the update
/// does not create it again.
pub proof fn lemma_commit_is_read_back<A, S, C>(
    before: QmdbStore<A, S, C>,
    changes: ChangeSetView,
    after: QmdbStore<A, S, C>,
    address: Address,
    slot: U256,
) where
    A: QmdbGettable<Key = Address, Value = [u8; 80]>,
    S: QmdbGettable<Key = StorageKey, Value = U256>,
    C: QmdbGettable<Key = B256, Value = Vec<u8>>,

    requires
        committed(before.contents(), changes, after.contents()),
        changes.contains_key(address@),
    ensures
        changes[address@].selfdestructed ==> nonce_of(after, address) == Err::<u64, StateDbError>(
            StateDbError::AccountNotFound(address),
        ) && basic_of(after, address) is None && slot_of(after, address, slot) == (U256 {
            hi: 0,
            lo: 0,
        }),
        !changes[address@].selfdestructed ==> nonce_of(after, address) == Ok::<u64, StateDbError>(
            changes[address@].nonce,
        ) && balance_of(after, address) == Ok::<U256, StateDbError>(changes[address@].balance)
            && code_hash_of(after, address) == Ok::<B256, StateDbError>(
            changes[address@].code_hash,
        ),
        !changes[address@].selfdestructed && changes[address@].storage.contains_key(slot@)
            ==> slot_of(after, address, slot) == changes[address@].storage[slot@],
        !changes[address@].selfdestructed && !changes[address@].storage.contains_key(slot@)
            && !changes[address@].created && account_at(before.contents().accounts, address) is Some
            ==> slot_of(after, address, slot) == slot_of(before, address, slot),
{
    let old = before.contents();
    let new = after.contents();
    let update = changes[address@];
    lemma_account_after(old.accounts, changes, new.accounts, address);
    if !update.selfdestructed {
        let key = StorageKey {
            address,
            generation: generation_after(old.accounts, address, update),
            slot,
        };
        lemma_slot_after(old.accounts, old.storage, changes, new.storage, key);
        if update.storage.contains_key(slot@) {
            assert(slot_written(old.accounts, changes, key));
            if update.storage[slot@]@ == (0u128, 0u128) {
                assert(update.storage[slot@] == U256 { hi: 0, lo: 0 });
            }
        }
    }
}

/// Committed code is read back: under a hash for which updates of the
/// change set bring code, the store holds the bytes that the update of the
/// greatest such address brings, whatever other updates name the hash.
pub proof fn lemma_committed_code_is_read_back<A, S, C>(
    before: QmdbStore<A, S, C>,
    changes: ChangeSetView,
    after: QmdbStore<A, S, C>,
    writer: AddressKey,
    code_hash: B256,
) where
    A: QmdbGettable<Key = Address, Value = [u8; 80]>,
    S: QmdbGettable<Key = StorageKey, Value = U256>,
    C: QmdbGettable<Key = B256, Value = Vec<u8>>,

    requires
        committed(before.contents(), changes, after.contents()),
        top_writer(changes, writer, code_hash),
    ensures
        changes[writer].code is Some,
        bytes_read(code_of(after, code_hash)) == Ok::<Seq<u8>, StateDbError>(
            changes[writer].code->Some_0,
        ),
        bytes_read(bytecode_of(after, code_hash)) == Ok::<Seq<u8>, HandleError>(
            changes[writer].code->Some_0,
        ),
{
    lemma_top_code(changes, writer, code_hash);
    lemma_code_after(before.contents().code, changes, after.contents().code, code_hash);
}

/// A destroying commit leaves the slots of the account where they are: what
/// the storage partition held under any key of the account, it holds after.
pub proof fn lemma_destroyed_slots_stay(
    before: StoreContents,
    changes: ChangeSetView,
    after: StoreContents,
    key: StorageKey,
)
    requires
        committed(before, changes, after),
        changes.contains_key(key.address@),
        changes[key.address@].selfdestructed,
    ensures
        same_at(after.storage, before.storage, key),
{
    lemma_slot_after(before.accounts, before.storage, changes, after.storage, key);
}

/// After genesis each account of the allocations reads a nonce of zero, its
/// balance, the last where the address comes twice, and the hash of no
/// code; on a store that held no slot before, each of its slots reads zero.
pub proof fn lemma_genesis_is_read_back<A, S, C>(
    before: QmdbStore<A, S, C>,
    allocs: Seq<(Address, U256)>,
    after: QmdbStore<A, S, C>,
    address: Address,
    slot: U256,
) where
    A: QmdbGettable<Key = Address, Value = [u8; 80]>,
    S: QmdbGettable<Key = StorageKey, Value = U256>,
    C: QmdbGettable<Key = B256, Value = Vec<u8>>,

    requires
        committed(before.contents(), genesis_changes_of(allocs), after.contents()),
    ensures
        genesis_changes_of(allocs).contains_key(address@) <==> exists|i: int|
            0 <= i < allocs.len() && (#[trigger] allocs[i]).0 == address,
        genesis_changes_of(allocs).contains_key(address@) ==> nonce_of(after, address) == Ok::<
            u64,
            StateDbError,
        >(0) && balance_of(after, address) == Ok::<U256, StateDbError>(
            genesis_changes_of(allocs)[address@].balance,
        ) && code_hash_of(after, address) == Ok::<B256, StateDbError>(keccak256_empty()),
        forall|i: int|
            0 <= i < allocs.len() && (forall|j: int|
                i < j < allocs.len() ==> (#[trigger] allocs[j]).0 != (#[trigger] allocs[i]).0)
                ==> genesis_changes_of(allocs)[allocs[i].0@].balance == allocs[i].1,
        !genesis_changes_of(allocs).contains_key(address@) ==> nonce_of(after, address) == nonce_of(
            before,
            address,
        ),
        before.contents().storage == Map::<StorageKey, U256>::empty() ==> slot_of(
            after,
            address,
            slot,
        ) == (U256 { hi: 0, lo: 0 }),
{
    let changes = genesis_changes_of(allocs);
    let old = before.contents();
    let new = after.contents();
    lemma_genesis_changes(allocs);
    lemma_account_after(old.accounts, changes, new.accounts, address);
    assert(changes.contains_key(address@) <==> exists|i: int|
        0 <= i < allocs.len() && (#[trigger] allocs[i]).0 == address) by {
        if changes.contains_key(address@) {
            let i = choose|i: int| 0 <= i < allocs.len() && (#[trigger] allocs[i]).0@ == address@;
            assert(allocs[i].0 == address);
        }
        if exists|i: int| 0 <= i < allocs.len() && (#[trigger] allocs[i]).0 == address {
            let i = choose|i: int| 0 <= i < allocs.len() && (#[trigger] allocs[i]).0 == address;
            assert(allocs[i].0@ == address@);
        }
    }
    if old.storage == Map::<StorageKey, U256>::empty() {
        match account_at(new.accounts, address) {
            Some(fields) => {
                let key = StorageKey { address, generation: fields.3, slot };
                lemma_slot_after(old.accounts, old.storage, changes, new.storage, key);
                if changes.contains_key(address@) {
                    assert(changes[address@].storage == Map::<WordKey, U256>::empty());
                    assert(!slot_written(old.accounts, changes, key));
                }
            },
            None => {},
        }
    }
}

/// What the genesis change set holds: an update for each address of the
/// allocations and for no other, each the genesis update of some balance,
/// that of the last allocation of the address.
pub proof fn lemma_genesis_changes(allocs: Seq<(Address, U256)>)
    ensures
        forall|k: AddressKey|
            genesis_changes_of(allocs).contains_key(k) <==> exists|i: int|
                0 <= i < allocs.len() && (#[trigger] allocs[i]).0@ == k,
        forall|k: AddressKey| #[trigger]
            genesis_changes_of(allocs).contains_key(k) ==> genesis_changes_of(allocs)[k]
                == genesis_update(genesis_changes_of(allocs)[k].balance),
        forall|i: int|
            0 <= i < allocs.len() && (forall|j: int|
                i < j < allocs.len() ==> (#[trigger] allocs[j]).0 != (#[trigger] allocs[i]).0)
                ==> genesis_changes_of(allocs)[allocs[i].0@].balance == allocs[i].1,
    decreases allocs.len(),
{
    if allocs.len() > 0 {
        let init = allocs.drop_last();
        let last = allocs.last();
        lemma_genesis_changes(init);
        let n = allocs.len() - 1;
        assert forall|k: AddressKey|
            genesis_changes_of(allocs).contains_key(k) <==> exists|i: int|
                0 <= i < allocs.len() && (#[trigger] allocs[i]).0@ == k by {
            if genesis_changes_of(allocs).contains_key(k) {
                if k == last.0@ {
                    assert(allocs[n].0@ == k);
                } else {
                    let i = choose|i: int| 0 <= i < init.len() && (#[trigger] init[i]).0@ == k;
                    assert(allocs[i].0@ == k);
                }
            }
            if exists|i: int| 0 <= i < allocs.len() && (#[trigger] allocs[i]).0@ == k {
                let i = choose|i: int| 0 <= i < allocs.len() && (#[trigger] allocs[i]).0@ == k;
                if i < n {
                    assert(init[i].0@ == k);
                }
            }
        }
        assert forall|i: int|
            0 <= i < allocs.len() && (forall|j: int|
                i < j < allocs.len() ==> (#[trigger] allocs[j]).0 != (#[trigger] allocs[i]).0)
                implies genesis_changes_of(allocs)[allocs[i].0@].balance == allocs[i].1 by {
            if i < n {
                assert(allocs[n].0 != allocs[i].0);
                assert(allocs[n].0@ != allocs[i].0@);
                assert(init[i] == allocs[i]);
                assert forall|j: int| i < j < init.len() implies (#[trigger] init[j]).0 != (
                #[trigger] init[i]).0 by {
                    assert(init[j] == allocs[j]);
                }
            }
        }
    }
}

/// The generation does not outlive the record. A commit that destroys an
/// account deletes its record and leaves its slots; a later commit that
/// writes the account again finds no record and writes it under generation
/// zero. A slot that the store held under generation zero before the two
/// commits, and that the later update does not write, is then read again with
/// the value it had.
pub proof fn lemma_generation_restarts(
    before: StoreContents,
    destroying: ChangeSetView,
    between: StoreContents,
    writing: ChangeSetView,
    after: StoreContents,
    address: Address,
    slot: U256,
)
    requires
        committed(before, destroying, between),
        committed(between, writing, after),
        destroying.contains_key(address@),
        destroying[address@].selfdestructed,
        writing.contains_key(address@),
        !writing[address@].selfdestructed,
        !writing[address@].storage.contains_key(slot@),
    ensures
        account_at(between.accounts, address) is None,
        account_at(after.accounts, address) is Some,
        account_at(after.accounts, address)->Some_0.3 == 0,
        same_at(
            after.storage,
            before.storage,
            StorageKey { address, generation: 0, slot },
        ),
        slot_read(after, address, slot) == (if before.storage.contains_key(
            StorageKey { address, generation: 0, slot },
        ) {
            before.storage[StorageKey { address, generation: 0, slot }]
        } else {
            U256 { hi: 0, lo: 0 }
        }),
{
    let key = StorageKey { address, generation: 0, slot };
    lemma_account_after(before.accounts, destroying, between.accounts, address);
    lemma_account_after(between.accounts, writing, after.accounts, address);
    lemma_slot_after(before.accounts, before.storage, destroying, between.storage, key);
    lemma_slot_after(between.accounts, between.storage, writing, after.storage, key);
}

/// The bytes of the code that a code partition holds.
pub open spec fn code_bytes(code: CodeContents) -> Map<B256, Seq<u8>> {
    bytes_of(
        StoreContents {
            accounts: Map::<Address, [u8; 80]>::empty(),
            storage: Map::<StorageKey, U256>::empty(),
            code,
        },
    ).code
}

/// Whether the root of a code partition is a matter of the bytes that it
/// holds alone.
pub open spec fn root_is_of_bytes<C: RootProvider<Key = B256, Value = Vec<u8>>>() -> bool {
    forall|one: CodeContents, other: CodeContents|
        #![trigger C::root_of(one), C::root_of(other)]
        code_bytes(one) == code_bytes(other) ==> C::root_of(one) == C::root_of(other)
}

/// The root computed for a change set is the root that its commit leaves:
/// whatever two commits of one change set leave of stores that held the
/// same, the two have one state root, where the root of the code partition
/// is a matter of the bytes alone.
pub proof fn lemma_one_root_after_commit<A, S, C>(
    before: StoreContents,
    changes: ChangeSetView,
    one: StoreContents,
    other: StoreContents,
) where
    A: RootProvider<Key = Address, Value = [u8; 80]>,
    S: RootProvider<Key = StorageKey, Value = U256>,
    C: RootProvider<Key = B256, Value = Vec<u8>>,

    requires
        committed(before, changes, one),
        committed(before, changes, other),
        root_is_of_bytes::<C>(),
    ensures
        store_root::<A, S, C>(one.accounts, one.storage, one.code) == store_root::<A, S, C>(
            other.accounts,
            other.storage,
            other.code,
        ),
{
    broadcast use vstd::array::group_array_axioms;

    lemma_commit_is_a_function(before, changes, one);
    lemma_commit_is_a_function(before, changes, other);
    let left = bytes_of(one);
    let right = bytes_of(other);
    assert(left == right);
    assert forall|a: Address|
        one.accounts.contains_key(a) == other.accounts.contains_key(a) && (
        one.accounts.contains_key(a) ==> one.accounts[a] == other.accounts[a]) by {
        assert(left.accounts.contains_key(a) == one.accounts.contains_key(a));
        assert(right.accounts.contains_key(a) == other.accounts.contains_key(a));
        if one.accounts.contains_key(a) {
            assert(left.accounts[a] == one.accounts[a]@);
            assert(right.accounts[a] == other.accounts[a]@);
            assert(one.accounts[a] =~= other.accounts[a]);
        }
    }
    assert(one.accounts =~= other.accounts);
    assert(one.storage == other.storage);
    assert(code_bytes(one.code) =~= left.code);
    assert(code_bytes(other.code) =~= right.code);
}

/// The bytes of a code read, or its failure.
pub open spec fn bytes_read<E>(r: Result<Vec<u8>, E>) -> Result<Seq<u8>, E> {
    match r {
        Ok(code) => Ok(code@),
        Err(e) => Err(e),
    }
}

/// Two stores whose contents read alike give the same to every reader: the
/// same nonce, balance, code hash and account information for every address,
/// the same value for every slot, and the same bytes or the same failure for
/// every hash that stands for code.
pub proof fn lemma_stores_read_alike<A, S, C>(
    one: QmdbStore<A, S, C>,
    other: QmdbStore<A, S, C>,
    address: Address,
    slot: U256,
    code_hash: B256,
) where
    A: QmdbGettable<Key = Address, Value = [u8; 80]>,
    S: QmdbGettable<Key = StorageKey, Value = U256>,
    C: QmdbGettable<Key = B256, Value = Vec<u8>>,

    requires
        reads_alike(one.contents(), other.contents()),
    ensures
        nonce_of(one, address) == nonce_of(other, address),
        balance_of(one, address) == balance_of(other, address),
        code_hash_of(one, address) == code_hash_of(other, address),
        basic_of(one, address) == basic_of(other, address),
        slot_of(one, address, slot) == slot_of(other, address, slot),
        !no_code(code_hash) ==> bytes_read(code_of(one, code_hash)) == bytes_read(
            code_of(other, code_hash),
        ) && bytes_read(bytecode_of(one, code_hash)) == bytes_read(bytecode_of(other, code_hash)),
{
    assert(account_read(one.contents(), address) == account_read(other.contents(), address));
    assert(slot_read(one.contents(), address, slot) == slot_read(other.contents(), address, slot));
    if !no_code(code_hash) {
        assert(code_read(one.contents(), code_hash) == code_read(other.contents(), code_hash));
    }
}

/// Whether a read of slot `slot` through `newer` laid over `older` is
/// settled as a read through their merge is, for an address that both touch.
pub open spec fn layers_agree(older: AccountUpdateView, newer: AccountUpdateView, slot: U256) -> bool {
    let zero = U256 { hi: 0, lo: 0 };
    let held = older.storage.contains_key(slot@);
    newer.selfdestructed || newer.storage.contains_key(slot@) || (if newer.created {
        !held || older.storage[slot@] == zero
    } else if older.selfdestructed {
        held && older.storage[slot@] == zero
    } else {
        held || !older.created
    })
}

/// A storage read through an overlay laid over an overlay admits the results
/// that a read through one overlay with the merged change set admits, for an
/// address that only one of the two touches, and for one that both touch
/// where the layers agree on the slot.
pub proof fn lemma_layered_storage<S: StateDbRead>(
    inner: OverlayState<S>,
    outer: OverlayState<OverlayState<S>>,
    flat: OverlayState<S>,
    address: Address,
    slot: U256,
    r: Result<U256, StateDbError>,
)
    requires
        outer.base_state() == inner,
        flat.base_state() == inner.base_state(),
        flat.delta() == merge_changes(inner.delta(), outer.delta()),
        inner.delta().contains_key(address@) && outer.delta().contains_key(address@)
            ==> layers_agree(inner.delta()[address@], outer.delta()[address@], slot),
    ensures
        outer.admits_storage(address, slot, r) == flat.admits_storage(address, slot, r),
{
    let a = inner.delta();
    let b = outer.delta();
    let m = flat.delta();
    assert(m.contains_key(address@) == (a.contains_key(address@) || b.contains_key(address@)));
    if a.contains_key(address@) && b.contains_key(address@) {
        assert(m[address@] == merge_update(a[address@], b[address@]));
    } else if b.contains_key(address@) {
        assert(m[address@] == b[address@]);
    } else if a.contains_key(address@) {
        assert(m[address@] == a[address@]);
    }
}

} // verus!
