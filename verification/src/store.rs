//! The partitioned store: three key/value partitions for accounts, storage
//! slots and code, with point lookups and batched writes.

use crate::change_set::{
    among, lemma_among_all, lemma_among_step, map_keys, AccountUpdate, AccountUpdateView, ChangeSet,
    ChangeSetView,
};
use crate::primitives::{
    append_be_u64, be_u64, lemma_be_roundtrip, lemma_bytes_roundtrip, read_be_u64, u64_of_be,
    word_bytes, word_of_bytes, Address, AddressKey, WordKey, B256, U256,
};
use crate::root::{state_root_of, StateRoot};
use crate::text::{append, word_text_of};
use vstd::prelude::*;

verus! {

/// Key of a storage slot: the account, the generation of the account under
/// which the slot was written, and the slot index. A slot written under an
/// earlier generation of an account that was created again over its record
/// is never read again. The generation is held in the record alone: once a
/// commit has destroyed the account and deleted the record, a later commit
/// writes the account under generation zero again.
#[derive(Clone, Copy, Debug, PartialEq, Eq, Structural, Hash, PartialOrd, Ord)]
pub struct StorageKey {
    /// The account that owns the slot.
    pub address: Address,
    /// The generation of the account when the slot was written.
    pub generation: u64,
    /// The slot index.
    pub slot: U256,
}

impl StorageKey {
    /// The key of slot `slot` of `address` under `generation`.
    pub fn new(address: Address, generation: u64, slot: U256) -> (key: StorageKey)
        ensures
            key == (StorageKey { address, generation, slot }),
    {
        StorageKey { address, generation, slot }
    }
}

/// What an account record holds: nonce, balance, code hash and generation.
pub type AccountFields = (u64, U256, B256, u64);

/// The 80 bytes of an account record: the nonce (8 bytes, big-endian), the
/// balance (32), the code hash (32) and the generation (8).
pub open spec fn record_bytes(fields: AccountFields) -> Seq<u8> {
    be_u64(fields.0) + word_bytes(fields.1@) + word_bytes(fields.2@) + be_u64(fields.3)
}

/// The account record that 80 bytes stand for.
pub open spec fn record_of_bytes(bytes: Seq<u8>) -> AccountFields {
    let balance = word_of_bytes(bytes.subrange(8, 40));
    let code_hash = word_of_bytes(bytes.subrange(40, 72));
    (
        u64_of_be(bytes.subrange(0, 8)),
        U256 { hi: balance.0, lo: balance.1 },
        B256 { hi: code_hash.0, lo: code_hash.1 },
        u64_of_be(bytes.subrange(72, 80)),
    )
}

/// Decoding the bytes of an account record gives the record back.
pub proof fn lemma_record_roundtrip(fields: AccountFields)
    ensures
        record_bytes(fields).len() == 80,
        record_of_bytes(record_bytes(fields)) == fields,
{
    lemma_be_roundtrip();
    lemma_bytes_roundtrip();
    let bytes = record_bytes(fields);
    assert(be_u64(fields.0).len() == 8);
    assert(word_bytes(fields.1@).len() == 32);
    assert(word_bytes(fields.2@).len() == 32);
    assert(be_u64(fields.3).len() == 8);
    assert(bytes.subrange(0, 8) =~= be_u64(fields.0));
    assert(bytes.subrange(8, 40) =~= word_bytes(fields.1@));
    assert(bytes.subrange(40, 72) =~= word_bytes(fields.2@));
    assert(bytes.subrange(72, 80) =~= be_u64(fields.3));
}

/// The fixed-size encoding of account records.
#[derive(Debug, Clone, Copy)]
pub struct AccountEncoding;

impl AccountEncoding {
    /// The number of bytes of an encoded account record.
    pub const SIZE: usize = 80;

    /// The bytes of the account record with the given fields.
    pub fn encode(nonce: u64, balance: U256, code_hash: B256, generation: u64) -> (bytes: [u8; 80])
        ensures
            bytes@ == record_bytes((nonce, balance, code_hash, generation)),
    {
        let mut buf: Vec<u8> = Vec::new();
        append_be_u64(&mut buf, nonce);
        let mut balance_bytes = balance.to_bytes();
        let mut hash_bytes = code_hash.to_bytes();
        buf.append(&mut balance_bytes);
        buf.append(&mut hash_bytes);
        append_be_u64(&mut buf, generation);
        proof {
            lemma_record_roundtrip((nonce, balance, code_hash, generation));
            assert(buf@ =~= record_bytes((nonce, balance, code_hash, generation)));
        }
        let mut bytes = [0u8; 80];
        let mut i: usize = 0;
        while i < 80
            invariant
                i <= 80,
                buf@.len() == 80,
                forall|j: int| 0 <= j < i ==> bytes@[j] == buf@[j],
            decreases 80 - i,
        {
            bytes[i] = buf[i];
            i = i + 1;
        }
        assert(bytes@ =~= buf@);
        bytes
    }

    /// The fields of the account record with the given bytes.
    pub fn decode(bytes: &[u8; 80]) -> (fields: AccountFields)
        ensures
            fields == record_of_bytes(bytes@),
    {
        let raw = bytes.as_slice();
        let mut balance: Vec<u8> = Vec::new();
        let mut code_hash: Vec<u8> = Vec::new();
        let mut i: usize = 8;
        while i < 40
            invariant
                8 <= i <= 40,
                raw@.len() == 80,
                balance@.len() == i - 8,
                forall|j: int| 0 <= j < balance@.len() ==> balance@[j] == raw@[8 + j],
            decreases 40 - i,
        {
            balance.push(raw[i]);
            i = i + 1;
        }
        while i < 72
            invariant
                40 <= i <= 72,
                raw@.len() == 80,
                code_hash@.len() == i - 40,
                forall|j: int| 0 <= j < code_hash@.len() ==> code_hash@[j] == raw@[40 + j],
            decreases 72 - i,
        {
            code_hash.push(raw[i]);
            i = i + 1;
        }
        assert(balance@ =~= bytes@.subrange(8, 40));
        assert(code_hash@ =~= bytes@.subrange(40, 72));
        (
            read_be_u64(raw, 0),
            U256::from_bytes(balance.as_slice()),
            B256::from_bytes(code_hash.as_slice()),
            read_be_u64(raw, 72),
        )
    }
}

/// Why an operation on the partitioned store failed.
#[derive(Debug, PartialEq, Eq)]
pub enum QmdbError {
    /// A partition failed; the text is the partition's own account of it.
    Storage(String),
    /// The partitions cannot be reached.
    StoreUnavailable,
    /// An account record could not be decoded.
    DecodeError,
    /// No code is recorded under the hash.
    CodeNotFound(B256),
}

impl QmdbError {
    /// The failure in words.
    pub open spec fn text_of(self) -> Seq<char> {
        match self {
            QmdbError::Storage(detail) => "storage error: "@ + detail@,
            QmdbError::StoreUnavailable => "stores unavailable"@,
            QmdbError::DecodeError => "account decode failed"@,
            QmdbError::CodeNotFound(hash) => "code not found: "@ + word_text_of(hash),
        }
    }

    /// The failure in words.
    pub fn message(&self) -> (text: String)
        ensures
            text@ == self.text_of(),
    {
        match self {
            QmdbError::Storage(detail) => {
                let mut text = "storage error: ".to_owned();
                append(&mut text, detail.as_str());
                text
            },
            QmdbError::StoreUnavailable => "stores unavailable".to_owned(),
            QmdbError::DecodeError => "account decode failed".to_owned(),
            QmdbError::CodeNotFound(hash) => {
                let mut text = "code not found: ".to_owned();
                let word = hash.to_text();
                append(&mut text, word.as_str());
                text
            },
        }
    }
}

/// The map after one write: an insertion, or a deletion where the value is
/// `None`.
pub open spec fn apply_op<K, V>(contents: Map<K, V>, op: (K, Option<V>)) -> Map<K, V> {
    match op.1 {
        Some(value) => contents.insert(op.0, value),
        None => contents.remove(op.0),
    }
}

/// The map after the writes of `ops`, one after the other.
pub open spec fn apply_ops<K, V>(contents: Map<K, V>, ops: Seq<(K, Option<V>)>) -> Map<K, V>
    decreases ops.len(),
{
    if ops.len() == 0 {
        contents
    } else {
        apply_op(apply_ops(contents, ops.drop_last()), ops.last())
    }
}

/// Whether `ops` holds a write to `key`.
pub open spec fn writes_key<K, V>(ops: Seq<(K, Option<V>)>, key: K) -> bool {
    exists|i: int| 0 <= i < ops.len() && (#[trigger] ops[i]).0 == key
}

/// What a batch of writes leaves under one key: a key that no write names
/// keeps what it had, and any other key has what the last write to it says.
pub proof fn lemma_apply_ops_at<K, V>(contents: Map<K, V>, ops: Seq<(K, Option<V>)>, key: K)
    ensures
        !writes_key(ops, key) ==> apply_ops(contents, ops).contains_key(key)
            == contents.contains_key(key) && apply_ops(contents, ops)[key] == contents[key],
        writes_key(ops, key) ==> exists|i: int|
            0 <= i < ops.len() && (#[trigger] ops[i]).0 == key && (forall|j: int|
                i < j < ops.len() ==> (#[trigger] ops[j]).0 != key) && (match ops[i].1 {
                Some(value) => apply_ops(contents, ops).contains_key(key) && apply_ops(
                    contents,
                    ops,
                )[key] == value,
                None => !apply_ops(contents, ops).contains_key(key),
            }),
    decreases ops.len(),
{
    if ops.len() > 0 {
        let init = ops.drop_last();
        let last = ops.last();
        lemma_apply_ops_at(contents, init, key);
        let n = ops.len() - 1;
        if last.0 == key {
            assert(ops[n].0 == key);
        } else {
            if writes_key(ops, key) {
                let w = choose|i: int| 0 <= i < ops.len() && (#[trigger] ops[i]).0 == key;
                assert(init[w].0 == key);
                assert(writes_key(init, key));
                let i = choose|i: int|
                    0 <= i < init.len() && (#[trigger] init[i]).0 == key && (forall|j: int|
                        i < j < init.len() ==> (#[trigger] init[j]).0 != key) && (match init[i].1 {
                        Some(value) => apply_ops(contents, init).contains_key(key) && apply_ops(
                            contents,
                            init,
                        )[key] == value,
                        None => !apply_ops(contents, init).contains_key(key),
                    });
                assert(ops[i].0 == key);
                assert forall|j: int| i < j < ops.len() implies (#[trigger] ops[j]).0 != key by {
                    if j < n {
                        assert(init[j].0 != key);
                    }
                }
            } else {
                assert(!writes_key(init, key)) by {
                    if writes_key(init, key) {
                        let w = choose|i: int| 0 <= i < init.len() && (#[trigger] init[i]).0 == key;
                        assert(ops[w].0 == key);
                    }
                }
            }
        }
    }
}

/// Whether the map holds `value` under `key`, or nothing where `value` is
/// `None`.
pub open spec fn holds<K, V>(contents: Map<K, V>, key: K, value: Option<V>) -> bool {
    match value {
        Some(v) => contents.contains_key(key) && contents[key] == v,
        None => !contents.contains_key(key),
    }
}

/// Whether `after` has under `key` what `before` has.
pub open spec fn same_at<K, V>(after: Map<K, V>, before: Map<K, V>, key: K) -> bool {
    after.contains_key(key) == before.contains_key(key) && (before.contains_key(key) ==> after[key]
        == before[key])
}

/// Whether `ops` is a batch that writes each key of `wanted` once, with a
/// value that `ok` accepts, and no other key.
pub open spec fn planned<K, V>(
    ops: Seq<(K, Option<V>)>,
    wanted: Set<K>,
    ok: spec_fn(K, Option<V>) -> bool,
) -> bool {
    &&& forall|t: int|
        0 <= t < ops.len() ==> wanted.contains((#[trigger] ops[t]).0) && ok(ops[t].0, ops[t].1)
    &&& forall|t: int, u: int|
        0 <= t < u < ops.len() ==> (#[trigger] ops[t]).0 != (#[trigger] ops[u]).0
    &&& forall|k: K| wanted.contains(k) ==> writes_key(ops, k)
}

/// A planned batch stays planned when a write to a new key is added.
pub proof fn lemma_planned_push<K, V>(
    ops: Seq<(K, Option<V>)>,
    wanted: Set<K>,
    ok: spec_fn(K, Option<V>) -> bool,
    op: (K, Option<V>),
)
    requires
        planned(ops, wanted, ok),
        !wanted.contains(op.0),
        ok(op.0, op.1),
    ensures
        planned(ops.push(op), wanted.insert(op.0), ok),
{
    let more = ops.push(op);
    let n = ops.len() as int;
    assert forall|k: K| wanted.insert(op.0).contains(k) implies writes_key(more, k) by {
        if k == op.0 {
            assert(more[n].0 == k);
        } else {
            assert(writes_key(ops, k));
            let i = choose|i: int| 0 <= i < ops.len() && (#[trigger] ops[i]).0 == k;
            assert(more[i].0 == k);
        }
    }
    assert forall|t: int, u: int| 0 <= t < u < more.len() implies (#[trigger] more[t]).0 != (
    #[trigger] more[u]).0 by {
        if u == n {
            assert(more[t] == ops[t]);
            assert(wanted.contains(ops[t].0));
        } else {
            assert(more[t] == ops[t] && more[u] == ops[u]);
        }
    }
    assert forall|t: int| 0 <= t < more.len() implies wanted.insert(op.0).contains(
        (#[trigger] more[t]).0,
    ) && ok(more[t].0, more[t].1) by {
        if t < n {
            assert(more[t] == ops[t]);
        }
    }
}

/// What a planned batch leaves under one key: a key that is not wanted keeps
/// what it had, a wanted key has a value that `ok` accepts.
pub proof fn lemma_planned_apply<K, V>(
    contents: Map<K, V>,
    ops: Seq<(K, Option<V>)>,
    wanted: Set<K>,
    ok: spec_fn(K, Option<V>) -> bool,
    key: K,
)
    requires
        planned(ops, wanted, ok),
    ensures
        !wanted.contains(key) ==> same_at(apply_ops(contents, ops), contents, key),
        wanted.contains(key) ==> exists|value: Option<V>|
            #![trigger ok(key, value)]
            ok(key, value) && holds(apply_ops(contents, ops), key, value),
{
    lemma_apply_ops_at(contents, ops, key);
    if wanted.contains(key) {
        assert(writes_key(ops, key));
        let i = choose|i: int|
            0 <= i < ops.len() && (#[trigger] ops[i]).0 == key && (forall|j: int|
                i < j < ops.len() ==> (#[trigger] ops[j]).0 != key) && (match ops[i].1 {
                Some(value) => apply_ops(contents, ops).contains_key(key) && apply_ops(
                    contents,
                    ops,
                )[key] == value,
                None => !apply_ops(contents, ops).contains_key(key),
            });
        assert(ok(key, ops[i].1));
        assert(holds(apply_ops(contents, ops), key, ops[i].1));
    } else {
        if writes_key(ops, key) {
            let i = choose|i: int| 0 <= i < ops.len() && (#[trigger] ops[i]).0 == key;
            assert(wanted.contains(ops[i].0));
        }
    }
}

/// What the accounts partition holds: encoded records by address.
pub type AccountContents = Map<Address, [u8; 80]>;

/// What the storage partition holds: values by storage key.
pub type StorageContents = Map<StorageKey, U256>;

/// What the code partition holds: bytecode by code hash.
pub type CodeContents = Map<B256, Vec<u8>>;

/// The record of the account at `address`, if the partition holds one.
pub open spec fn account_at(accounts: AccountContents, address: Address) -> Option<AccountFields> {
    if accounts.contains_key(address) {
        Some(record_of_bytes(accounts[address]@))
    } else {
        None
    }
}

/// The generation after `generation`; the greatest one is its own successor.
pub open spec fn bump(generation: u64) -> u64 {
    if generation < u64::MAX {
        (generation + 1) as u64
    } else {
        generation
    }
}

/// The generation under which `update` writes an account of which the
/// accounts partition holds `held`: zero where it holds no record, the next
/// generation where the update creates the account over a held record, else
/// the generation of the held record.
pub open spec fn generation_from(held: Option<AccountFields>, update: AccountUpdateView) -> u64 {
    match held {
        Some(fields) => if update.created {
            bump(fields.3)
        } else {
            fields.3
        },
        None => 0,
    }
}

/// The generation under which `update` writes the account at `address`: zero
/// for an account that the partition does not hold, the next generation where
/// the update creates an account over a held one, else the held one.
pub open spec fn generation_after(
    accounts: AccountContents,
    address: Address,
    update: AccountUpdateView,
) -> u64 {
    generation_from(account_at(accounts, address), update)
}

/// Whether `value` is what `update` writes to the accounts partition for an
/// account of which the partition holds `held`: nothing for a destroyed
/// account, else the record of the update.
pub open spec fn record_write(
    held: Option<AccountFields>,
    update: AccountUpdateView,
    value: Option<[u8; 80]>,
) -> bool {
    if update.selfdestructed {
        value is None
    } else {
        value is Some && value->Some_0@ == record_bytes(
            (update.nonce, update.balance, update.code_hash, generation_from(held, update)),
        )
    }
}

/// Whether `value` is what `update` writes to the accounts partition at
/// `address`: nothing for a destroyed account, else the record of the update.
pub open spec fn account_write(
    accounts: AccountContents,
    update: AccountUpdateView,
    address: Address,
    value: Option<[u8; 80]>,
) -> bool {
    record_write(account_at(accounts, address), update, value)
}

/// The writes to the storage partition for the slots of `update`, taken in
/// the order `order`: each under the key of `address`, `generation` and the
/// slot, a zero value as a deletion.
pub open spec fn slot_ops(
    address: Address,
    generation: u64,
    update: AccountUpdateView,
    order: Seq<WordKey>,
) -> Seq<(StorageKey, Option<U256>)> {
    Seq::new(
        order.len(),
        |j: int|
            (
                StorageKey { address, generation, slot: U256 { hi: order[j].0, lo: order[j].1 } },
                slot_write(update.storage[order[j]]),
            ),
    )
}

/// What a slot value writes: a deletion for zero, else the value.
pub open spec fn slot_write(value: U256) -> Option<U256> {
    if value@ == (0u128, 0u128) {
        None
    } else {
        Some(value)
    }
}

/// Whether `changes` writes the slot with key `key`: it updates the account
/// without destroying it, holds the slot, and `key` has the generation under
/// which the update writes.
pub open spec fn slot_written(accounts: AccountContents, changes: ChangeSetView, key: StorageKey) -> bool {
    &&& changes.contains_key(key.address@)
    &&& !changes[key.address@].selfdestructed
    &&& key.generation == generation_after(accounts, key.address, changes[key.address@])
    &&& changes[key.address@].storage.contains_key(key.slot@)
}

/// Whether the update of address `a` in `changes` writes code under `code_hash`.
pub open spec fn code_written(changes: ChangeSetView, a: AddressKey, code_hash: B256) -> bool {
    &&& changes.contains_key(a)
    &&& !changes[a].selfdestructed
    &&& changes[a].code is Some
    &&& changes[a].code_hash == code_hash
}

/// Whether some update of `changes` writes code under `code_hash`.
pub open spec fn some_code_written(changes: ChangeSetView, code_hash: B256) -> bool {
    exists|a: AddressKey| code_written(changes, a, code_hash)
}

/// Whether the key `a` comes before the key `b`: addresses are ordered as
/// the numbers that their bytes stand for.
pub open spec fn key_before(a: AddressKey, b: AddressKey) -> bool {
    a.0 < b.0 || (a.0 == b.0 && a.1 < b.1)
}

/// Whether the update of address `a` is the one whose code stands under
/// `code_hash` after `changes`: it writes code under the hash, and no update
/// of an address behind it does.
pub open spec fn top_writer(changes: ChangeSetView, a: AddressKey, code_hash: B256) -> bool {
    &&& code_written(changes, a, code_hash)
    &&& forall|o: AddressKey| #[trigger] code_written(changes, o, code_hash) ==> !key_before(a, o)
}

/// The code that `changes` leave under `code_hash`: that of the update of
/// the greatest address that writes code under the hash; `None` where no
/// update does.
pub open spec fn top_code(changes: ChangeSetView, code_hash: B256) -> Option<Seq<u8>> {
    if some_code_written(changes, code_hash) {
        changes[choose|a: AddressKey| top_writer(changes, a, code_hash)].code
    } else {
        None
    }
}

/// The code that stands under a hash is that of the one update that is the
/// greatest to write under it.
pub proof fn lemma_top_code(changes: ChangeSetView, a: AddressKey, code_hash: B256)
    requires
        top_writer(changes, a, code_hash),
    ensures
        some_code_written(changes, code_hash),
        top_code(changes, code_hash) == changes[a].code,
        top_code(changes, code_hash) is Some,
{
    let chosen = choose|o: AddressKey| top_writer(changes, o, code_hash);
    assert(code_written(changes, a, code_hash));
    assert(code_written(changes, chosen, code_hash));
    assert(!key_before(a, chosen) && !key_before(chosen, a));
    assert(chosen == a);
}

/// The addresses that `changes` updates.
pub open spec fn wanted_accounts(changes: ChangeSetView) -> Set<Address> {
    Set::new(|a: Address| changes.contains_key(a@))
}

/// The storage keys that `changes` writes.
pub open spec fn wanted_slots(accounts: AccountContents, changes: ChangeSetView) -> Set<StorageKey> {
    Set::new(|key: StorageKey| slot_written(accounts, changes, key))
}

/// The test that a write to the accounts partition is the one of `changes`.
pub open spec fn account_ok(accounts: AccountContents, changes: ChangeSetView) -> spec_fn(
    Address,
    Option<[u8; 80]>,
) -> bool {
    |a: Address, value: Option<[u8; 80]>| account_write(accounts, changes[a@], a, value)
}

/// The test that a write to the storage partition is the one of `changes`.
pub open spec fn slot_ok(changes: ChangeSetView) -> spec_fn(StorageKey, Option<U256>) -> bool {
    |key: StorageKey, value: Option<U256>|
        value == slot_write(changes[key.address@].storage[key.slot@])
}

/// Whether `op` writes, under a hash for which `changes` bring code, the code
/// that `changes` leave under it.
pub open spec fn code_write(changes: ChangeSetView, op: (B256, Option<Vec<u8>>)) -> bool {
    &&& some_code_written(changes, op.0)
    &&& op.1 is Some
    &&& Some(op.1->Some_0@) == top_code(changes, op.0)
}

/// Whether `ops` is a batch for the code partition that writes, under each
/// hash for which `changes` bring code, the code that `changes` leave under
/// it, and nothing else.
pub open spec fn planned_code(changes: ChangeSetView, ops: Seq<(B256, Option<Vec<u8>>)>) -> bool {
    &&& forall|t: int| 0 <= t < ops.len() ==> code_write(changes, #[trigger] ops[t])
    &&& forall|a: AddressKey, h: B256| #[trigger]
        code_written(changes, a, h) ==> writes_key(ops, h)
}

/// The three batches that stand for a change set.
pub struct Plan {
    /// The writes to the accounts partition.
    pub accounts: Vec<(Address, Option<[u8; 80]>)>,
    /// The writes to the storage partition.
    pub storage: Vec<(StorageKey, Option<U256>)>,
    /// The writes to the code partition.
    pub code: Vec<(B256, Option<Vec<u8>>)>,
}

impl Plan {
    /// Whether the plan stands for `changes` on a store whose accounts
    /// partition holds `accounts`.
    pub open spec fn stands_for(&self, accounts: AccountContents, changes: ChangeSetView) -> bool {
        &&& planned(self.accounts@, wanted_accounts(changes), account_ok(accounts, changes))
        &&& planned(self.storage@, wanted_slots(accounts, changes), slot_ok(changes))
        &&& planned_code(changes, self.code@)
    }
}

/// Whether the accounts partition went from `before` to `after` by
/// `changes`: a destroyed account is gone, any other updated account has the
/// record of its update, and every other address has what it had.
pub open spec fn accounts_committed(
    before: AccountContents,
    changes: ChangeSetView,
    after: AccountContents,
) -> bool {
    forall|a: Address|
        #![trigger after.contains_key(a)]
        #![trigger changes.contains_key(a@)]
        if changes.contains_key(a@) {
            if changes[a@].selfdestructed {
                !after.contains_key(a)
            } else {
                after.contains_key(a) && after[a]@ == record_bytes(
                    (
                        changes[a@].nonce,
                        changes[a@].balance,
                        changes[a@].code_hash,
                        generation_after(before, a, changes[a@]),
                    ),
                )
            }
        } else {
            same_at(after, before, a)
        }
}

/// Whether the storage partition went from `before` to `after` by `changes`
/// on a store whose accounts partition held `accounts`: each written slot has
/// its new value, or is gone where that is zero, under the generation of its
/// update, and every other key has what it had.
pub open spec fn storage_committed(
    accounts: AccountContents,
    before: StorageContents,
    changes: ChangeSetView,
    after: StorageContents,
) -> bool {
    forall|key: StorageKey|
        #![trigger after.contains_key(key)]
        #![trigger slot_written(accounts, changes, key)]
        if slot_written(accounts, changes, key) {
            holds(after, key, slot_write(changes[key.address@].storage[key.slot@]))
        } else {
            same_at(after, before, key)
        }
}

/// Whether the code partition went from `before` to `after` by `changes`:
/// under a hash for which some update brings code stands the code of the
/// update of the greatest address that does, and every other hash has what
/// it had.
pub open spec fn code_committed(before: CodeContents, changes: ChangeSetView, after: CodeContents) -> bool {
    forall|h: B256|
        #![trigger after.contains_key(h)]
        #![trigger some_code_written(changes, h)]
        if some_code_written(changes, h) {
            after.contains_key(h) && Some(after[h]@) == top_code(changes, h)
        } else {
            same_at(after, before, h)
        }
}

/// Applying the account batch of a plan commits the accounts.
pub proof fn lemma_accounts_committed(
    before: AccountContents,
    changes: ChangeSetView,
    ops: Seq<(Address, Option<[u8; 80]>)>,
)
    requires
        planned(ops, wanted_accounts(changes), account_ok(before, changes)),
    ensures
        accounts_committed(before, changes, apply_ops(before, ops)),
{
    let after = apply_ops(before, ops);
    assert forall|a: Address|
        #![trigger after.contains_key(a)]
        #![trigger changes.contains_key(a@)]
        if changes.contains_key(a@) {
            if changes[a@].selfdestructed {
                !after.contains_key(a)
            } else {
                after.contains_key(a) && after[a]@ == record_bytes(
                    (
                        changes[a@].nonce,
                        changes[a@].balance,
                        changes[a@].code_hash,
                        generation_after(before, a, changes[a@]),
                    ),
                )
            }
        } else {
            same_at(after, before, a)
        } by {
        lemma_planned_apply(before, ops, wanted_accounts(changes), account_ok(before, changes), a);
        if changes.contains_key(a@) {
            assert(wanted_accounts(changes).contains(a));
            let value = choose|value: Option<[u8; 80]>|
                #![trigger account_ok(before, changes)(a, value)]
                account_ok(before, changes)(a, value) && holds(after, a, value);
            assert(account_write(before, changes[a@], a, value));
        } else {
            assert(!wanted_accounts(changes).contains(a));
        }
    }
}

/// Applying the storage batch of a plan commits the storage.
pub proof fn lemma_storage_committed(
    accounts: AccountContents,
    before: StorageContents,
    changes: ChangeSetView,
    ops: Seq<(StorageKey, Option<U256>)>,
)
    requires
        planned(ops, wanted_slots(accounts, changes), slot_ok(changes)),
    ensures
        storage_committed(accounts, before, changes, apply_ops(before, ops)),
{
    let after = apply_ops(before, ops);
    assert forall|key: StorageKey|
        #![trigger after.contains_key(key)]
        #![trigger slot_written(accounts, changes, key)]
        if slot_written(accounts, changes, key) {
            holds(after, key, slot_write(changes[key.address@].storage[key.slot@]))
        } else {
            same_at(after, before, key)
        } by {
        lemma_planned_apply(before, ops, wanted_slots(accounts, changes), slot_ok(changes), key);
        if slot_written(accounts, changes, key) {
            assert(wanted_slots(accounts, changes).contains(key));
            let value = choose|value: Option<U256>|
                #![trigger slot_ok(changes)(key, value)]
                slot_ok(changes)(key, value) && holds(after, key, value);
            assert(value == slot_write(changes[key.address@].storage[key.slot@]));
        } else {
            assert(!wanted_slots(accounts, changes).contains(key));
        }
    }
}

/// Applying the code batch of a plan commits the code.
pub proof fn lemma_code_committed(
    before: CodeContents,
    changes: ChangeSetView,
    ops: Seq<(B256, Option<Vec<u8>>)>,
)
    requires
        planned_code(changes, ops),
    ensures
        code_committed(before, changes, apply_ops(before, ops)),
{
    let after = apply_ops(before, ops);
    assert forall|h: B256|
        #![trigger after.contains_key(h)]
        #![trigger some_code_written(changes, h)]
        if some_code_written(changes, h) {
            after.contains_key(h) && Some(after[h]@) == top_code(changes, h)
        } else {
            same_at(after, before, h)
        } by {
        lemma_apply_ops_at(before, ops, h);
        if some_code_written(changes, h) {
            let w = choose|a: AddressKey| code_written(changes, a, h);
            assert(code_written(changes, w, h));
            assert(writes_key(ops, h));
            let i = choose|i: int|
                0 <= i < ops.len() && (#[trigger] ops[i]).0 == h && (forall|j: int|
                    i < j < ops.len() ==> (#[trigger] ops[j]).0 != h) && (match ops[i].1 {
                    Some(value) => after.contains_key(h) && after[h] == value,
                    None => !after.contains_key(h),
                });
            assert(code_write(changes, ops[i]));
        } else {
            if writes_key(ops, h) {
                let i = choose|i: int| 0 <= i < ops.len() && (#[trigger] ops[i]).0 == h;
                assert(code_write(changes, ops[i]));
                assert(false);
            }
        }
    }
}

/// What a partition holds, as a map from its keys to its values.
pub type Contents<K, V> = Map<K, V>;

/// A partition that can be read: a map from keys to values.
///
/// The functions `contents` and, in `RootProvider`, `root_of` are ghost: they
/// say what the partition holds and are never run. An implementation that is
/// not verified gives them a body that does not return.
pub trait QmdbGettable {
    /// The key type of the partition.
    type Key;

    /// The value type of the partition.
    type Value;

    /// What the partition reports when it fails.
    type Error: std::fmt::Debug + std::fmt::Display + Send + Sync + 'static;

    /// What the partition holds.
    spec fn contents(&self) -> Contents<Self::Key, Self::Value>;

    /// The value under `key`, or `None` where the partition holds none.
    fn get(&self, key: &Self::Key) -> (found: Result<Option<Self::Value>, Self::Error>)
        ensures
            found matches Ok(value) ==> value == (if self.contents().contains_key(*key) {
                Some(self.contents()[*key])
            } else {
                None
            }),
    ;
}

/// A partition that takes batches of writes.
pub trait QmdbBatchable: QmdbGettable {
    /// Applies the writes of `ops` in order; a value of `None` deletes the key.
    /// After a failure the partition may hold any part of the batch.
    fn write_batch(&mut self, ops: Vec<(Self::Key, Option<Self::Value>)>) -> (done: Result<
        (),
        Self::Error,
    >)
        ensures
            done is Ok ==> final(self).contents() == apply_ops(old(self).contents(), ops@),
    ;
}

/// A partition that commits to what it holds with a 32-byte root.
pub trait RootProvider: QmdbBatchable {
    /// The root of a partition that holds `contents`.
    spec fn root_of(contents: Contents<Self::Key, Self::Value>) -> B256;

    /// The root of the partition.
    fn root(&self) -> (root: Result<B256, Self::Error>)
        ensures
            root matches Ok(r) ==> r == Self::root_of(self.contents()),
    ;

    /// The root that the partition would have after the writes of `ops`.
    /// Writes nothing.
    fn root_after(&self, ops: &Vec<(Self::Key, Option<Self::Value>)>) -> (root: Result<
        B256,
        Self::Error,
    >)
        ensures
            root matches Ok(r) ==> r == Self::root_of(apply_ops(self.contents(), ops@)),
    ;
}

/// What a partition failure says of itself.
///
/// Trusted: `to_string` of the partition's error, of which nothing is known.
#[verifier::external_body]
pub(crate) fn describe<P: QmdbGettable>(error: &P::Error) -> (text: String) {
    error.to_string()
}

/// What a partition answered to a lookup, its failure in its own words.
fn answer_of<P: QmdbGettable>(found: Result<Option<P::Value>, P::Error>) -> (answer: Result<
    Option<P::Value>,
    String,
>)
    ensures
        match found {
            Ok(value) => answer == Ok::<Option<P::Value>, String>(value),
            Err(_) => answer is Err,
        },
{
    match found {
        Ok(value) => Ok(value),
        Err(e) => Err(describe::<P>(&e)),
    }
}

/// What the lookup of an account record gives when the accounts partition
/// answered `found`, a failure in its own words: the fields of the record
/// that it holds, nothing where it holds none, and a storage failure with
/// the partition's words where it failed.
pub fn account_from(found: Result<Option<[u8; 80]>, String>) -> (r: Result<
    Option<AccountFields>,
    QmdbError,
>)
    ensures
        match found {
            Ok(Some(bytes)) => r == Ok::<Option<AccountFields>, QmdbError>(
                Some(record_of_bytes(bytes@)),
            ),
            Ok(None) => r == Ok::<Option<AccountFields>, QmdbError>(None),
            Err(text) => r == Err::<Option<AccountFields>, QmdbError>(QmdbError::Storage(text)),
        },
{
    match found {
        Ok(Some(bytes)) => Ok(Some(AccountEncoding::decode(&bytes))),
        Ok(None) => Ok(None),
        Err(text) => Err(QmdbError::Storage(text)),
    }
}

/// What the lookup of a slot or of code gives when the partition answered
/// `found`, a failure in its own words: what the partition holds, and a
/// storage failure with the partition's words where it failed.
pub fn found_from<V>(found: Result<Option<V>, String>) -> (r: Result<Option<V>, QmdbError>)
    ensures
        match found {
            Ok(value) => r == Ok::<Option<V>, QmdbError>(value),
            Err(text) => r == Err::<Option<V>, QmdbError>(QmdbError::Storage(text)),
        },
{
    match found {
        Ok(value) => Ok(value),
        Err(text) => Err(QmdbError::Storage(text)),
    }
}

/// The updates of `changes` for the first `n` keys of `keys`.
pub open spec fn first_changes(changes: ChangeSetView, keys: Seq<AddressKey>, n: int) -> ChangeSetView {
    Map::new(|k: AddressKey| changes.contains_key(k) && among(keys, n, k), |k: AddressKey| changes[k])
}

/// `update` with the first `n` slots of `slots` alone.
pub open spec fn partial_update(update: AccountUpdateView, slots: Seq<WordKey>, n: int) -> AccountUpdateView {
    AccountUpdateView {
        created: update.created,
        selfdestructed: update.selfdestructed,
        nonce: update.nonce,
        balance: update.balance,
        code_hash: update.code_hash,
        code: update.code,
        storage: Map::new(
            |s: WordKey| update.storage.contains_key(s) && among(slots, n, s),
            |s: WordKey| update.storage[s],
        ),
    }
}

/// The updates for the first `i` keys, and the update of the next key with the
/// first `j` of its slots.
pub open spec fn partial_changes(
    changes: ChangeSetView,
    keys: Seq<AddressKey>,
    i: int,
    slots: Seq<WordKey>,
    j: int,
) -> ChangeSetView {
    first_changes(changes, keys, i).insert(keys[i], partial_update(changes[keys[i]], slots, j))
}

/// The address with key `k`.
pub open spec fn address_of(k: AddressKey) -> Address {
    Address { hi: k.0, lo: k.1 }
}

/// The key of the slot with index `slot` that the update of the account with
/// key `k` writes.
pub open spec fn slot_key(
    accounts: AccountContents,
    changes: ChangeSetView,
    k: AddressKey,
    slot: WordKey,
) -> StorageKey {
    StorageKey {
        address: address_of(k),
        generation: generation_after(accounts, address_of(k), changes[k]),
        slot: U256 { hi: slot.0, lo: slot.1 },
    }
}

proof fn lemma_next_key_is_new(keys: Seq<AddressKey>, i: int)
    requires
        keys.no_duplicates(),
        0 <= i < keys.len(),
    ensures
        !among(keys, i, keys[i]),
{
    if among(keys, i, keys[i]) {
        let j = choose|j: int| 0 <= j < i && keys[j] == keys[i];
        assert(keys[j] == keys[i]);
    }
}

proof fn lemma_accounts_step(changes: ChangeSetView, keys: Seq<AddressKey>, i: int)
    requires
        keys.no_duplicates(),
        0 <= i < keys.len(),
        changes.contains_key(keys[i]),
    ensures
        wanted_accounts(first_changes(changes, keys, i + 1)) == wanted_accounts(
            first_changes(changes, keys, i),
        ).insert(address_of(keys[i])),
        !wanted_accounts(first_changes(changes, keys, i)).contains(address_of(keys[i])),
{
    lemma_among_step(keys, i);
    lemma_next_key_is_new(keys, i);
    assert(wanted_accounts(first_changes(changes, keys, i + 1)) =~= wanted_accounts(
        first_changes(changes, keys, i),
    ).insert(address_of(keys[i])));
}

proof fn lemma_slots_begin(
    accounts: AccountContents,
    changes: ChangeSetView,
    keys: Seq<AddressKey>,
    i: int,
    slots: Seq<WordKey>,
)
    requires
        keys.no_duplicates(),
        0 <= i < keys.len(),
        changes.contains_key(keys[i]),
    ensures
        wanted_slots(accounts, partial_changes(changes, keys, i, slots, 0)) == wanted_slots(
            accounts,
            first_changes(changes, keys, i),
        ),
{
    lemma_next_key_is_new(keys, i);
    lemma_among_all(slots);
    assert(wanted_slots(accounts, partial_changes(changes, keys, i, slots, 0)) =~= wanted_slots(
        accounts,
        first_changes(changes, keys, i),
    ));
}

proof fn lemma_slots_step(
    accounts: AccountContents,
    changes: ChangeSetView,
    keys: Seq<AddressKey>,
    i: int,
    slots: Seq<WordKey>,
    j: int,
)
    requires
        keys.no_duplicates(),
        0 <= i < keys.len(),
        changes.contains_key(keys[i]),
        !changes[keys[i]].selfdestructed,
        slots.no_duplicates(),
        slots.to_set() == changes[keys[i]].storage.dom(),
        0 <= j < slots.len(),
    ensures
        wanted_slots(accounts, partial_changes(changes, keys, i, slots, j + 1)) == wanted_slots(
            accounts,
            partial_changes(changes, keys, i, slots, j),
        ).insert(slot_key(accounts, changes, keys[i], slots[j])),
        !wanted_slots(accounts, partial_changes(changes, keys, i, slots, j)).contains(
            slot_key(accounts, changes, keys[i], slots[j]),
        ),
{
    lemma_among_step(slots, j);
    assert(!among(slots, j, slots[j])) by {
        if among(slots, j, slots[j]) {
            let t = choose|t: int| 0 <= t < j && slots[t] == slots[j];
            assert(slots[t] == slots[j]);
        }
    }
    assert(slots.to_set().contains(slots[j])) by {
        assert(slots.contains(slots[j]));
    }
    assert(changes[keys[i]].storage.dom().contains(slots[j]));
    let k = keys[i];
    let new_key = slot_key(accounts, changes, k, slots[j]);
    let before = wanted_slots(accounts, partial_changes(changes, keys, i, slots, j));
    let after = wanted_slots(accounts, partial_changes(changes, keys, i, slots, j + 1));
    assert forall|key: StorageKey| after.contains(key) <==> before.insert(new_key).contains(key) by {
        if key.address@ == k {
            assert(key.address == address_of(k));
        }
    }
    assert(after =~= before.insert(new_key));
}

proof fn lemma_slots_end(
    accounts: AccountContents,
    changes: ChangeSetView,
    keys: Seq<AddressKey>,
    i: int,
    slots: Seq<WordKey>,
)
    requires
        keys.no_duplicates(),
        0 <= i < keys.len(),
        changes.contains_key(keys[i]),
        slots.to_set() == changes[keys[i]].storage.dom(),
    ensures
        wanted_slots(accounts, partial_changes(changes, keys, i, slots, slots.len() as int))
            == wanted_slots(accounts, first_changes(changes, keys, i + 1)),
{
    lemma_among_step(keys, i);
    lemma_next_key_is_new(keys, i);
    lemma_among_all(slots);
    let whole = partial_changes(changes, keys, i, slots, slots.len() as int);
    let next = first_changes(changes, keys, i + 1);
    assert forall|key: StorageKey|
        slot_written(accounts, whole, key) <==> slot_written(accounts, next, key) by {
        if key.address@ == keys[i] {
            assert(slots.to_set().contains(key.slot@) <==> changes[keys[i]].storage.dom().contains(
                key.slot@,
            ));
        }
    }
    assert(wanted_slots(accounts, whole) =~= wanted_slots(accounts, next));
}

proof fn lemma_slots_skip(
    accounts: AccountContents,
    changes: ChangeSetView,
    keys: Seq<AddressKey>,
    i: int,
)
    requires
        keys.no_duplicates(),
        0 <= i < keys.len(),
        changes.contains_key(keys[i]),
        changes[keys[i]].selfdestructed,
    ensures
        wanted_slots(accounts, first_changes(changes, keys, i + 1)) == wanted_slots(
            accounts,
            first_changes(changes, keys, i),
        ),
{
    lemma_among_step(keys, i);
    lemma_next_key_is_new(keys, i);
    assert(wanted_slots(accounts, first_changes(changes, keys, i + 1)) =~= wanted_slots(
        accounts,
        first_changes(changes, keys, i),
    ));
}

/// Whether `ops` writes, for the updates counted so far, the code of the
/// greatest writer under each hash, once; `writers` names the writer of
/// each write.
pub open spec fn code_plan(
    changes: ChangeSetView,
    ops: Seq<(B256, Option<Vec<u8>>)>,
    writers: Seq<AddressKey>,
) -> bool {
    &&& ops.len() == writers.len()
    &&& forall|t: int|
        0 <= t < ops.len() ==> top_writer(changes, #[trigger] writers[t], ops[t].0) && ops[t].1 is Some
            && Some(ops[t].1->Some_0@) == changes[writers[t]].code
    &&& forall|t: int, u: int|
        0 <= t < u < ops.len() ==> (#[trigger] ops[t]).0 != (#[trigger] ops[u]).0
    &&& forall|a: AddressKey, h: B256| #[trigger]
        code_written(changes, a, h) ==> writes_key(ops, h)
}

proof fn lemma_written_step(changes: ChangeSetView, keys: Seq<AddressKey>, i: int)
    requires
        keys.no_duplicates(),
        0 <= i < keys.len(),
        changes.contains_key(keys[i]),
    ensures
        forall|o: AddressKey, h: B256|
            #![trigger code_written(first_changes(changes, keys, i + 1), o, h)]
            code_written(first_changes(changes, keys, i + 1), o, h) <==> code_written(
                first_changes(changes, keys, i),
                o,
                h,
            ) || (o == keys[i] && code_written(changes, o, h)),
        forall|o: AddressKey, h: B256|
            #![trigger code_written(first_changes(changes, keys, i), o, h)]
            code_written(first_changes(changes, keys, i), o, h) ==> o != keys[i] && code_written(
                first_changes(changes, keys, i + 1),
                o,
                h,
            ) && first_changes(changes, keys, i)[o] == changes[o],
        forall|o: AddressKey|
            #![trigger first_changes(changes, keys, i + 1)[o]]
            first_changes(changes, keys, i + 1).contains_key(o) ==> first_changes(
                changes,
                keys,
                i + 1,
            )[o] == changes[o],
{
    lemma_among_step(keys, i);
    lemma_next_key_is_new(keys, i);
}

proof fn lemma_code_plan_skip(
    changes: ChangeSetView,
    keys: Seq<AddressKey>,
    i: int,
    ops: Seq<(B256, Option<Vec<u8>>)>,
    writers: Seq<AddressKey>,
)
    requires
        keys.no_duplicates(),
        0 <= i < keys.len(),
        changes.contains_key(keys[i]),
        code_plan(first_changes(changes, keys, i), ops, writers),
        !code_written(changes, keys[i], changes[keys[i]].code_hash),
    ensures
        code_plan(first_changes(changes, keys, i + 1), ops, writers),
{
    lemma_written_step(changes, keys, i);
    let before = first_changes(changes, keys, i);
    let after = first_changes(changes, keys, i + 1);
    assert forall|t: int| 0 <= t < ops.len() implies top_writer(
        after,
        #[trigger] writers[t],
        ops[t].0,
    ) && ops[t].1 is Some && Some(ops[t].1->Some_0@) == after[writers[t]].code by {
        assert(top_writer(before, writers[t], ops[t].0));
        assert(code_written(before, writers[t], ops[t].0));
    }
    assert forall|a: AddressKey, h: B256| #[trigger]
        code_written(after, a, h) implies writes_key(ops, h) by {
        assert(code_written(before, a, h));
    }
}

proof fn lemma_code_plan_keep(
    changes: ChangeSetView,
    keys: Seq<AddressKey>,
    i: int,
    ops: Seq<(B256, Option<Vec<u8>>)>,
    writers: Seq<AddressKey>,
    at: int,
)
    requires
        keys.no_duplicates(),
        0 <= i < keys.len(),
        changes.contains_key(keys[i]),
        code_plan(first_changes(changes, keys, i), ops, writers),
        code_written(changes, keys[i], changes[keys[i]].code_hash),
        0 <= at < ops.len(),
        ops[at].0 == changes[keys[i]].code_hash,
        !key_before(writers[at], keys[i]),
    ensures
        code_plan(first_changes(changes, keys, i + 1), ops, writers),
{
    lemma_written_step(changes, keys, i);
    let before = first_changes(changes, keys, i);
    let after = first_changes(changes, keys, i + 1);
    let k = keys[i];
    assert forall|t: int| 0 <= t < ops.len() implies top_writer(
        after,
        #[trigger] writers[t],
        ops[t].0,
    ) && ops[t].1 is Some && Some(ops[t].1->Some_0@) == after[writers[t]].code by {
        assert(top_writer(before, writers[t], ops[t].0));
        assert(code_written(before, writers[t], ops[t].0));
        assert forall|o: AddressKey| #[trigger] code_written(after, o, ops[t].0) implies !key_before(
            writers[t],
            o,
        ) by {
            if o == k {
                if t != at {
                    assert(ops[t].0 != ops[at].0);
                }
            } else {
                assert(code_written(before, o, ops[t].0));
            }
        }
    }
    assert forall|a: AddressKey, h: B256| #[trigger]
        code_written(after, a, h) implies writes_key(ops, h) by {
        if a == k {
            assert(ops[at].0 == h);
        } else {
            assert(code_written(before, a, h));
        }
    }
}

proof fn lemma_code_plan_replace(
    changes: ChangeSetView,
    keys: Seq<AddressKey>,
    i: int,
    ops: Seq<(B256, Option<Vec<u8>>)>,
    writers: Seq<AddressKey>,
    at: int,
    op: (B256, Option<Vec<u8>>),
)
    requires
        keys.no_duplicates(),
        0 <= i < keys.len(),
        changes.contains_key(keys[i]),
        code_plan(first_changes(changes, keys, i), ops, writers),
        code_written(changes, keys[i], changes[keys[i]].code_hash),
        0 <= at < ops.len(),
        ops[at].0 == changes[keys[i]].code_hash,
        key_before(writers[at], keys[i]),
        op.0 == changes[keys[i]].code_hash,
        op.1 is Some,
        Some(op.1->Some_0@) == changes[keys[i]].code,
    ensures
        code_plan(
            first_changes(changes, keys, i + 1),
            ops.update(at, op),
            writers.update(at, keys[i]),
        ),
{
    lemma_written_step(changes, keys, i);
    let before = first_changes(changes, keys, i);
    let after = first_changes(changes, keys, i + 1);
    let k = keys[i];
    let ops2 = ops.update(at, op);
    let writers2 = writers.update(at, k);
    assert(top_writer(before, writers[at], ops[at].0));
    assert forall|t: int| 0 <= t < ops2.len() implies top_writer(
        after,
        #[trigger] writers2[t],
        ops2[t].0,
    ) && ops2[t].1 is Some && Some(ops2[t].1->Some_0@) == after[writers2[t]].code by {
        if t == at {
            assert(code_written(after, k, op.0));
            assert forall|o: AddressKey| #[trigger] code_written(after, o, op.0) implies !key_before(
                k,
                o,
            ) by {
                if o != k {
                    assert(code_written(before, o, ops[at].0));
                    assert(!key_before(writers[at], o));
                }
            }
        } else {
            assert(top_writer(before, writers[t], ops[t].0));
            assert(code_written(before, writers[t], ops[t].0));
            assert forall|o: AddressKey| #[trigger]
                code_written(after, o, ops[t].0) implies !key_before(writers[t], o) by {
                if o == k {
                    assert(ops[t].0 != ops[at].0);
                } else {
                    assert(code_written(before, o, ops[t].0));
                }
            }
        }
    }
    assert forall|t: int, u: int| 0 <= t < u < ops2.len() implies (#[trigger] ops2[t]).0 != (
    #[trigger] ops2[u]).0 by {
        assert(ops[t].0 != ops[u].0);
    }
    assert forall|a: AddressKey, h: B256| #[trigger]
        code_written(after, a, h) implies writes_key(ops2, h) by {
        if a == k {
            assert(ops2[at].0 == h);
        } else {
            assert(code_written(before, a, h));
            assert(writes_key(ops, h));
            let t = choose|t: int| 0 <= t < ops.len() && (#[trigger] ops[t]).0 == h;
            assert(ops2[t].0 == h);
        }
    }
}

proof fn lemma_code_plan_push(
    changes: ChangeSetView,
    keys: Seq<AddressKey>,
    i: int,
    ops: Seq<(B256, Option<Vec<u8>>)>,
    writers: Seq<AddressKey>,
    op: (B256, Option<Vec<u8>>),
)
    requires
        keys.no_duplicates(),
        0 <= i < keys.len(),
        changes.contains_key(keys[i]),
        code_plan(first_changes(changes, keys, i), ops, writers),
        code_written(changes, keys[i], changes[keys[i]].code_hash),
        forall|t: int| 0 <= t < ops.len() ==> (#[trigger] ops[t]).0 != changes[keys[i]].code_hash,
        op.0 == changes[keys[i]].code_hash,
        op.1 is Some,
        Some(op.1->Some_0@) == changes[keys[i]].code,
    ensures
        code_plan(first_changes(changes, keys, i + 1), ops.push(op), writers.push(keys[i])),
{
    lemma_written_step(changes, keys, i);
    let before = first_changes(changes, keys, i);
    let after = first_changes(changes, keys, i + 1);
    let k = keys[i];
    let ops2 = ops.push(op);
    let writers2 = writers.push(k);
    let n = ops.len() as int;
    assert forall|o: AddressKey| !code_written(before, o, op.0) by {
        if code_written(before, o, op.0) {
            assert(writes_key(ops, op.0));
            let t = choose|t: int| 0 <= t < ops.len() && (#[trigger] ops[t]).0 == op.0;
            assert(false);
        }
    }
    assert forall|t: int| 0 <= t < ops2.len() implies top_writer(
        after,
        #[trigger] writers2[t],
        ops2[t].0,
    ) && ops2[t].1 is Some && Some(ops2[t].1->Some_0@) == after[writers2[t]].code by {
        if t == n {
            assert(code_written(after, k, op.0));
            assert forall|o: AddressKey| #[trigger] code_written(after, o, op.0) implies !key_before(
                k,
                o,
            ) by {
                if o != k {
                    assert(code_written(before, o, op.0));
                }
            }
        } else {
            assert(ops2[t] == ops[t] && writers2[t] == writers[t]);
            assert(top_writer(before, writers[t], ops[t].0));
            assert(code_written(before, writers[t], ops[t].0));
            assert forall|o: AddressKey| #[trigger]
                code_written(after, o, ops[t].0) implies !key_before(writers[t], o) by {
                if o != k {
                    assert(code_written(before, o, ops[t].0));
                }
            }
        }
    }
    assert forall|t: int, u: int| 0 <= t < u < ops2.len() implies (#[trigger] ops2[t]).0 != (
    #[trigger] ops2[u]).0 by {
        if u == n {
            assert(ops2[t] == ops[t]);
        } else {
            assert(ops2[t] == ops[t] && ops2[u] == ops[u]);
        }
    }
    assert forall|a: AddressKey, h: B256| #[trigger]
        code_written(after, a, h) implies writes_key(ops2, h) by {
        if a == k {
            assert(ops2[n].0 == h);
        } else {
            assert(code_written(before, a, h));
            assert(writes_key(ops, h));
            let t = choose|t: int| 0 <= t < ops.len() && (#[trigger] ops[t]).0 == h;
            assert(ops2[t].0 == h);
        }
    }
}

proof fn lemma_code_plan_done(
    changes: ChangeSetView,
    ops: Seq<(B256, Option<Vec<u8>>)>,
    writers: Seq<AddressKey>,
)
    requires
        code_plan(changes, ops, writers),
    ensures
        planned_code(changes, ops),
{
    assert forall|t: int| 0 <= t < ops.len() implies code_write(changes, #[trigger] ops[t]) by {
        assert(top_writer(changes, writers[t], ops[t].0));
        lemma_top_code(changes, writers[t], ops[t].0);
    }
}

/// The index of the write to `code_hash` in `ops`, if there is one.
fn find_hash(ops: &Vec<(B256, Option<Vec<u8>>)>, code_hash: &B256) -> (found: Option<usize>)
    ensures
        match found {
            Some(t) => t < ops@.len() && ops@[t as int].0 == *code_hash,
            None => forall|t: int| 0 <= t < ops@.len() ==> (#[trigger] ops@[t]).0 != *code_hash,
        },
{
    let mut t: usize = 0;
    while t < ops.len()
        invariant
            t <= ops@.len(),
            forall|u: int| 0 <= u < t ==> (#[trigger] ops@[u]).0 != *code_hash,
        decreases ops@.len() - t,
    {
        if ops[t].0 == *code_hash {
            return Some(t);
        }
        t = t + 1;
    }
    None
}

/// Whether the key `a` comes before the key `b`.
pub(crate) fn comes_before(a: AddressKey, b: AddressKey) -> (before: bool)
    ensures
        before == key_before(a, b),
{
    a.0 < b.0 || (a.0 == b.0 && a.1 < b.1)
}

proof fn lemma_first_all(changes: ChangeSetView, keys: Seq<AddressKey>)
    requires
        keys.to_set() == changes.dom(),
    ensures
        first_changes(changes, keys, keys.len() as int) == changes,
        first_changes(changes, keys, 0).dom() == Set::<AddressKey>::empty(),
{
    lemma_among_all(keys);
    assert(first_changes(changes, keys, keys.len() as int) =~= changes);
    assert(first_changes(changes, keys, 0).dom() =~= Set::<AddressKey>::empty());
}

/// The writes that stand for the update of one account.
#[derive(Debug, PartialEq, Eq)]
pub struct UpdateWrites {
    /// The write to the accounts partition: the record, or `None` for the
    /// deletion of the record.
    pub account: Option<[u8; 80]>,
    /// The writes to the storage partition.
    pub slots: Vec<(StorageKey, Option<U256>)>,
    /// The code to write under the code hash of the update, if it brings any.
    pub code: Option<Vec<u8>>,
}

impl UpdateWrites {
    /// Whether these are the writes of `update` to the account at `address`,
    /// of which the accounts partition holds `held`. A destroyed account
    /// has its record deleted and nothing else. Any other has its record
    /// written under the generation that `held` gives, each of its slots
    /// written once under that generation, and its code where it brings
    /// any.
    pub open spec fn stand_for(
        &self,
        address: Address,
        update: AccountUpdateView,
        held: Option<AccountFields>,
    ) -> bool {
        &&& record_write(held, update, self.account)
        &&& if update.selfdestructed {
            self.slots@.len() == 0 && self.code is None
        } else {
            &&& exists|order: Seq<WordKey>|
                #![trigger slot_ops(address, generation_from(held, update), update, order)]
                order.no_duplicates() && order.to_set() == update.storage.dom() && self.slots@
                    == slot_ops(address, generation_from(held, update), update, order)
            &&& match self.code {
                Some(code) => update.code == Some(code@),
                None => update.code is None,
            }
        }
    }
}

/// The generation under which an update writes an account of which the
/// accounts partition holds `held`; `created` says whether the update
/// creates the account.
pub fn next_generation(held: Option<AccountFields>, created: bool) -> (generation: u64)
    ensures
        generation == (match held {
            Some(fields) => if created {
                bump(fields.3)
            } else {
                fields.3
            },
            None => 0,
        }),
{
    match held {
        Some(fields) => {
            if created && fields.3 < u64::MAX {
                fields.3 + 1
            } else {
                fields.3
            }
        },
        None => 0,
    }
}

/// The writes that stand for `update` of the account at `address`, when the
/// accounts partition answered `held` for the address.
pub fn writes_of(address: Address, update: &AccountUpdate, held: Option<AccountFields>) -> (writes:
    UpdateWrites)
    ensures
        writes.stand_for(address, update@, held),
{
    if update.selfdestructed {
        return UpdateWrites { account: None, slots: Vec::new(), code: None };
    }
    let generation = next_generation(held, update.created);
    let record = AccountEncoding::encode(
        update.nonce,
        update.balance,
        update.code_hash,
        generation,
    );
    let code = match &update.code {
        Some(code) => Some(code.clone()),
        None => None,
    };
    let order = map_keys(&update.storage);
    let mut slots: Vec<(StorageKey, Option<U256>)> = Vec::new();
    let mut j: usize = 0;
    while j < order.len()
        invariant
            j <= order@.len(),
            order@.no_duplicates(),
            order@.to_set() == update@.storage.dom(),
            slots@ == slot_ops(address, generation, update@, order@.take(j as int)),
        decreases order@.len() - j,
    {
        let slot = order[j];
        proof {
            assert(order@.to_set().contains(slot)) by {
                assert(order@.contains(slot));
            }
            assert(update.storage@.dom().contains(slot));
        }
        let value = *update.storage.get(&slot).unwrap();
        let key = StorageKey::new(address, generation, U256::from_key(slot));
        let write = if value.is_zero() {
            None
        } else {
            Some(value)
        };
        slots.push((key, write));
        proof {
            assert(order@.take(j + 1)[j as int] == slot);
            assert(slots@ =~= slot_ops(address, generation, update@, order@.take(j + 1)));
        }
        j = j + 1;
    }
    proof {
        assert(order@.take(order@.len() as int) =~= order@);
        assert(generation == generation_from(held, update@));
        assert(slots@ == slot_ops(address, generation_from(held, update@), update@, order@));
    }
    UpdateWrites { account: Some(record), slots, code }
}

/// The three partitions of the ledger's state.
pub struct QmdbStore<A, S, C> {
    /// Account records by address.
    pub accounts: A,
    /// Storage values by storage key.
    pub storage: S,
    /// Bytecode by code hash.
    pub code: C,
}

impl<A, S, C> QmdbStore<A, S, C> {
    /// The store over the three partitions.
    pub fn new(accounts: A, storage: S, code: C) -> (store: Self)
        ensures
            store.accounts == accounts,
            store.storage == storage,
            store.code == code,
    {
        QmdbStore { accounts, storage, code }
    }
}

impl<A, S, C> QmdbStore<A, S, C> where
    A: QmdbGettable<Key = Address, Value = [u8; 80]>,
    S: QmdbGettable<Key = StorageKey, Value = U256>,
    C: QmdbGettable<Key = B256, Value = Vec<u8>>,
 {
    /// The record of the account at `address`, or `None` where the store
    /// holds none. Fails where the accounts partition fails. What the
    /// partition answers decides; for each answer the result is that of
    /// `account_from`.
    pub fn get_account(&self, address: &Address) -> (found: Result<Option<AccountFields>, QmdbError>)
        ensures
            found matches Ok(fields) ==> fields == account_at(self.accounts.contents(), *address),
            found matches Err(e) ==> e is Storage,
    {
        account_from(answer_of::<A>(self.accounts.get(address)))
    }

    /// The value under the storage key `key`, or `None` where the store holds
    /// none. Fails where the storage partition fails. What the partition
    /// answers decides; for each answer the result is that of `found_from`.
    pub fn get_storage(&self, key: &StorageKey) -> (found: Result<Option<U256>, QmdbError>)
        ensures
            found matches Ok(value) ==> value == (if self.storage.contents().contains_key(*key) {
                Some(self.storage.contents()[*key])
            } else {
                None
            }),
            found matches Err(e) ==> e is Storage,
    {
        found_from(answer_of::<S>(self.storage.get(key)))
    }

    /// The code under `code_hash`, or `None` where the store holds none.
    /// Fails where the code partition fails. What the partition answers
    /// decides; for each answer the result is that of `found_from`.
    pub fn get_code(&self, code_hash: &B256) -> (found: Result<Option<Vec<u8>>, QmdbError>)
        ensures
            found matches Ok(code) ==> code == (if self.code.contents().contains_key(*code_hash) {
                Some(self.code.contents()[*code_hash])
            } else {
                None
            }),
            found matches Err(e) ==> e is Storage,
    {
        found_from(answer_of::<C>(self.code.get(code_hash)))
    }

    /// The batches of writes that stand for `changes` on this store. For each
    /// updated account: a deletion of its record where it is destroyed, and
    /// nothing else; otherwise its record, under the next generation where
    /// the update creates it over a held record, its code where the update
    /// brings it, and each of its slots, a zero value as a deletion. Where
    /// several updates bring code under one hash, that of the greatest
    /// address is written. Fails where reading an account fails; a change
    /// set that touches no account reads none, and its plan is had. What the
    /// accounts partition answers for each address decides; for each answer
    /// the writes of the update are those of `writes_of`.
    pub fn plan_changes(&self, changes: &ChangeSet) -> (planned: Result<Plan, QmdbError>)
        ensures
            planned matches Ok(plan) ==> plan.stands_for(self.accounts.contents(), changes@),
            planned matches Err(e) ==> e is Storage,
            (forall|a: AddressKey| !changes@.contains_key(a)) ==> planned is Ok,
    {
        let ghost held = self.accounts.contents();
        let ghost cs = changes@;
        let keys = map_keys(&changes.accounts);
        let mut account_ops: Vec<(Address, Option<[u8; 80]>)> = Vec::new();
        let mut storage_ops: Vec<(StorageKey, Option<U256>)> = Vec::new();
        let mut code_ops: Vec<(B256, Option<Vec<u8>>)> = Vec::new();
        let mut code_writers: Vec<AddressKey> = Vec::new();
        proof {
            assert(keys@.to_set() =~= cs.dom());
            lemma_first_all(cs, keys@);
            lemma_among_all(keys@);
            assert(wanted_accounts(first_changes(cs, keys@, 0)) =~= Set::<Address>::empty());
            assert(wanted_slots(held, first_changes(cs, keys@, 0)) =~= Set::<StorageKey>::empty());
        }
        let mut i: usize = 0;
        while i < keys.len()
            invariant
                i <= keys@.len(),
                keys@.no_duplicates(),
                keys@.to_set() == cs.dom(),
                cs == changes@,
                held == self.accounts.contents(),
                planned(
                    account_ops@,
                    wanted_accounts(first_changes(cs, keys@, i as int)),
                    account_ok(held, cs),
                ),
                planned(
                    storage_ops@,
                    wanted_slots(held, first_changes(cs, keys@, i as int)),
                    slot_ok(cs),
                ),
                code_plan(first_changes(cs, keys@, i as int), code_ops@, code_writers@),
            decreases keys@.len() - i,
        {
            let k = keys[i];
            let address = Address::from_key(k);
            proof {
                assert(keys@.to_set().contains(k)) by {
                    assert(keys@.contains(k));
                }
                assert(cs.dom().contains(k));
                assert(address == address_of(k));
                assert(changes.accounts@.contains_key(k));
            }
            let update = changes.accounts.get(&k).unwrap();
            assert(update@ == cs[k]);
            let existing = match self.get_account(&address) {
                Ok(existing) => existing,
                Err(e) => {
                    return Err(e);
                },
            };
            let UpdateWrites { account, slots, code } = writes_of(address, update, existing);
            let ghost generation = generation_after(held, address, cs[k]);
            proof {
                lemma_accounts_step(cs, keys@, i as int);
                lemma_planned_push(
                    account_ops@,
                    wanted_accounts(first_changes(cs, keys@, i as int)),
                    account_ok(held, cs),
                    (address, account),
                );
            }
            account_ops.push((address, account));
            match code {
                Some(code) => {
                    let write = (update.code_hash, Some(code));
                    match find_hash(&code_ops, &update.code_hash) {
                        Some(at) => {
                            if comes_before(code_writers[at], k) {
                                proof {
                                    lemma_code_plan_replace(
                                        cs,
                                        keys@,
                                        i as int,
                                        code_ops@,
                                        code_writers@,
                                        at as int,
                                        write,
                                    );
                                }
                                code_ops[at] = write;
                                code_writers[at] = k;
                            } else {
                                proof {
                                    lemma_code_plan_keep(
                                        cs,
                                        keys@,
                                        i as int,
                                        code_ops@,
                                        code_writers@,
                                        at as int,
                                    );
                                }
                            }
                        },
                        None => {
                            proof {
                                lemma_code_plan_push(
                                    cs,
                                    keys@,
                                    i as int,
                                    code_ops@,
                                    code_writers@,
                                    write,
                                );
                            }
                            code_ops.push(write);
                            code_writers.push(k);
                        },
                    }
                },
                None => {
                    proof {
                        lemma_code_plan_skip(cs, keys@, i as int, code_ops@, code_writers@);
                    }
                },
            }
            let ghost order = if cs[k].selfdestructed {
                Seq::<WordKey>::empty()
            } else {
                choose|order: Seq<WordKey>|
                    #![trigger slot_ops(address, generation_from(existing, cs[k]), cs[k], order)]
                    order.no_duplicates() && order.to_set() == cs[k].storage.dom() && slots@
                        == slot_ops(address, generation_from(existing, cs[k]), cs[k], order)
            };
            proof {
                if !cs[k].selfdestructed {
                    lemma_slots_begin(held, cs, keys@, i as int, order);
                }
            }
            let mut j: usize = 0;
            while j < slots.len()
                invariant
                    j <= slots@.len(),
                    i < keys@.len(),
                    k == keys@[i as int],
                    keys@.no_duplicates(),
                    cs.contains_key(k),
                    address == address_of(k),
                    generation == generation_after(held, address, cs[k]),
                    cs[k].selfdestructed ==> slots@.len() == 0 && planned(
                        storage_ops@,
                        wanted_slots(held, first_changes(cs, keys@, i as int)),
                        slot_ok(cs),
                    ),
                    !cs[k].selfdestructed ==> order.no_duplicates() && order.to_set()
                        == cs[k].storage.dom() && slots@ == slot_ops(
                        address,
                        generation,
                        cs[k],
                        order,
                    ) && planned(
                        storage_ops@,
                        wanted_slots(held, partial_changes(cs, keys@, i as int, order, j as int)),
                        slot_ok(cs),
                    ),
                decreases slots@.len() - j,
            {
                let write = slots[j];
                proof {
                    assert(order.to_set().contains(order[j as int])) by {
                        assert(order.contains(order[j as int]));
                    }
                    assert(write.0 == slot_key(held, cs, k, order[j as int]));
                    assert(write.1 == slot_write(cs[k].storage[order[j as int]]));
                    lemma_slots_step(held, cs, keys@, i as int, order, j as int);
                    lemma_planned_push(
                        storage_ops@,
                        wanted_slots(held, partial_changes(cs, keys@, i as int, order, j as int)),
                        slot_ok(cs),
                        write,
                    );
                }
                storage_ops.push(write);
                j = j + 1;
            }
            proof {
                if cs[k].selfdestructed {
                    lemma_slots_skip(held, cs, keys@, i as int);
                } else {
                    lemma_slots_end(held, cs, keys@, i as int, order);
                }
            }
            i = i + 1;
        }
        proof {
            lemma_first_all(cs, keys@);
            lemma_code_plan_done(cs, code_ops@, code_writers@);
        }
        Ok(Plan { accounts: account_ops, storage: storage_ops, code: code_ops })
    }
}

/// What the three partitions hold.
pub struct StoreContents {
    pub accounts: AccountContents,
    pub storage: StorageContents,
    pub code: CodeContents,
}

/// Whether a store went from `before` to `after` by committing `changes`.
pub open spec fn committed(before: StoreContents, changes: ChangeSetView, after: StoreContents) -> bool {
    &&& accounts_committed(before.accounts, changes, after.accounts)
    &&& storage_committed(before.accounts, before.storage, changes, after.storage)
    &&& code_committed(before.code, changes, after.code)
}

/// What the three partitions hold, byte for byte.
pub struct StoreBytes {
    pub accounts: Map<Address, Seq<u8>>,
    pub storage: StorageContents,
    pub code: Map<B256, Seq<u8>>,
}

/// The bytes of what a store holds.
pub open spec fn bytes_of(contents: StoreContents) -> StoreBytes {
    StoreBytes {
        accounts: Map::new(
            |a: Address| contents.accounts.contains_key(a),
            |a: Address| contents.accounts[a]@,
        ),
        storage: contents.storage,
        code: Map::new(|h: B256| contents.code.contains_key(h), |h: B256| contents.code[h]@),
    }
}

/// What committing `changes` to a store that holds `before` leaves, byte for
/// byte. An updated account has the record of its update, unless the update
/// destroys it; a written slot has its new value under the generation of its
/// update, unless that is zero; under a hash for which updates bring code
/// stands the code of the greatest address that does; all else is as it was.
pub open spec fn commit_of(before: StoreContents, changes: ChangeSetView) -> StoreBytes {
    StoreBytes {
        accounts: Map::new(
            |a: Address|
                if changes.contains_key(a@) {
                    !changes[a@].selfdestructed
                } else {
                    before.accounts.contains_key(a)
                },
            |a: Address|
                if changes.contains_key(a@) {
                    record_bytes(
                        (
                            changes[a@].nonce,
                            changes[a@].balance,
                            changes[a@].code_hash,
                            generation_after(before.accounts, a, changes[a@]),
                        ),
                    )
                } else {
                    before.accounts[a]@
                },
        ),
        storage: Map::new(
            |key: StorageKey|
                if slot_written(before.accounts, changes, key) {
                    slot_write(changes[key.address@].storage[key.slot@]) is Some
                } else {
                    before.storage.contains_key(key)
                },
            |key: StorageKey|
                if slot_written(before.accounts, changes, key) {
                    changes[key.address@].storage[key.slot@]
                } else {
                    before.storage[key]
                },
        ),
        code: Map::new(
            |h: B256| some_code_written(changes, h) || before.code.contains_key(h),
            |h: B256|
                if some_code_written(changes, h) {
                    top_code(changes, h)->Some_0
                } else {
                    before.code[h]@
                },
        ),
    }
}

/// A commit leaves one thing: what `committed` admits is, byte for byte,
/// what `commit_of` gives.
pub proof fn lemma_commit_is_a_function(
    before: StoreContents,
    changes: ChangeSetView,
    after: StoreContents,
)
    requires
        committed(before, changes, after),
    ensures
        bytes_of(after) == commit_of(before, changes),
{
    let left = bytes_of(after);
    let right = commit_of(before, changes);
    assert forall|a: Address|
        left.accounts.contains_key(a) == right.accounts.contains_key(a) && (
        left.accounts.contains_key(a) ==> left.accounts[a] == right.accounts[a]) by {
        assert(after.accounts.contains_key(a) || !after.accounts.contains_key(a));
        assert(changes.contains_key(a@) || !changes.contains_key(a@));
    }
    assert(left.accounts =~= right.accounts);
    assert forall|key: StorageKey|
        left.storage.contains_key(key) == right.storage.contains_key(key) && (
        left.storage.contains_key(key) ==> left.storage[key] == right.storage[key]) by {
        assert(after.storage.contains_key(key) || !after.storage.contains_key(key));
        assert(slot_written(before.accounts, changes, key) || !slot_written(
            before.accounts,
            changes,
            key,
        ));
    }
    assert(left.storage =~= right.storage);
    assert forall|h: B256|
        left.code.contains_key(h) == right.code.contains_key(h) && (left.code.contains_key(h)
            ==> left.code[h] == right.code[h]) by {
        assert(after.code.contains_key(h) || !after.code.contains_key(h));
        assert(some_code_written(changes, h) || !some_code_written(changes, h));
    }
    assert(left.code =~= right.code);
}

impl<A, S, C> QmdbStore<A, S, C> where
    A: QmdbGettable<Key = Address, Value = [u8; 80]>,
    S: QmdbGettable<Key = StorageKey, Value = U256>,
    C: QmdbGettable<Key = B256, Value = Vec<u8>>,
 {
    /// What the three partitions hold.
    pub open spec fn contents(&self) -> StoreContents {
        StoreContents {
            accounts: self.accounts.contents(),
            storage: self.storage.contents(),
            code: self.code.contents(),
        }
    }
}

impl<A, S, C> QmdbStore<A, S, C> where
    A: QmdbBatchable<Key = Address, Value = [u8; 80]>,
    S: QmdbBatchable<Key = StorageKey, Value = U256>,
    C: QmdbBatchable<Key = B256, Value = Vec<u8>>,
 {
    /// Commits `changes`: writes the account, storage and code batches that
    /// stand for them, in that order. Fails where reading an account fails,
    /// and then nothing is written, or where a partition refuses its batch,
    /// and then the partitions before it are written.
    pub fn commit_changes(&mut self, changes: ChangeSet) -> (done: Result<(), QmdbError>)
        ensures
            done is Ok ==> committed(old(self).contents(), changes@, final(self).contents()),
            done is Ok ==> bytes_of(final(self).contents()) == commit_of(
                old(self).contents(),
                changes@,
            ),
            done matches Err(e) ==> e is Storage,
    {
        let ghost before = self.contents();
        let plan = match self.plan_changes(&changes) {
            Ok(plan) => plan,
            Err(e) => {
                return Err(e);
            },
        };
        let Plan { accounts, storage, code } = plan;
        proof {
            lemma_accounts_committed(before.accounts, changes@, accounts@);
            lemma_storage_committed(before.accounts, before.storage, changes@, storage@);
            lemma_code_committed(before.code, changes@, code@);
        }
        match self.accounts.write_batch(accounts) {
            Ok(()) => {},
            Err(e) => {
                return Err(QmdbError::Storage(describe::<A>(&e)));
            },
        }
        match self.storage.write_batch(storage) {
            Ok(()) => {},
            Err(e) => {
                return Err(QmdbError::Storage(describe::<S>(&e)));
            },
        }
        match self.code.write_batch(code) {
            Ok(()) => {},
            Err(e) => {
                return Err(QmdbError::Storage(describe::<C>(&e)));
            },
        }
        proof {
            lemma_commit_is_a_function(before, changes@, self.contents());
        }
        Ok(())
    }
}

/// The state root of a store whose partitions hold `contents`.
pub open spec fn store_root<A: RootProvider, S: RootProvider, C: RootProvider>(
    accounts: Map<A::Key, A::Value>,
    storage: Map<S::Key, S::Value>,
    code: Map<C::Key, C::Value>,
) -> B256 {
    state_root_of(A::root_of(accounts), S::root_of(storage), C::root_of(code))
}

impl<A, S, C> QmdbStore<A, S, C> where
    A: RootProvider<Key = Address, Value = [u8; 80]>,
    S: RootProvider<Key = StorageKey, Value = U256>,
    C: RootProvider<Key = B256, Value = Vec<u8>>,
 {
    /// The state root: the commitment to the roots of the three partitions.
    /// Fails where a partition cannot give its root.
    pub fn state_root(&self) -> (root: Result<B256, QmdbError>)
        ensures
            root matches Ok(r) ==> r == store_root::<A, S, C>(
                self.accounts.contents(),
                self.storage.contents(),
                self.code.contents(),
            ),
            root matches Err(e) ==> e is Storage,
    {
        let accounts = match self.accounts.root() {
            Ok(r) => r,
            Err(e) => {
                return Err(QmdbError::Storage(describe::<A>(&e)));
            },
        };
        let storage = match self.storage.root() {
            Ok(r) => r,
            Err(e) => {
                return Err(QmdbError::Storage(describe::<S>(&e)));
            },
        };
        let code = match self.code.root() {
            Ok(r) => r,
            Err(e) => {
                return Err(QmdbError::Storage(describe::<C>(&e)));
            },
        };
        Ok(StateRoot::compute(accounts, storage, code))
    }

    /// The state root that the store would have after committing `changes`:
    /// the root of contents that hold, byte for byte, what the commit
    /// leaves. Writes nothing. Fails where reading an account fails or a
    /// partition cannot give a root.
    pub fn compute_root(&self, changes: &ChangeSet) -> (root: Result<B256, QmdbError>)
        ensures
            root matches Ok(r) ==> exists|after: StoreContents|
                #![trigger committed(self.contents(), changes@, after)]
                committed(self.contents(), changes@, after) && bytes_of(after) == commit_of(
                    self.contents(),
                    changes@,
                ) && r == store_root::<A, S, C>(after.accounts, after.storage, after.code),
            root matches Err(e) ==> e is Storage,
    {
        let plan = match self.plan_changes(changes) {
            Ok(plan) => plan,
            Err(e) => {
                return Err(e);
            },
        };
        let ghost before = self.contents();
        let ghost after = StoreContents {
            accounts: apply_ops(before.accounts, plan.accounts@),
            storage: apply_ops(before.storage, plan.storage@),
            code: apply_ops(before.code, plan.code@),
        };
        proof {
            lemma_accounts_committed(before.accounts, changes@, plan.accounts@);
            lemma_storage_committed(before.accounts, before.storage, changes@, plan.storage@);
            lemma_code_committed(before.code, changes@, plan.code@);
            assert(committed(self.contents(), changes@, after));
            lemma_commit_is_a_function(before, changes@, after);
        }
        let accounts = match self.accounts.root_after(&plan.accounts) {
            Ok(r) => r,
            Err(e) => {
                return Err(QmdbError::Storage(describe::<A>(&e)));
            },
        };
        let storage = match self.storage.root_after(&plan.storage) {
            Ok(r) => r,
            Err(e) => {
                return Err(QmdbError::Storage(describe::<S>(&e)));
            },
        };
        let code = match self.code.root_after(&plan.code) {
            Ok(r) => r,
            Err(e) => {
                return Err(QmdbError::Storage(describe::<C>(&e)));
            },
        };
        Ok(StateRoot::compute(accounts, storage, code))
    }
}

} // verus!
