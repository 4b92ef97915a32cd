//! The thread-safe store handle: one partitioned store behind a read/write
//! lock, shared by every copy of the handle.

use crate::change_set::{merge_changes, AccountUpdate, AccountUpdateView, ChangeSet, ChangeSetView};
use crate::primitives::{keccak256_empty, Address, AddressKey, WordKey, B256, U256};
use crate::state_db::{StateDb, StateDbError, StateDbRead, StateDbWrite};
use crate::store::{
    account_at, bytes_of, commit_of, committed, store_root, AccountFields, QmdbBatchable,
    QmdbError, QmdbGettable, QmdbStore, RootProvider, StorageKey, StoreContents,
};
use crate::sync::{guarded, guarded_mut, lock_read, lock_write, new_lock, share};
use crate::text::{append, append_decimal, decimal_of, word_text_of};
use std::collections::BTreeMap;
use std::sync::Arc;
use std::sync::RwLock;
use std::sync::RwLockReadGuard;
use std::sync::RwLockWriteGuard;
use vstd::prelude::*;

verus! {

/// Why an operation on the handle failed.
#[derive(Debug, PartialEq, Eq)]
pub enum HandleError {
    /// A holder of the lock failed while holding it.
    LockPoisoned,
    /// The store failed.
    Store(QmdbError),
    /// No code is recorded under the hash.
    CodeNotFound(B256),
    /// No hash is recorded for the block number.
    BlockHashNotFound(u64),
}

impl HandleError {
    /// The failure in words.
    pub fn message(&self) -> (text: String)
        ensures
            text@ == (match *self {
                HandleError::LockPoisoned => "lock poisoned"@,
                HandleError::Store(e) => e.text_of(),
                HandleError::CodeNotFound(hash) => "code not found: "@ + word_text_of(hash),
                HandleError::BlockHashNotFound(number) => "block hash not found: "@ + decimal_of(
                    number as nat,
                ),
            }),
    {
        match self {
            HandleError::LockPoisoned => "lock poisoned".to_owned(),
            HandleError::Store(e) => e.message(),
            HandleError::CodeNotFound(hash) => {
                let mut text = "code not found: ".to_owned();
                let shown = hash.to_text();
                append(&mut text, shown.as_str());
                text
            },
            HandleError::BlockHashNotFound(number) => {
                let mut text = "block hash not found: ".to_owned();
                append_decimal(&mut text, *number);
                text
            },
        }
    }
}

/// Whether `r` is `expected`, or the failure of a partition.
pub open spec fn read_gives<T>(r: Result<T, StateDbError>, expected: Result<T, StateDbError>) -> bool {
    r == expected || (r matches Err(e) && e is Storage)
}

/// Whether a code hash stands for no code: the hash of the empty byte string,
/// or the zero word.
pub open spec fn no_code(code_hash: B256) -> bool {
    code_hash == keccak256_empty() || code_hash@ == (0u128, 0u128)
}

/// The storage key under which the store reads slot `slot` of `address`, if
/// the store holds the account.
pub open spec fn live_slot_key<A, S, C>(
    store: QmdbStore<A, S, C>,
    address: Address,
    slot: U256,
) -> Option<StorageKey> where A: QmdbGettable<Key = Address, Value = [u8; 80]> {
    match account_at(store.accounts.contents(), address) {
        Some(fields) => Some(StorageKey { address, generation: fields.3, slot }),
        None => None,
    }
}

/// What reading the nonce of `address` gives on `store`, where no partition
/// fails.
pub open spec fn nonce_of<A, S, C>(store: QmdbStore<A, S, C>, address: Address) -> Result<
    u64,
    StateDbError,
> where A: QmdbGettable<Key = Address, Value = [u8; 80]> {
    match account_at(store.accounts.contents(), address) {
        Some(fields) => Ok(fields.0),
        None => Err(StateDbError::AccountNotFound(address)),
    }
}

/// What reading the balance of `address` gives on `store`, where no
/// partition fails.
pub open spec fn balance_of<A, S, C>(store: QmdbStore<A, S, C>, address: Address) -> Result<
    U256,
    StateDbError,
> where A: QmdbGettable<Key = Address, Value = [u8; 80]> {
    match account_at(store.accounts.contents(), address) {
        Some(fields) => Ok(fields.1),
        None => Err(StateDbError::AccountNotFound(address)),
    }
}

/// What reading the code hash of `address` gives on `store`, where no
/// partition fails.
pub open spec fn code_hash_of<A, S, C>(store: QmdbStore<A, S, C>, address: Address) -> Result<
    B256,
    StateDbError,
> where A: QmdbGettable<Key = Address, Value = [u8; 80]> {
    match account_at(store.accounts.contents(), address) {
        Some(fields) => Ok(fields.2),
        None => Err(StateDbError::AccountNotFound(address)),
    }
}

/// What reading the code under a hash that stands for code gives on `store`,
/// where no partition fails.
pub open spec fn code_of<A, S, C>(store: QmdbStore<A, S, C>, code_hash: B256) -> Result<
    Vec<u8>,
    StateDbError,
> where C: QmdbGettable<Key = B256, Value = Vec<u8>> {
    if store.code.contents().contains_key(code_hash) {
        Ok(store.code.contents()[code_hash])
    } else {
        Err(StateDbError::CodeNotFound(code_hash))
    }
}

/// The value that slot `slot` of `address` has on `store`: what stands under
/// the account's current generation, and zero where the store holds no such
/// account or no such slot.
pub open spec fn slot_of<A, S, C>(store: QmdbStore<A, S, C>, address: Address, slot: U256) -> U256 where
    A: QmdbGettable<Key = Address, Value = [u8; 80]>,
    S: QmdbGettable<Key = StorageKey, Value = U256>,
 {
    match live_slot_key(store, address, slot) {
        Some(key) => if store.storage.contents().contains_key(key) {
            store.storage.contents()[key]
        } else {
            U256 { hi: 0, lo: 0 }
        },
        None => U256 { hi: 0, lo: 0 },
    }
}

/// The failure of a read whose partition failed with `e`: a storage failure
/// with the words of `e`.
pub fn read_failure(e: QmdbError) -> (failure: StateDbError)
    ensures
        failure matches StateDbError::Storage(text) && text@ == e.text_of(),
{
    StateDbError::Storage(e.message())
}

/// The nonce that a read gives when the lookup of the account's record gave
/// `found`: the nonce of the record, an error that names the address where
/// there is no record, and a storage failure where the lookup failed.
pub fn nonce_from(found: Result<Option<AccountFields>, QmdbError>, address: Address) -> (r: Result<
    u64,
    StateDbError,
>)
    ensures
        match found {
            Ok(Some(fields)) => r == Ok::<u64, StateDbError>(fields.0),
            Ok(None) => r == Err::<u64, StateDbError>(StateDbError::AccountNotFound(address)),
            Err(e) => r matches Err(StateDbError::Storage(text)) && text@ == e.text_of(),
        },
{
    match found {
        Ok(Some(fields)) => Ok(fields.0),
        Ok(None) => Err(StateDbError::AccountNotFound(address)),
        Err(e) => Err(read_failure(e)),
    }
}

/// The balance that a read gives when the lookup of the account's record
/// gave `found`: the balance of the record, an error that names the address
/// where there is no record, and a storage failure where the lookup failed.
pub fn balance_from(found: Result<Option<AccountFields>, QmdbError>, address: Address) -> (r: Result<
    U256,
    StateDbError,
>)
    ensures
        match found {
            Ok(Some(fields)) => r == Ok::<U256, StateDbError>(fields.1),
            Ok(None) => r == Err::<U256, StateDbError>(StateDbError::AccountNotFound(address)),
            Err(e) => r matches Err(StateDbError::Storage(text)) && text@ == e.text_of(),
        },
{
    match found {
        Ok(Some(fields)) => Ok(fields.1),
        Ok(None) => Err(StateDbError::AccountNotFound(address)),
        Err(e) => Err(read_failure(e)),
    }
}

/// The code hash that a read gives when the lookup of the account's record
/// gave `found`: the code hash of the record, an error that names the
/// address where there is no record, and a storage failure where the lookup
/// failed.
pub fn code_hash_from(found: Result<Option<AccountFields>, QmdbError>, address: Address) -> (r:
    Result<B256, StateDbError>)
    ensures
        match found {
            Ok(Some(fields)) => r == Ok::<B256, StateDbError>(fields.2),
            Ok(None) => r == Err::<B256, StateDbError>(StateDbError::AccountNotFound(address)),
            Err(e) => r matches Err(StateDbError::Storage(text)) && text@ == e.text_of(),
        },
{
    match found {
        Ok(Some(fields)) => Ok(fields.2),
        Ok(None) => Err(StateDbError::AccountNotFound(address)),
        Err(e) => Err(read_failure(e)),
    }
}

/// The code that a read gives when the lookup under `code_hash` gave
/// `found`: the recorded code, an error that names the hash where none is
/// recorded, and a storage failure where the lookup failed.
pub fn code_from(found: Result<Option<Vec<u8>>, QmdbError>, code_hash: B256) -> (r: Result<
    Vec<u8>,
    StateDbError,
>)
    ensures
        match found {
            Ok(Some(code)) => r == Ok::<Vec<u8>, StateDbError>(code),
            Ok(None) => r == Err::<Vec<u8>, StateDbError>(StateDbError::CodeNotFound(code_hash)),
            Err(e) => r matches Err(StateDbError::Storage(text)) && text@ == e.text_of(),
        },
{
    match found {
        Ok(Some(code)) => Ok(code),
        Ok(None) => Err(StateDbError::CodeNotFound(code_hash)),
        Err(e) => Err(read_failure(e)),
    }
}

/// How the read of a slot goes on after the lookup of the account's record.
#[derive(Debug, PartialEq, Eq)]
pub enum SlotStep {
    /// The slot is to be looked up under this key.
    Read(StorageKey),
    /// There is no such account: the slot reads zero, without a lookup.
    Zero,
    /// The lookup of the record failed.
    Fail(QmdbError),
}

/// How the read of slot `slot` of `address` goes on when the lookup of the
/// account's record gave `found`: with a lookup under the key that holds the
/// record's own generation; with zero where there is no record; with the
/// failure where the lookup failed.
pub fn slot_step(found: Result<Option<AccountFields>, QmdbError>, address: Address, slot: U256) -> (step:
    SlotStep)
    ensures
        match found {
            Ok(Some(fields)) => step == SlotStep::Read(
                StorageKey { address, generation: fields.3, slot },
            ),
            Ok(None) => step == SlotStep::Zero,
            Err(e) => step == SlotStep::Fail(e),
        },
{
    match found {
        Ok(Some(fields)) => SlotStep::Read(StorageKey::new(address, fields.3, slot)),
        Ok(None) => SlotStep::Zero,
        Err(e) => SlotStep::Fail(e),
    }
}

/// The value that a read gives when the lookup of the slot gave `found`: the
/// recorded value, zero where none is recorded, and a storage failure where
/// the lookup failed.
pub fn slot_from(found: Result<Option<U256>, QmdbError>) -> (r: Result<U256, StateDbError>)
    ensures
        match found {
            Ok(Some(value)) => r == Ok::<U256, StateDbError>(value),
            Ok(None) => r == Ok::<U256, StateDbError>(U256 { hi: 0, lo: 0 }),
            Err(e) => r matches Err(StateDbError::Storage(text)) && text@ == e.text_of(),
        },
{
    match found {
        Ok(Some(value)) => Ok(value),
        Ok(None) => Ok(U256::zero()),
        Err(e) => Err(read_failure(e)),
    }
}

/// Whether a code hash stands for no code, so that no lookup is made.
pub fn stands_for_no_code(code_hash: &B256) -> (none: bool)
    ensures
        none == no_code(*code_hash),
{
    *code_hash == B256::keccak_empty() || code_hash.is_zero()
}

impl<A, S, C> QmdbStore<A, S, C> where
    A: QmdbGettable<Key = Address, Value = [u8; 80]>,
    S: QmdbGettable<Key = StorageKey, Value = U256>,
    C: QmdbGettable<Key = B256, Value = Vec<u8>>,
 {
    /// The nonce of the account at `address`; an error where the store holds
    /// no such account. What the accounts partition answers decides; for
    /// each answer the result is that of `nonce_from`.
    pub fn nonce(&self, address: &Address) -> (r: Result<u64, StateDbError>)
        ensures
            read_gives(r, nonce_of(*self, *address)),
    {
        nonce_from(self.get_account(address), *address)
    }

    /// The balance of the account at `address`; an error where the store
    /// holds no such account. What the accounts partition answers decides;
    /// for each answer the result is that of `balance_from`.
    pub fn balance(&self, address: &Address) -> (r: Result<U256, StateDbError>)
        ensures
            read_gives(r, balance_of(*self, *address)),
    {
        balance_from(self.get_account(address), *address)
    }

    /// The code hash of the account at `address`; an error where the store
    /// holds no such account. What the accounts partition answers decides;
    /// for each answer the result is that of `code_hash_from`.
    pub fn code_hash(&self, address: &Address) -> (r: Result<B256, StateDbError>)
        ensures
            read_gives(r, code_hash_of(*self, *address)),
    {
        code_hash_from(self.get_account(address), *address)
    }

    /// The code under `code_hash`: no bytes for a hash that stands for no
    /// code, without a lookup; else the recorded code, or an error where none
    /// is recorded. Where a lookup is made, what the code partition answers
    /// decides; for each answer the result is that of `code_from`.
    pub fn code_by_hash(&self, code_hash: &B256) -> (r: Result<Vec<u8>, StateDbError>)
        ensures
            no_code(*code_hash) ==> r is Ok && r->Ok_0@.len() == 0,
            !no_code(*code_hash) ==> read_gives(r, code_of(*self, *code_hash)),
    {
        if stands_for_no_code(code_hash) {
            return Ok(Vec::new());
        }
        code_from(self.get_code(code_hash), *code_hash)
    }

    /// The value of slot `slot` of the account at `address`, read under the
    /// account's current generation: zero where the store holds no such
    /// account or no such slot. What the partitions answer decides; for each
    /// answer of the accounts partition the read goes on as `slot_step`
    /// says, and for each answer of the storage partition the result is that
    /// of `slot_from`.
    pub fn storage_at(&self, address: &Address, slot: &U256) -> (r: Result<U256, StateDbError>)
        ensures
            read_gives(r, Ok(slot_of(*self, *address, *slot))),
    {
        match slot_step(self.get_account(address), *address, *slot) {
            SlotStep::Read(key) => slot_from(self.get_storage(&key)),
            SlotStep::Zero => slot_from(Ok(None)),
            SlotStep::Fail(e) => slot_from(Err(e)),
        }
    }
}

/// What an executor asks of an account: its nonce, balance and code hash.
#[derive(Clone, Copy, Debug, PartialEq, Eq, Structural)]
pub struct AccountInfo {
    /// The nonce of the account.
    pub nonce: u64,
    /// The balance of the account.
    pub balance: U256,
    /// The hash of the account's code.
    pub code_hash: B256,
}

/// Whether `r` is `expected`, or the failure of a partition.
pub open spec fn ref_gives<T>(r: Result<T, HandleError>, expected: Result<T, HandleError>) -> bool {
    r == expected || (r matches Err(HandleError::Store(e)) && e is Storage)
}

/// The nonce, balance and code hash that `store` holds for `address`, if it
/// holds the account.
pub open spec fn basic_of<A, S, C>(store: QmdbStore<A, S, C>, address: Address) -> Option<
    AccountInfo,
> where A: QmdbGettable<Key = Address, Value = [u8; 80]> {
    match account_at(store.accounts.contents(), address) {
        Some(fields) => Some(
            AccountInfo { nonce: fields.0, balance: fields.1, code_hash: fields.2 },
        ),
        None => None,
    }
}

/// What an executor's lookup of the code under a hash that stands for code
/// gives on `store`, where no partition fails.
pub open spec fn bytecode_of<A, S, C>(store: QmdbStore<A, S, C>, code_hash: B256) -> Result<
    Vec<u8>,
    HandleError,
> where C: QmdbGettable<Key = B256, Value = Vec<u8>> {
    if store.code.contents().contains_key(code_hash) {
        Ok(store.code.contents()[code_hash])
    } else {
        Err(HandleError::CodeNotFound(code_hash))
    }
}

/// The account information that an executor's lookup gives when the lookup
/// of the account's record gave `found`: the nonce, balance and code hash of
/// the record, nothing where there is no record, and the store's failure
/// where the lookup failed.
pub fn basic_from(found: Result<Option<AccountFields>, QmdbError>) -> (r: Result<
    Option<AccountInfo>,
    HandleError,
>)
    ensures
        match found {
            Ok(Some(fields)) => r == Ok::<Option<AccountInfo>, HandleError>(
                Some(AccountInfo { nonce: fields.0, balance: fields.1, code_hash: fields.2 }),
            ),
            Ok(None) => r == Ok::<Option<AccountInfo>, HandleError>(None),
            Err(e) => r == Err::<Option<AccountInfo>, HandleError>(HandleError::Store(e)),
        },
{
    match found {
        Ok(Some(fields)) => Ok(
            Some(AccountInfo { nonce: fields.0, balance: fields.1, code_hash: fields.2 }),
        ),
        Ok(None) => Ok(None),
        Err(e) => Err(HandleError::Store(e)),
    }
}

/// The code that an executor's lookup gives when the lookup under
/// `code_hash` gave `found`: the recorded code, the failure that names the
/// hash where none is recorded, and the store's failure where the lookup
/// failed.
pub fn bytecode_from(found: Result<Option<Vec<u8>>, QmdbError>, code_hash: B256) -> (r: Result<
    Vec<u8>,
    HandleError,
>)
    ensures
        match found {
            Ok(Some(code)) => r == Ok::<Vec<u8>, HandleError>(code),
            Ok(None) => r == Err::<Vec<u8>, HandleError>(HandleError::CodeNotFound(code_hash)),
            Err(e) => r == Err::<Vec<u8>, HandleError>(HandleError::Store(e)),
        },
{
    match found {
        Ok(Some(code)) => Ok(code),
        Ok(None) => Err(HandleError::CodeNotFound(code_hash)),
        Err(e) => Err(HandleError::Store(e)),
    }
}

/// The value that an executor's lookup gives when the lookup of the slot
/// gave `found`: the recorded value, zero where none is recorded, and the
/// store's failure where the lookup failed.
pub fn slot_value_from(found: Result<Option<U256>, QmdbError>) -> (r: Result<U256, HandleError>)
    ensures
        match found {
            Ok(Some(value)) => r == Ok::<U256, HandleError>(value),
            Ok(None) => r == Ok::<U256, HandleError>(U256 { hi: 0, lo: 0 }),
            Err(e) => r == Err::<U256, HandleError>(HandleError::Store(e)),
        },
{
    match found {
        Ok(Some(value)) => Ok(value),
        Ok(None) => Ok(U256::zero()),
        Err(e) => Err(HandleError::Store(e)),
    }
}

impl<A, S, C> QmdbStore<A, S, C> where
    A: QmdbGettable<Key = Address, Value = [u8; 80]>,
    S: QmdbGettable<Key = StorageKey, Value = U256>,
    C: QmdbGettable<Key = B256, Value = Vec<u8>>,
 {
    /// The nonce, balance and code hash of the account at `address`, or
    /// `None` where the store holds no such account. What the accounts
    /// partition answers decides; for each answer the result is that of
    /// `basic_from`.
    pub fn basic(&self, address: &Address) -> (r: Result<Option<AccountInfo>, HandleError>)
        ensures
            ref_gives(r, Ok(basic_of(*self, *address))),
    {
        basic_from(self.get_account(address))
    }

    /// The code under `code_hash`: no bytes for a hash that stands for no
    /// code, without a lookup; else the recorded code, or the failure that
    /// none is recorded. Where a lookup is made, what the code partition
    /// answers decides; for each answer the result is that of
    /// `bytecode_from`.
    pub fn bytecode(&self, code_hash: &B256) -> (r: Result<Vec<u8>, HandleError>)
        ensures
            no_code(*code_hash) ==> r is Ok && r->Ok_0@.len() == 0,
            !no_code(*code_hash) ==> ref_gives(r, bytecode_of(*self, *code_hash)),
    {
        if stands_for_no_code(code_hash) {
            return Ok(Vec::new());
        }
        bytecode_from(self.get_code(code_hash), *code_hash)
    }

    /// The value of slot `index` of the account at `address`, read under the
    /// account's current generation: zero where the store holds no such
    /// account or no such slot. What the partitions answer decides; for each
    /// answer of the accounts partition the read goes on as `slot_step`
    /// says, and for each answer of the storage partition the result is that
    /// of `slot_value_from`.
    pub fn slot_value(&self, address: &Address, index: &U256) -> (r: Result<U256, HandleError>)
        ensures
            ref_gives(r, Ok(slot_of(*self, *address, *index))),
    {
        match slot_step(self.get_account(address), *address, *index) {
            SlotStep::Read(key) => slot_value_from(self.get_storage(&key)),
            SlotStep::Zero => slot_value_from(Ok(None)),
            SlotStep::Fail(e) => slot_value_from(Err(e)),
        }
    }
}

/// The update that creates an account with `balance` and nothing else: no
/// nonce, no code, no storage.
pub open spec fn genesis_update(balance: U256) -> AccountUpdateView {
    AccountUpdateView {
        created: true,
        selfdestructed: false,
        nonce: 0,
        balance,
        code_hash: keccak256_empty(),
        code: None,
        storage: Map::empty(),
    }
}

/// The change set that creates the accounts of `allocs`; where an address
/// comes twice, its last balance counts.
pub open spec fn genesis_changes_of(allocs: Seq<(Address, U256)>) -> ChangeSetView
    decreases allocs.len(),
{
    if allocs.len() == 0 {
        Map::empty()
    } else {
        genesis_changes_of(allocs.drop_last()).insert(
            allocs.last().0@,
            genesis_update(allocs.last().1),
        )
    }
}

/// The change set that creates each account of `allocs` with its balance,
/// a nonce of zero and no code.
pub fn genesis_changes(allocs: &Vec<(Address, U256)>) -> (changes: ChangeSet)
    ensures
        changes@ == genesis_changes_of(allocs@),
{
    let mut changes = ChangeSet::new();
    let mut i: usize = 0;
    while i < allocs.len()
        invariant
            i <= allocs@.len(),
            changes@ == genesis_changes_of(allocs@.take(i as int)),
        decreases allocs@.len() - i,
    {
        let (address, balance) = allocs[i];
        let update = AccountUpdate {
            created: true,
            selfdestructed: false,
            nonce: 0,
            balance,
            code_hash: B256::keccak_empty(),
            code: None,
            storage: BTreeMap::new(),
        };
        proof {
            assert(update@ == genesis_update(balance));
            assert(allocs@.take(i + 1).drop_last() =~= allocs@.take(i as int));
            assert(allocs@.take(i + 1).last() == allocs@[i as int]);
        }
        changes.insert(address, update);
        i = i + 1;
    }
    proof {
        assert(allocs@.take(allocs@.len() as int) =~= allocs@);
    }
    changes
}

/// What executing a block reports of one account.
#[derive(Debug, PartialEq, Eq)]
pub struct TouchedAccount {
    /// Whether execution touched the account at all.
    pub touched: bool,
    /// Whether execution created the account.
    pub created: bool,
    /// Whether execution destroyed the account.
    pub selfdestructed: bool,
    /// The nonce after execution.
    pub nonce: u64,
    /// The balance after execution.
    pub balance: U256,
    /// The code hash after execution.
    pub code_hash: B256,
    /// The code, where execution has it at hand.
    pub code: Option<Vec<u8>>,
    /// The slots that execution wrote, each with its present value.
    pub storage: Vec<(U256, U256)>,
}

/// The storage map that the slots of `pairs` give; where a slot comes twice,
/// its last value counts.
pub open spec fn slots_of(pairs: Seq<(U256, U256)>) -> Map<WordKey, U256>
    decreases pairs.len(),
{
    if pairs.len() == 0 {
        Map::empty()
    } else {
        slots_of(pairs.drop_last()).insert(pairs.last().0@, pairs.last().1)
    }
}

/// The update that stands for what execution reports of an account.
pub open spec fn update_of(account: TouchedAccount) -> AccountUpdateView {
    AccountUpdateView {
        created: account.created,
        selfdestructed: account.selfdestructed,
        nonce: account.nonce,
        balance: account.balance,
        code_hash: account.code_hash,
        code: match account.code {
            Some(code) => Some(code@),
            None => None,
        },
        storage: slots_of(account.storage@),
    }
}

/// The change set that stands for what execution reports: the update of
/// each touched account, and nothing of the others; where an address comes
/// twice, its last report counts.
pub open spec fn changes_of(accounts: Seq<(Address, TouchedAccount)>) -> ChangeSetView
    decreases accounts.len(),
{
    if accounts.len() == 0 {
        Map::empty()
    } else if accounts.last().1.touched {
        changes_of(accounts.drop_last()).insert(accounts.last().0@, update_of(accounts.last().1))
    } else {
        changes_of(accounts.drop_last())
    }
}

/// The update that stands for what execution reports of an account.
pub fn update_from_account(account: TouchedAccount) -> (update: AccountUpdate)
    ensures
        update@ == update_of(account),
{
    let TouchedAccount { touched, created, selfdestructed, nonce, balance, code_hash, code, storage: pairs } =
        account;
    let mut storage: BTreeMap<WordKey, U256> = BTreeMap::new();
    let mut i: usize = 0;
    while i < pairs.len()
        invariant
            i <= pairs@.len(),
            storage@ == slots_of(pairs@.take(i as int)),
        decreases pairs@.len() - i,
    {
        let (slot, value) = pairs[i];
        proof {
            assert(pairs@.take(i + 1).drop_last() =~= pairs@.take(i as int));
            assert(pairs@.take(i + 1).last() == pairs@[i as int]);
        }
        storage.insert(slot.key(), value);
        i = i + 1;
    }
    proof {
        assert(pairs@.take(pairs@.len() as int) =~= pairs@);
    }
    AccountUpdate { created, selfdestructed, nonce, balance, code_hash, code, storage }
}

/// The change set that stands for what execution reports of the accounts:
/// the update of each touched account; untouched accounts are left out.
pub fn changes_from_accounts(accounts: Vec<(Address, TouchedAccount)>) -> (changes: ChangeSet)
    ensures
        changes@ == changes_of(accounts@),
{
    let ghost reported = accounts@;
    let mut rest = accounts;
    let mut taken: Vec<(Address, TouchedAccount)> = Vec::new();
    let n = rest.len();
    let mut i: usize = 0;
    while i < n
        invariant
            i <= n,
            n == reported.len(),
            rest@.len() == n - i,
            taken@.len() == i,
            forall|j: int| 0 <= j < i ==> taken@[j] == reported[n - 1 - j],
            forall|j: int| 0 <= j < n - i ==> rest@[j] == reported[j],
        decreases n - i,
    {
        match rest.pop() {
            Some(entry) => {
                taken.push(entry);
            },
            None => {},
        }
        i = i + 1;
    }
    let mut changes = ChangeSet::new();
    let mut k: usize = 0;
    while k < n
        invariant
            k <= n,
            n == reported.len(),
            taken@.len() == n - k,
            forall|j: int| 0 <= j < n - k ==> taken@[j] == reported[n - 1 - j],
            changes@ == changes_of(reported.take(k as int)),
        decreases n - k,
    {
        proof {
            assert(reported.take(k + 1).drop_last() =~= reported.take(k as int));
            assert(reported.take(k + 1).last() == reported[k as int]);
        }
        match taken.pop() {
            Some((address, account)) => {
                assert(account == reported[k as int].1 && address == reported[k as int].0);
                if account.touched {
                    changes.insert(address, update_from_account(account));
                }
            },
            None => {},
        }
        k = k + 1;
    }
    proof {
        assert(reported.take(n as int) =~= reported);
    }
    changes
}

/// A handle on a partitioned store that all copies of the handle share.
/// Many readers may hold the store at once, or one writer.
#[verifier::reject_recursive_types(A)]
#[verifier::reject_recursive_types(S)]
#[verifier::reject_recursive_types(C)]
pub struct QmdbHandle<A, S, C> {
    inner: Arc<RwLock<QmdbStore<A, S, C>>>,
}

impl<A, S, C> Clone for QmdbHandle<A, S, C> {
    fn clone(&self) -> (copy: Self) {
        QmdbHandle { inner: share(&self.inner) }
    }
}

impl<A, S, C> QmdbHandle<A, S, C> {
    /// A handle on a new store over the three partitions.
    pub fn new(accounts: A, storage: S, code: C) -> (handle: Self) {
        QmdbHandle { inner: Arc::new(new_lock(QmdbStore::new(accounts, storage, code))) }
    }

    /// A handle on `store`.
    pub fn from_store(store: QmdbStore<A, S, C>) -> (handle: Self) {
        QmdbHandle { inner: Arc::new(new_lock(store)) }
    }

    /// Waits for shared access to the store. Fails only where the lock is
    /// poisoned. A thread gives the guard up before it asks for exclusive
    /// access.
    pub fn read(&self) -> (guard: Result<RwLockReadGuard<'_, QmdbStore<A, S, C>>, HandleError>)
        ensures
            guard matches Err(e) ==> e is LockPoisoned,
    {
        match lock_read(&self.inner) {
            Some(guard) => Ok(guard),
            None => Err(HandleError::LockPoisoned),
        }
    }

    /// Waits for exclusive access to the store. Fails only where the lock is
    /// poisoned. A thread gives the guard up before it asks for access
    /// again.
    pub fn write(&self) -> (guard: Result<RwLockWriteGuard<'_, QmdbStore<A, S, C>>, HandleError>)
        ensures
            guard matches Err(e) ==> e is LockPoisoned,
    {
        match lock_write(&self.inner) {
            Some(guard) => Ok(guard),
            None => Err(HandleError::LockPoisoned),
        }
    }
}

impl<A, S, C> QmdbHandle<A, S, C> where
    A: QmdbGettable<Key = Address, Value = [u8; 80]>,
    S: QmdbGettable<Key = StorageKey, Value = U256>,
    C: QmdbGettable<Key = B256, Value = Vec<u8>>,
 {
    /// The nonce, balance and code hash of the account at `address`, or
    /// `None` where the store holds no such account: what the store that the
    /// lock guards at that moment holds for the address. Fails where the lock
    /// is poisoned or the accounts partition fails.
    pub fn basic_ref(&self, address: Address) -> (r: Result<Option<AccountInfo>, HandleError>)
        ensures
            r == Err::<Option<AccountInfo>, HandleError>(HandleError::LockPoisoned) || exists|
                store: QmdbStore<A, S, C>,
            |
                #![trigger basic_of(store, address)]
                ref_gives(r, Ok(basic_of(store, address))),
    {
        match lock_read(&self.inner) {
            Some(guard) => {
                let store = guarded(&guard);
                let r = store.basic(&address);
                assert(ref_gives(r, Ok(basic_of(*store, address))));
                r
            },
            None => Err(HandleError::LockPoisoned),
        }
    }

    /// The code under `code_hash`: no bytes for a hash that stands for no
    /// code, whatever the store holds and whether or not the lock is sound;
    /// else what the store that the lock guards at that moment holds under
    /// the hash, or the failure that it holds none. Fails where the lock is
    /// poisoned or the code partition fails.
    pub fn code_by_hash_ref(&self, code_hash: B256) -> (r: Result<Vec<u8>, HandleError>)
        ensures
            no_code(code_hash) ==> r is Ok && r->Ok_0@.len() == 0,
            !no_code(code_hash) ==> r == Err::<Vec<u8>, HandleError>(HandleError::LockPoisoned)
                || exists|store: QmdbStore<A, S, C>|
                #![trigger bytecode_of(store, code_hash)]
                ref_gives(r, bytecode_of(store, code_hash)),
    {
        if code_hash == B256::keccak_empty() || code_hash.is_zero() {
            return Ok(Vec::new());
        }
        match lock_read(&self.inner) {
            Some(guard) => {
                let store = guarded(&guard);
                let r = store.bytecode(&code_hash);
                assert(ref_gives(r, bytecode_of(*store, code_hash)));
                r
            },
            None => Err(HandleError::LockPoisoned),
        }
    }

    /// The value of slot `index` of the account at `address`: what the store
    /// that the lock guards at that moment holds under the account's current
    /// generation, and zero where it holds no such account or no such slot.
    /// Fails where the lock is poisoned or a partition fails.
    pub fn storage_ref(&self, address: Address, index: U256) -> (r: Result<U256, HandleError>)
        ensures
            r == Err::<U256, HandleError>(HandleError::LockPoisoned) || exists|
                store: QmdbStore<A, S, C>,
            |
                #![trigger slot_of(store, address, index)]
                ref_gives(r, Ok(slot_of(store, address, index))),
    {
        match lock_read(&self.inner) {
            Some(guard) => {
                let store = guarded(&guard);
                let r = store.slot_value(&address, &index);
                assert(ref_gives(r, Ok(slot_of(*store, address, index))));
                r
            },
            None => Err(HandleError::LockPoisoned),
        }
    }

    /// The hash of the block with the given number: the store keeps none.
    pub fn block_hash_ref(&self, number: u64) -> (r: Result<B256, HandleError>)
        ensures
            r == Err::<B256, HandleError>(HandleError::BlockHashNotFound(number)),
    {
        Err(HandleError::BlockHashNotFound(number))
    }
}

impl<A, S, C> QmdbHandle<A, S, C> where
    A: QmdbBatchable<Key = Address, Value = [u8; 80]>,
    S: QmdbBatchable<Key = StorageKey, Value = U256>,
    C: QmdbBatchable<Key = B256, Value = Vec<u8>>,
 {
    /// Commits `changes` to the store under exclusive access, so that no
    /// reader sees a part of them: where it succeeds, the store that the
    /// lock guards went from what it was to what committing `changes` to
    /// that leaves. Fails where the lock is poisoned or the store fails.
    pub fn commit(&self, changes: ChangeSet) -> (done: Result<(), HandleError>)
        ensures
            done is Ok ==> exists|before: QmdbStore<A, S, C>, after: QmdbStore<A, S, C>|
                #![trigger committed(before.contents(), changes@, after.contents())]
                committed(before.contents(), changes@, after.contents()),
            done matches Err(e) ==> e is LockPoisoned || (e matches HandleError::Store(s)
                && s is Storage),
    {
        let mut guard = match self.write() {
            Ok(guard) => guard,
            Err(e) => {
                return Err(e);
            },
        };
        let store = guarded_mut(&mut guard);
        let ghost before = *store;
        let ghost asked = changes@;
        match store.commit_changes(changes) {
            Ok(()) => {
                assert(committed(before.contents(), asked, store.contents()));
                Ok(())
            },
            Err(e) => Err(HandleError::Store(e)),
        }
    }

    /// Commits what execution reports of the accounts, the updates of the
    /// touched ones: where it succeeds, the store that the lock guards went
    /// from what it was to what committing those updates leaves. Fails
    /// where the lock is poisoned or the store fails.
    pub fn commit_accounts(&self, accounts: Vec<(Address, TouchedAccount)>) -> (done: Result<
        (),
        HandleError,
    >)
        ensures
            done is Ok ==> exists|before: QmdbStore<A, S, C>, after: QmdbStore<A, S, C>|
                #![trigger committed(before.contents(), changes_of(accounts@), after.contents())]
                committed(before.contents(), changes_of(accounts@), after.contents()),
            done matches Err(e) ==> e is LockPoisoned || (e matches HandleError::Store(s)
                && s is Storage),
    {
        let changes = changes_from_accounts(accounts);
        self.commit(changes)
    }

    /// Commits the change set that creates each account of `allocs` with its
    /// balance, a nonce of zero and no code: where it succeeds, the store
    /// that the lock guards went from what it was to what committing that
    /// change set leaves. Fails where the lock is poisoned or the store
    /// fails.
    pub fn init_genesis(&self, allocs: Vec<(Address, U256)>) -> (done: Result<(), HandleError>)
        ensures
            done is Ok ==> exists|before: QmdbStore<A, S, C>, after: QmdbStore<A, S, C>|
                #![trigger committed(before.contents(), genesis_changes_of(allocs@), after.contents())]
                committed(before.contents(), genesis_changes_of(allocs@), after.contents()),
            done matches Err(e) ==> e is LockPoisoned || (e matches HandleError::Store(s)
                && s is Storage),
    {
        let changes = genesis_changes(&allocs);
        self.commit(changes)
    }
}

impl<A, S, C> StateDbRead for QmdbHandle<A, S, C> where
    A: QmdbGettable<Key = Address, Value = [u8; 80]> + Send + Sync + 'static,
    S: QmdbGettable<Key = StorageKey, Value = U256> + Send + Sync + 'static,
    C: QmdbGettable<Key = B256, Value = Vec<u8>> + Send + Sync + 'static,
 {
    /// The lock is poisoned, or the result is what reading the nonce gives
    /// on a store: the one that the lock guards at that moment.
    open spec fn admits_nonce(&self, address: Address, r: Result<u64, StateDbError>) -> bool {
        r == Err::<u64, StateDbError>(StateDbError::LockPoisoned) || exists|
            store: QmdbStore<A, S, C>,
        |
            #![trigger nonce_of(store, address)]
            read_gives(r, nonce_of(store, address))
    }

    /// The lock is poisoned, or the result is what reading the balance gives
    /// on a store: the one that the lock guards at that moment.
    open spec fn admits_balance(&self, address: Address, r: Result<U256, StateDbError>) -> bool {
        r == Err::<U256, StateDbError>(StateDbError::LockPoisoned) || exists|
            store: QmdbStore<A, S, C>,
        |
            #![trigger balance_of(store, address)]
            read_gives(r, balance_of(store, address))
    }

    /// The lock is poisoned, or the result is what reading the code hash
    /// gives on a store: the one that the lock guards at that moment.
    open spec fn admits_code_hash(&self, address: Address, r: Result<B256, StateDbError>) -> bool {
        r == Err::<B256, StateDbError>(StateDbError::LockPoisoned) || exists|
            store: QmdbStore<A, S, C>,
        |
            #![trigger code_hash_of(store, address)]
            read_gives(r, code_hash_of(store, address))
    }

    /// No bytes for a hash that stands for no code. Else the lock is
    /// poisoned, or the result is what reading the code gives on a store:
    /// the one that the lock guards at that moment.
    open spec fn admits_code(&self, code_hash: B256, r: Result<Vec<u8>, StateDbError>) -> bool {
        if no_code(code_hash) {
            r is Ok && r->Ok_0@.len() == 0
        } else {
            r == Err::<Vec<u8>, StateDbError>(StateDbError::LockPoisoned) || exists|
                store: QmdbStore<A, S, C>,
            |
                #![trigger code_of(store, code_hash)]
                read_gives(r, code_of(store, code_hash))
        }
    }

    /// The lock is poisoned, or the result is what reading the slot gives on
    /// a store: the one that the lock guards at that moment.
    open spec fn admits_storage(&self, address: Address, slot: U256, r: Result<U256, StateDbError>) -> bool {
        r == Err::<U256, StateDbError>(StateDbError::LockPoisoned) || exists|
            store: QmdbStore<A, S, C>,
        |
            #![trigger slot_of(store, address, slot)]
            read_gives(r, Ok(slot_of(store, address, slot)))
    }

    fn nonce(&self, address: &Address) -> (r: Result<u64, StateDbError>) {
        match lock_read(&self.inner) {
            Some(guard) => {
                let store = guarded(&guard);
                let r = store.nonce(address);
                assert(read_gives(r, nonce_of(*store, *address)));
                r
            },
            None => Err(StateDbError::LockPoisoned),
        }
    }

    fn balance(&self, address: &Address) -> (r: Result<U256, StateDbError>) {
        match lock_read(&self.inner) {
            Some(guard) => {
                let store = guarded(&guard);
                let r = store.balance(address);
                assert(read_gives(r, balance_of(*store, *address)));
                r
            },
            None => Err(StateDbError::LockPoisoned),
        }
    }

    fn code_hash(&self, address: &Address) -> (r: Result<B256, StateDbError>) {
        match lock_read(&self.inner) {
            Some(guard) => {
                let store = guarded(&guard);
                let r = store.code_hash(address);
                assert(read_gives(r, code_hash_of(*store, *address)));
                r
            },
            None => Err(StateDbError::LockPoisoned),
        }
    }

    fn code(&self, code_hash: &B256) -> (r: Result<Vec<u8>, StateDbError>) {
        if *code_hash == B256::keccak_empty() || code_hash.is_zero() {
            return Ok(Vec::new());
        }
        match lock_read(&self.inner) {
            Some(guard) => {
                let store = guarded(&guard);
                let r = store.code_by_hash(code_hash);
                assert(read_gives(r, code_of(*store, *code_hash)));
                r
            },
            None => Err(StateDbError::LockPoisoned),
        }
    }

    fn storage(&self, address: &Address, slot: &U256) -> (r: Result<U256, StateDbError>) {
        match lock_read(&self.inner) {
            Some(guard) => {
                let store = guarded(&guard);
                let r = store.storage_at(address, slot);
                assert(read_gives(r, Ok(slot_of(*store, *address, *slot))));
                r
            },
            None => Err(StateDbError::LockPoisoned),
        }
    }
}

/// The state root of a store whose partitions hold `contents`.
pub open spec fn contents_root<A, S, C>(contents: StoreContents) -> B256 where
    A: RootProvider<Key = Address, Value = [u8; 80]>,
    S: RootProvider<Key = StorageKey, Value = U256>,
    C: RootProvider<Key = B256, Value = Vec<u8>>,
 {
    store_root::<A, S, C>(contents.accounts, contents.storage, contents.code)
}

impl<A, S, C> StateDbWrite for QmdbHandle<A, S, C> where
    A: RootProvider<Key = Address, Value = [u8; 80]> + Send + Sync + 'static,
    S: RootProvider<Key = StorageKey, Value = U256> + Send + Sync + 'static,
    C: RootProvider<Key = B256, Value = Vec<u8>> + Send + Sync + 'static,
 {
    /// A root is the state root of a store that `changes` were committed
    /// to: the one that the lock guards, as the commit left it. A failure is
    /// that of the lock, of a partition that refuses the commit, or of a
    /// partition that cannot give its root after it.
    open spec fn admits_commit(&self, changes: ChangeSetView, r: Result<B256, StateDbError>) -> bool {
        match r {
            Ok(root) => exists|before: QmdbStore<A, S, C>, after: QmdbStore<A, S, C>|
                #![trigger committed(before.contents(), changes, after.contents())]
                committed(before.contents(), changes, after.contents()) && root
                    == contents_root::<A, S, C>(after.contents()),
            Err(e) => e is LockPoisoned || e is Storage || e is RootComputation,
        }
    }

    /// A root is the state root of contents that hold, byte for byte, what
    /// committing `changes` would leave of a store: the one that the lock
    /// guards at that moment. A failure is that of the lock or of the
    /// computation.
    open spec fn admits_compute_root(&self, changes: ChangeSetView, r: Result<B256, StateDbError>) -> bool {
        match r {
            Ok(root) => exists|store: QmdbStore<A, S, C>, after: StoreContents|
                #![trigger committed(store.contents(), changes, after)]
                committed(store.contents(), changes, after) && bytes_of(after) == commit_of(
                    store.contents(),
                    changes,
                ) && root == contents_root::<A, S, C>(after),
            Err(e) => e is LockPoisoned || e is RootComputation,
        }
    }

    fn commit(&self, changes: ChangeSet) -> (r: Result<B256, StateDbError>) {
        let mut guard = match lock_write(&self.inner) {
            Some(guard) => guard,
            None => {
                return Err(StateDbError::LockPoisoned);
            },
        };
        let store = guarded_mut(&mut guard);
        let ghost before = *store;
        let ghost asked = changes@;
        match store.commit_changes(changes) {
            Ok(()) => {},
            Err(e) => {
                return Err(StateDbError::Storage(e.message()));
            },
        }
        match store.state_root() {
            Ok(root) => {
                assert(committed(before.contents(), asked, store.contents()) && root
                    == contents_root::<A, S, C>(store.contents()));
                Ok(root)
            },
            Err(e) => Err(StateDbError::RootComputation(e.message())),
        }
    }

    fn compute_root(&self, changes: &ChangeSet) -> (r: Result<B256, StateDbError>) {
        match lock_read(&self.inner) {
            Some(guard) => {
                let store = guarded(&guard);
                match store.compute_root(changes) {
                    Ok(root) => {
                        proof {
                            let after = choose|after: StoreContents|
                                #![trigger committed(store.contents(), changes@, after)]
                                committed(store.contents(), changes@, after) && bytes_of(after)
                                    == commit_of(store.contents(), changes@) && root
                                    == store_root::<A, S, C>(
                                    after.accounts,
                                    after.storage,
                                    after.code,
                                );
                            assert(committed(store.contents(), changes@, after) && bytes_of(after)
                                == commit_of(store.contents(), changes@) && root
                                == contents_root::<A, S, C>(after));
                        }
                        Ok(root)
                    },
                    Err(e) => Err(StateDbError::RootComputation(e.message())),
                }
            },
            None => Err(StateDbError::LockPoisoned),
        }
    }

    fn merge_changes(&self, older: ChangeSet, newer: ChangeSet) -> (merged: ChangeSet) {
        let mut merged = older;
        merged.merge(newer);
        merged
    }
}

impl<A, S, C> StateDb for QmdbHandle<A, S, C> where
    A: RootProvider<Key = Address, Value = [u8; 80]> + Send + Sync + 'static,
    S: RootProvider<Key = StorageKey, Value = U256> + Send + Sync + 'static,
    C: RootProvider<Key = B256, Value = Vec<u8>> + Send + Sync + 'static,
 {
    /// A root is the state root of a store: the one that the lock guards at
    /// that moment. A failure is that of the lock or of a partition that
    /// cannot give its root.
    open spec fn admits_state_root(&self, r: Result<B256, StateDbError>) -> bool {
        match r {
            Ok(root) => exists|store: QmdbStore<A, S, C>|
                root == contents_root::<A, S, C>(#[trigger] store.contents()),
            Err(e) => e is LockPoisoned || e is RootComputation,
        }
    }

    fn state_root(&self) -> (r: Result<B256, StateDbError>) {
        match lock_read(&self.inner) {
            Some(guard) => {
                let store = guarded(&guard);
                match store.state_root() {
                    Ok(root) => {
                        assert(root == contents_root::<A, S, C>(store.contents()));
                        Ok(root)
                    },
                    Err(e) => Err(StateDbError::RootComputation(e.message())),
                }
            },
            None => Err(StateDbError::LockPoisoned),
        }
    }
}

} // verus!
