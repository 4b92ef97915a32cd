//! The interface between the ledger and whoever reads or commits state:
//! account, storage and code lookups, commits of change sets, and the state
//! root.

use crate::change_set::{merge_changes, ChangeSet, ChangeSetView};
use crate::primitives::{address_bytes, Address, B256, U256};
use crate::text::{append, checksum_text, word_text_of};
use vstd::prelude::*;

verus! {

/// Why a state database operation failed.
#[derive(Debug, PartialEq, Eq)]
pub enum StateDbError {
    /// No account is recorded at the address.
    AccountNotFound(Address),
    /// No code is recorded under the hash.
    CodeNotFound(B256),
    /// The underlying store failed.
    Storage(String),
    /// A holder of the store's lock failed while holding it.
    LockPoisoned,
    /// The state root could not be computed.
    RootComputation(String),
}

impl StateDbError {
    /// The failure in words.
    pub open spec fn text_of(self) -> Seq<char> {
        match self {
            StateDbError::AccountNotFound(address) => "account not found: "@ + checksum_text(
                address_bytes(address@),
            ),
            StateDbError::CodeNotFound(hash) => "code not found: "@ + word_text_of(hash),
            StateDbError::Storage(detail) => "storage error: "@ + detail@,
            StateDbError::LockPoisoned => "lock poisoned"@,
            StateDbError::RootComputation(detail) => "root computation failed: "@ + detail@,
        }
    }

    /// The failure in words.
    pub fn message(&self) -> (text: String)
        ensures
            text@ == self.text_of(),
    {
        match self {
            StateDbError::AccountNotFound(address) => {
                let mut text = "account not found: ".to_owned();
                let shown = address.to_text();
                append(&mut text, shown.as_str());
                text
            },
            StateDbError::CodeNotFound(hash) => {
                let mut text = "code not found: ".to_owned();
                let shown = hash.to_text();
                append(&mut text, shown.as_str());
                text
            },
            StateDbError::Storage(detail) => {
                let mut text = "storage error: ".to_owned();
                append(&mut text, detail.as_str());
                text
            },
            StateDbError::LockPoisoned => "lock poisoned".to_owned(),
            StateDbError::RootComputation(detail) => {
                let mut text = "root computation failed: ".to_owned();
                append(&mut text, detail.as_str());
                text
            },
        }
    }
}

/// Whether an account with this nonce and balance counts as existing: its
/// nonce is positive or its balance is not zero.
pub open spec fn is_live(nonce: u64, balance: U256) -> bool {
    nonce > 0 || balance@ != (0u128, 0u128)
}

/// What the existence check answers when the nonce lookup gave `nonce` and the
/// balance lookup, made only for a nonce of zero, gave `balance`.
pub open spec fn exists_outcome(
    nonce: Result<u64, StateDbError>,
    balance: Result<U256, StateDbError>,
) -> Result<bool, StateDbError> {
    match nonce {
        Ok(n) => if n > 0 {
            Ok(true)
        } else {
            match balance {
                Ok(b) => Ok(is_live(n, b)),
                Err(e) => Err(e),
            }
        },
        Err(StateDbError::AccountNotFound(_)) => Ok(false),
        Err(e) => Err(e),
    }
}

/// Read-only access to the state. Each lookup comes with a predicate that
/// says which results the lookup may give; an implementation defines the
/// predicate and its lookup keeps to it.
pub trait StateDbRead: Clone + Send + Sync + 'static {
    /// Whether `r` is a result that `nonce` may give for `address`.
    spec fn admits_nonce(&self, address: Address, r: Result<u64, StateDbError>) -> bool;

    /// Whether `r` is a result that `balance` may give for `address`.
    spec fn admits_balance(&self, address: Address, r: Result<U256, StateDbError>) -> bool;

    /// Whether `r` is a result that `code_hash` may give for `address`.
    spec fn admits_code_hash(&self, address: Address, r: Result<B256, StateDbError>) -> bool;

    /// Whether `r` is a result that `code` may give for `code_hash`.
    spec fn admits_code(&self, code_hash: B256, r: Result<Vec<u8>, StateDbError>) -> bool;

    /// Whether `r` is a result that `storage` may give for `slot` of `address`.
    spec fn admits_storage(&self, address: Address, slot: U256, r: Result<U256, StateDbError>) -> bool;

    /// The nonce of the account at `address`.
    fn nonce(&self, address: &Address) -> (r: Result<u64, StateDbError>)
        ensures
            self.admits_nonce(*address, r),
    ;

    /// The balance of the account at `address`.
    fn balance(&self, address: &Address) -> (r: Result<U256, StateDbError>)
        ensures
            self.admits_balance(*address, r),
    ;

    /// The code hash of the account at `address`.
    fn code_hash(&self, address: &Address) -> (r: Result<B256, StateDbError>)
        ensures
            self.admits_code_hash(*address, r),
    ;

    /// The code recorded under `code_hash`.
    fn code(&self, code_hash: &B256) -> (r: Result<Vec<u8>, StateDbError>)
        ensures
            self.admits_code(*code_hash, r),
    ;

    /// The value of storage slot `slot` of the account at `address`.
    fn storage(&self, address: &Address, slot: &U256) -> (r: Result<U256, StateDbError>)
        ensures
            self.admits_storage(*address, *slot, r),
    ;

    /// Whether an account exists at `address`: its nonce is positive or its
    /// balance is not zero. An account that is not found does not exist; any
    /// other failure of a lookup is handed on.
    fn account_exists(&self, address: &Address) -> (r: Result<bool, StateDbError>)
        ensures
            exists|n: Result<u64, StateDbError>, b: Result<U256, StateDbError>|
                self.admits_nonce(*address, n) && (n == Ok::<u64, StateDbError>(0u64)
                    ==> self.admits_balance(*address, b)) && r == exists_outcome(n, b),
    {
        let n = self.nonce(address);
        match n {
            Ok(nonce) => {
                if nonce > 0 {
                    let ghost b: Result<U256, StateDbError> = Ok(U256 { hi: 0, lo: 0 });
                    assert(Ok::<bool, StateDbError>(true) == exists_outcome(Ok(nonce), b));
                    Ok(true)
                } else {
                    let b = self.balance(address);
                    match b {
                        Ok(balance) => {
                            let r = Ok(!balance.is_zero());
                            assert(r == exists_outcome(Ok(nonce), Ok(balance)));
                            r
                        },
                        Err(e) => {
                            assert(Err::<bool, StateDbError>(e) == exists_outcome(Ok(nonce), Err(e)));
                            Err(e)
                        },
                    }
                }
            },
            Err(StateDbError::AccountNotFound(a)) => {
                let ghost b: Result<U256, StateDbError> = Ok(U256 { hi: 0, lo: 0 });
                assert(Ok::<bool, StateDbError>(false) == exists_outcome(
                    Err(StateDbError::AccountNotFound(a)),
                    b,
                ));
                Ok(false)
            },
            Err(e) => {
                let ghost b: Result<U256, StateDbError> = Ok(U256 { hi: 0, lo: 0 });
                assert(Err::<bool, StateDbError>(e) == exists_outcome(Err(e), b));
                Err(e)
            },
        }
    }
}

/// Write access to the state through change sets.
pub trait StateDbWrite: Clone + Send + Sync + 'static {
    /// Whether `r` is a result that `commit` may give for `changes`.
    spec fn admits_commit(&self, changes: ChangeSetView, r: Result<B256, StateDbError>) -> bool;

    /// Whether `r` is a result that `compute_root` may give for `changes`.
    spec fn admits_compute_root(&self, changes: ChangeSetView, r: Result<B256, StateDbError>) -> bool;

    /// Commits `changes` atomically and returns the state root after them.
    fn commit(&self, changes: ChangeSet) -> (r: Result<B256, StateDbError>)
        ensures
            self.admits_commit(changes@, r),
    ;

    /// The state root that committing `changes` would give. Persists nothing.
    fn compute_root(&self, changes: &ChangeSet) -> (r: Result<B256, StateDbError>)
        ensures
            self.admits_compute_root(changes@, r),
    ;

    /// `older` followed by `newer`; `newer` overrides where they conflict.
    fn merge_changes(&self, older: ChangeSet, newer: ChangeSet) -> (merged: ChangeSet)
        ensures
            merged@ == merge_changes(older@, newer@),
    ;
}

/// The full interface: reads, writes and the current state root.
pub trait StateDb: StateDbRead + StateDbWrite {
    /// Whether `r` is a result that `state_root` may give.
    spec fn admits_state_root(&self, r: Result<B256, StateDbError>) -> bool;

    /// The current state root.
    fn state_root(&self) -> (r: Result<B256, StateDbError>)
        ensures
            self.admits_state_root(r),
    ;
}

} // verus!
