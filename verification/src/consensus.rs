//! What consensus hands around: the outcome of executing a block, and the
//! failures of consensus operations.

use crate::change_set::{AccountUpdateView, ChangeSet};
use crate::primitives::{AddressKey, B256};
use crate::state_db::StateDbError;
use crate::text::{append, word_text_of};
use vstd::prelude::*;

verus! {

/// The result of executing the transactions of a block.
#[derive(Debug)]
pub struct ExecutionOutcome {
    /// The state changes to be persisted.
    pub changes: ChangeSet,
    /// The state root after execution.
    pub state_root: B256,
    /// The gas that execution used.
    pub gas_used: u64,
}

impl Clone for ExecutionOutcome {
    fn clone(&self) -> (copy: Self)
        ensures
            copy.changes@ == self.changes@,
            copy.state_root == self.state_root,
            copy.gas_used == self.gas_used,
    {
        ExecutionOutcome {
            changes: self.changes.clone(),
            state_root: self.state_root,
            gas_used: self.gas_used,
        }
    }
}

impl ExecutionOutcome {
    /// The outcome with the given changes, root and gas.
    pub fn new(changes: ChangeSet, state_root: B256, gas_used: u64) -> (outcome: Self)
        ensures
            outcome.changes == changes,
            outcome.state_root == state_root,
            outcome.gas_used == gas_used,
    {
        ExecutionOutcome { changes, state_root, gas_used }
    }
}

impl Default for ExecutionOutcome {
    fn default() -> (outcome: Self)
        ensures
            outcome.changes@ == Map::<AddressKey, AccountUpdateView>::empty(),
            outcome.state_root@ == (0u128, 0u128),
            outcome.gas_used == 0,
    {
        ExecutionOutcome { changes: ChangeSet::new(), state_root: B256::zero(), gas_used: 0 }
    }
}

/// Why a consensus operation failed.
#[derive(Debug, PartialEq, Eq)]
pub enum ConsensusError {
    /// The parent block is not known.
    ParentNotFound(B256),
    /// No snapshot is recorded for the digest.
    SnapshotNotFound(B256),
    /// Execution failed.
    Execution(String),
    /// The state database failed.
    StateDb(StateDbError),
    /// The block is not valid.
    Validation(String),
    /// The state root of the block is not the computed one.
    StateRootMismatch { expected: B256, actual: B256 },
}

impl ConsensusError {
    /// The failure in words.
    pub fn message(&self) -> (text: String)
        ensures
            match *self {
                ConsensusError::ParentNotFound(hash) => text@ == "parent not found: "@
                    + word_text_of(hash),
                ConsensusError::SnapshotNotFound(hash) => text@ == "snapshot not found: "@
                    + word_text_of(hash),
                ConsensusError::Execution(detail) => text@ == "execution failed: "@ + detail@,
                ConsensusError::StateDb(e) => text@ == "state db error: "@ + e.text_of(),
                ConsensusError::Validation(detail) => text@ == "validation failed: "@ + detail@,
                ConsensusError::StateRootMismatch { expected, actual } => text@
                    == "state root mismatch: expected "@ + word_text_of(expected) + ", got "@
                    + word_text_of(actual),
            },
    {
        match self {
            ConsensusError::ParentNotFound(hash) => {
                let mut text = "parent not found: ".to_owned();
                let shown = hash.to_text();
                append(&mut text, shown.as_str());
                text
            },
            ConsensusError::SnapshotNotFound(hash) => {
                let mut text = "snapshot not found: ".to_owned();
                let shown = hash.to_text();
                append(&mut text, shown.as_str());
                text
            },
            ConsensusError::Execution(detail) => {
                let mut text = "execution failed: ".to_owned();
                append(&mut text, detail.as_str());
                text
            },
            ConsensusError::StateDb(e) => {
                let mut text = "state db error: ".to_owned();
                let inner = e.message();
                append(&mut text, inner.as_str());
                text
            },
            ConsensusError::Validation(detail) => {
                let mut text = "validation failed: ".to_owned();
                append(&mut text, detail.as_str());
                text
            },
            ConsensusError::StateRootMismatch { expected, actual } => {
                let mut text = "state root mismatch: expected ".to_owned();
                let first = expected.to_text();
                append(&mut text, first.as_str());
                append(&mut text, ", got ");
                let second = actual.to_text();
                append(&mut text, second.as_str());
                text
            },
        }
    }
}

} // verus!
