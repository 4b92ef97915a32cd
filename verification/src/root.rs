//! State commitment: one root computed from the roots of the three
//! partitions.

use crate::primitives::{word_bytes, word_of_bytes, B256};
use vstd::prelude::*;

verus! {

/// The Keccak-256 hash of `data`, as 32 bytes.
pub uninterp spec fn keccak256_digest(data: Seq<u8>) -> Seq<u8>;

/// The Keccak-256 hash of `data`.
///
/// Trusted: `alloy_primitives::keccak256`, which hashes the bytes it is given
/// and depends on nothing else; the contract names its result.
#[verifier::external_body]
pub(crate) fn keccak256(data: &[u8]) -> (digest: [u8; 32])
    ensures
        digest@ == keccak256_digest(data@),
{
    alloy_primitives::keccak256(data).0
}

/// The tag that separates state roots from other hashes: the bytes of
/// `_MONMOUTH_QMDB_ROOT`.
pub open spec fn root_namespace() -> Seq<u8> {
    seq![
        0x5fu8, 0x4d, 0x4f, 0x4e, 0x4d, 0x4f, 0x55, 0x54, 0x48, 0x5f, 0x51, 0x4d, 0x44, 0x42, 0x5f,
        0x52, 0x4f, 0x4f, 0x54,
    ]
}

/// The bytes that are hashed for a state root: the tag, then the roots of the
/// accounts, storage and code partitions.
pub open spec fn root_preimage(accounts_root: B256, storage_root: B256, code_root: B256) -> Seq<u8> {
    root_namespace() + word_bytes(accounts_root@) + word_bytes(storage_root@) + word_bytes(
        code_root@,
    )
}

/// The state root of three partition roots.
pub open spec fn state_root_of(accounts_root: B256, storage_root: B256, code_root: B256) -> B256 {
    let word = word_of_bytes(keccak256_digest(root_preimage(accounts_root, storage_root, code_root)));
    B256 { hi: word.0, lo: word.1 }
}

/// The state root depends on the three partition roots alone: the same roots
/// give the same state root.
pub proof fn lemma_state_root_deterministic(
    accounts_a: B256,
    storage_a: B256,
    code_a: B256,
    accounts_b: B256,
    storage_b: B256,
    code_b: B256,
)
    requires
        accounts_a == accounts_b,
        storage_a == storage_b,
        code_a == code_b,
    ensures
        state_root_of(accounts_a, storage_a, code_a) == state_root_of(accounts_b, storage_b, code_b),
{
}

/// Computes state roots.
#[derive(Debug, Clone, Copy)]
pub struct StateRoot;

impl StateRoot {
    /// The state root of the three partition roots: the hash of the tag
    /// followed by the roots of accounts, storage and code.
    pub fn compute(accounts_root: B256, storage_root: B256, code_root: B256) -> (root: B256)
        ensures
            root == state_root_of(accounts_root, storage_root, code_root),
    {
        let mut buf: Vec<u8> = vec![
            0x5fu8, 0x4d, 0x4f, 0x4e, 0x4d, 0x4f, 0x55, 0x54, 0x48, 0x5f, 0x51, 0x4d, 0x44, 0x42,
            0x5f, 0x52, 0x4f, 0x4f, 0x54,
        ];
        assert(buf@ =~= root_namespace());
        let mut accounts = accounts_root.to_bytes();
        let mut storage = storage_root.to_bytes();
        let mut code = code_root.to_bytes();
        buf.append(&mut accounts);
        buf.append(&mut storage);
        buf.append(&mut code);
        assert(buf@ =~= root_preimage(accounts_root, storage_root, code_root));
        let digest = keccak256(buf.as_slice());
        B256::from_bytes(digest.as_slice())
    }
}

} // verus!
