//! The block that consensus orders: an Ethereum header, the encoded
//! transactions and the state root.

use crate::primitives::{word_of_bytes, B256};
use crate::root::{keccak256, keccak256_digest};
use alloy_consensus::Header;
use vstd::prelude::*;

verus! {

/// An Ethereum block header.
#[verifier::external_type_specification]
#[verifier::external_body]
pub struct ExHeader(Header);

/// The header of which every field has its default.
///
/// Trusted: `Default` of `alloy_consensus::Header`. The header is opaque, so
/// nothing is stated of it.
#[verifier::external_body]
fn default_header() -> (header: Header) {
    Header::default()
}

/// A copy of the header.
///
/// Trusted: `Clone` of `alloy_consensus::Header`, which is derived and
/// copies every field.
#[verifier::external_body]
fn copy_of(header: &Header) -> (copy: Header)
    ensures
        copy == *header,
{
    header.clone()
}

/// The 32 bytes of the parent hash that a header names.
pub uninterp spec fn header_parent(header: Header) -> Seq<u8>;

/// The bytes of the parent hash that the header names.
///
/// Trusted: reads the field `parent_hash` of `alloy_consensus::Header`, a
/// word of 32 bytes; the contract names them.
#[verifier::external_body]
fn parent_hash_of(header: &Header) -> (hash: [u8; 32])
    ensures
        hash@ == header_parent(*header),
{
    header.parent_hash.0
}

/// The block number that a header holds.
pub uninterp spec fn header_number(header: Header) -> u64;

/// The number of the block.
///
/// Trusted: reads the field `number` of `alloy_consensus::Header`; the
/// contract names it.
#[verifier::external_body]
fn number_of(header: &Header) -> (number: u64)
    ensures
        number == header_number(*header),
{
    header.number
}

/// The timestamp that a header holds.
pub uninterp spec fn header_timestamp(header: Header) -> u64;

/// The timestamp of the block.
///
/// Trusted: reads the field `timestamp` of `alloy_consensus::Header`; the
/// contract names it.
#[verifier::external_body]
fn timestamp_of(header: &Header) -> (timestamp: u64)
    ensures
        timestamp == header_timestamp(*header),
{
    header.timestamp
}

/// The RLP encoding of a header.
pub uninterp spec fn header_rlp(header: Header) -> Seq<u8>;

/// The RLP encoding of the header.
///
/// Trusted: `Encodable::encode` of `alloy_consensus::Header`, which appends
/// the encoding of the header's fields to the buffer it is given, here an
/// empty one. The encoding is a matter of the header alone; the contract
/// names it.
#[verifier::external_body]
fn rlp_of(header: &Header) -> (encoded: Vec<u8>)
    ensures
        encoded@ == header_rlp(*header),
{
    let mut encoded = Vec::new();
    alloy_rlp::Encodable::encode(header, &mut encoded);
    encoded
}

/// The hash of a block whose header has the given RLP encoding: the
/// Keccak-256 hash of the encoding.
pub fn hash_of_encoding(encoded: &[u8]) -> (hash: B256)
    ensures
        hash@ == word_of_bytes(keccak256_digest(encoded@)),
{
    let digest = keccak256(encoded);
    B256::from_bytes(digest.as_slice())
}

/// A block as consensus orders it.
#[derive(Debug)]
pub struct KoraBlock {
    /// The block header.
    pub header: Header,
    /// The transactions of the block, encoded.
    pub transactions: Vec<Vec<u8>>,
    /// The state root after the block.
    pub state_root: B256,
}

/// The bytes of each transaction of `list`.
pub open spec fn transaction_bytes(list: Seq<Vec<u8>>) -> Seq<Seq<u8>> {
    Seq::new(list.len(), |i: int| list[i]@)
}

impl Clone for KoraBlock {
    fn clone(&self) -> (copy: Self)
        ensures
            copy.header == self.header,
            transaction_bytes(copy.transactions@) == transaction_bytes(self.transactions@),
            copy.state_root == self.state_root,
    {
        let mut transactions: Vec<Vec<u8>> = Vec::new();
        let mut i: usize = 0;
        while i < self.transactions.len()
            invariant
                i <= self.transactions@.len(),
                transactions@.len() == i,
                forall|j: int|
                    0 <= j < i ==> (#[trigger] transactions@[j])@ == self.transactions@[j]@,
            decreases self.transactions@.len() - i,
        {
            let bytes = self.transactions[i].clone();
            transactions.push(bytes);
            i = i + 1;
        }
        assert(transaction_bytes(transactions@) =~= transaction_bytes(self.transactions@));
        KoraBlock { header: copy_of(&self.header), transactions, state_root: self.state_root }
    }
}

impl KoraBlock {
    /// The block with the given header, transactions and state root.
    pub fn new(header: Header, transactions: Vec<Vec<u8>>, state_root: B256) -> (block: Self)
        ensures
            block.header == header,
            block.transactions == transactions,
            block.state_root == state_root,
    {
        KoraBlock { header, transactions, state_root }
    }

    /// The hash of the block: the hash of the RLP encoding of its header.
    pub fn hash(&self) -> (hash: B256)
        ensures
            hash@ == word_of_bytes(keccak256_digest(header_rlp(self.header))),
    {
        let encoded = rlp_of(&self.header);
        hash_of_encoding(encoded.as_slice())
    }

    /// The hash of the parent block, as the header names it.
    pub fn parent_hash(&self) -> (hash: B256)
        ensures
            hash@ == word_of_bytes(header_parent(self.header)),
    {
        let bytes = parent_hash_of(&self.header);
        B256::from_bytes(bytes.as_slice())
    }

    /// The height of the block: the number in its header.
    pub fn height(&self) -> (height: u64)
        ensures
            height == header_number(self.header),
    {
        number_of(&self.header)
    }

    /// The timestamp in the header of the block.
    pub fn timestamp(&self) -> (timestamp: u64)
        ensures
            timestamp == header_timestamp(self.header),
    {
        timestamp_of(&self.header)
    }

    /// The number of transactions of the block.
    pub fn tx_count(&self) -> (count: usize)
        ensures
            count == self.transactions@.len(),
    {
        self.transactions.len()
    }
}

impl Default for KoraBlock {
    fn default() -> (block: Self)
        ensures
            block.transactions@.len() == 0,
            block.state_root@ == (0u128, 0u128),
    {
        KoraBlock { header: default_header(), transactions: Vec::new(), state_root: B256::zero() }
    }
}

} // verus!
