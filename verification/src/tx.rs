//! Transactions as they travel: raw bytes behind a length, and the
//! identifier that hashing gives them.

use crate::primitives::{word_of_bytes, B256};
use crate::root::{keccak256, keccak256_digest};
use commonware_codec::Error;
use commonware_codec::RangeCfg;
use commonware_codec::Read;
use vstd::prelude::*;

verus! {

/// The greatest number of bytes that an encoded transaction can announce.
pub const MAX_LENGTH: usize = 0xffff_ffff;

/// The limits that apply when a transaction is decoded.
#[derive(Clone, Copy, Debug, PartialEq, Eq, Structural)]
pub struct TxCfg {
    /// The greatest number of transaction bytes that is accepted.
    pub max_tx_bytes: usize,
}

/// Why bytes could not be decoded.
#[derive(Clone, Copy, Debug, PartialEq, Eq, Structural)]
pub enum CodecError {
    /// The bytes end before the value does.
    EndOfBuffer,
    /// The length is no 32-bit number in its one shortest form.
    InvalidVarint,
    /// The length is above the limit.
    InvalidLength(usize),
    /// Any other failure of the codec.
    Invalid,
}

/// The identifier of a transaction: the hash of its encoding.
#[derive(Clone, Copy, Debug, PartialEq, Eq, Structural, Hash, PartialOrd, Ord)]
pub struct TxId(pub B256);

/// The bytes of a number as a variable-length integer: seven bits to a
/// byte, the lowest first, each byte but the last with its high bit set.
pub open spec fn varint_of(n: nat) -> Seq<u8>
    decreases n,
{
    if n < 128 {
        seq![n as u8]
    } else {
        seq![(n % 128 + 128) as u8] + varint_of(n / 128)
    }
}

/// The encoding of transaction bytes: their number as a variable-length
/// integer, then the bytes.
pub open spec fn encoding_of(bytes: Seq<u8>) -> Seq<u8> {
    varint_of(bytes.len()) + bytes
}

/// What the codec reads at the start of `buf` as a byte string of at most
/// `max` bytes: the bytes and the number of bytes of `buf` that are left
/// behind them, or why it reads none.
pub uninterp spec fn codec_decoding(buf: Seq<u8>, max: usize) -> Result<(Seq<u8>, usize), CodecError>;

/// Whether `buf` starts with the encoding of some byte string of at most
/// `max` bytes whose number is a 32-bit number.
pub open spec fn starts_with_encoding(buf: Seq<u8>, max: usize) -> bool {
    exists|bytes: Seq<u8>|
        #![trigger encoding_of(bytes)]
        bytes.len() <= max && bytes.len() <= 0xffff_ffff && encoding_of(bytes).is_prefix_of(buf)
}

/// The byte string at the start of `buf` and the number of bytes of `buf`
/// that are left behind it, under the limit `max`.
///
/// Trusted: `read_cfg` of `Vec<u8>` in `commonware_codec`, which reads a
/// length as a variable-length integer of 32 bits in its one shortest form,
/// refuses one above the limit, and takes that many bytes. The contract
/// names what it gives, and says two things of it. What it read is the
/// encoding of the bytes it gives, which are no more than the limit and
/// than a 32-bit number; what is left is the rest of the buffer. And it
/// fails on no buffer that starts with the encoding of a byte string within
/// those limits.
#[verifier::external_body]
fn decode_bytes(buf: &[u8], max: usize) -> (read: Result<(Vec<u8>, usize), CodecError>)
    ensures
        match read {
            Ok((bytes, left)) => codec_decoding(buf@, max) == Ok::<(Seq<u8>, usize), CodecError>(
                (bytes@, left),
            ) && left <= buf@.len() && bytes@.len() <= max && bytes@.len() <= 0xffff_ffff
                && buf@.take(buf@.len() - left) == encoding_of(bytes@),
            Err(e) => codec_decoding(buf@, max) == Err::<(Seq<u8>, usize), CodecError>(e)
                && !starts_with_encoding(buf@, max),
        },
{
    let mut rest = buf;
    match Vec::<u8>::read_cfg(&mut rest, &(RangeCfg::new(0..=max), ())) {
        Ok(bytes) => Ok((bytes, rest.len())),
        Err(Error::EndOfBuffer) => Err(CodecError::EndOfBuffer),
        Err(Error::InvalidVarint(_)) => Err(CodecError::InvalidVarint),
        Err(Error::InvalidLength(length)) => Err(CodecError::InvalidLength(length)),
        Err(_) => Err(CodecError::Invalid),
    }
}

/// What decoding a transaction from the start of `buf` gives, under the
/// limit `max`: the transaction bytes and the number of bytes read, or why
/// there is none.
pub open spec fn decoding_of(buf: Seq<u8>, max: usize) -> Result<(Seq<u8>, int), CodecError> {
    match codec_decoding(buf, max) {
        Ok((bytes, left)) => Ok((bytes, buf.len() - left)),
        Err(e) => Err(e),
    }
}

/// No variable-length integer is the start of another: two byte strings
/// that are equal, each a variable-length integer and then a rest, hold the
/// same number and the same rest.
pub proof fn lemma_varint_is_prefix_free(m: nat, rest: Seq<u8>, n: nat, other: Seq<u8>)
    requires
        varint_of(m) + rest == varint_of(n) + other,
    ensures
        m == n,
        rest == other,
    decreases m,
{
    let whole = varint_of(m) + rest;
    assert(whole[0] == varint_of(m)[0]);
    assert(whole[0] == varint_of(n)[0]);
    if m < 128 {
        assert(varint_of(m)[0] == m as u8);
        if n >= 128 {
            assert(varint_of(n)[0] == (n % 128 + 128) as u8);
        }
        assert(n == m);
        assert(rest =~= whole.skip(1));
        assert(other =~= (varint_of(n) + other).skip(1));
    } else {
        assert(varint_of(m)[0] == (m % 128 + 128) as u8);
        if n < 128 {
            assert(varint_of(n)[0] == n as u8);
        }
        assert(n >= 128);
        assert(varint_of(n)[0] == (n % 128 + 128) as u8);
        assert(m % 128 == n % 128);
        assert(whole.skip(1) =~= varint_of(m / 128) + rest);
        assert((varint_of(n) + other).skip(1) =~= varint_of(n / 128) + other);
        lemma_varint_is_prefix_free(m / 128, rest, n / 128, other);
    }
}

/// A buffer starts with the encoding of one byte string at most.
pub proof fn lemma_encoding_is_prefix_free(one: Seq<u8>, other: Seq<u8>, buf: Seq<u8>)
    requires
        encoding_of(one).is_prefix_of(buf),
        encoding_of(other).is_prefix_of(buf),
    ensures
        one == other,
{
    let a = encoding_of(one);
    let b = encoding_of(other);
    assert(buf =~= a + buf.skip(a.len() as int));
    assert(buf =~= b + buf.skip(b.len() as int));
    assert(a + buf.skip(a.len() as int) =~= varint_of(one.len()) + (one + buf.skip(
        a.len() as int,
    )));
    assert(b + buf.skip(b.len() as int) =~= varint_of(other.len()) + (other + buf.skip(
        b.len() as int,
    )));
    lemma_varint_is_prefix_free(
        one.len(),
        one + buf.skip(a.len() as int),
        other.len(),
        other + buf.skip(b.len() as int),
    );
    assert(one =~= (one + buf.skip(a.len() as int)).take(one.len() as int));
    assert(other =~= (other + buf.skip(b.len() as int)).take(other.len() as int));
}

/// Appends the variable-length form of `n`.
fn write_varint(out: &mut Vec<u8>, n: u32)
    ensures
        final(out)@ == old(out)@ + varint_of(n as nat),
{
    let mut value = n;
    while value >= 128
        invariant
            out@ + varint_of(value as nat) == old(out)@ + varint_of(n as nat),
        decreases value,
    {
        let ghost before = out@;
        out.push((value % 128 + 128) as u8);
        proof {
            assert(out@ + varint_of((value / 128) as nat) =~= before + varint_of(value as nat));
        }
        value = value / 128;
    }
    let ghost before = out@;
    out.push(value as u8);
    assert(out@ =~= before + varint_of(value as nat));
}

/// A transaction: its raw bytes, as signed and encoded by its sender.
#[derive(Debug, PartialEq, Eq)]
pub struct Tx {
    /// The transaction bytes.
    pub bytes: Vec<u8>,
}

impl Clone for Tx {
    fn clone(&self) -> (copy: Self)
        ensures
            copy.bytes@ == self.bytes@,
    {
        Tx { bytes: self.bytes.clone() }
    }
}

impl Tx {
    /// The transaction with the given bytes.
    pub fn new(bytes: Vec<u8>) -> (tx: Self)
        ensures
            tx.bytes == bytes,
    {
        Tx { bytes }
    }

    /// Appends the encoding of the transaction to `out`.
    pub fn write(&self, out: &mut Vec<u8>)
        requires
            self.bytes@.len() <= 0xffff_ffff,
        ensures
            final(out)@ == old(out)@ + encoding_of(self.bytes@),
    {
        write_varint(out, self.bytes.len() as u32);
        let ghost headed = out@;
        let mut i: usize = 0;
        while i < self.bytes.len()
            invariant
                i <= self.bytes@.len(),
                out@ == headed + self.bytes@.take(i as int),
            decreases self.bytes@.len() - i,
        {
            out.push(self.bytes[i]);
            assert(out@ =~= headed + self.bytes@.take(i + 1));
            i = i + 1;
        }
        assert(self.bytes@.take(self.bytes@.len() as int) =~= self.bytes@);
        assert(out@ =~= old(out)@ + encoding_of(self.bytes@));
    }

    /// The encoding of the transaction.
    pub fn encode(&self) -> (encoded: Vec<u8>)
        requires
            self.bytes@.len() <= 0xffff_ffff,
        ensures
            encoded@ == encoding_of(self.bytes@),
    {
        let mut encoded: Vec<u8> = Vec::new();
        self.write(&mut encoded);
        assert(encoded@ =~= encoding_of(self.bytes@));
        encoded
    }

    /// The number of bytes of the encoding of the transaction.
    pub fn encode_size(&self) -> (size: usize)
        requires
            self.bytes@.len() <= 0xffff_ffff,
        ensures
            size == encoding_of(self.bytes@).len(),
    {
        let encoded = self.encode();
        encoded.len()
    }

    /// The transaction with the bytes that the codec read from a buffer of
    /// `total` bytes, and the number of bytes that reading them took, where
    /// `left` bytes of the buffer are left behind them.
    pub fn from_decoded(bytes: Vec<u8>, total: usize, left: usize) -> (decoded: (Tx, usize))
        requires
            left <= total,
        ensures
            decoded.0.bytes == bytes,
            decoded.1 == total - left,
    {
        (Tx { bytes }, total - left)
    }

    /// The transaction at the start of `buf` and the number of bytes that
    /// its encoding takes, under the limits of `cfg`, as the codec reads
    /// them. A buffer that starts with the encoding of transaction bytes
    /// within the limits gives those bytes and the length of that encoding;
    /// any other buffer gives the codec's failure.
    pub fn read(buf: &[u8], cfg: &TxCfg) -> (decoded: Result<(Tx, usize), CodecError>)
        ensures
            match decoding_of(buf@, cfg.max_tx_bytes) {
                Ok((bytes, used)) => decoded matches Ok((tx, n)) && tx.bytes@ == bytes && n == used,
                Err(e) => decoded == Err::<(Tx, usize), CodecError>(e),
            },
            decoded is Ok == starts_with_encoding(buf@, cfg.max_tx_bytes),
            forall|bytes: Seq<u8>|
                #![trigger encoding_of(bytes)]
                bytes.len() <= cfg.max_tx_bytes && bytes.len() <= 0xffff_ffff && encoding_of(
                    bytes,
                ).is_prefix_of(buf@) ==> decoded is Ok && decoded->Ok_0.0.bytes@ == bytes
                    && decoded->Ok_0.1 == encoding_of(bytes).len(),
    {
        match decode_bytes(buf, cfg.max_tx_bytes) {
            Ok((bytes, left)) => {
                proof {
                    let used = buf@.len() - left;
                    assert(encoding_of(bytes@).is_prefix_of(buf@));
                    assert(starts_with_encoding(buf@, cfg.max_tx_bytes));
                    assert(encoding_of(bytes@).len() == used);
                    assert forall|other: Seq<u8>|
                        #![trigger encoding_of(other)]
                        encoding_of(other).is_prefix_of(buf@) implies other == bytes@ by {
                        lemma_encoding_is_prefix_free(other, bytes@, buf@);
                    }
                }
                Ok(Tx::from_decoded(bytes, buf.len(), left))
            },
            Err(e) => Err(e),
        }
    }

    /// The identifier of the transaction: the hash of its encoding.
    pub fn id(&self) -> (id: TxId)
        requires
            self.bytes@.len() <= 0xffff_ffff,
        ensures
            id.0@ == word_of_bytes(keccak256_digest(encoding_of(self.bytes@))),
    {
        let encoded = self.encode();
        let digest = keccak256(encoded.as_slice());
        TxId(B256::from_bytes(digest.as_slice()))
    }
}

} // verus!
