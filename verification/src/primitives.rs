//! Fixed-width values of the ledger: addresses, 32-byte words and 256-bit
//! numbers, each held as big-endian machine words so that they can key
//! ordered maps.

use vstd::bytes::*;
use vstd::prelude::*;

verus! {

/// Key of an address in an ordered map: the high 32 bits, then the low 128 bits.
pub type AddressKey = (u32, u128);

/// Key of a 256-bit value in an ordered map: the high half, then the low half.
pub type WordKey = (u128, u128);

/// Big-endian bytes of a 32-bit number.
pub open spec fn be_u32(x: u32) -> Seq<u8> {
    spec_u32_to_le_bytes(x).reverse()
}

/// Big-endian bytes of a 64-bit number.
pub open spec fn be_u64(x: u64) -> Seq<u8> {
    spec_u64_to_le_bytes(x).reverse()
}

/// Big-endian bytes of a 128-bit number.
pub open spec fn be_u128(x: u128) -> Seq<u8> {
    spec_u128_to_le_bytes(x).reverse()
}

/// The 32-bit number that four big-endian bytes stand for.
pub open spec fn u32_of_be(b: Seq<u8>) -> u32 {
    spec_u32_from_le_bytes(b.reverse())
}

/// The 64-bit number that eight big-endian bytes stand for.
pub open spec fn u64_of_be(b: Seq<u8>) -> u64 {
    spec_u64_from_le_bytes(b.reverse())
}

/// The 128-bit number that sixteen big-endian bytes stand for.
pub open spec fn u128_of_be(b: Seq<u8>) -> u128 {
    spec_u128_from_le_bytes(b.reverse())
}

/// Reading back the big-endian bytes of a number gives the number.
pub proof fn lemma_be_roundtrip()
    ensures
        forall|x: u32| #![trigger be_u32(x)] be_u32(x).len() == 4 && u32_of_be(be_u32(x)) == x,
        forall|x: u64| #![trigger be_u64(x)] be_u64(x).len() == 8 && u64_of_be(be_u64(x)) == x,
        forall|x: u128|
            #![trigger be_u128(x)]
            be_u128(x).len() == 16 && u128_of_be(be_u128(x)) == x,
{
    lemma_auto_spec_u32_to_from_le_bytes();
    lemma_auto_spec_u64_to_from_le_bytes();
    lemma_auto_spec_u128_to_from_le_bytes();
    assert forall|x: u32| #![trigger be_u32(x)] be_u32(x).len() == 4 && u32_of_be(be_u32(x)) == x by {
        assert(spec_u32_to_le_bytes(x).reverse().reverse() =~= spec_u32_to_le_bytes(x));
    }
    assert forall|x: u64| #![trigger be_u64(x)] be_u64(x).len() == 8 && u64_of_be(be_u64(x)) == x by {
        assert(spec_u64_to_le_bytes(x).reverse().reverse() =~= spec_u64_to_le_bytes(x));
    }
    assert forall|x: u128|
        #![trigger be_u128(x)]
        be_u128(x).len() == 16 && u128_of_be(be_u128(x)) == x by {
        assert(spec_u128_to_le_bytes(x).reverse().reverse() =~= spec_u128_to_le_bytes(x));
    }
}

/// Appends `word` to `out`, last byte first.
fn append_reversed(out: &mut Vec<u8>, word: &Vec<u8>)
    ensures
        final(out)@ == old(out)@ + word@.reverse(),
{
    let ghost before = out@;
    let n = word.len();
    let mut i: usize = 0;
    while i < n
        invariant
            n == word@.len(),
            i <= n,
            out@.len() == before.len() + i,
            forall|j: int| 0 <= j < before.len() ==> out@[j] == before[j],
            forall|j: int|
                before.len() <= j < out@.len() ==> out@[j] == word@[n - 1 - (j - before.len())],
        decreases n - i,
    {
        out.push(word[n - 1 - i]);
        i = i + 1;
    }
    assert(out@ =~= before + word@.reverse());
}

/// The `n` bytes of `bytes` from `at` on, last byte first.
fn reversed_range(bytes: &[u8], at: usize, n: usize) -> (word: Vec<u8>)
    requires
        at + n <= bytes@.len(),
    ensures
        word@ == bytes@.subrange(at as int, at + n).reverse(),
{
    let mut word: Vec<u8> = Vec::new();
    let len = bytes.len();
    let mut i: usize = 0;
    while i < n
        invariant
            len == bytes@.len(),
            at + n <= bytes@.len(),
            i <= n,
            word@.len() == i,
            forall|j: int| 0 <= j < i ==> word@[j] == bytes@[at + n - 1 - j],
        decreases n - i,
    {
        word.push(bytes[at + (n - 1 - i)]);
        i = i + 1;
    }
    assert(word@ =~= bytes@.subrange(at as int, at + n).reverse());
    word
}

/// Appends the big-endian bytes of `x` to `out`.
pub fn append_be_u32(out: &mut Vec<u8>, x: u32)
    ensures
        final(out)@ == old(out)@ + be_u32(x),
{
    let le = u32_to_le_bytes(x);
    append_reversed(out, &le);
}

/// Appends the big-endian bytes of `x` to `out`.
pub fn append_be_u64(out: &mut Vec<u8>, x: u64)
    ensures
        final(out)@ == old(out)@ + be_u64(x),
{
    let le = u64_to_le_bytes(x);
    append_reversed(out, &le);
}

/// Appends the big-endian bytes of `x` to `out`.
pub fn append_be_u128(out: &mut Vec<u8>, x: u128)
    ensures
        final(out)@ == old(out)@ + be_u128(x),
{
    let le = u128_to_le_bytes(x);
    append_reversed(out, &le);
}

/// Reads the big-endian 32-bit number at `at`.
pub fn read_be_u32(bytes: &[u8], at: usize) -> (x: u32)
    requires
        at + 4 <= bytes@.len(),
    ensures
        x == u32_of_be(bytes@.subrange(at as int, at + 4)),
{
    let le = reversed_range(bytes, at, 4);
    u32_from_le_bytes(le.as_slice())
}

/// Reads the big-endian 64-bit number at `at`.
pub fn read_be_u64(bytes: &[u8], at: usize) -> (x: u64)
    requires
        at + 8 <= bytes@.len(),
    ensures
        x == u64_of_be(bytes@.subrange(at as int, at + 8)),
{
    let le = reversed_range(bytes, at, 8);
    u64_from_le_bytes(le.as_slice())
}

/// Reads the big-endian 128-bit number at `at`.
pub fn read_be_u128(bytes: &[u8], at: usize) -> (x: u128)
    requires
        at + 16 <= bytes@.len(),
    ensures
        x == u128_of_be(bytes@.subrange(at as int, at + 16)),
{
    let le = reversed_range(bytes, at, 16);
    u128_from_le_bytes(le.as_slice())
}

/// Big-endian bytes of a 256-bit value given by its two halves.
pub open spec fn word_bytes(key: WordKey) -> Seq<u8> {
    be_u128(key.0) + be_u128(key.1)
}

/// The 256-bit value that 32 big-endian bytes stand for.
pub open spec fn word_of_bytes(b: Seq<u8>) -> WordKey {
    (u128_of_be(b.subrange(0, 16)), u128_of_be(b.subrange(16, 32)))
}

/// Big-endian bytes of an address given by its two parts.
pub open spec fn address_bytes(key: AddressKey) -> Seq<u8> {
    be_u32(key.0) + be_u128(key.1)
}

/// The address that 20 big-endian bytes stand for.
pub open spec fn address_of_bytes(b: Seq<u8>) -> AddressKey {
    (u32_of_be(b.subrange(0, 4)), u128_of_be(b.subrange(4, 20)))
}

/// Reading back the bytes of a word or an address gives it back.
pub proof fn lemma_bytes_roundtrip()
    ensures
        forall|k: WordKey|
            #![trigger word_bytes(k)]
            word_bytes(k).len() == 32 && word_of_bytes(word_bytes(k)) == k,
        forall|k: AddressKey|
            #![trigger address_bytes(k)]
            address_bytes(k).len() == 20 && address_of_bytes(address_bytes(k)) == k,
{
    lemma_be_roundtrip();
    assert forall|k: WordKey|
        #![trigger word_bytes(k)]
        word_bytes(k).len() == 32 && word_of_bytes(word_bytes(k)) == k by {
        let b = word_bytes(k);
        assert(be_u128(k.0).len() == 16 && be_u128(k.1).len() == 16);
        assert(b.subrange(0, 16) =~= be_u128(k.0));
        assert(b.subrange(16, 32) =~= be_u128(k.1));
    }
    assert forall|k: AddressKey|
        #![trigger address_bytes(k)]
        address_bytes(k).len() == 20 && address_of_bytes(address_bytes(k)) == k by {
        let b = address_bytes(k);
        assert(be_u32(k.0).len() == 4 && be_u128(k.1).len() == 16);
        assert(b.subrange(0, 4) =~= be_u32(k.0));
        assert(b.subrange(4, 20) =~= be_u128(k.1));
    }
}

/// A 20-byte account address.
#[derive(Clone, Copy, Debug, PartialEq, Eq, Structural, Hash, PartialOrd, Ord)]
pub struct Address {
    /// The first four bytes, as a big-endian number.
    pub hi: u32,
    /// The last sixteen bytes, as a big-endian number.
    pub lo: u128,
}

impl View for Address {
    type V = AddressKey;

    open spec fn view(&self) -> AddressKey {
        (self.hi, self.lo)
    }
}

impl Address {
    /// The address whose bytes are all zero.
    pub fn zero() -> (a: Address)
        ensures
            a@ == (0u32, 0u128),
    {
        Address { hi: 0, lo: 0 }
    }

    /// The address whose twenty bytes all equal `byte`.
    pub fn repeat_byte(byte: u8) -> (a: Address)
        ensures
            a.hi == byte * 0x0101_0101,
            a.lo == byte * 0x0101_0101_0101_0101_0101_0101_0101_0101,
    {
        let b32: u32 = byte as u32;
        let b128: u128 = byte as u128;
        Address { hi: b32 * 0x0101_0101, lo: b128 * 0x0101_0101_0101_0101_0101_0101_0101_0101 }
    }

    /// The address whose last byte is `byte` and whose other bytes are zero.
    pub fn with_last_byte(byte: u8) -> (a: Address)
        ensures
            a@ == (0u32, byte as u128),
    {
        Address { hi: 0, lo: byte as u128 }
    }

    /// The key under which this address stands in an ordered map.
    pub fn key(&self) -> (k: AddressKey)
        ensures
            k == self@,
    {
        (self.hi, self.lo)
    }

    /// The address with the given key.
    pub fn from_key(key: AddressKey) -> (a: Address)
        ensures
            a@ == key,
    {
        Address { hi: key.0, lo: key.1 }
    }

    /// The twenty bytes of the address.
    pub fn to_bytes(&self) -> (b: Vec<u8>)
        ensures
            b@ == address_bytes(self@),
            b@.len() == 20,
    {
        let mut b: Vec<u8> = Vec::new();
        append_be_u32(&mut b, self.hi);
        append_be_u128(&mut b, self.lo);
        proof {
            lemma_bytes_roundtrip();
            assert(b@ =~= address_bytes(self@));
        }
        b
    }

    /// The address with the given twenty bytes.
    pub fn from_bytes(bytes: &[u8]) -> (a: Address)
        requires
            bytes@.len() == 20,
        ensures
            a@ == address_of_bytes(bytes@),
    {
        Address { hi: read_be_u32(bytes, 0), lo: read_be_u128(bytes, 4) }
    }
}

/// A 32-byte word, such as a hash.
#[derive(Clone, Copy, Debug, PartialEq, Eq, Structural, Hash, PartialOrd, Ord)]
pub struct B256 {
    /// The first sixteen bytes, as a big-endian number.
    pub hi: u128,
    /// The last sixteen bytes, as a big-endian number.
    pub lo: u128,
}

impl View for B256 {
    type V = WordKey;

    open spec fn view(&self) -> WordKey {
        (self.hi, self.lo)
    }
}

/// The Keccak-256 hash of the empty byte string, as a word: the code hash of
/// an account without code.
pub open spec fn keccak256_empty() -> B256 {
    B256 { hi: 0xc5d2_4601_86f7_233c_927e_7db2_dcc7_03c0, lo: 0xe500_b653_ca82_273b_7bfa_d804_5d85_a470 }
}

impl B256 {
    /// The word whose bytes are all zero.
    pub fn zero() -> (w: B256)
        ensures
            w@ == (0u128, 0u128),
    {
        B256 { hi: 0, lo: 0 }
    }

    /// The code hash of an account without code.
    pub fn keccak_empty() -> (w: B256)
        ensures
            w == keccak256_empty(),
    {
        B256 { hi: 0xc5d2_4601_86f7_233c_927e_7db2_dcc7_03c0, lo: 0xe500_b653_ca82_273b_7bfa_d804_5d85_a470 }
    }

    /// The word whose 32 bytes all equal `byte`.
    pub fn repeat_byte(byte: u8) -> (w: B256)
        ensures
            w.hi == byte * 0x0101_0101_0101_0101_0101_0101_0101_0101,
            w.lo == w.hi,
    {
        let b: u128 = byte as u128;
        let half: u128 = b * 0x0101_0101_0101_0101_0101_0101_0101_0101;
        B256 { hi: half, lo: half }
    }

    /// Whether every byte is zero.
    pub fn is_zero(&self) -> (z: bool)
        ensures
            z == (self@ == (0u128, 0u128)),
    {
        self.hi == 0 && self.lo == 0
    }

    /// The key under which this word stands in an ordered map.
    pub fn key(&self) -> (k: WordKey)
        ensures
            k == self@,
    {
        (self.hi, self.lo)
    }

    /// The word with the given key.
    pub fn from_key(key: WordKey) -> (w: B256)
        ensures
            w@ == key,
    {
        B256 { hi: key.0, lo: key.1 }
    }

    /// The 32 bytes of the word.
    pub fn to_bytes(&self) -> (b: Vec<u8>)
        ensures
            b@ == word_bytes(self@),
            b@.len() == 32,
    {
        let mut b: Vec<u8> = Vec::new();
        append_be_u128(&mut b, self.hi);
        append_be_u128(&mut b, self.lo);
        proof {
            lemma_bytes_roundtrip();
            assert(b@ =~= word_bytes(self@));
        }
        b
    }

    /// The word with the given 32 bytes.
    pub fn from_bytes(bytes: &[u8]) -> (w: B256)
        requires
            bytes@.len() == 32,
        ensures
            w@ == word_of_bytes(bytes@),
    {
        B256 { hi: read_be_u128(bytes, 0), lo: read_be_u128(bytes, 16) }
    }
}

/// A 256-bit unsigned number: a balance, a storage slot or a stored value.
#[derive(Clone, Copy, Debug, PartialEq, Eq, Structural, Hash, PartialOrd, Ord)]
pub struct U256 {
    /// The high 128 bits.
    pub hi: u128,
    /// The low 128 bits.
    pub lo: u128,
}

impl View for U256 {
    type V = WordKey;

    open spec fn view(&self) -> WordKey {
        (self.hi, self.lo)
    }
}

impl U256 {
    /// The number as a mathematical integer.
    pub open spec fn value(&self) -> nat {
        (self.hi * 0x1_0000_0000_0000_0000_0000_0000_0000_0000 + self.lo) as nat
    }

    /// Zero.
    pub fn zero() -> (n: U256)
        ensures
            n@ == (0u128, 0u128),
    {
        U256 { hi: 0, lo: 0 }
    }

    /// The number with the value of `x`.
    pub fn from_u64(x: u64) -> (n: U256)
        ensures
            n@ == (0u128, x as u128),
            n.value() == x,
    {
        U256 { hi: 0, lo: x as u128 }
    }

    /// Whether the number is zero.
    pub fn is_zero(&self) -> (z: bool)
        ensures
            z == (self@ == (0u128, 0u128)),
            z == (self.value() == 0),
    {
        self.hi == 0 && self.lo == 0
    }

    /// The key under which this number stands in an ordered map.
    pub fn key(&self) -> (k: WordKey)
        ensures
            k == self@,
    {
        (self.hi, self.lo)
    }

    /// The number with the given key.
    pub fn from_key(key: WordKey) -> (n: U256)
        ensures
            n@ == key,
    {
        U256 { hi: key.0, lo: key.1 }
    }

    /// The 32 big-endian bytes of the number.
    pub fn to_bytes(&self) -> (b: Vec<u8>)
        ensures
            b@ == word_bytes(self@),
            b@.len() == 32,
    {
        let mut b: Vec<u8> = Vec::new();
        append_be_u128(&mut b, self.hi);
        append_be_u128(&mut b, self.lo);
        proof {
            lemma_bytes_roundtrip();
            assert(b@ =~= word_bytes(self@));
        }
        b
    }

    /// The number with the given 32 big-endian bytes.
    pub fn from_bytes(bytes: &[u8]) -> (n: U256)
        requires
            bytes@.len() == 32,
        ensures
            n@ == word_of_bytes(bytes@),
    {
        U256 { hi: read_be_u128(bytes, 0), lo: read_be_u128(bytes, 16) }
    }
}

} // verus!
