//! Text of values in messages: decimal numbers, hashes and addresses.

use crate::primitives::{address_bytes, word_bytes, Address, B256};
use vstd::prelude::*;

verus! {

/// Appends `tail` to `text`.
///
/// Trusted: `String::push_str` of std, which appends the slice to the string.
#[verifier::external_body]
pub(crate) fn append(text: &mut String, tail: &str)
    ensures
        final(text)@ == old(text)@ + tail@,
{
    text.push_str(tail)
}

/// The character of a digit below sixteen, in lower case.
pub open spec fn digit_char(digit: int) -> char {
    seq!['0', '1', '2', '3', '4', '5', '6', '7', '8', '9', 'a', 'b', 'c', 'd', 'e', 'f'][digit]
}

/// The decimal digits of `n`, without leading zeros.
pub open spec fn decimal_of(n: nat) -> Seq<char>
    decreases n,
{
    if n < 10 {
        seq![digit_char(n as int)]
    } else {
        decimal_of(n / 10).push(digit_char((n % 10) as int))
    }
}

/// The two lower-case hexadecimal digits of each byte, in order.
pub open spec fn hex_of(bytes: Seq<u8>) -> Seq<char>
    decreases bytes.len(),
{
    if bytes.len() == 0 {
        Seq::empty()
    } else {
        hex_of(bytes.drop_last()).push(digit_char(bytes.last() as int / 16)).push(
            digit_char(bytes.last() as int % 16),
        )
    }
}

/// The text of one decimal digit.
pub(crate) fn digit_text(digit: u64) -> (text: &'static str)
    requires
        digit < 10,
    ensures
        text@ == seq![digit_char(digit as int)],
{
    proof {
        reveal_strlit("0");
        reveal_strlit("1");
        reveal_strlit("2");
        reveal_strlit("3");
        reveal_strlit("4");
        reveal_strlit("5");
        reveal_strlit("6");
        reveal_strlit("7");
        reveal_strlit("8");
        reveal_strlit("9");
    }
    let text = if digit == 0 {
        "0"
    } else if digit == 1 {
        "1"
    } else if digit == 2 {
        "2"
    } else if digit == 3 {
        "3"
    } else if digit == 4 {
        "4"
    } else if digit == 5 {
        "5"
    } else if digit == 6 {
        "6"
    } else if digit == 7 {
        "7"
    } else if digit == 8 {
        "8"
    } else {
        "9"
    };
    assert(text@ =~= seq![digit_char(digit as int)]);
    text
}

/// Appends the decimal digits of `n` to `text`.
pub fn append_decimal(text: &mut String, n: u64)
    ensures
        final(text)@ == old(text)@ + decimal_of(n as nat),
    decreases n,
{
    if n >= 10 {
        append_decimal(text, n / 10);
    }
    let ghost before = text@;
    append(text, digit_text(n % 10));
    proof {
        if n >= 10 {
            assert(text@ =~= old(text)@ + decimal_of(n as nat));
        } else {
            assert(text@ =~= old(text)@ + decimal_of(n as nat));
        }
    }
}

/// The decimal text of `n`.
pub fn decimal_text(n: u64) -> (text: String)
    ensures
        text@ == decimal_of(n as nat),
{
    let mut text = String::new();
    append_decimal(&mut text, n);
    assert(text@ =~= decimal_of(n as nat));
    text
}

/// The text of a 32-byte word: `0x` and its 64 lower-case hexadecimal digits.
pub open spec fn word_text_of(word: B256) -> Seq<char> {
    seq!['0', 'x'] + hex_of(word_bytes(word@))
}

/// The text of a 32-byte word.
///
/// Trusted: `Display` of `alloy_primitives::B256`, which without the
/// alternate flag writes `0x` and the full lower-case hexadecimal digits.
#[verifier::external_body]
fn word_display(bytes: &[u8]) -> (text: String)
    requires
        bytes@.len() == 32,
    ensures
        text@ == seq!['0', 'x'] + hex_of(bytes@),
{
    alloy_primitives::B256::from_slice(bytes).to_string()
}

/// The text of an address with the given 20 bytes: `0x` and 40 hexadecimal
/// digits whose case carries the address checksum.
pub uninterp spec fn checksum_text(bytes: Seq<u8>) -> Seq<char>;

/// The text of an address.
///
/// Trusted: `Display` of `alloy_primitives::Address`, which without the
/// alternate flag writes the checksummed form; the contract names its result.
#[verifier::external_body]
fn address_display(bytes: &[u8]) -> (text: String)
    requires
        bytes@.len() == 20,
    ensures
        text@ == checksum_text(bytes@),
{
    alloy_primitives::Address::from_slice(bytes).to_string()
}

impl B256 {
    /// The word as text: `0x` and its 64 lower-case hexadecimal digits.
    pub fn to_text(&self) -> (text: String)
        ensures
            text@ == word_text_of(*self),
    {
        let bytes = self.to_bytes();
        word_display(bytes.as_slice())
    }
}

impl Address {
    /// The address as text, in its checksummed form.
    pub fn to_text(&self) -> (text: String)
        ensures
            text@ == checksum_text(address_bytes(self@)),
    {
        let bytes = self.to_bytes();
        address_display(bytes.as_slice())
    }
}

} // verus!
