//! The custom precompiles: agent-specific operations at well-known
//! addresses, beside the standard precompiles.

use crate::classifier::{
    ai_inference, cross_chain_message_passer, intent_parser, svm_router, vector_similarity,
    WellKnown,
};
use crate::primitives::{append_be_u64, be_u64, lemma_be_roundtrip, Address};
use vstd::prelude::*;

verus! {

/// The gas that the inference precompile costs.
pub const AI_INFERENCE_BASE: u64 = 10_000;

/// The gas that the vector similarity precompile costs.
pub const VECTOR_SIMILARITY_BASE: u64 = 5_000;

/// The gas that the intent parser precompile costs.
pub const INTENT_PARSER_BASE: u64 = 5_000;

/// The gas that the SVM router precompile costs.
pub const SVM_ROUTER_BASE: u64 = 10_000;

/// The gas that the cross-chain message passer precompile costs.
pub const CROSS_CHAIN_MESSAGE_PASSER_BASE: u64 = 20_000;

/// The similarity score that the vector similarity precompile answers:
/// 0.85, scaled by ten to the eighteenth.
pub const SIMILARITY_SCORE: u64 = 850_000_000_000_000_000;

/// How a call of a custom precompile ended.
#[derive(Clone, Copy, Debug, PartialEq, Eq, Structural)]
pub enum PrecompileStatus {
    /// The precompile ran and returned its output.
    Return,
    /// The gas limit is below the cost of the precompile.
    OutOfGas,
    /// The address is no custom precompile.
    Error,
}

/// What a call of a custom precompile gave.
#[derive(Debug, PartialEq, Eq)]
pub struct PrecompileOutcome {
    /// How the call ended.
    pub status: PrecompileStatus,
    /// The gas that the call was given.
    pub gas_limit: u64,
    /// The gas that is left after the call.
    pub gas_remaining: u64,
    /// The output; empty unless the call returned.
    pub output: Vec<u8>,
}

/// The 32-byte big-endian word with the value `n`.
pub open spec fn abi_word(n: u64) -> Seq<u8> {
    Seq::new(24, |i: int| 0u8) + be_u64(n)
}

/// Whether `address` is a custom precompile.
pub open spec fn is_custom_address(address: Address) -> bool {
    address == ai_inference() || address == vector_similarity() || address == intent_parser()
        || address == svm_router() || address == cross_chain_message_passer()
}

/// The custom precompiles, in their order.
pub open spec fn custom_addresses() -> Seq<Address> {
    seq![
        ai_inference(),
        vector_similarity(),
        intent_parser(),
        svm_router(),
        cross_chain_message_passer(),
    ]
}

/// The gas that the custom precompile at `address` costs.
pub open spec fn base_gas(address: Address) -> u64 {
    if address == ai_inference() {
        10_000
    } else if address == vector_similarity() {
        5_000
    } else if address == intent_parser() {
        5_000
    } else if address == svm_router() {
        10_000
    } else {
        20_000
    }
}

/// The output of the custom precompile at `address`, whatever its input.
pub open spec fn custom_output(address: Address) -> Seq<u8> {
    if address == ai_inference() {
        abi_word(1) + abi_word(0x40)
    } else if address == vector_similarity() {
        abi_word(850_000_000_000_000_000)
    } else if address == intent_parser() {
        abi_word(1) + abi_word(0) + abi_word(0)
    } else if address == svm_router() {
        abi_word(1) + abi_word(0)
    } else {
        abi_word(1)
    }
}

/// How a call of the custom precompile at `address` with `gas_limit` ends.
pub open spec fn status_of(address: Address, gas_limit: u64) -> PrecompileStatus {
    if !is_custom_address(address) {
        PrecompileStatus::Error
    } else if gas_limit < base_gas(address) {
        PrecompileStatus::OutOfGas
    } else {
        PrecompileStatus::Return
    }
}

/// The gas that a call of the custom precompile at `address` with
/// `gas_limit` leaves: the limit less the cost where the call returns, else
/// all of it.
pub open spec fn gas_left(address: Address, gas_limit: u64) -> u64 {
    if status_of(address, gas_limit) == PrecompileStatus::Return {
        (gas_limit - base_gas(address)) as u64
    } else {
        gas_limit
    }
}

/// The output of a call of the custom precompile at `address` with
/// `gas_limit`: that of the precompile where the call returns, else none.
pub open spec fn output_of(address: Address, gas_limit: u64) -> Seq<u8> {
    if status_of(address, gas_limit) == PrecompileStatus::Return {
        custom_output(address)
    } else {
        Seq::<u8>::empty()
    }
}

/// Whether `outcome` is what a call of the custom precompile at `address`
/// with `gas_limit` gives.
pub open spec fn is_outcome_of(outcome: PrecompileOutcome, address: Address, gas_limit: u64) -> bool {
    &&& outcome.status == status_of(address, gas_limit)
    &&& outcome.gas_limit == gas_limit
    &&& outcome.gas_remaining == gas_left(address, gas_limit)
    &&& outcome.output@ == output_of(address, gas_limit)
}

/// Appends the 32-byte word with the value `n`.
fn append_word(out: &mut Vec<u8>, n: u64)
    ensures
        final(out)@ == old(out)@ + abi_word(n),
{
    let mut i: usize = 0;
    while i < 24
        invariant
            i <= 24,
            out@ == old(out)@ + Seq::new(i as nat, |j: int| 0u8),
        decreases 24 - i,
    {
        out.push(0);
        assert(out@ =~= old(out)@ + Seq::new((i + 1) as nat, |j: int| 0u8));
        i = i + 1;
    }
    append_be_u64(out, n);
    assert(out@ =~= old(out)@ + abi_word(n));
}

/// The answer of the inference precompile: success, and the offset of an
/// empty result.
pub fn execute_ai_inference(input: &[u8]) -> (output: Vec<u8>)
    ensures
        output@ == abi_word(1) + abi_word(0x40),
        output@.len() == 64,
{
    proof {
        lemma_abi_word_len(0);
        lemma_abi_word_len(1);
        lemma_abi_word_len(0x40);
        lemma_abi_word_len(850_000_000_000_000_000);
    }
    let mut output: Vec<u8> = Vec::new();
    append_word(&mut output, 1);
    append_word(&mut output, 0x40);
    assert(output@ =~= abi_word(1) + abi_word(0x40));
    output
}

/// The answer of the vector similarity precompile: the score.
pub fn execute_vector_similarity(input: &[u8]) -> (output: Vec<u8>)
    ensures
        output@ == abi_word(850_000_000_000_000_000),
        output@.len() == 32,
{
    proof {
        lemma_abi_word_len(0);
        lemma_abi_word_len(1);
        lemma_abi_word_len(0x40);
        lemma_abi_word_len(850_000_000_000_000_000);
    }
    let mut output: Vec<u8> = Vec::new();
    append_word(&mut output, SIMILARITY_SCORE);
    assert(output@ =~= abi_word(850_000_000_000_000_000));
    output
}

/// The answer of the intent parser precompile: a transfer of nothing to the
/// zero address.
pub fn execute_intent_parser(input: &[u8]) -> (output: Vec<u8>)
    ensures
        output@ == abi_word(1) + abi_word(0) + abi_word(0),
        output@.len() == 96,
{
    proof {
        lemma_abi_word_len(0);
        lemma_abi_word_len(1);
        lemma_abi_word_len(0x40);
        lemma_abi_word_len(850_000_000_000_000_000);
    }
    let mut output: Vec<u8> = Vec::new();
    append_word(&mut output, 1);
    append_word(&mut output, 0);
    append_word(&mut output, 0);
    assert(output@ =~= abi_word(1) + abi_word(0) + abi_word(0));
    output
}

/// The answer of the SVM router precompile: success, and a zero hash.
pub fn execute_svm_router(input: &[u8]) -> (output: Vec<u8>)
    ensures
        output@ == abi_word(1) + abi_word(0),
        output@.len() == 64,
{
    proof {
        lemma_abi_word_len(0);
        lemma_abi_word_len(1);
        lemma_abi_word_len(0x40);
        lemma_abi_word_len(850_000_000_000_000_000);
    }
    let mut output: Vec<u8> = Vec::new();
    append_word(&mut output, 1);
    append_word(&mut output, 0);
    assert(output@ =~= abi_word(1) + abi_word(0));
    output
}

/// The answer of the cross-chain message passer precompile: the nonce of the
/// first message.
pub fn execute_cross_chain_message_passer(input: &[u8]) -> (output: Vec<u8>)
    ensures
        output@ == abi_word(1),
        output@.len() == 32,
{
    proof {
        lemma_abi_word_len(0);
        lemma_abi_word_len(1);
        lemma_abi_word_len(0x40);
        lemma_abi_word_len(850_000_000_000_000_000);
    }
    let mut output: Vec<u8> = Vec::new();
    append_word(&mut output, 1);
    assert(output@ =~= abi_word(1));
    output
}

/// A word has 32 bytes.
proof fn lemma_abi_word_len(n: u64)
    ensures
        abi_word(n).len() == 32,
{
    lemma_be_roundtrip();
}

/// The standard precompiles together with the custom ones.
#[derive(Debug)]
pub struct MonmouthPrecompiles {
    standard: Vec<Address>,
}

impl Clone for MonmouthPrecompiles {
    fn clone(&self) -> (copy: Self)
        ensures
            copy.standard() == self.standard(),
    {
        let mut standard: Vec<Address> = Vec::new();
        let mut i: usize = 0;
        while i < self.standard.len()
            invariant
                i <= self.standard@.len(),
                standard@ == self.standard@.take(i as int),
            decreases self.standard@.len() - i,
        {
            standard.push(self.standard[i]);
            assert(standard@ =~= self.standard@.take(i + 1));
            i = i + 1;
        }
        assert(self.standard@.take(self.standard@.len() as int) =~= self.standard@);
        MonmouthPrecompiles { standard }
    }
}

impl MonmouthPrecompiles {
    /// The addresses of the standard precompiles.
    pub closed spec fn standard(&self) -> Seq<Address> {
        self.standard@
    }

    /// The provider of the custom precompiles beside the standard ones at
    /// the given addresses.
    pub fn new(standard: Vec<Address>) -> (provider: Self)
        ensures
            provider.standard() == standard@,
    {
        MonmouthPrecompiles { standard }
    }

    /// Whether `address` is a custom precompile.
    pub fn is_custom(address: &Address) -> (custom: bool)
        ensures
            custom == is_custom_address(*address),
    {
        *address == WellKnown::ai_inference() || *address == WellKnown::vector_similarity()
            || *address == WellKnown::intent_parser() || *address == WellKnown::svm_router()
            || *address == WellKnown::cross_chain_message_passer()
    }

    /// Whether `address` is a precompile, custom or standard.
    pub fn contains_address(&self, address: &Address) -> (known: bool)
        ensures
            known == (is_custom_address(*address) || self.standard().contains(*address)),
    {
        if MonmouthPrecompiles::is_custom(address) {
            return true;
        }
        let mut i: usize = 0;
        while i < self.standard.len()
            invariant
                i <= self.standard@.len(),
                forall|j: int| 0 <= j < i ==> self.standard@[j] != *address,
            decreases self.standard@.len() - i,
        {
            if self.standard[i] == *address {
                return true;
            }
            i = i + 1;
        }
        false
    }

    /// The addresses that are warm from the start: the standard precompiles,
    /// then the custom ones.
    pub fn all_warm_addresses(&self) -> (warm: Vec<Address>)
        ensures
            warm@ == self.standard() + custom_addresses(),
    {
        let mut warm: Vec<Address> = Vec::new();
        let mut i: usize = 0;
        while i < self.standard.len()
            invariant
                i <= self.standard@.len(),
                warm@ == self.standard@.take(i as int),
            decreases self.standard@.len() - i,
        {
            warm.push(self.standard[i]);
            assert(warm@ =~= self.standard@.take(i + 1));
            i = i + 1;
        }
        warm.push(WellKnown::ai_inference());
        warm.push(WellKnown::vector_similarity());
        warm.push(WellKnown::intent_parser());
        warm.push(WellKnown::svm_router());
        warm.push(WellKnown::cross_chain_message_passer());
        assert(warm@ =~= self.standard() + custom_addresses());
        warm
    }

    /// Runs the custom precompile at `address` with `gas_limit`. An address
    /// that is no custom precompile gives an error, a gas limit below the
    /// cost of the precompile gives out-of-gas, both with all gas left and no
    /// output; else the precompile returns its output and the gas that is
    /// left after its cost.
    pub fn execute_custom(address: &Address, input: &[u8], gas_limit: u64) -> (outcome:
        PrecompileOutcome)
        ensures
            is_outcome_of(outcome, *address, gas_limit),
    {
        let (cost, output) = if *address == WellKnown::ai_inference() {
            (AI_INFERENCE_BASE, execute_ai_inference(input))
        } else if *address == WellKnown::vector_similarity() {
            (VECTOR_SIMILARITY_BASE, execute_vector_similarity(input))
        } else if *address == WellKnown::intent_parser() {
            (INTENT_PARSER_BASE, execute_intent_parser(input))
        } else if *address == WellKnown::svm_router() {
            (SVM_ROUTER_BASE, execute_svm_router(input))
        } else if *address == WellKnown::cross_chain_message_passer() {
            (CROSS_CHAIN_MESSAGE_PASSER_BASE, execute_cross_chain_message_passer(input))
        } else {
            return PrecompileOutcome {
                status: PrecompileStatus::Error,
                gas_limit,
                gas_remaining: gas_limit,
                output: Vec::new(),
            };
        };
        if gas_limit < cost {
            return PrecompileOutcome {
                status: PrecompileStatus::OutOfGas,
                gas_limit,
                gas_remaining: gas_limit,
                output: Vec::new(),
            };
        }
        PrecompileOutcome {
            status: PrecompileStatus::Return,
            gas_limit,
            gas_remaining: gas_limit - cost,
            output,
        }
    }

    /// Runs the precompile at `address` where it is a custom one, and gives
    /// what `execute_custom` gives; `None` where the call belongs to the
    /// standard precompiles, which are not run here.
    pub fn run(&self, address: &Address, input: &[u8], gas_limit: u64) -> (outcome: Option<
        PrecompileOutcome,
    >)
        ensures
            outcome is Some == is_custom_address(*address),
            outcome matches Some(o) ==> is_outcome_of(o, *address, gas_limit),
    {
        if MonmouthPrecompiles::is_custom(address) {
            Some(MonmouthPrecompiles::execute_custom(address, input, gas_limit))
        } else {
            None
        }
    }
}

} // verus!
