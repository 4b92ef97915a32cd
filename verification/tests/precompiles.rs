use kora::classifier::WellKnown;
use kora::precompiles::{
    execute_ai_inference, execute_cross_chain_message_passer, execute_intent_parser,
    execute_svm_router, execute_vector_similarity, MonmouthPrecompiles, PrecompileStatus,
};
use kora::primitives::Address;

fn custom_addresses() -> [Address; 5] {
    [
        WellKnown::ai_inference(),
        WellKnown::vector_similarity(),
        WellKnown::intent_parser(),
        WellKnown::svm_router(),
        WellKnown::cross_chain_message_passer(),
    ]
}

/// The standard precompiles of the Prague fork: `0x01` to `0x11`.
fn prague() -> MonmouthPrecompiles {
    MonmouthPrecompiles::new((1u8..=0x11).map(Address::with_last_byte).collect())
}

#[test]
fn custom_addresses_recognized() {
    assert!(MonmouthPrecompiles::is_custom(&WellKnown::ai_inference()));
    assert!(MonmouthPrecompiles::is_custom(&WellKnown::vector_similarity()));
    assert!(MonmouthPrecompiles::is_custom(&WellKnown::intent_parser()));
    assert!(MonmouthPrecompiles::is_custom(&WellKnown::svm_router()));
    assert!(MonmouthPrecompiles::is_custom(&WellKnown::cross_chain_message_passer()));
}

#[test]
fn standard_addresses_not_custom() {
    assert!(!MonmouthPrecompiles::is_custom(&Address::zero()));
    assert!(!MonmouthPrecompiles::is_custom(&Address::with_last_byte(1))); // ecrecover
}

#[test]
fn contains_both_custom_and_standard() {
    let precompiles = prague();
    // Custom
    assert!(precompiles.contains_address(&WellKnown::ai_inference()));
    assert!(precompiles.contains_address(&WellKnown::svm_router()));
    assert!(precompiles.contains_address(&WellKnown::cross_chain_message_passer()));
    // Standard ecrecover at 0x01
    assert!(precompiles.contains_address(&Address::with_last_byte(1)));
    // Unknown
    assert!(!precompiles.contains_address(&Address::with_last_byte(0xff)));
}

#[test]
fn warm_addresses_include_custom() {
    let precompiles = prague();
    let warm: Vec<Address> = precompiles.all_warm_addresses();
    for addr in &custom_addresses() {
        assert!(warm.contains(addr), "missing custom address {:?}", addr);
    }
    // Also includes standard ecrecover
    assert!(warm.contains(&Address::with_last_byte(1)));
}

#[test]
fn warm_addresses_are_the_standard_ones_then_the_custom_ones() {
    let precompiles = MonmouthPrecompiles::new(vec![Address::with_last_byte(1), Address::with_last_byte(2)]);
    let mut expected = vec![Address::with_last_byte(1), Address::with_last_byte(2)];
    expected.extend_from_slice(&custom_addresses());
    assert_eq!(precompiles.all_warm_addresses(), expected);
}

#[test]
fn ai_inference_returns_data() {
    let output = execute_ai_inference(&[0x01, 0x02, 0x03]);
    assert!(!output.is_empty());
    assert_eq!(output.len(), 64);
    // First 32 bytes: success = true
    assert_eq!(output[31], 1);
}

#[test]
fn vector_similarity_returns_score() {
    let output = execute_vector_similarity(&[]);
    assert_eq!(output.len(), 32);
}

#[test]
fn intent_parser_returns_intent() {
    let output = execute_intent_parser(&[0xde, 0xad]);
    assert_eq!(output.len(), 96);
    assert_eq!(output[31], 1); // intentType = 1
}

#[test]
fn svm_router_returns_success() {
    let output = execute_svm_router(&[]);
    assert_eq!(output.len(), 64);
    assert_eq!(output[31], 1); // success = true
}

#[test]
fn cross_chain_message_passer_returns_nonce() {
    let output = execute_cross_chain_message_passer(&[0x01]);
    assert_eq!(output.len(), 32);
    assert_eq!(output[31], 1); // nonce = 1
}

#[test]
fn execute_custom_out_of_gas() {
    // AI inference needs 10000 gas, give it only 100
    let result = MonmouthPrecompiles::execute_custom(&WellKnown::ai_inference(), &[], 100);
    assert_eq!(result.status, PrecompileStatus::OutOfGas);
}

#[test]
fn execute_custom_sufficient_gas() {
    let result = MonmouthPrecompiles::execute_custom(&WellKnown::ai_inference(), &[], 100_000);
    assert_eq!(result.status, PrecompileStatus::Return);
    assert!(!result.output.is_empty());
}

#[test]
fn outputs_byte_for_byte() {
    let mut one = vec![0u8; 32];
    one[31] = 1;
    let mut offset = vec![0u8; 32];
    offset[31] = 0x40;
    let mut score = vec![0u8; 24];
    score.extend_from_slice(&850_000_000_000_000_000u64.to_be_bytes());

    assert_eq!(execute_ai_inference(&[]), [one.clone(), offset].concat());
    assert_eq!(execute_vector_similarity(&[]), score);
    assert_eq!(execute_intent_parser(&[]), [one.clone(), vec![0u8; 64]].concat());
    assert_eq!(execute_svm_router(&[]), [one.clone(), vec![0u8; 32]].concat());
    assert_eq!(execute_cross_chain_message_passer(&[]), one);
}

#[test]
fn gas_is_charged_only_when_the_precompile_returns() {
    let cases = [
        (WellKnown::ai_inference(), 10_000u64),
        (WellKnown::vector_similarity(), 5_000),
        (WellKnown::intent_parser(), 5_000),
        (WellKnown::svm_router(), 10_000),
        (WellKnown::cross_chain_message_passer(), 20_000),
    ];
    for (address, cost) in cases {
        let exact = MonmouthPrecompiles::execute_custom(&address, &[], cost);
        assert_eq!(exact.status, PrecompileStatus::Return);
        assert_eq!(exact.gas_limit, cost);
        assert_eq!(exact.gas_remaining, 0);

        let short = MonmouthPrecompiles::execute_custom(&address, &[], cost - 1);
        assert_eq!(short.status, PrecompileStatus::OutOfGas);
        assert_eq!(short.gas_remaining, cost - 1);
        assert!(short.output.is_empty());

        let ample = MonmouthPrecompiles::execute_custom(&address, &[], cost + 7);
        assert_eq!(ample.gas_remaining, 7);
    }
}

#[test]
fn address_that_is_no_custom_precompile_gives_an_error() {
    let result = MonmouthPrecompiles::execute_custom(&Address::with_last_byte(1), &[], 50_000);
    assert_eq!(result.status, PrecompileStatus::Error);
    assert_eq!(result.gas_remaining, 50_000);
    assert!(result.output.is_empty());

    let precompiles = prague();
    assert_eq!(precompiles.run(&Address::with_last_byte(1), &[], 50_000), None);
    let ran = precompiles.run(&WellKnown::svm_router(), &[], 50_000).unwrap();
    assert_eq!(ran.status, PrecompileStatus::Return);
    assert_eq!(ran.gas_remaining, 40_000);
}

#[test]
fn run_gives_what_the_custom_precompile_gives() {
    let precompiles = prague();
    for address in custom_addresses() {
        for gas in [0u64, 1, 9_999, 10_000, 50_000, 100_000, u64::MAX] {
            let ran = precompiles.run(&address, &[1, 2, 3], gas).unwrap();
            assert_eq!(ran, MonmouthPrecompiles::execute_custom(&address, &[1, 2, 3], gas));
            assert_eq!(ran.gas_limit, gas);
        }
    }
}

#[test]
fn provider_copy_knows_the_same_addresses() {
    let precompiles = prague();
    let copy = precompiles.clone();
    assert_eq!(copy.all_warm_addresses(), precompiles.all_warm_addresses());
    assert!(copy.contains_address(&Address::with_last_byte(0x11)));
    assert!(!copy.contains_address(&Address::with_last_byte(0x12)));
}
