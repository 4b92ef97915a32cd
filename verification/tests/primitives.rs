use commonware_cryptography::Signer;
use kora::config::{key_from_seed, validator_public_key, ConfigError, ConsensusConfig};
use kora::primitives::{Address, B256, U256};
use kora::snapshot::ConsensusDigest;
use kora::text::decimal_text;

#[test]
fn address_bytes_are_big_endian_and_read_back() {
    let address = Address { hi: 0x0102_0304, lo: 0x0506_0708_090a_0b0c_0d0e_0f10_1112_1314 };
    let bytes = address.to_bytes();
    let expected: Vec<u8> = (1u8..=20).collect();
    assert_eq!(bytes, expected);
    assert_eq!(Address::from_bytes(&bytes), address);
    assert_eq!(Address::from_key(address.key()), address);
}

#[test]
fn word_bytes_are_big_endian_and_read_back() {
    let word = B256 {
        hi: 0x0102_0304_0506_0708_090a_0b0c_0d0e_0f10,
        lo: 0x1112_1314_1516_1718_191a_1b1c_1d1e_1f20,
    };
    let expected: Vec<u8> = (1u8..=32).collect();
    assert_eq!(word.to_bytes(), expected);
    assert_eq!(B256::from_bytes(&expected), word);
    assert_eq!(B256::from_key(word.key()), word);

    let number = U256 { hi: word.hi, lo: word.lo };
    assert_eq!(number.to_bytes(), expected);
    assert_eq!(U256::from_bytes(&expected), number);
    assert_eq!(U256::from_key(number.key()), number);
}

#[test]
fn repeat_byte_agrees_with_the_bytes() {
    assert_eq!(Address::repeat_byte(0xab).to_bytes(), vec![0xab; 20]);
    assert_eq!(B256::repeat_byte(0xcd).to_bytes(), vec![0xcd; 32]);
    assert_eq!(
        Address::repeat_byte(0x01).to_bytes(),
        alloy_primitives::Address::repeat_byte(0x01).0 .0.to_vec()
    );
    assert_eq!(Address::with_last_byte(9).to_bytes()[19], 9);
    assert_eq!(Address::zero().to_bytes(), vec![0; 20]);
    assert_eq!(ConsensusDigest::repeat_byte(3).key(), B256::repeat_byte(3).key());
}

#[test]
fn zero_and_small_numbers() {
    assert!(U256::zero().is_zero());
    assert!(!U256::from_u64(1).is_zero());
    assert!(!U256 { hi: 1, lo: 0 }.is_zero());
    assert_eq!(U256::from_u64(1000).to_bytes()[30..], [0x03, 0xe8]);
    assert!(B256::zero().is_zero());
    assert!(!B256::keccak_empty().is_zero());
}

#[test]
fn address_text_is_the_checksummed_form() {
    let bytes = [
        0x5a, 0xae, 0xb6, 0x05, 0x3f, 0x3e, 0x94, 0xc9, 0xb9, 0xa0, 0x9f, 0x33, 0x66, 0x94, 0x35,
        0xe7, 0xef, 0x1b, 0xea, 0xed,
    ];
    let address = Address::from_bytes(&bytes);
    assert_eq!(address.to_text(), "0x5aAeb6053F3E94C9b9A09f33669435E7Ef1BeAed");
    assert_eq!(address.to_text(), alloy_primitives::Address::from(bytes).to_string());
}

#[test]
fn word_text_is_lower_case_hex() {
    let word = B256 { hi: 0xABCD << 112, lo: 0xEF };
    let text = word.to_text();
    assert_eq!(text, format!("0xabcd{}ef", "0".repeat(58)));
    assert_eq!(text, alloy_primitives::B256::from_slice(&word.to_bytes()).to_string());
}

#[test]
fn decimal_text_of_numbers() {
    assert_eq!(decimal_text(0), "0");
    assert_eq!(decimal_text(7), "7");
    assert_eq!(decimal_text(10), "10");
    assert_eq!(decimal_text(1234567890), "1234567890");
    assert_eq!(decimal_text(u64::MAX), "18446744073709551615");
}

#[test]
fn validator_set_is_built_from_valid_keys_in_order() {
    let first = key_from_seed(&[1u8; 32]);
    let second = key_from_seed(&[2u8; 32]);
    let first_public = validator_public_key(&first);
    let second_public = validator_public_key(&second);
    assert_eq!(first_public, first.public_key());
    assert_ne!(first_public, second_public);

    let mut consensus = ConsensusConfig::default();
    assert_eq!(consensus.build_validator_set(), Ok(vec![]));

    consensus.participants = vec![first_public.as_ref().to_vec(), second_public.as_ref().to_vec()];
    assert_eq!(consensus.build_validator_set(), Ok(vec![first_public.clone(), second_public]));
    assert_eq!(ConsensusConfig::accept_key(Some(first_public.clone())), Ok(first_public));
    assert_eq!(ConsensusConfig::accept_key(None), Err(ConfigError::InvalidParticipantKey));
}

#[test]
fn validator_set_refuses_the_first_bad_participant() {
    let good = validator_public_key(&key_from_seed(&[1u8; 32])).as_ref().to_vec();
    let mut consensus = ConsensusConfig::default();

    consensus.participants = vec![good.clone(), vec![1; 31], vec![2; 5]];
    assert_eq!(
        consensus.build_validator_set(),
        Err(ConfigError::InvalidParticipantKeyLength(31))
    );

    // Not every 32 bytes decompress to a point of the curve.
    let mut refused = 0;
    for byte in 0u8..=255 {
        consensus.participants = vec![good.clone(), vec![byte; 32]];
        match consensus.build_validator_set() {
            Ok(keys) => assert_eq!(keys.len(), 2),
            Err(e) => {
                assert_eq!(e, ConfigError::InvalidParticipantKey);
                refused += 1;
            }
        }
    }
    assert!(refused > 0);
}

#[test]
fn key_from_seed_is_the_key_that_the_seed_decodes_to() {
    let seed = [7u8; 32];
    let key = key_from_seed(&seed);
    let mut buf: &[u8] = &seed;
    let decoded: commonware_cryptography::ed25519::PrivateKey =
        commonware_codec::ReadExt::read(&mut buf).unwrap();
    assert_eq!(key.public_key(), decoded.public_key());
}
