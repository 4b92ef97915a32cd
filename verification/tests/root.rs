use kora::primitives::B256;
use kora::root::StateRoot;

#[test]
fn deterministic_root() {
    let a = B256::repeat_byte(0x11);
    let s = B256::repeat_byte(0x22);
    let c = B256::repeat_byte(0x33);

    let root1 = StateRoot::compute(a, s, c);
    let root2 = StateRoot::compute(a, s, c);
    assert_eq!(root1, root2);
}

#[test]
fn different_inputs_different_root() {
    let root1 = StateRoot::compute(B256::zero(), B256::zero(), B256::zero());
    let root2 = StateRoot::compute(B256::repeat_byte(1), B256::zero(), B256::zero());
    assert_ne!(root1, root2);
}

#[test]
fn distinct_nonzero_inputs_give_distinct_roots() {
    let a = B256::repeat_byte(0x11);
    let b = B256::repeat_byte(0x12);
    let s = B256::repeat_byte(0x22);
    let c = B256::repeat_byte(0x33);
    assert_ne!(StateRoot::compute(a, s, c), StateRoot::compute(b, s, c));
    assert_ne!(StateRoot::compute(a, s, c), StateRoot::compute(a, c, s));
}

#[test]
fn root_is_the_hash_of_the_tag_and_the_three_roots() {
    let a = B256::repeat_byte(0x11);
    let s = B256::repeat_byte(0x22);
    let c = B256::repeat_byte(0x33);
    let mut preimage = b"_MONMOUTH_QMDB_ROOT".to_vec();
    preimage.extend_from_slice(&[0x11; 32]);
    preimage.extend_from_slice(&[0x22; 32]);
    preimage.extend_from_slice(&[0x33; 32]);
    let expected = alloy_primitives::keccak256(&preimage);
    assert_eq!(StateRoot::compute(a, s, c).to_bytes(), expected.0.to_vec());
}

#[test]
fn keccak_empty_is_the_hash_of_no_bytes() {
    let empty: [u8; 0] = [];
    assert_eq!(
        B256::keccak_empty().to_bytes(),
        alloy_primitives::keccak256(empty).0.to_vec()
    );
    assert_eq!(B256::keccak_empty().to_bytes(), alloy_primitives::KECCAK256_EMPTY.0.to_vec());
}
