use alloy_consensus::Header;
use kora::block::{hash_of_encoding, KoraBlock};
use kora::primitives::B256;

#[test]
fn block_default() {
    let block = KoraBlock::default();
    assert_eq!(block.height(), 0);
    assert_eq!(block.tx_count(), 0);
    assert_eq!(block.state_root, B256::zero());
}

#[test]
fn block_hash_deterministic() {
    let block = KoraBlock::default();
    let hash1 = block.hash();
    let hash2 = block.hash();
    assert_eq!(hash1, hash2);
}

#[test]
fn block_reads_its_header() {
    let mut header = Header::default();
    header.parent_hash = alloy_primitives::B256::repeat_byte(0x11);
    header.number = 42;
    header.timestamp = 1_700_000_000;
    let block =
        KoraBlock::new(header.clone(), vec![vec![1, 2], vec![3]], B256::repeat_byte(0x22));
    assert_eq!(block.parent_hash(), B256::repeat_byte(0x11));
    assert_eq!(block.height(), 42);
    assert_eq!(block.timestamp(), 1_700_000_000);
    assert_eq!(block.tx_count(), 2);
    assert_eq!(block.state_root, B256::repeat_byte(0x22));
    assert_eq!(block.header, header);
}

#[test]
fn block_hash_is_the_hash_of_the_encoded_header() {
    let mut header = Header::default();
    header.number = 7;
    let block = KoraBlock::new(header.clone(), vec![], B256::zero());
    assert_eq!(block.hash().to_bytes(), header.hash_slow().0.to_vec());
    assert_ne!(block.hash(), KoraBlock::default().hash());

    let encoded = alloy_rlp::encode(&header);
    assert_eq!(hash_of_encoding(&encoded), block.hash());
    assert_eq!(
        hash_of_encoding(&[]).to_bytes(),
        alloy_primitives::KECCAK256_EMPTY.0.to_vec()
    );
}

#[test]
fn block_copy_is_the_same_block() {
    let mut header = Header::default();
    header.number = 9;
    header.timestamp = 77;
    let block = KoraBlock::new(header, vec![vec![1], vec![2, 3]], B256::repeat_byte(0x33));
    let copy = block.clone();
    assert_eq!(copy.header, block.header);
    assert_eq!(copy.transactions, block.transactions);
    assert_eq!(copy.state_root, block.state_root);
    assert_eq!(copy.hash(), block.hash());
}
