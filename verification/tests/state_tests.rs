use chain_sync::chain_model::ChainError;
use chain_sync::chain_model::ChainModel;
use chain_sync::migrate::hash_to_bytes;
use chain_sync::migrate::height_to_be_bytes;
use chain_sync::migrate::plan_by_hash_records;
use chain_sync::migrate::plan_by_height_records;
use chain_sync::types::Block;
use chain_sync::types::BlockHash;

fn h(n: u64) -> BlockHash {
    BlockHash { w0: n, w1: 0, w2: 0, w3: 0 }
}

#[test]
fn chain_accepts_until_its_limit_and_rejects_after() {
    let mut c = ChainModel::new(10, h(99), 1);
    let r1 = c.add_block(Block { id: h(1), payload: vec![1] });
    assert_eq!(r1, Ok(()));
    assert_eq!(c.height, 11);
    assert_eq!(c.tip, h(1));
    assert_eq!(c.applied.len(), 1);
    let r2 = c.add_block(Block { id: h(2), payload: vec![2] });
    assert_eq!(r2, Err(ChainError::InvalidBlock));
    // a rejected block leaves the chain exactly as it was
    assert_eq!(c.height, 11);
    assert_eq!(c.tip, h(1));
    assert_eq!(c.applied.len(), 1);
}

#[test]
fn block_duplicate_preserves_id_and_payload() {
    let b = Block { id: h(7), payload: vec![1, 2, 3] };
    let d = b.duplicate();
    assert_eq!(d.id, b.id);
    assert_eq!(d.payload, b.payload);
}

#[test]
fn heights_serialize_big_endian() {
    assert_eq!(height_to_be_bytes(0x0102030405060708), vec![1, 2, 3, 4, 5, 6, 7, 8]);
    assert_eq!(height_to_be_bytes(0), vec![0u8; 8]);
    assert_eq!(height_to_be_bytes(u64::MAX), vec![0xffu8; 8]);
    assert_eq!(height_to_be_bytes(258), vec![0, 0, 0, 0, 0, 0, 1, 2]);
}

#[test]
fn hashes_flatten_to_their_word_bytes() {
    let hash = BlockHash { w0: 1, w1: 2, w2: 3, w3: 0x0a0b0c0d0e0f1011 };
    let bytes = hash_to_bytes(&hash);
    assert_eq!(bytes.len(), 32);
    assert_eq!(&bytes[0..8], &[0, 0, 0, 0, 0, 0, 0, 1]);
    assert_eq!(&bytes[8..16], &[0, 0, 0, 0, 0, 0, 0, 2]);
    assert_eq!(&bytes[16..24], &[0, 0, 0, 0, 0, 0, 0, 3]);
    assert_eq!(&bytes[24..32], &[0x0a, 0x0b, 0x0c, 0x0d, 0x0e, 0x0f, 0x10, 0x11]);
}

#[test]
fn by_hash_records_pair_hash_keys_with_height_values() {
    let entries = vec![(h(1), 5u64), (h(2), 6u64)];
    let records = plan_by_hash_records(&entries);
    assert_eq!(records.len(), 2);
    assert_eq!(records[0].key, hash_to_bytes(&h(1)));
    assert_eq!(records[0].value, height_to_be_bytes(5));
    assert_eq!(records[1].key, hash_to_bytes(&h(2)));
    assert_eq!(records[1].value, height_to_be_bytes(6));
}

#[test]
fn by_height_records_pair_height_keys_with_hash_values() {
    let entries = vec![(5u64, h(1)), (6u64, h(2))];
    let records = plan_by_height_records(&entries);
    assert_eq!(records.len(), 2);
    assert_eq!(records[0].key, height_to_be_bytes(5));
    assert_eq!(records[0].value, hash_to_bytes(&h(1)));
    assert_eq!(records[1].key, height_to_be_bytes(6));
    assert_eq!(records[1].value, hash_to_bytes(&h(2)));
}
