//! Hex text, stored numbers, and the raw-block validator.

use headstore::{
    decode_hex, encode_hex, row_le, BlockHash, Header, InvalidBlockError, RawBlock, RowNumber, U256,
};

fn hash32(b: u8) -> BlockHash {
    BlockHash::from_bytes(vec![b; 32])
}

fn full_raw() -> RawBlock {
    RawBlock {
        hash: Some(hash32(0xaa)),
        parent_hash: hash32(1),
        uncles_hash: hash32(2),
        author: Some(vec![3u8; 20]),
        state_root: hash32(4),
        transactions_root: hash32(5),
        receipts_root: hash32(6),
        number: Some(7),
        gas_used: U256::from_u64(21000),
        gas_limit: U256::from_u64(30_000_000),
        extra_data: vec![0xde, 0xad],
        logs_bloom: Some(vec![0u8; 256]),
        timestamp: U256::from_u64(1_700_000_000),
        difficulty: U256::from_limbs(vec![9, 8, 0, 0]),
        size: Some(U256::from_u64(1234)),
        mix_hash: Some(hash32(9)),
        nonce: Some(vec![1, 2, 3, 4, 5, 6, 7, 8]),
        base_fee_per_gas: Some(U256::from_u64(100)),
    }
}

#[test]
fn encode_hex_exact() {
    assert_eq!(encode_hex(&vec![0xde, 0xad]), b"0xdead".to_vec());
    assert_eq!(encode_hex(&vec![]), b"0x".to_vec());
    assert_eq!(encode_hex(&vec![0x00, 0x0f, 0xf0]), b"0x000ff0".to_vec());
}

#[test]
fn decode_hex_roundtrip() {
    let bytes = vec![0u8, 1, 2, 0xfe, 0xff, 0x7a];
    assert_eq!(decode_hex(&encode_hex(&bytes)), Some(bytes));
}

#[test]
fn decode_hex_accepts_uppercase() {
    assert_eq!(decode_hex(&b"0xDEAD".to_vec()), Some(vec![0xde, 0xad]));
}

#[test]
fn decode_hex_rejects_bad_text() {
    assert_eq!(decode_hex(&b"dead".to_vec()), None);
    assert_eq!(decode_hex(&b"0xdea".to_vec()), None);
    assert_eq!(decode_hex(&b"0xdeag".to_vec()), None);
    assert_eq!(decode_hex(&b"".to_vec()), None);
}

#[test]
fn row_number_narrowing() {
    assert_eq!(RowNumber::from_u64(5).to_u64(), Some(5));
    assert_eq!(RowNumber::from_u64(u64::MAX).to_u64(), Some(u64::MAX));
    assert_eq!(RowNumber { limbs: vec![] }.to_u64(), Some(0));
    assert_eq!(RowNumber { limbs: vec![3, 0, 0] }.to_u64(), Some(3));
    assert_eq!(RowNumber { limbs: vec![0, 1] }.to_u64(), None);
}

#[test]
fn row_number_u256_roundtrip() {
    let d = U256::from_limbs(vec![1, 2, 3, 4]);
    let n = RowNumber::from_u256(&d);
    assert_eq!(n.to_u256(), Some(d));
    assert_eq!(RowNumber { limbs: vec![0, 0, 0, 0, 1] }.to_u256(), None);
}

#[test]
fn row_le_compares_by_value() {
    let small = RowNumber::from_u64(5);
    let big = RowNumber { limbs: vec![0, 1] };
    let padded = RowNumber { limbs: vec![5, 0, 0] };
    assert!(row_le(&small, &big));
    assert!(!row_le(&big, &small));
    assert!(row_le(&small, &padded));
    assert!(row_le(&padded, &small));
    assert!(row_le(&RowNumber { limbs: vec![7, 1] }, &RowNumber { limbs: vec![2, 2] }));
    assert!(!row_le(&RowNumber { limbs: vec![2, 2] }, &RowNumber { limbs: vec![7, 1] }));
}

#[test]
fn validation_complete_copies_every_field() {
    let raw = full_raw();
    let h = Header::try_from(&raw).expect("all mandatory fields are present");
    assert_eq!(h.hash, hash32(0xaa));
    assert_eq!(h.parent_hash, hash32(1));
    assert_eq!(h.uncles_hash, hash32(2));
    assert_eq!(h.author, vec![3u8; 20]);
    assert_eq!(h.state_root, hash32(4));
    assert_eq!(h.transactions_root, hash32(5));
    assert_eq!(h.receipts_root, hash32(6));
    assert_eq!(h.number, 7);
    assert_eq!(h.gas_used, 21000);
    assert_eq!(h.gas_limit, 30_000_000);
    assert_eq!(h.extra_data, vec![0xde, 0xad]);
    assert_eq!(h.logs_bloom, vec![0u8; 256]);
    assert_eq!(h.timestamp, 1_700_000_000);
    assert_eq!(h.difficulty, U256::from_limbs(vec![9, 8, 0, 0]));
    assert_eq!(h.size, 1234);
    assert_eq!(h.mix_hash, hash32(9));
    assert_eq!(h.nonce, vec![1, 2, 3, 4, 5, 6, 7, 8]);
    assert_eq!(h.base_fee_per_gas, Some(100));
}

#[test]
fn validation_missing_hash() {
    let mut raw = full_raw();
    raw.hash = None;
    assert_eq!(Header::try_from(&raw), Err(InvalidBlockError::MissingHash));
}

#[test]
fn validation_missing_author() {
    let mut raw = full_raw();
    raw.author = None;
    assert_eq!(Header::try_from(&raw), Err(InvalidBlockError::MissingAuthor));
}

#[test]
fn validation_missing_number() {
    let mut raw = full_raw();
    raw.number = None;
    assert_eq!(Header::try_from(&raw), Err(InvalidBlockError::MissingNumber));
}

#[test]
fn validation_missing_logs_bloom() {
    let mut raw = full_raw();
    raw.logs_bloom = None;
    assert_eq!(Header::try_from(&raw), Err(InvalidBlockError::MissingLogsBloom));
}

#[test]
fn validation_missing_size() {
    let mut raw = full_raw();
    raw.size = None;
    assert_eq!(Header::try_from(&raw), Err(InvalidBlockError::MissingSize));
}

#[test]
fn validation_oversize_size_counts_as_missing() {
    let mut raw = full_raw();
    raw.size = Some(U256::from_limbs(vec![0, 1, 0, 0]));
    assert_eq!(Header::try_from(&raw), Err(InvalidBlockError::MissingSize));
}

#[test]
fn validation_missing_mix_hash() {
    let mut raw = full_raw();
    raw.mix_hash = None;
    assert_eq!(Header::try_from(&raw), Err(InvalidBlockError::MissingMixHash));
}

#[test]
fn validation_missing_nonce() {
    let mut raw = full_raw();
    raw.nonce = None;
    assert_eq!(Header::try_from(&raw), Err(InvalidBlockError::MissingNonce));
}

#[test]
fn validation_first_missing_field_wins() {
    let mut raw = full_raw();
    raw.author = None;
    raw.nonce = None;
    assert_eq!(Header::try_from(&raw), Err(InvalidBlockError::MissingAuthor));
}

#[test]
fn validation_absent_base_fee_stays_absent() {
    let mut raw = full_raw();
    raw.base_fee_per_gas = None;
    let h = Header::try_from(&raw).expect("base fee is optional");
    assert_eq!(h.base_fee_per_gas, None);
}

#[test]
fn validation_oversize_base_fee_counts_as_absent() {
    let mut raw = full_raw();
    raw.base_fee_per_gas = Some(U256::from_limbs(vec![0, 2, 0, 0]));
    let h = Header::try_from(&raw).expect("an oversize base fee is treated as absent");
    assert_eq!(h.base_fee_per_gas, None);
}
