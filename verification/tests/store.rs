//! The in-memory store: idempotent saves, lookups, head resolution, and
//! field-level row validation on read-back.

use headstore::{
    BlockHash, DBHead, DBHeader, Head, HeadStorage, Header, HeaderStorage, MemoryStorage,
    ParseDBHeaderError, RawBlock, RowNumber, StorageError, U256,
};

fn hash32(b: u8) -> BlockHash {
    BlockHash::from_bytes(vec![b; 32])
}

fn header(number: u64, hash_byte: u8) -> Header {
    let raw = RawBlock {
        hash: Some(hash32(hash_byte)),
        parent_hash: hash32(1),
        uncles_hash: hash32(2),
        author: Some(vec![3u8; 20]),
        state_root: hash32(4),
        transactions_root: hash32(5),
        receipts_root: hash32(6),
        number: Some(number),
        gas_used: U256::from_u64(21000),
        gas_limit: U256::from_u64(30_000_000),
        extra_data: vec![0xde, 0xad, 0xbe, 0xef],
        logs_bloom: Some(vec![7u8; 256]),
        timestamp: U256::from_u64(1_600_000_000 + number),
        difficulty: U256::from_limbs(vec![9, 8, 7, 6]),
        size: Some(U256::from_u64(4096)),
        mix_hash: Some(hash32(9)),
        nonce: Some(vec![1, 2, 3, 4, 5, 6, 7, 8]),
        base_fee_per_gas: if number % 2 == 0 { Some(U256::from_u64(100)) } else { None },
    };
    Header::try_from(&raw).expect("the raw record is complete")
}

#[test]
fn empty_store_is_empty() {
    let store = MemoryStorage::new();
    assert_eq!(store.head(), Ok(None));
    assert_eq!(store.header_by_hash(hash32(0x11)), Ok(None));
    assert_eq!(store.header_by_hash(hash32(0x00)), Ok(None));
}

#[test]
fn save_then_lookup_roundtrip() {
    let mut store = MemoryStorage::new();
    let h = header(42, 0xaa);
    store.save_header(h.clone()).unwrap();
    let got = store.header_by_hash(hash32(0xaa)).unwrap().expect("the header was saved");
    assert_eq!(got, h);
    assert_eq!(got.base_fee_per_gas, Some(100));
}

#[test]
fn save_then_lookup_roundtrip_without_base_fee() {
    let mut store = MemoryStorage::new();
    let h = header(43, 0xab);
    assert_eq!(h.base_fee_per_gas, None);
    store.save_header(h.clone()).unwrap();
    let got = store.header_by_hash(hash32(0xab)).unwrap().expect("the header was saved");
    assert_eq!(got, h);
    assert_eq!(got.base_fee_per_gas, None);
}

#[test]
fn lookup_of_other_hash_is_empty() {
    let mut store = MemoryStorage::new();
    store.save_header(header(42, 0xaa)).unwrap();
    assert_eq!(store.header_by_hash(hash32(0xbb)), Ok(None));
}

#[test]
fn save_is_idempotent() {
    let mut store = MemoryStorage::new();
    let h = header(42, 0xaa);
    store.save_header(h.clone()).unwrap();
    store.save_header(h.clone()).unwrap();
    assert_eq!(store.header_by_hash(hash32(0xaa)).unwrap(), Some(h));
}

#[test]
fn first_write_wins_on_hash_conflict() {
    let mut store = MemoryStorage::new();
    let first = header(42, 0xaa);
    let mut later = header(43, 0xbb);
    later.hash = hash32(0xaa);
    store.save_header(first.clone()).unwrap();
    store.save_header(later).unwrap();
    assert_eq!(store.header_by_hash(hash32(0xaa)).unwrap(), Some(first));
}

#[test]
fn head_picks_greatest_number() {
    let orders: Vec<Vec<u64>> = vec![vec![5, 12, 7], vec![12, 5, 7], vec![7, 5, 12]];
    for order in orders {
        let mut store = MemoryStorage::new();
        for n in order {
            store.save_header(header(n, n as u8)).unwrap();
        }
        let head = store.head().unwrap().expect("the store is not empty");
        assert_eq!(head.number, 12);
        let twelve = header(12, 12);
        let expected = Head {
            hash: twelve.hash.clone(),
            number: twelve.number,
            parent_hash: twelve.parent_hash.clone(),
            timestamp: twelve.timestamp,
        };
        assert_eq!(head, expected);
    }
}

#[test]
fn oversize_stored_number_is_an_error_not_a_truncation() {
    let mut row = DBHeader::from_header(&header(42, 0xaa));
    row.number = RowNumber { limbs: vec![0, 1] };
    let store = MemoryStorage::from_rows(vec![row]);
    assert_eq!(
        store.header_by_hash(hash32(0xaa)),
        Err(StorageError::Parse(ParseDBHeaderError::BlockNumberInvalid))
    );
}

#[test]
fn oversize_stored_gas_used_names_its_field() {
    let mut row = DBHeader::from_header(&header(42, 0xaa));
    row.gas_used = RowNumber { limbs: vec![5, 5] };
    assert_eq!(Header::try_from_row(&row), Err(ParseDBHeaderError::GasUsedInvalid));
}

#[test]
fn oversize_stored_gas_limit_names_its_field() {
    let mut row = DBHeader::from_header(&header(42, 0xaa));
    row.gas_limit = RowNumber { limbs: vec![5, 5] };
    assert_eq!(Header::try_from_row(&row), Err(ParseDBHeaderError::GasLimitInvalid));
}

#[test]
fn oversize_stored_timestamp_names_its_field() {
    let mut row = DBHeader::from_header(&header(42, 0xaa));
    row.timestamp = RowNumber { limbs: vec![5, 5] };
    assert_eq!(Header::try_from_row(&row), Err(ParseDBHeaderError::TimestampInvalid));
}

#[test]
fn oversize_stored_difficulty_names_its_field() {
    let mut row = DBHeader::from_header(&header(42, 0xaa));
    row.difficulty = RowNumber { limbs: vec![0, 0, 0, 0, 1] };
    assert_eq!(Header::try_from_row(&row), Err(ParseDBHeaderError::DifficultyInvalid));
}

#[test]
fn oversize_stored_size_names_its_field() {
    let mut row = DBHeader::from_header(&header(42, 0xaa));
    row.size = RowNumber { limbs: vec![5, 5] };
    assert_eq!(Header::try_from_row(&row), Err(ParseDBHeaderError::SizeInvalid));
}

#[test]
fn oversize_stored_base_fee_names_its_field() {
    let mut row = DBHeader::from_header(&header(42, 0xaa));
    row.base_fee_per_gas = Some(RowNumber { limbs: vec![5, 5] });
    assert_eq!(Header::try_from_row(&row), Err(ParseDBHeaderError::BaseFeePerGasInvalid));
}

#[test]
fn corrupt_stored_hash_names_its_field() {
    let mut row = DBHeader::from_header(&header(42, 0xaa));
    row.hash = b"0xzz".to_vec();
    assert_eq!(Header::try_from_row(&row), Err(ParseDBHeaderError::HashInvalid));
}

#[test]
fn corrupt_stored_author_names_its_field() {
    let mut row = DBHeader::from_header(&header(42, 0xaa));
    row.author = b"0xdead".to_vec();
    assert_eq!(Header::try_from_row(&row), Err(ParseDBHeaderError::AuthorInvalid));
}

#[test]
fn corrupt_stored_bloom_names_its_field() {
    let mut row = DBHeader::from_header(&header(42, 0xaa));
    row.logs_bloom = b"0xdead".to_vec();
    assert_eq!(Header::try_from_row(&row), Err(ParseDBHeaderError::LogsBloomInvalid));
}

#[test]
fn corrupt_head_row_surfaces_through_head_query() {
    let mut row = DBHeader::from_header(&header(42, 0xaa));
    row.number = RowNumber { limbs: vec![0, 9] };
    let store = MemoryStorage::from_rows(vec![row]);
    assert_eq!(
        store.head(),
        Err(StorageError::Parse(ParseDBHeaderError::BlockNumberInvalid))
    );
}

#[test]
fn head_row_decodes_head_columns() {
    let h = header(42, 0xaa);
    let row = DBHeader::from_header(&h);
    let db_head = DBHead::from_row(&row);
    let got = Head::try_from(&db_head).expect("the row was written from a valid header");
    assert_eq!(got.hash, h.hash);
    assert_eq!(got.number, h.number);
    assert_eq!(got.parent_hash, h.parent_hash);
    assert_eq!(got.timestamp, h.timestamp);
}

#[test]
fn head_projection_copies_fields() {
    let h = header(42, 0xaa);
    let head = Head::from(&h);
    assert_eq!(head.hash, h.hash);
    assert_eq!(head.number, h.number);
    assert_eq!(head.parent_hash, h.parent_hash);
    assert_eq!(head.timestamp, h.timestamp);
}
