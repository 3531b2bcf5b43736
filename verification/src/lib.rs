//! Validated ingestion and persistence of blockchain block headers.
//!
//! A raw block record, in which every structurally optional field may be
//! absent, is checked all-or-nothing into a strictly valid [`Header`]; the
//! header is persisted with idempotent write semantics — the first write of
//! a hash wins — and served back through lookup-by-hash and canonical-head
//! queries, with every stored field validated again on read-back.

#![allow(unused_imports)]

mod header;
mod hextext;
mod numbers;
mod rows;
mod storage;

pub use header::BlockHash;
pub use header::BlockNumber;
pub use header::Head;
pub use header::Header;
pub use header::InvalidBlockError;
pub use header::RawBlock;
pub use hextext::encode_hex;
pub use hextext::decode_hex;
pub use numbers::RowNumber;
pub use numbers::U256;
pub use numbers::row_le;
pub use rows::DBHead;
pub use rows::DBHeader;
pub use rows::ParseDBHeaderError;
pub use storage::HeadStorage;
pub use storage::HeaderStorage;
pub use storage::MemoryStorage;
pub use storage::StorageError;
