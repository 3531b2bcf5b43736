//! The durable row representation of headers, and its read-back validation.
//!
//! A row keeps hash-shaped and byte-string columns as canonical hex text and
//! numeric columns with unbounded precision, so a write never truncates.
//! Reading a row back validates every field independently of the ingestion
//! pass — narrowing an unbounded stored number can fail even for a row that
//! was written correctly, and a row can be edited outside the write path —
//! and the first ill-formed field names its own error.

use vstd::prelude::*;

use crate::header::{spec_head_of, BlockHash, Head, HeadView, Header, HeaderView};
use crate::hextext::{
    copy_bytes, decode_hex, encode_hex, lemma_hex_text_roundtrip, spec_hex_decode, spec_hex_text,
};
use crate::numbers::{lemma_limbs_val_bound, limb_base, pow_base, RowNumber};

verus! {

/// One failure per persisted field, so storage corruption or schema drift
/// is diagnosable field by field rather than as an opaque decode failure.
#[derive(Debug, Clone, Copy, PartialEq, Eq, Structural)]
pub enum ParseDBHeaderError {
    /// The hash column is not well-formed 32-byte hex text.
    HashInvalid,
    /// The parent-hash column is not well-formed 32-byte hex text.
    ParentHashInvalid,
    /// The uncles-hash column is not well-formed 32-byte hex text.
    UnclesHashInvalid,
    /// The number column does not fit 64 bits.
    BlockNumberInvalid,
    /// The timestamp column does not fit 64 bits.
    TimestampInvalid,
    /// The author column is not well-formed 20-byte hex text.
    AuthorInvalid,
    /// The state-root column is not well-formed 32-byte hex text.
    StateRootInvalid,
    /// The transactions-root column is not well-formed 32-byte hex text.
    TransactionRootInvalid,
    /// The receipts-root column is not well-formed 32-byte hex text.
    ReceiptsRootInvalid,
    /// The gas-used column does not fit 64 bits.
    GasUsedInvalid,
    /// The gas-limit column does not fit 64 bits.
    GasLimitInvalid,
    /// The extra-data column is not well-formed hex text.
    ExtraDataInvalid,
    /// The base-fee-per-gas column is present but does not fit 64 bits.
    BaseFeePerGasInvalid,
    /// The logs-bloom column is not well-formed 256-byte hex text.
    LogsBloomInvalid,
    /// The difficulty column does not fit 256 bits.
    DifficultyInvalid,
    /// The size column does not fit 64 bits.
    SizeInvalid,
    /// The mix-hash column is not well-formed 32-byte hex text.
    MixHashInvalid,
    /// The nonce column is not well-formed 8-byte hex text.
    NonceInvalid,
}

/// A stored header row, one column per header field, keyed by `hash`.
#[derive(Debug, Clone, PartialEq, Eq)]
pub struct DBHeader {
    pub hash: Vec<u8>,
    pub parent_hash: Vec<u8>,
    pub uncles_hash: Vec<u8>,
    pub author: Vec<u8>,
    pub state_root: Vec<u8>,
    pub transactions_root: Vec<u8>,
    pub receipts_root: Vec<u8>,
    pub number: RowNumber,
    pub gas_used: RowNumber,
    pub gas_limit: RowNumber,
    pub extra_data: Vec<u8>,
    pub logs_bloom: Vec<u8>,
    pub timestamp: RowNumber,
    pub difficulty: RowNumber,
    pub size: RowNumber,
    pub mix_hash: Vec<u8>,
    pub nonce: Vec<u8>,
    pub base_fee_per_gas: Option<RowNumber>,
}

/// The view of an optional numeric column.
pub open spec fn opt_num_view(o: Option<RowNumber>) -> Option<nat> {
    match o {
        Some(n) => Some(n@),
        None => None,
    }
}

/// The mathematical content of a stored header row.
#[verifier::ext_equal]
pub struct DBHeaderView {
    pub hash: Seq<u8>,
    pub parent_hash: Seq<u8>,
    pub uncles_hash: Seq<u8>,
    pub author: Seq<u8>,
    pub state_root: Seq<u8>,
    pub transactions_root: Seq<u8>,
    pub receipts_root: Seq<u8>,
    pub number: nat,
    pub gas_used: nat,
    pub gas_limit: nat,
    pub extra_data: Seq<u8>,
    pub logs_bloom: Seq<u8>,
    pub timestamp: nat,
    pub difficulty: nat,
    pub size: nat,
    pub mix_hash: Seq<u8>,
    pub nonce: Seq<u8>,
    pub base_fee_per_gas: Option<nat>,
}

impl View for DBHeader {
    type V = DBHeaderView;

    open spec fn view(&self) -> DBHeaderView {
        DBHeaderView {
            hash: self.hash@,
            parent_hash: self.parent_hash@,
            uncles_hash: self.uncles_hash@,
            author: self.author@,
            state_root: self.state_root@,
            transactions_root: self.transactions_root@,
            receipts_root: self.receipts_root@,
            number: self.number@,
            gas_used: self.gas_used@,
            gas_limit: self.gas_limit@,
            extra_data: self.extra_data@,
            logs_bloom: self.logs_bloom@,
            timestamp: self.timestamp@,
            difficulty: self.difficulty@,
            size: self.size@,
            mix_hash: self.mix_hash@,
            nonce: self.nonce@,
            base_fee_per_gas: opt_num_view(self.base_fee_per_gas),
        }
    }
}

/// The row a header is written as: hash-shaped and byte-string fields as
/// canonical hex text, numeric fields at full precision.
pub open spec fn spec_encode_header(h: HeaderView) -> DBHeaderView {
    DBHeaderView {
        hash: spec_hex_text(h.hash),
        parent_hash: spec_hex_text(h.parent_hash),
        uncles_hash: spec_hex_text(h.uncles_hash),
        author: spec_hex_text(h.author),
        state_root: spec_hex_text(h.state_root),
        transactions_root: spec_hex_text(h.transactions_root),
        receipts_root: spec_hex_text(h.receipts_root),
        number: h.number as nat,
        gas_used: h.gas_used as nat,
        gas_limit: h.gas_limit as nat,
        extra_data: spec_hex_text(h.extra_data),
        logs_bloom: spec_hex_text(h.logs_bloom),
        timestamp: h.timestamp as nat,
        difficulty: h.difficulty,
        size: h.size as nat,
        mix_hash: spec_hex_text(h.mix_hash),
        nonce: spec_hex_text(h.nonce),
        base_fee_per_gas: match h.base_fee_per_gas {
            Some(b) => Some(b as nat),
            None => None,
        },
    }
}

/// The field-level validation a row passes on read-back: each column in
/// turn, the first ill-formed one naming its error.
pub open spec fn spec_decode_header(r: DBHeaderView) -> Result<HeaderView, ParseDBHeaderError> {
    if !(spec_hex_decode(r.hash) matches Some(b) && b.len() == 32) {
        Err(ParseDBHeaderError::HashInvalid)
    } else if !(spec_hex_decode(r.parent_hash) matches Some(b) && b.len() == 32) {
        Err(ParseDBHeaderError::ParentHashInvalid)
    } else if !(spec_hex_decode(r.uncles_hash) matches Some(b) && b.len() == 32) {
        Err(ParseDBHeaderError::UnclesHashInvalid)
    } else if !(spec_hex_decode(r.author) matches Some(b) && b.len() == 20) {
        Err(ParseDBHeaderError::AuthorInvalid)
    } else if !(spec_hex_decode(r.state_root) matches Some(b) && b.len() == 32) {
        Err(ParseDBHeaderError::StateRootInvalid)
    } else if !(spec_hex_decode(r.transactions_root) matches Some(b) && b.len() == 32) {
        Err(ParseDBHeaderError::TransactionRootInvalid)
    } else if !(spec_hex_decode(r.receipts_root) matches Some(b) && b.len() == 32) {
        Err(ParseDBHeaderError::ReceiptsRootInvalid)
    } else if r.number >= limb_base() {
        Err(ParseDBHeaderError::BlockNumberInvalid)
    } else if r.gas_used >= limb_base() {
        Err(ParseDBHeaderError::GasUsedInvalid)
    } else if r.gas_limit >= limb_base() {
        Err(ParseDBHeaderError::GasLimitInvalid)
    } else if spec_hex_decode(r.extra_data) is None {
        Err(ParseDBHeaderError::ExtraDataInvalid)
    } else if !(spec_hex_decode(r.logs_bloom) matches Some(b) && b.len() == 256) {
        Err(ParseDBHeaderError::LogsBloomInvalid)
    } else if r.timestamp >= limb_base() {
        Err(ParseDBHeaderError::TimestampInvalid)
    } else if r.difficulty >= pow_base(4) {
        Err(ParseDBHeaderError::DifficultyInvalid)
    } else if r.size >= limb_base() {
        Err(ParseDBHeaderError::SizeInvalid)
    } else if !(spec_hex_decode(r.mix_hash) matches Some(b) && b.len() == 32) {
        Err(ParseDBHeaderError::MixHashInvalid)
    } else if !(spec_hex_decode(r.nonce) matches Some(b) && b.len() == 8) {
        Err(ParseDBHeaderError::NonceInvalid)
    } else if r.base_fee_per_gas matches Some(b) && b >= limb_base() {
        Err(ParseDBHeaderError::BaseFeePerGasInvalid)
    } else {
        Ok(
            HeaderView {
                hash: spec_hex_decode(r.hash).unwrap(),
                parent_hash: spec_hex_decode(r.parent_hash).unwrap(),
                uncles_hash: spec_hex_decode(r.uncles_hash).unwrap(),
                author: spec_hex_decode(r.author).unwrap(),
                state_root: spec_hex_decode(r.state_root).unwrap(),
                transactions_root: spec_hex_decode(r.transactions_root).unwrap(),
                receipts_root: spec_hex_decode(r.receipts_root).unwrap(),
                number: r.number as u64,
                gas_used: r.gas_used as u64,
                gas_limit: r.gas_limit as u64,
                extra_data: spec_hex_decode(r.extra_data).unwrap(),
                logs_bloom: spec_hex_decode(r.logs_bloom).unwrap(),
                timestamp: r.timestamp as u64,
                difficulty: r.difficulty,
                size: r.size as u64,
                mix_hash: spec_hex_decode(r.mix_hash).unwrap(),
                nonce: spec_hex_decode(r.nonce).unwrap(),
                base_fee_per_gas: match r.base_fee_per_gas {
                    Some(b) => Some(b as u64),
                    None => None,
                },
            },
        )
    }
}

impl DBHeader {
    /// Encodes a validated header as its stored row. Total for a
    /// well-formed header: nothing is truncated on the way in.
    pub fn from_header(h: &Header) -> (r: DBHeader)
        requires
            h.wf(),
        ensures
            r@ == spec_encode_header(h@),
    {
        let r = DBHeader {
            hash: encode_hex(&h.hash.bytes),
            parent_hash: encode_hex(&h.parent_hash.bytes),
            uncles_hash: encode_hex(&h.uncles_hash.bytes),
            author: encode_hex(&h.author),
            state_root: encode_hex(&h.state_root.bytes),
            transactions_root: encode_hex(&h.transactions_root.bytes),
            receipts_root: encode_hex(&h.receipts_root.bytes),
            number: RowNumber::from_u64(h.number),
            gas_used: RowNumber::from_u64(h.gas_used),
            gas_limit: RowNumber::from_u64(h.gas_limit),
            extra_data: encode_hex(&h.extra_data),
            logs_bloom: encode_hex(&h.logs_bloom),
            timestamp: RowNumber::from_u64(h.timestamp),
            difficulty: RowNumber::from_u256(&h.difficulty),
            size: RowNumber::from_u64(h.size),
            mix_hash: encode_hex(&h.mix_hash.bytes),
            nonce: encode_hex(&h.nonce),
            base_fee_per_gas: match h.base_fee_per_gas {
                Some(b) => Some(RowNumber::from_u64(b)),
                None => None,
            },
        };
        proof {
            assert(r@ =~= spec_encode_header(h@));
        }
        r
    }
}

impl Header {
    /// Reads a stored row back into a header, validating every field and
    /// naming the first ill-formed one. A numeric column out of its target
    /// width is an error, never a silent truncation.
    pub fn try_from_row(row: &DBHeader) -> (r: Result<Header, ParseDBHeaderError>)
        ensures
            match r {
                Ok(h) => h.wf() && spec_decode_header(row@) == Ok::<
                    HeaderView,
                    ParseDBHeaderError,
                >(h@),
                Err(e) => spec_decode_header(row@) == Err::<HeaderView, ParseDBHeaderError>(e),
            },
    {
        let hash_bytes = match decode_hex(&row.hash) {
            Some(b) => b,
            None => {
                return Err(ParseDBHeaderError::HashInvalid);
            },
        };
        if hash_bytes.len() != 32 {
            return Err(ParseDBHeaderError::HashInvalid);
        }
        let parent_bytes = match decode_hex(&row.parent_hash) {
            Some(b) => b,
            None => {
                return Err(ParseDBHeaderError::ParentHashInvalid);
            },
        };
        if parent_bytes.len() != 32 {
            return Err(ParseDBHeaderError::ParentHashInvalid);
        }
        let uncles_bytes = match decode_hex(&row.uncles_hash) {
            Some(b) => b,
            None => {
                return Err(ParseDBHeaderError::UnclesHashInvalid);
            },
        };
        if uncles_bytes.len() != 32 {
            return Err(ParseDBHeaderError::UnclesHashInvalid);
        }
        let author = match decode_hex(&row.author) {
            Some(b) => b,
            None => {
                return Err(ParseDBHeaderError::AuthorInvalid);
            },
        };
        if author.len() != 20 {
            return Err(ParseDBHeaderError::AuthorInvalid);
        }
        let state_bytes = match decode_hex(&row.state_root) {
            Some(b) => b,
            None => {
                return Err(ParseDBHeaderError::StateRootInvalid);
            },
        };
        if state_bytes.len() != 32 {
            return Err(ParseDBHeaderError::StateRootInvalid);
        }
        let tx_bytes = match decode_hex(&row.transactions_root) {
            Some(b) => b,
            None => {
                return Err(ParseDBHeaderError::TransactionRootInvalid);
            },
        };
        if tx_bytes.len() != 32 {
            return Err(ParseDBHeaderError::TransactionRootInvalid);
        }
        let receipts_bytes = match decode_hex(&row.receipts_root) {
            Some(b) => b,
            None => {
                return Err(ParseDBHeaderError::ReceiptsRootInvalid);
            },
        };
        if receipts_bytes.len() != 32 {
            return Err(ParseDBHeaderError::ReceiptsRootInvalid);
        }
        let number = match row.number.to_u64() {
            Some(n) => n,
            None => {
                return Err(ParseDBHeaderError::BlockNumberInvalid);
            },
        };
        let gas_used = match row.gas_used.to_u64() {
            Some(n) => n,
            None => {
                return Err(ParseDBHeaderError::GasUsedInvalid);
            },
        };
        let gas_limit = match row.gas_limit.to_u64() {
            Some(n) => n,
            None => {
                return Err(ParseDBHeaderError::GasLimitInvalid);
            },
        };
        let extra_data = match decode_hex(&row.extra_data) {
            Some(b) => b,
            None => {
                return Err(ParseDBHeaderError::ExtraDataInvalid);
            },
        };
        let logs_bloom = match decode_hex(&row.logs_bloom) {
            Some(b) => b,
            None => {
                return Err(ParseDBHeaderError::LogsBloomInvalid);
            },
        };
        if logs_bloom.len() != 256 {
            return Err(ParseDBHeaderError::LogsBloomInvalid);
        }
        let timestamp = match row.timestamp.to_u64() {
            Some(n) => n,
            None => {
                return Err(ParseDBHeaderError::TimestampInvalid);
            },
        };
        let difficulty = match row.difficulty.to_u256() {
            Some(d) => d,
            None => {
                return Err(ParseDBHeaderError::DifficultyInvalid);
            },
        };
        proof {
            lemma_limbs_val_bound(difficulty.limbs@);
        }
        let size = match row.size.to_u64() {
            Some(n) => n,
            None => {
                return Err(ParseDBHeaderError::SizeInvalid);
            },
        };
        let mix_bytes = match decode_hex(&row.mix_hash) {
            Some(b) => b,
            None => {
                return Err(ParseDBHeaderError::MixHashInvalid);
            },
        };
        if mix_bytes.len() != 32 {
            return Err(ParseDBHeaderError::MixHashInvalid);
        }
        let nonce = match decode_hex(&row.nonce) {
            Some(b) => b,
            None => {
                return Err(ParseDBHeaderError::NonceInvalid);
            },
        };
        if nonce.len() != 8 {
            return Err(ParseDBHeaderError::NonceInvalid);
        }
        let base_fee_per_gas = match &row.base_fee_per_gas {
            Some(b) => match b.to_u64() {
                Some(v) => Some(v),
                None => {
                    return Err(ParseDBHeaderError::BaseFeePerGasInvalid);
                },
            },
            None => None,
        };
        let h = Header {
            hash: BlockHash::from_bytes(hash_bytes),
            parent_hash: BlockHash::from_bytes(parent_bytes),
            uncles_hash: BlockHash::from_bytes(uncles_bytes),
            author,
            state_root: BlockHash::from_bytes(state_bytes),
            transactions_root: BlockHash::from_bytes(tx_bytes),
            receipts_root: BlockHash::from_bytes(receipts_bytes),
            number,
            gas_used,
            gas_limit,
            extra_data,
            logs_bloom,
            timestamp,
            difficulty,
            size,
            mix_hash: BlockHash::from_bytes(mix_bytes),
            nonce,
            base_fee_per_gas,
        };
        proof {
            lemma_limbs_val_bound(h.difficulty.limbs@);
            let sv = spec_decode_header(row@);
            assert(sv is Ok);
            assert(h@ =~= sv->Ok_0);
        }
        Ok(h)
    }
}

/// The head columns of a stored header row: hash, number, parent hash,
/// timestamp.
pub open spec fn spec_head_row(r: DBHeaderView) -> DBHeadView {
    DBHeadView { hash: r.hash, number: r.number, parent_hash: r.parent_hash, timestamp: r.timestamp }
}

/// The head columns read from a stored header row.
#[derive(Debug, Clone, PartialEq, Eq)]
pub struct DBHead {
    pub hash: Vec<u8>,
    pub number: RowNumber,
    pub parent_hash: Vec<u8>,
    pub timestamp: RowNumber,
}

/// The mathematical content of a head row.
#[verifier::ext_equal]
pub struct DBHeadView {
    pub hash: Seq<u8>,
    pub number: nat,
    pub parent_hash: Seq<u8>,
    pub timestamp: nat,
}

impl View for DBHead {
    type V = DBHeadView;

    open spec fn view(&self) -> DBHeadView {
        DBHeadView {
            hash: self.hash@,
            number: self.number@,
            parent_hash: self.parent_hash@,
            timestamp: self.timestamp@,
        }
    }
}

impl DBHead {
    /// Projects a stored header row to its head columns.
    pub fn from_row(row: &DBHeader) -> (r: DBHead)
        ensures
            r@ == spec_head_row(row@),
    {
        let r = DBHead {
            hash: copy_bytes(&row.hash),
            number: row.number.duplicate(),
            parent_hash: copy_bytes(&row.parent_hash),
            timestamp: row.timestamp.duplicate(),
        };
        proof {
            assert(r@ =~= spec_head_row(row@));
        }
        r
    }
}

/// The field-level validation of the head columns on read-back: hash,
/// number, parent hash, timestamp, in that order.
pub open spec fn spec_decode_head(r: DBHeadView) -> Result<HeadView, ParseDBHeaderError> {
    if !(spec_hex_decode(r.hash) matches Some(b) && b.len() == 32) {
        Err(ParseDBHeaderError::HashInvalid)
    } else if r.number >= limb_base() {
        Err(ParseDBHeaderError::BlockNumberInvalid)
    } else if !(spec_hex_decode(r.parent_hash) matches Some(b) && b.len() == 32) {
        Err(ParseDBHeaderError::ParentHashInvalid)
    } else if r.timestamp >= limb_base() {
        Err(ParseDBHeaderError::TimestampInvalid)
    } else {
        Ok(
            HeadView {
                hash: spec_hex_decode(r.hash).unwrap(),
                number: r.number as u64,
                parent_hash: spec_hex_decode(r.parent_hash).unwrap(),
                timestamp: r.timestamp as u64,
            },
        )
    }
}

impl Head {
    /// Reads head columns back, validating each field in turn.
    pub fn try_from(head: &DBHead) -> (r: Result<Head, ParseDBHeaderError>)
        ensures
            match r {
                Ok(h) => h.wf() && spec_decode_head(head@) == Ok::<HeadView, ParseDBHeaderError>(
                    h@,
                ),
                Err(e) => spec_decode_head(head@) == Err::<HeadView, ParseDBHeaderError>(e),
            },
    {
        let hash_bytes = match decode_hex(&head.hash) {
            Some(b) => b,
            None => {
                return Err(ParseDBHeaderError::HashInvalid);
            },
        };
        if hash_bytes.len() != 32 {
            return Err(ParseDBHeaderError::HashInvalid);
        }
        let number = match head.number.to_u64() {
            Some(n) => n,
            None => {
                return Err(ParseDBHeaderError::BlockNumberInvalid);
            },
        };
        let parent_bytes = match decode_hex(&head.parent_hash) {
            Some(b) => b,
            None => {
                return Err(ParseDBHeaderError::ParentHashInvalid);
            },
        };
        if parent_bytes.len() != 32 {
            return Err(ParseDBHeaderError::ParentHashInvalid);
        }
        let timestamp = match head.timestamp.to_u64() {
            Some(n) => n,
            None => {
                return Err(ParseDBHeaderError::TimestampInvalid);
            },
        };
        let h = Head {
            hash: BlockHash::from_bytes(hash_bytes),
            number,
            parent_hash: BlockHash::from_bytes(parent_bytes),
            timestamp,
        };
        proof {
            let sv = spec_decode_head(head@);
            assert(sv is Ok);
            assert(h@ =~= sv->Ok_0);
        }
        Ok(h)
    }
}

/// Law: a row written from a well-formed header reads back as exactly that
/// header, field for field, including presence or absence of the base fee.
pub proof fn lemma_row_roundtrip(h: HeaderView)
    requires
        h.wf(),
    ensures
        spec_decode_header(spec_encode_header(h)) == Ok::<HeaderView, ParseDBHeaderError>(h),
{
    lemma_hex_text_roundtrip(h.hash);
    lemma_hex_text_roundtrip(h.parent_hash);
    lemma_hex_text_roundtrip(h.uncles_hash);
    lemma_hex_text_roundtrip(h.author);
    lemma_hex_text_roundtrip(h.state_root);
    lemma_hex_text_roundtrip(h.transactions_root);
    lemma_hex_text_roundtrip(h.receipts_root);
    lemma_hex_text_roundtrip(h.extra_data);
    lemma_hex_text_roundtrip(h.logs_bloom);
    lemma_hex_text_roundtrip(h.mix_hash);
    lemma_hex_text_roundtrip(h.nonce);
    let d = spec_decode_header(spec_encode_header(h));
    assert(d is Ok);
    assert(d->Ok_0 =~= h);
}

/// Law: the head columns of a row written from a well-formed header read
/// back as exactly that header's head projection.
pub proof fn lemma_head_row_roundtrip(h: HeaderView)
    requires
        h.wf(),
    ensures
        spec_decode_head(spec_head_row(spec_encode_header(h))) == Ok::<
            HeadView,
            ParseDBHeaderError,
        >(spec_head_of(h)),
{
    lemma_hex_text_roundtrip(h.hash);
    lemma_hex_text_roundtrip(h.parent_hash);
    let d = spec_decode_head(spec_head_row(spec_encode_header(h)));
    assert(d is Ok);
    assert(d->Ok_0 =~= spec_head_of(h));
}

} // verus!
