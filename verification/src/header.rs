//! Block header entities and the raw-to-entity validator.
//!
//! A raw block record, in which every structurally optional field may be
//! absent, is converted all-or-nothing into a fully populated [`Header`], or
//! rejected with the first missing mandatory field. [`Head`] is the minimal
//! projection of a header that names the chain's tip.

use vstd::prelude::*;

use crate::hextext::copy_bytes;
use crate::numbers::{lemma_limbs_val_bound, limb_base, pow_base, U256};

verus! {

/// A block number: unsigned, 64 bits.
pub type BlockNumber = u64;

/// A 32-byte content identifier; equality is byte equality.
#[derive(Debug, Clone, PartialEq, Eq)]
pub struct BlockHash {
    pub bytes: Vec<u8>,
}

impl View for BlockHash {
    type V = Seq<u8>;

    open spec fn view(&self) -> Seq<u8> {
        self.bytes@
    }
}

impl BlockHash {
    /// Exactly 32 bytes.
    pub open spec fn wf(&self) -> bool {
        self.bytes@.len() == 32
    }

    /// A hash from its 32 bytes.
    pub fn from_bytes(bytes: Vec<u8>) -> (r: BlockHash)
        requires
            bytes@.len() == 32,
        ensures
            r.wf(),
            r@ == bytes@,
    {
        BlockHash { bytes }
    }

    /// A copy of the hash.
    pub fn duplicate(&self) -> (r: BlockHash)
        ensures
            r@ == self@,
    {
        BlockHash { bytes: copy_bytes(&self.bytes) }
    }
}

/// The mathematical content of a header, field for field.
#[verifier::ext_equal]
pub struct HeaderView {
    pub hash: Seq<u8>,
    pub parent_hash: Seq<u8>,
    pub uncles_hash: Seq<u8>,
    pub author: Seq<u8>,
    pub state_root: Seq<u8>,
    pub transactions_root: Seq<u8>,
    pub receipts_root: Seq<u8>,
    pub number: u64,
    pub gas_used: u64,
    pub gas_limit: u64,
    pub extra_data: Seq<u8>,
    pub logs_bloom: Seq<u8>,
    pub timestamp: u64,
    pub difficulty: nat,
    pub size: u64,
    pub mix_hash: Seq<u8>,
    pub nonce: Seq<u8>,
    pub base_fee_per_gas: Option<u64>,
}

impl HeaderView {
    /// Field shapes of a valid header: fixed widths, difficulty below 2^256.
    pub open spec fn wf(self) -> bool {
        &&& self.hash.len() == 32
        &&& self.parent_hash.len() == 32
        &&& self.uncles_hash.len() == 32
        &&& self.author.len() == 20
        &&& self.state_root.len() == 32
        &&& self.transactions_root.len() == 32
        &&& self.receipts_root.len() == 32
        &&& self.logs_bloom.len() == 256
        &&& self.mix_hash.len() == 32
        &&& self.nonce.len() == 8
        &&& self.difficulty < pow_base(4)
    }
}

/// A block header: the full structural record of a block's metadata,
/// constructed once by validation and immutable thereafter.
#[derive(Debug, Clone, PartialEq, Eq)]
pub struct Header {
    /// Hash of the block.
    pub hash: BlockHash,
    /// Hash of the parent.
    pub parent_hash: BlockHash,
    /// Hash of the uncles.
    pub uncles_hash: BlockHash,
    /// Miner/author's address, 20 bytes.
    pub author: Vec<u8>,
    /// State root hash.
    pub state_root: BlockHash,
    /// Transactions root hash.
    pub transactions_root: BlockHash,
    /// Transaction receipts root hash.
    pub receipts_root: BlockHash,
    /// Block number.
    pub number: BlockNumber,
    /// Gas used.
    pub gas_used: u64,
    /// Gas limit.
    pub gas_limit: u64,
    /// Extra data, variable length.
    pub extra_data: Vec<u8>,
    /// Logs bloom, a 256-byte bitmap.
    pub logs_bloom: Vec<u8>,
    /// Timestamp, unix seconds.
    pub timestamp: u64,
    /// Difficulty, a 256-bit unsigned integer.
    pub difficulty: U256,
    /// Size in bytes.
    pub size: u64,
    /// Mix hash.
    pub mix_hash: BlockHash,
    /// Nonce, 8 bytes.
    pub nonce: Vec<u8>,
    /// Base fee per unit of gas, present only past the fee-market upgrade.
    pub base_fee_per_gas: Option<u64>,
}

impl View for Header {
    type V = HeaderView;

    open spec fn view(&self) -> HeaderView {
        HeaderView {
            hash: self.hash@,
            parent_hash: self.parent_hash@,
            uncles_hash: self.uncles_hash@,
            author: self.author@,
            state_root: self.state_root@,
            transactions_root: self.transactions_root@,
            receipts_root: self.receipts_root@,
            number: self.number,
            gas_used: self.gas_used,
            gas_limit: self.gas_limit,
            extra_data: self.extra_data@,
            logs_bloom: self.logs_bloom@,
            timestamp: self.timestamp,
            difficulty: self.difficulty@,
            size: self.size,
            mix_hash: self.mix_hash@,
            nonce: self.nonce@,
            base_fee_per_gas: self.base_fee_per_gas,
        }
    }
}

/// The mathematical content of a head projection.
#[verifier::ext_equal]
pub struct HeadView {
    pub hash: Seq<u8>,
    pub number: u64,
    pub parent_hash: Seq<u8>,
    pub timestamp: u64,
}

/// The head a header projects to: hash, number, parent hash, timestamp.
pub open spec fn spec_head_of(h: HeaderView) -> HeadView {
    HeadView { hash: h.hash, number: h.number, parent_hash: h.parent_hash, timestamp: h.timestamp }
}

/// The chain's current known tip: a minimal projection of a header,
/// recomputed on demand and never independently persisted.
#[derive(Debug, Clone, PartialEq, Eq)]
pub struct Head {
    /// Block hash.
    pub hash: BlockHash,
    /// Block number.
    pub number: BlockNumber,
    /// Parent hash.
    pub parent_hash: BlockHash,
    /// Timestamp.
    pub timestamp: u64,
}

impl View for Head {
    type V = HeadView;

    open spec fn view(&self) -> HeadView {
        HeadView {
            hash: self.hash@,
            number: self.number,
            parent_hash: self.parent_hash@,
            timestamp: self.timestamp,
        }
    }
}

impl Head {
    /// Both hashes are 32 bytes.
    pub open spec fn wf(&self) -> bool {
        self.hash.wf() && self.parent_hash.wf()
    }

    /// Projects a header to its head: hash, number, parent hash, timestamp.
    pub fn from(header: &Header) -> (r: Head)
        ensures
            r@ == spec_head_of(header@),
    {
        let r = Head {
            hash: header.hash.duplicate(),
            number: header.number,
            parent_hash: header.parent_hash.duplicate(),
            timestamp: header.timestamp,
        };
        proof {
            assert(r@ =~= spec_head_of(header@));
        }
        r
    }
}

impl Header {
    /// Well-formed: every fixed-width field has its shape.
    pub open spec fn wf(&self) -> bool {
        self.difficulty.wf() && self@.wf()
    }
}

/// The first mandatory field found absent when validating a raw block.
#[derive(Debug, Clone, Copy, PartialEq, Eq, Structural)]
pub enum InvalidBlockError {
    /// Block missing hash.
    MissingHash,
    /// Block missing author.
    MissingAuthor,
    /// Block missing number.
    MissingNumber,
    /// Block missing logs bloom.
    MissingLogsBloom,
    /// Block missing size.
    MissingSize,
    /// Block missing mix hash.
    MissingMixHash,
    /// Block missing nonce.
    MissingNonce,
}

/// A raw block record as the chain data source supplies it: every field a
/// pending or partially materialized block may omit is optional.
#[derive(Debug, Clone, PartialEq, Eq)]
pub struct RawBlock {
    pub hash: Option<BlockHash>,
    pub parent_hash: BlockHash,
    pub uncles_hash: BlockHash,
    pub author: Option<Vec<u8>>,
    pub state_root: BlockHash,
    pub transactions_root: BlockHash,
    pub receipts_root: BlockHash,
    pub number: Option<u64>,
    pub gas_used: U256,
    pub gas_limit: U256,
    pub extra_data: Vec<u8>,
    pub logs_bloom: Option<Vec<u8>>,
    pub timestamp: U256,
    pub difficulty: U256,
    pub size: Option<U256>,
    pub mix_hash: Option<BlockHash>,
    pub nonce: Option<Vec<u8>>,
    pub base_fee_per_gas: Option<U256>,
}

/// The view of an optional hash field.
pub open spec fn opt_hash_view(o: Option<BlockHash>) -> Option<Seq<u8>> {
    match o {
        Some(h) => Some(h@),
        None => None,
    }
}

/// The view of an optional byte-string field.
pub open spec fn opt_bytes_view(o: Option<Vec<u8>>) -> Option<Seq<u8>> {
    match o {
        Some(b) => Some(b@),
        None => None,
    }
}

/// The view of an optional 256-bit field.
pub open spec fn opt_u256_view(o: Option<U256>) -> Option<nat> {
    match o {
        Some(x) => Some(x@),
        None => None,
    }
}

/// The mathematical content of a raw block record.
#[verifier::ext_equal]
pub struct RawBlockView {
    pub hash: Option<Seq<u8>>,
    pub parent_hash: Seq<u8>,
    pub uncles_hash: Seq<u8>,
    pub author: Option<Seq<u8>>,
    pub state_root: Seq<u8>,
    pub transactions_root: Seq<u8>,
    pub receipts_root: Seq<u8>,
    pub number: Option<u64>,
    pub gas_used: nat,
    pub gas_limit: nat,
    pub extra_data: Seq<u8>,
    pub logs_bloom: Option<Seq<u8>>,
    pub timestamp: nat,
    pub difficulty: nat,
    pub size: Option<nat>,
    pub mix_hash: Option<Seq<u8>>,
    pub nonce: Option<Seq<u8>>,
    pub base_fee_per_gas: Option<nat>,
}

impl View for RawBlock {
    type V = RawBlockView;

    open spec fn view(&self) -> RawBlockView {
        RawBlockView {
            hash: opt_hash_view(self.hash),
            parent_hash: self.parent_hash@,
            uncles_hash: self.uncles_hash@,
            author: opt_bytes_view(self.author),
            state_root: self.state_root@,
            transactions_root: self.transactions_root@,
            receipts_root: self.receipts_root@,
            number: self.number,
            gas_used: self.gas_used@,
            gas_limit: self.gas_limit@,
            extra_data: self.extra_data@,
            logs_bloom: opt_bytes_view(self.logs_bloom),
            timestamp: self.timestamp@,
            difficulty: self.difficulty@,
            size: opt_u256_view(self.size),
            mix_hash: opt_hash_view(self.mix_hash),
            nonce: opt_bytes_view(self.nonce),
            base_fee_per_gas: opt_u256_view(self.base_fee_per_gas),
        }
    }
}

impl RawBlock {
    /// Field shapes of a well-formed raw record: every present fixed-width
    /// field has its width.
    pub open spec fn wf(&self) -> bool {
        &&& (self.hash matches Some(h) ==> h.wf())
        &&& self.parent_hash.wf()
        &&& self.uncles_hash.wf()
        &&& (self.author matches Some(a) ==> a@.len() == 20)
        &&& self.state_root.wf()
        &&& self.transactions_root.wf()
        &&& self.receipts_root.wf()
        &&& self.gas_used.wf()
        &&& self.gas_limit.wf()
        &&& (self.logs_bloom matches Some(b) ==> b@.len() == 256)
        &&& self.timestamp.wf()
        &&& self.difficulty.wf()
        &&& (self.size matches Some(s) ==> s.wf())
        &&& (self.mix_hash matches Some(m) ==> m.wf())
        &&& (self.nonce matches Some(n) ==> n@.len() == 8)
        &&& (self.base_fee_per_gas matches Some(b) ==> b.wf())
    }
}

/// All-or-nothing validation of a raw record: a complete header, or exactly
/// the first absent mandatory field. A size or base-fee value that does not
/// fit 64 bits counts the same as an absent one.
pub open spec fn spec_validate(raw: RawBlockView) -> Result<HeaderView, InvalidBlockError> {
    if raw.hash is None {
        Err(InvalidBlockError::MissingHash)
    } else if raw.author is None {
        Err(InvalidBlockError::MissingAuthor)
    } else if raw.number is None {
        Err(InvalidBlockError::MissingNumber)
    } else if raw.logs_bloom is None {
        Err(InvalidBlockError::MissingLogsBloom)
    } else if raw.size is None || raw.size.unwrap() >= limb_base() {
        Err(InvalidBlockError::MissingSize)
    } else if raw.mix_hash is None {
        Err(InvalidBlockError::MissingMixHash)
    } else if raw.nonce is None {
        Err(InvalidBlockError::MissingNonce)
    } else {
        Ok(
            HeaderView {
                hash: raw.hash.unwrap(),
                parent_hash: raw.parent_hash,
                uncles_hash: raw.uncles_hash,
                author: raw.author.unwrap(),
                state_root: raw.state_root,
                transactions_root: raw.transactions_root,
                receipts_root: raw.receipts_root,
                number: raw.number.unwrap(),
                gas_used: raw.gas_used as u64,
                gas_limit: raw.gas_limit as u64,
                extra_data: raw.extra_data,
                logs_bloom: raw.logs_bloom.unwrap(),
                timestamp: raw.timestamp as u64,
                difficulty: raw.difficulty,
                size: raw.size.unwrap() as u64,
                mix_hash: raw.mix_hash.unwrap(),
                nonce: raw.nonce.unwrap(),
                base_fee_per_gas: match raw.base_fee_per_gas {
                    Some(b) => if b < limb_base() {
                        Some(b as u64)
                    } else {
                        None
                    },
                    None => None,
                },
            },
        )
    }
}

impl Header {
    /// Validates a raw block record into a header. All-or-nothing: no
    /// partially populated header is ever produced, and the error names the
    /// first absent mandatory field. Gas, timestamp and size values are
    /// narrowed to 64 bits on the way in.
    pub fn try_from(block: &RawBlock) -> (r: Result<Header, InvalidBlockError>)
        requires
            block.wf(),
            block.gas_used@ < limb_base(),
            block.gas_limit@ < limb_base(),
            block.timestamp@ < limb_base(),
        ensures
            match r {
                Ok(h) => h.wf() && spec_validate(block@) == Ok::<HeaderView, InvalidBlockError>(
                    h@,
                ),
                Err(e) => spec_validate(block@) == Err::<HeaderView, InvalidBlockError>(e),
            },
    {
        let hash = match &block.hash {
            Some(h) => h.duplicate(),
            None => {
                return Err(InvalidBlockError::MissingHash);
            },
        };
        let author = match &block.author {
            Some(a) => copy_bytes(a),
            None => {
                return Err(InvalidBlockError::MissingAuthor);
            },
        };
        let number = match &block.number {
            Some(n) => *n,
            None => {
                return Err(InvalidBlockError::MissingNumber);
            },
        };
        let logs_bloom = match &block.logs_bloom {
            Some(b) => copy_bytes(b),
            None => {
                return Err(InvalidBlockError::MissingLogsBloom);
            },
        };
        let base_fee_per_gas = match &block.base_fee_per_gas {
            Some(b) => b.try_as_u64(),
            None => None,
        };
        let size = match &block.size {
            Some(s) => match s.try_as_u64() {
                Some(v) => v,
                None => {
                    return Err(InvalidBlockError::MissingSize);
                },
            },
            None => {
                return Err(InvalidBlockError::MissingSize);
            },
        };
        let mix_hash = match &block.mix_hash {
            Some(m) => m.duplicate(),
            None => {
                return Err(InvalidBlockError::MissingMixHash);
            },
        };
        let nonce = match &block.nonce {
            Some(n) => copy_bytes(n),
            None => {
                return Err(InvalidBlockError::MissingNonce);
            },
        };
        let h = Header {
            hash,
            parent_hash: block.parent_hash.duplicate(),
            uncles_hash: block.uncles_hash.duplicate(),
            author,
            state_root: block.state_root.duplicate(),
            transactions_root: block.transactions_root.duplicate(),
            receipts_root: block.receipts_root.duplicate(),
            number,
            gas_used: block.gas_used.as_u64(),
            gas_limit: block.gas_limit.as_u64(),
            extra_data: copy_bytes(&block.extra_data),
            logs_bloom,
            timestamp: block.timestamp.as_u64(),
            difficulty: block.difficulty.duplicate(),
            size,
            mix_hash,
            nonce,
            base_fee_per_gas,
        };
        proof {
            lemma_limbs_val_bound(h.difficulty.limbs@);
            let sv = spec_validate(block@);
            assert(sv is Ok);
            assert(h@ =~= sv->Ok_0);
        }
        Ok(h)
    }
}

/// Law: a raw block with all seven mandatory fields present, every field
/// well-formed and every narrowed value in range validates, and every field
/// of the header equals the corresponding raw field.
pub proof fn lemma_validation_complete(raw: RawBlockView)
    requires
        raw.hash is Some,
        raw.author is Some,
        raw.number is Some,
        raw.logs_bloom is Some,
        raw.size matches Some(s) && s < limb_base(),
        raw.mix_hash is Some,
        raw.nonce is Some,
        raw.gas_used < limb_base(),
        raw.gas_limit < limb_base(),
        raw.timestamp < limb_base(),
        raw.base_fee_per_gas matches Some(b) ==> b < limb_base(),
    ensures
        spec_validate(raw) matches Ok(h) && {
            &&& h.hash == raw.hash.unwrap()
            &&& h.parent_hash == raw.parent_hash
            &&& h.uncles_hash == raw.uncles_hash
            &&& h.author == raw.author.unwrap()
            &&& h.state_root == raw.state_root
            &&& h.transactions_root == raw.transactions_root
            &&& h.receipts_root == raw.receipts_root
            &&& h.number == raw.number.unwrap()
            &&& h.gas_used as nat == raw.gas_used
            &&& h.gas_limit as nat == raw.gas_limit
            &&& h.extra_data == raw.extra_data
            &&& h.logs_bloom == raw.logs_bloom.unwrap()
            &&& h.timestamp as nat == raw.timestamp
            &&& h.difficulty == raw.difficulty
            &&& h.size as nat == raw.size.unwrap()
            &&& h.mix_hash == raw.mix_hash.unwrap()
            &&& h.nonce == raw.nonce.unwrap()
            &&& (match raw.base_fee_per_gas {
                Some(b) => h.base_fee_per_gas matches Some(f) && f as nat == b,
                None => h.base_fee_per_gas is None,
            })
        },
{
}

/// Law: validation reports exactly the first absent mandatory field, in the
/// documented order, and produces no header then.
pub proof fn lemma_validation_first_missing(raw: RawBlockView)
    ensures
        raw.hash is None ==> spec_validate(raw) == Err::<HeaderView, InvalidBlockError>(
            InvalidBlockError::MissingHash,
        ),
        raw.hash is Some && raw.author is None ==> spec_validate(raw) == Err::<
            HeaderView,
            InvalidBlockError,
        >(InvalidBlockError::MissingAuthor),
        raw.hash is Some && raw.author is Some && raw.number is None ==> spec_validate(raw)
            == Err::<HeaderView, InvalidBlockError>(InvalidBlockError::MissingNumber),
        raw.hash is Some && raw.author is Some && raw.number is Some && raw.logs_bloom is None
            ==> spec_validate(raw) == Err::<HeaderView, InvalidBlockError>(
            InvalidBlockError::MissingLogsBloom,
        ),
        raw.hash is Some && raw.author is Some && raw.number is Some && raw.logs_bloom is Some && (
        raw.size is None || raw.size.unwrap() >= limb_base()) ==> spec_validate(raw) == Err::<
            HeaderView,
            InvalidBlockError,
        >(InvalidBlockError::MissingSize),
        raw.hash is Some && raw.author is Some && raw.number is Some && raw.logs_bloom is Some && (
        raw.size matches Some(s) && s < limb_base()) && raw.mix_hash is None ==> spec_validate(raw)
            == Err::<HeaderView, InvalidBlockError>(InvalidBlockError::MissingMixHash),
        raw.hash is Some && raw.author is Some && raw.number is Some && raw.logs_bloom is Some && (
        raw.size matches Some(s) && s < limb_base()) && raw.mix_hash is Some && raw.nonce is None
            ==> spec_validate(raw) == Err::<HeaderView, InvalidBlockError>(
            InvalidBlockError::MissingNonce,
        ),
{
}

} // verus!
