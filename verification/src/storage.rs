//! Storage contracts and the in-memory durable store.
//!
//! Two capability interfaces — [`HeaderStorage`] for saving and looking up
//! headers, [`HeadStorage`] for resolving the canonical head — are stated
//! over the abstract row table, so another backend can be substituted
//! without touching the validator or callers. [`MemoryStorage`] implements
//! both over one table kept in insertion order and keyed by the hash column:
//! a save is insert-or-ignore on that key, a lookup is a point query, and
//! the head query picks the row with the greatest stored number.

use vstd::prelude::*;

use crate::header::{BlockHash, Head, HeadView, Header, HeaderView};
use crate::hextext::{bytes_eq, encode_hex, spec_hex_text};
use crate::numbers::row_le;
use crate::rows::{
    lemma_row_roundtrip, spec_decode_head, spec_decode_header, spec_encode_header, spec_head_row,
    DBHead, DBHeader, DBHeaderView, ParseDBHeaderError,
};

verus! {

/// A fault while reading the durable store: a stored row failed its
/// field-level validation on read-back.
#[derive(Debug, Clone, Copy, PartialEq, Eq, Structural)]
pub enum StorageError {
    /// The named field of the stored row is ill-formed.
    Parse(ParseDBHeaderError),
}

/// Whether some row of the table bears the given hash text.
pub open spec fn spec_contains_hash(rows: Seq<DBHeaderView>, hash_text: Seq<u8>) -> bool {
    exists|i: int| 0 <= i < rows.len() && rows[i].hash == hash_text
}

/// No two rows of the table bear the same hash text.
pub open spec fn spec_rows_unique(rows: Seq<DBHeaderView>) -> bool {
    forall|i: int, j: int| 0 <= i < j < rows.len() ==> rows[i].hash != rows[j].hash
}

/// The table after a save: unchanged where the header's hash is already
/// present — the first write wins — and with the encoded row appended
/// otherwise.
pub open spec fn spec_save(rows: Seq<DBHeaderView>, h: HeaderView) -> Seq<DBHeaderView> {
    if spec_contains_hash(rows, spec_hex_text(h.hash)) {
        rows
    } else {
        rows.push(spec_encode_header(h))
    }
}

/// The lookup result on a table: the first row bearing the hash text,
/// decoded; empty where no row bears it.
pub open spec fn spec_lookup(rows: Seq<DBHeaderView>, hash_text: Seq<u8>) -> Result<
    Option<HeaderView>,
    ParseDBHeaderError,
>
    decreases rows.len(),
{
    if rows.len() == 0 {
        Ok(None)
    } else if rows[0].hash == hash_text {
        match spec_decode_header(rows[0]) {
            Ok(h) => Ok(Some(h)),
            Err(e) => Err(e),
        }
    } else {
        spec_lookup(rows.drop_first(), hash_text)
    }
}

/// The index of the canonical head row: the earliest row bearing the
/// greatest stored number.
pub open spec fn spec_head_idx(rows: Seq<DBHeaderView>) -> int
    recommends
        rows.len() > 0,
    decreases rows.len(),
{
    if rows.len() <= 1 {
        0
    } else {
        let r = spec_head_idx(rows.drop_last());
        if rows.last().number > rows[r].number {
            rows.len() - 1
        } else {
            r
        }
    }
}

/// The head query result on a table: empty on an empty table, else the head
/// columns of the canonical head row, decoded.
pub open spec fn spec_head(rows: Seq<DBHeaderView>) -> Result<
    Option<HeadView>,
    ParseDBHeaderError,
> {
    if rows.len() == 0 {
        Ok(None)
    } else {
        match spec_decode_head(spec_head_row(rows[spec_head_idx(rows)])) {
            Ok(h) => Ok(Some(h)),
            Err(e) => Err(e),
        }
    }
}

/// Law: the canonical head row exists, bears the greatest stored number,
/// and is the earliest row to bear it.
pub proof fn lemma_head_idx_max(rows: Seq<DBHeaderView>)
    requires
        rows.len() > 0,
    ensures
        0 <= spec_head_idx(rows) < rows.len(),
        forall|j: int|
            0 <= j < rows.len() ==> (#[trigger] rows[j]).number <= rows[spec_head_idx(
                rows,
            )].number,
        forall|j: int|
            0 <= j < spec_head_idx(rows) ==> (#[trigger] rows[j]).number < rows[spec_head_idx(
                rows,
            )].number,
    decreases rows.len(),
{
    if rows.len() > 1 {
        lemma_head_idx_max(rows.drop_last());
        assert(forall|j: int| 0 <= j < rows.len() - 1 ==> rows.drop_last()[j] == rows[j]);
    }
}

/// The capability to save headers and look them up by hash, decoupled from
/// any concrete backend. The abstract state is the stored row table.
pub trait HeaderStorage: Sized {
    /// The stored rows, in insertion order.
    spec fn table(&self) -> Seq<DBHeaderView>;

    /// Looks a header up by hash. "Not found" is a valid empty result, not
    /// an error; an error names the first ill-formed field of the row.
    fn header_by_hash(&self, hash: BlockHash) -> (r: Result<Option<Header>, StorageError>)
        requires
            hash.wf(),
        ensures
            ({
                let m = spec_lookup(self.table(), spec_hex_text(hash@));
                match r {
                    Ok(Some(h)) => m == Ok::<Option<HeaderView>, ParseDBHeaderError>(Some(h@)),
                    Ok(None) => m == Ok::<Option<HeaderView>, ParseDBHeaderError>(None),
                    Err(StorageError::Parse(e)) => m == Err::<Option<HeaderView>, ParseDBHeaderError>(
                        e,
                    ),
                }
            }),
    ;

    /// Saves a header. Idempotent on hash conflict: the first write wins,
    /// and a later save of the same hash leaves the stored row untouched.
    fn save_header(&mut self, header: Header) -> (r: Result<(), StorageError>)
        requires
            header.wf(),
        ensures
            final(self).table() == spec_save(old(self).table(), header@),
            r is Ok,
    ;
}

/// The capability to resolve the canonical head, decoupled from any
/// concrete backend. The abstract state is the stored row table.
pub trait HeadStorage: Sized {
    /// The stored rows, in insertion order.
    spec fn table(&self) -> Seq<DBHeaderView>;

    /// The stored header with the numerically greatest number, as a head
    /// projection; empty only where no header was ever saved.
    fn head(&self) -> (r: Result<Option<Head>, StorageError>)
        ensures
            ({
                let m = spec_head(self.table());
                match r {
                    Ok(Some(h)) => m == Ok::<Option<HeadView>, ParseDBHeaderError>(Some(h@)),
                    Ok(None) => m == Ok::<Option<HeadView>, ParseDBHeaderError>(None),
                    Err(StorageError::Parse(e)) => m == Err::<Option<HeadView>, ParseDBHeaderError>(
                        e,
                    ),
                }
            }),
    ;
}

/// An in-memory durable store: the row table in insertion order, keyed by
/// the hash column. One table serves both storage contracts.
pub struct MemoryStorage {
    rows: Vec<DBHeader>,
}

impl View for MemoryStorage {
    type V = Seq<DBHeaderView>;

    closed spec fn view(&self) -> Seq<DBHeaderView> {
        self.rows@.map(|i: int, r: DBHeader| r@)
    }
}

impl MemoryStorage {
    /// An empty store.
    pub fn new() -> (r: MemoryStorage)
        ensures
            r@ == Seq::<DBHeaderView>::empty(),
    {
        let r = MemoryStorage { rows: Vec::new() };
        proof {
            assert(r@ =~= Seq::<DBHeaderView>::empty());
        }
        r
    }

    /// A store over an existing table — rows written earlier, or edited
    /// outside the write path — with hashes unique, as the key column keeps
    /// them.
    pub fn from_rows(rows: Vec<DBHeader>) -> (r: MemoryStorage)
        requires
            spec_rows_unique(rows@.map(|i: int, x: DBHeader| x@)),
        ensures
            r@ == rows@.map(|i: int, x: DBHeader| x@),
    {
        MemoryStorage { rows }
    }
}

impl HeaderStorage for MemoryStorage {
    open spec fn table(&self) -> Seq<DBHeaderView> {
        self@
    }

    fn header_by_hash(&self, hash: BlockHash) -> (r: Result<Option<Header>, StorageError>) {
        let target = encode_hex(&hash.bytes);
        let mut i: usize = 0;
        proof {
            assert(self@.skip(0) =~= self@);
        }
        while i < self.rows.len()
            invariant
                i <= self.rows@.len(),
                target@ == spec_hex_text(hash@),
                spec_lookup(self@, spec_hex_text(hash@)) == spec_lookup(
                    self@.skip(i as int),
                    spec_hex_text(hash@),
                ),
            decreases self.rows@.len() - i,
        {
            proof {
                assert(self@[i as int] == self.rows@[i as int]@);
                assert(self@.skip(i as int)[0] == self@[i as int]);
                assert(self@.skip(i as int).drop_first() =~= self@.skip(i + 1));
            }
            if bytes_eq(&self.rows[i].hash, &target) {
                return match Header::try_from_row(&self.rows[i]) {
                    Ok(h) => Ok(Some(h)),
                    Err(e) => Err(StorageError::Parse(e)),
                };
            }
            i = i + 1;
        }
        proof {
            assert(self@.skip(self@.len() as int) =~= Seq::<DBHeaderView>::empty());
        }
        Ok(None)
    }

    fn save_header(&mut self, header: Header) -> (r: Result<(), StorageError>) {
        let target = encode_hex(&header.hash.bytes);
        let mut i: usize = 0;
        while i < self.rows.len()
            invariant
                i <= self.rows@.len(),
                *self == *old(self),
                target@ == spec_hex_text(header@.hash),
                forall|j: int| 0 <= j < i ==> self@[j].hash != target@,
            decreases self.rows@.len() - i,
        {
            proof {
                assert(self@[i as int] == self.rows@[i as int]@);
            }
            if bytes_eq(&self.rows[i].hash, &target) {
                proof {
                    assert(spec_contains_hash(self@, spec_hex_text(header@.hash)));
                }
                return Ok(());
            }
            i = i + 1;
        }
        proof {
            assert(!spec_contains_hash(self@, spec_hex_text(header@.hash)));
        }
        let row = DBHeader::from_header(&header);
        self.rows.push(row);
        proof {
            assert(self@ =~= old(self)@.push(spec_encode_header(header@)));
        }
        Ok(())
    }
}

impl HeadStorage for MemoryStorage {
    open spec fn table(&self) -> Seq<DBHeaderView> {
        self@
    }

    fn head(&self) -> (r: Result<Option<Head>, StorageError>) {
        if self.rows.len() == 0 {
            return Ok(None);
        }
        let mut best: usize = 0;
        let mut i: usize = 1;
        proof {
            assert(self@.take(1).len() == 1);
            assert(spec_head_idx(self@.take(1)) == 0);
        }
        while i < self.rows.len()
            invariant
                0 < i <= self.rows@.len(),
                best < i,
                best as int == spec_head_idx(self@.take(i as int)),
            decreases self.rows@.len() - i,
        {
            proof {
                assert(self@[i as int] == self.rows@[i as int]@);
                assert(self@[best as int] == self.rows@[best as int]@);
                assert(self@.take(i + 1).drop_last() =~= self@.take(i as int));
                assert(self@.take(i + 1).last() == self@[i as int]);
                assert(self@.take(i + 1)[best as int] == self@[best as int]);
            }
            if !row_le(&self.rows[i].number, &self.rows[best].number) {
                best = i;
            }
            i = i + 1;
        }
        proof {
            assert(self@.take(self@.len() as int) =~= self@);
            assert(self@[best as int] == self.rows@[best as int]@);
        }
        let dbhead = DBHead::from_row(&self.rows[best]);
        match Head::try_from(&dbhead) {
            Ok(h) => Ok(Some(h)),
            Err(e) => Err(StorageError::Parse(e)),
        }
    }
}

/// Law: saving the same header twice leaves the table — and with it every
/// observable query result — exactly as saving it once.
pub proof fn lemma_save_idempotent(rows: Seq<DBHeaderView>, h: HeaderView)
    ensures
        spec_save(spec_save(rows, h), h) == spec_save(rows, h),
{
    let t = spec_hex_text(h.hash);
    if !spec_contains_hash(rows, t) {
        let once = spec_save(rows, h);
        assert(once[rows.len() as int].hash == t);
        assert(spec_contains_hash(once, t));
    }
}

/// The first row bearing a hash that only the appended row bears is that
/// appended row.
proof fn lemma_lookup_push_fresh(rows: Seq<DBHeaderView>, row: DBHeaderView, t: Seq<u8>)
    requires
        forall|i: int| 0 <= i < rows.len() ==> rows[i].hash != t,
        row.hash == t,
    ensures
        spec_lookup(rows.push(row), t) == match spec_decode_header(row) {
            Ok(h) => Ok::<Option<HeaderView>, ParseDBHeaderError>(Some(h)),
            Err(e) => Err::<Option<HeaderView>, ParseDBHeaderError>(e),
        },
    decreases rows.len(),
{
    if rows.len() == 0 {
        assert(rows.push(row)[0] == row);
    } else {
        assert(rows.push(row)[0] == rows[0]);
        assert(rows.push(row).drop_first() =~= rows.drop_first().push(row));
        lemma_lookup_push_fresh(rows.drop_first(), row, t);
    }
}

/// Law: a header saved under a hash the table does not bear, then looked up
/// by that hash, comes back field for field — including presence or absence
/// of the base fee.
pub proof fn lemma_save_then_lookup(rows: Seq<DBHeaderView>, h: HeaderView)
    requires
        h.wf(),
        !spec_contains_hash(rows, spec_hex_text(h.hash)),
    ensures
        spec_lookup(spec_save(rows, h), spec_hex_text(h.hash)) == Ok::<
            Option<HeaderView>,
            ParseDBHeaderError,
        >(Some(h)),
{
    let t = spec_hex_text(h.hash);
    lemma_row_roundtrip(h);
    assert(forall|i: int| 0 <= i < rows.len() ==> rows[i].hash != t);
    lemma_lookup_push_fresh(rows, spec_encode_header(h), t);
}

/// Law: on a store that was never written, the head is empty and the lookup
/// of any hash is empty.
pub proof fn lemma_empty_store(hash_text: Seq<u8>)
    ensures
        spec_head(Seq::<DBHeaderView>::empty()) == Ok::<Option<HeadView>, ParseDBHeaderError>(None),
        spec_lookup(Seq::<DBHeaderView>::empty(), hash_text) == Ok::<
            Option<HeaderView>,
            ParseDBHeaderError,
        >(None),
{
}

} // verus!
