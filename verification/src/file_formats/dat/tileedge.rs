//! The tile edge database: for each tile edge shape, the outline of each of
//! its rows.

use vstd::prelude::*;

verus! {

/// The outline of one row: its index and its left and right offsets.
#[derive(Default, Debug, Clone, Copy, PartialEq, Eq)]
pub struct OutlineEntry {
    pub index: u8,
    pub left_offset: u8,
    pub right_offset: u8,
}

/// The outlines of one tile edge shape.
#[derive(Default, Debug)]
pub struct TileEdgeEntry {
    pub outlines: Vec<OutlineEntry>,
}

/// All tile edge shapes.
#[derive(Default, Debug)]
pub struct TileEdgeDb {
    pub entries: Vec<TileEdgeEntry>,
}

/// Where the outline records start in the file.
pub const TILE_EDGE_DATA_START: usize = 444;

/// The outline record `i` of the records `r` (three bytes each).
pub open spec fn outline_at(r: Seq<u8>, i: int) -> OutlineEntry {
    OutlineEntry { index: r[3 * i], left_offset: r[3 * i + 1], right_offset: r[3 * i + 2] }
}

/// The entries that the first `n` records complete: a record whose index is
/// 255 closes the entry that the records since the previous closing one make.
pub open spec fn closed_entries(r: Seq<u8>, n: nat) -> Seq<Seq<OutlineEntry>>
    decreases n,
{
    if n == 0 {
        Seq::empty()
    } else if r[3 * (n - 1)] == 255 {
        closed_entries(r, (n - 1) as nat).push(open_entry(r, (n - 1) as nat))
    } else {
        closed_entries(r, (n - 1) as nat)
    }
}

/// The outlines of the entry still open after the first `n` records.
pub open spec fn open_entry(r: Seq<u8>, n: nat) -> Seq<OutlineEntry>
    decreases n,
{
    if n == 0 {
        Seq::empty()
    } else if r[3 * (n - 1)] == 255 {
        Seq::empty()
    } else {
        open_entry(r, (n - 1) as nat).push(outline_at(r, n - 1))
    }
}

/// The records of the file: what follows its first 444 bytes.
pub open spec fn records_of(data: Seq<u8>) -> Seq<u8> {
    if data.len() <= 444 { Seq::empty() } else { data.subrange(444, data.len() as int) }
}

impl TileEdgeDb {
    fn new() -> (r: TileEdgeDb)
        ensures
            r.entries@.len() == 0,
    {
        TileEdgeDb { entries: Vec::new() }
    }

    /// Reads the database from the contents of its file: the records start
    /// at byte 444 and are three bytes each (a trailing partial record is
    /// ignored); the entry that no record closes is dropped.
    pub fn read_from(data: &[u8]) -> (r: TileEdgeDb)
        ensures
            r.entries@.len() == closed_entries(records_of(data@), (records_of(data@).len() / 3) as nat).len(),
            forall|i: int| 0 <= i < r.entries@.len() ==> (#[trigger] r.entries@[i]).outlines@
                == closed_entries(records_of(data@), (records_of(data@).len() / 3) as nat)[i],
    {
        let ghost rs = records_of(data@);
        let start: usize = if data.len() <= 444 { data.len() } else { 444 };
        let count = (data.len() - start) / 3;
        let mut db = TileEdgeDb::new();
        let mut entry = TileEdgeEntry { outlines: Vec::new() };
        let mut k: usize = 0;
        while k < count
            invariant
                k <= count,
                start <= data@.len() <= usize::MAX,
                count == (data@.len() - start) / 3,
                rs == data@.subrange(start as int, data@.len() as int),
                rs == records_of(data@),
                db.entries@.len() == closed_entries(rs, k as nat).len(),
                forall|i: int| 0 <= i < db.entries@.len() ==> (#[trigger] db.entries@[i]).outlines@
                    == closed_entries(rs, k as nat)[i],
                entry.outlines@ == open_entry(rs, k as nat),
            decreases count - k,
        {
            assert(3 * k + 3 <= data@.len() - start) by (nonlinear_arith)
                requires
                    k < count,
                    count == (data@.len() - start) / 3,
                    start <= data@.len(),
            ;
            let i = start + 3 * k;
            let (idx, left, right) = (data[i], data[i + 1], data[i + 2]);
            assert(rs[3 * k] == idx && rs[3 * k + 1] == left && rs[3 * k + 2] == right);
            if idx == 255 {
                let done = entry;
                db.entries.push(done);
                entry = TileEdgeEntry { outlines: Vec::new() };
            } else {
                entry.outlines.push(OutlineEntry { index: idx, left_offset: left, right_offset: right });
            }
            k = k + 1;
        }
        db
    }
}

} // verus!
