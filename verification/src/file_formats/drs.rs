//! DRS archives: the containers in which the game stores its graphics, sounds
//! and other resources.
//!
//! Layout (all integers little endian):
//! - a 64-byte header: copyright text (40 bytes), version (4), archive type
//!   (12), table count (u32) and first file offset (u32);
//! - one 12-byte table header per table: file type code, table offset and file count;
//! - for each table in turn, one 12-byte entry per file: file ID, offset and size;
//! - the contents of every file, table by table and entry by entry, back to back.

use vstd::prelude::*;
use std::collections::HashMap;
use crate::bytes::{available, read_bytes, read_u32, u32_at};

verus! {

/// Bytes of the copyright text that starts every archive:
/// "Copyright (c) 1997 Ensemble Studios." followed by 0x1A.
pub open spec fn expected_copyright() -> Seq<u8> {
    seq![67u8, 111, 112, 121, 114, 105, 103, 104, 116, 32, 40, 99, 41, 32, 49, 57, 57, 55, 32, 69,
        110, 115, 101, 109, 98, 108, 101, 32, 83, 116, 117, 100, 105, 111, 115, 46, 26]
}

/// Bytes of the expected version: "1.00".
pub open spec fn expected_version() -> Seq<u8> {
    seq![49u8, 46, 48, 48]
}

/// Bytes of the expected archive type: "tribe".
pub open spec fn expected_type() -> Seq<u8> {
    seq![116u8, 114, 105, 98, 101]
}

pub(crate) fn copyright_text() -> (r: Vec<u8>)
    ensures
        r@ == expected_copyright(),
{
    let r = vec![67u8, 111, 112, 121, 114, 105, 103, 104, 116, 32, 40, 99, 41, 32, 49, 57, 57, 55,
        32, 69, 110, 115, 101, 109, 98, 108, 101, 32, 83, 116, 117, 100, 105, 111, 115, 46, 26];
    assert(r@ =~= expected_copyright());
    r
}

pub(crate) fn version_text() -> (r: Vec<u8>)
    ensures
        r@ == expected_version(),
{
    let r = vec![49u8, 46, 48, 48];
    assert(r@ =~= expected_version());
    r
}

pub(crate) fn type_text() -> (r: Vec<u8>)
    ensures
        r@ == expected_type(),
{
    let r = vec![116u8, 114, 105, 98, 101];
    assert(r@ =~= expected_type());
    r
}

/// The header of a DRS archive.
pub struct DrsHeader {
    pub copyright_info: [u8; 40],
    pub file_version: [u8; 4],
    pub file_type: [u8; 12],
    pub table_count: u32,
    pub file_offset: u32,
}

impl DrsHeader {
    pub fn new() -> (r: DrsHeader)
        ensures
            r.copyright_info@ == Seq::new(40, |i: int| 0u8),
            r.file_version@ == Seq::new(4, |i: int| 0u8),
            r.file_type@ == Seq::new(12, |i: int| 0u8),
            r.table_count == 0,
            r.file_offset == 0,
    {
        let r = DrsHeader {
            copyright_info: [0u8; 40],
            file_version: [0u8; 4],
            file_type: [0u8; 12],
            table_count: 0,
            file_offset: 0,
        };
        assert(r.copyright_info@ =~= Seq::new(40, |i: int| 0u8));
        assert(r.file_version@ =~= Seq::new(4, |i: int| 0u8));
        assert(r.file_type@ =~= Seq::new(12, |i: int| 0u8));
        r
    }
}

/// DRS supported file types.
#[derive(Debug, Clone, Copy, PartialEq, Eq, Structural)]
pub enum DrsFileType {
    /// "Binary" denotes several different kinds of files used by Age of Empires
    /// that are not graphics or sound (even if they're text files). For example, palettes
    /// are typically in this group.
    Binary,
    /// SLP graphics files (an AOE-specific proprietary format).
    Slp,
    /// SHP graphics files (AOE-specific; hardly used).
    Shp,
    /// Typical WAV audio files.
    Wav,
}

/// The codes by which tables name their file type: the bytes of the file
/// extension padded with a space ("bina" for binary files), read as a
/// little-endian integer from the reversed text.
pub open spec fn known_type_code(code: u32) -> bool {
    code == 0x62696E61 || code == 0x736C7020 || code == 0x73687020 || code == 0x77617620
}

/// The file type a known code stands for.
pub open spec fn file_type_of(code: u32) -> DrsFileType {
    if code == 0x62696E61 {
        DrsFileType::Binary
    } else if code == 0x736C7020 {
        DrsFileType::Slp
    } else if code == 0x73687020 {
        DrsFileType::Shp
    } else {
        DrsFileType::Wav
    }
}

impl DrsFileType {
    /// The file type for a code; `None` for a code that names no type.
    pub fn from_code(code: u32) -> (r: Option<DrsFileType>)
        ensures
            r is Some <==> known_type_code(code),
            r matches Some(t) ==> t == file_type_of(code),
    {
        if code == 0x62696E61 {
            Some(DrsFileType::Binary)
        } else if code == 0x736C7020 {
            Some(DrsFileType::Slp)
        } else if code == 0x73687020 {
            Some(DrsFileType::Shp)
        } else if code == 0x77617620 {
            Some(DrsFileType::Wav)
        } else {
            None
        }
    }

    /// The file type for a code the format defines.
    pub fn from(code: u32) -> (r: DrsFileType)
        requires
            known_type_code(code),
        ensures
            r == file_type_of(code),
    {
        DrsFileType::from_code(code).unwrap()
    }
}

/// Header of one table of files.
#[derive(Clone, Copy)]
pub struct DrsTableHeader {
    pub file_type: DrsFileType,
    pub table_offset: u32,
    pub file_count: u32,
}

impl DrsTableHeader {
    pub fn new() -> (r: DrsTableHeader)
        ensures
            r.file_type == DrsFileType::Binary,
            r.table_offset == 0,
            r.file_count == 0,
    {
        DrsTableHeader { file_type: DrsFileType::Binary, table_offset: 0u32, file_count: 0u32 }
    }

    /// The extension given to files of this table's type.
    pub fn file_extension(&self) -> (r: &'static str)
        ensures
            r@ == extension_of(self.file_type),
    {
        match self.file_type {
            DrsFileType::Binary => {
                proof {
                    reveal_strlit("bin");
                }
                "bin"
            },
            DrsFileType::Slp => {
                proof {
                    reveal_strlit("slp");
                }
                "slp"
            },
            DrsFileType::Shp => {
                proof {
                    reveal_strlit("shp");
                }
                "shp"
            },
            DrsFileType::Wav => {
                proof {
                    reveal_strlit("wav");
                }
                "wav"
            },
        }
    }
}

/// The extension of each file type, as text.
pub open spec fn extension_of(t: DrsFileType) -> Seq<char> {
    match t {
        DrsFileType::Binary => seq!['b', 'i', 'n'],
        DrsFileType::Slp => seq!['s', 'l', 'p'],
        DrsFileType::Shp => seq!['s', 'h', 'p'],
        DrsFileType::Wav => seq!['w', 'a', 'v'],
    }
}

/// Entry of one file in a table.
#[derive(Clone, Copy)]
pub struct DrsTableEntry {
    pub file_id: u32,
    pub file_offset: u32,
    pub file_size: u32,
}

impl DrsTableEntry {
    pub fn new() -> (r: DrsTableEntry)
        ensures
            r.file_id == 0,
            r.file_offset == 0,
            r.file_size == 0,
    {
        DrsTableEntry { file_id: 0u32, file_offset: 0u32, file_size: 0u32 }
    }
}

pub type DrsFileContents = Vec<u8>;

/// Where each file ID is found among `entries`: the last entry with that ID.
pub open spec fn index_of_ids(entries: Seq<DrsTableEntry>, n: int) -> Map<u32, usize>
    decreases n,
{
    if n <= 0 {
        Map::empty()
    } else {
        index_of_ids(entries, n - 1).insert(entries[n - 1].file_id, (n - 1) as usize)
    }
}

/// The contents of the file with the given ID in a table with these entries
/// and contents: those of the last entry that carries the ID, or `None` when no entry does.
pub open spec fn contents_of(entries: Seq<DrsTableEntry>, contents: Seq<Vec<u8>>, file_id: u32) -> Option<Seq<u8>> {
    let m = index_of_ids(entries, entries.len() as int);
    if m.contains_key(file_id) {
        Some(contents[m[file_id] as int]@)
    } else {
        None
    }
}

/// Every file ID of the first `n` entries is found, and only those.
pub proof fn lemma_ids_found(entries: Seq<DrsTableEntry>, n: int)
    requires
        0 <= n <= entries.len(),
    ensures
        forall|id: u32| #[trigger] index_of_ids(entries, n).contains_key(id)
            <==> exists|j: int| 0 <= j < n && (#[trigger] entries[j]).file_id == id,
    decreases n,
{
    if n > 0 {
        lemma_ids_found(entries, n - 1);
        assert forall|id: u32| #[trigger] index_of_ids(entries, n).contains_key(id)
            <==> exists|j: int| 0 <= j < n && (#[trigger] entries[j]).file_id == id by {
            if index_of_ids(entries, n).contains_key(id) {
                if id == entries[n - 1].file_id {
                    assert(entries[n - 1].file_id == id);
                } else {
                    assert(index_of_ids(entries, n - 1).contains_key(id));
                    let j = choose|j: int| 0 <= j < n - 1 && (#[trigger] entries[j]).file_id == id;
                    assert(entries[j].file_id == id);
                }
            }
            if exists|j: int| 0 <= j < n && (#[trigger] entries[j]).file_id == id {
                let j = choose|j: int| 0 <= j < n && (#[trigger] entries[j]).file_id == id;
                if j < n - 1 {
                    assert(index_of_ids(entries, n - 1).contains_key(id));
                }
            }
        }
    }
}

/// Where the first `n` entries carry distinct file IDs, the index of each
/// entry's ID is that entry.
proof fn lemma_distinct_ids_index(entries: Seq<DrsTableEntry>, n: int)
    requires
        0 <= n <= entries.len(),
        entries.len() <= usize::MAX,
        forall|a: int, b: int| 0 <= a < b < n ==> entries[a].file_id != entries[b].file_id,
    ensures
        forall|j: int| 0 <= j < n ==> index_of_ids(entries, n).contains_key(#[trigger] entries[j].file_id)
            && index_of_ids(entries, n)[entries[j].file_id] == j,
    decreases n,
{
    if n > 0 {
        lemma_distinct_ids_index(entries, n - 1);
        assert forall|j: int| 0 <= j < n implies index_of_ids(entries, n).contains_key(#[trigger] entries[j].file_id)
            && index_of_ids(entries, n)[entries[j].file_id] == j by {
            if j < n - 1 {
                assert(entries[j].file_id != entries[n - 1].file_id);
                assert(index_of_ids(entries, n - 1)[entries[j].file_id] == j);
            }
        }
    }
}

/// In a table whose entries carry distinct file IDs, looking a file up by
/// the ID of an entry gives that entry's contents.
pub proof fn lemma_file_found_by_id(entries: Seq<DrsTableEntry>, contents: Seq<Vec<u8>>, j: int)
    requires
        0 <= j < entries.len(),
        entries.len() <= usize::MAX,
        contents.len() == entries.len(),
        forall|a: int, b: int| 0 <= a < b < entries.len() ==> entries[a].file_id != entries[b].file_id,
    ensures
        contents_of(entries, contents, entries[j].file_id) == Some(contents[j]@),
{
    lemma_ids_found(entries, entries.len() as int);
    lemma_distinct_ids_index(entries, entries.len() as int);
    assert(entries[j].file_id == entries[j].file_id);
}

/// Among the first `n` entries, the index of an ID is the last entry before
/// `n` that carries it.
proof fn lemma_index_of_last(entries: Seq<DrsTableEntry>, id: u32, j: int, n: int)
    requires
        0 <= j < n <= entries.len(),
        entries.len() <= usize::MAX,
        entries[j].file_id == id,
        forall|k: int| j < k < n ==> (#[trigger] entries[k]).file_id != id,
    ensures
        index_of_ids(entries, n).contains_key(id),
        index_of_ids(entries, n)[id] == j,
    decreases n,
{
    if n > j + 1 {
        lemma_index_of_last(entries, id, j, n - 1);
        assert(entries[n - 1].file_id != id);
    }
}

/// Looking a file up by its ID in a table gives nothing when no entry carries
/// the ID, and otherwise the contents of the last entry that carries it.
pub proof fn lemma_last_entry_found(entries: Seq<DrsTableEntry>, contents: Seq<Vec<u8>>, id: u32)
    requires
        entries.len() <= usize::MAX,
        contents.len() == entries.len(),
    ensures
        (forall|k: int| 0 <= k < entries.len() ==> (#[trigger] entries[k]).file_id != id)
            ==> contents_of(entries, contents, id) is None,
        forall|j: int| 0 <= j < entries.len() && (#[trigger] entries[j]).file_id == id
            && (forall|k: int| j < k < entries.len() ==> (#[trigger] entries[k]).file_id != id)
            ==> contents_of(entries, contents, id) == Some(contents[j]@),
{
    lemma_ids_found(entries, entries.len() as int);
    assert forall|j: int| 0 <= j < entries.len() && (#[trigger] entries[j]).file_id == id
        && (forall|k: int| j < k < entries.len() ==> (#[trigger] entries[k]).file_id != id)
        implies contents_of(entries, contents, id) == Some(contents[j]@) by {
        lemma_index_of_last(entries, id, j, entries.len() as int);
    }
    if forall|k: int| 0 <= k < entries.len() ==> (#[trigger] entries[k]).file_id != id {
        if index_of_ids(entries, entries.len() as int).contains_key(id) {
            let j = choose|j: int| 0 <= j < entries.len() && (#[trigger] entries[j]).file_id == id;
            assert(entries[j].file_id != id);
        }
    }
}

/// Tables aren't actually stored in the DRS files in this layout, but instead, this
/// struct exists like this to make it more convenient to pull data out of the tables
/// after the DRS file has been read.
pub struct DrsLogicalTable {
    pub header: DrsTableHeader,
    pub entries: Vec<DrsTableEntry>,
    pub contents: Vec<DrsFileContents>,
    pub index_map: HashMap<u32, usize>,
}

impl DrsLogicalTable {
    /// The lookup index agrees with the entries, and each entry has its contents.
    pub open spec fn is_indexed(&self) -> bool {
        &&& self.index_map@ == index_of_ids(self.entries@, self.entries@.len() as int)
        &&& self.contents@.len() == self.entries@.len()
    }

    pub fn new() -> (r: DrsLogicalTable)
        ensures
            r.header == DrsTableHeader::new_spec(),
            r.entries@.len() == 0,
            r.contents@.len() == 0,
            r.is_indexed(),
    {
        let r = DrsLogicalTable {
            header: DrsTableHeader::new(),
            entries: Vec::new(),
            contents: Vec::new(),
            index_map: HashMap::new(),
        };
        assert(r.index_map@ =~= index_of_ids(r.entries@, 0)) by {
            broadcast use vstd::std_specs::hash::group_hash_axioms;
        }
        r
    }

    /// All files present inside of a DRS archive are labeled with a 32-bit integer file ID.
    /// This method attempts to find a file by ID in the given table.
    pub fn find_file_contents(&self, file_id: u32) -> (r: Option<&DrsFileContents>)
        requires
            self.is_indexed(),
        ensures
            match contents_of(self.entries@, self.contents@, file_id) {
                Some(c) => r matches Some(v) && v@ == c,
                None => r is None,
            },
    {
        proof {
            broadcast use vstd::std_specs::hash::group_hash_axioms;
            lemma_index_in_range(self.entries@, self.entries@.len() as int);
        }
        match self.index_map.get(&file_id) {
            Some(index) => Some(&self.contents[*index]),
            None => None,
        }
    }

    /// Builds the lookup index from the entries.
    fn populate_index_map(&mut self)
        requires
            old(self).contents@.len() == old(self).entries@.len(),
            old(self).index_map@ == Map::<u32, usize>::empty(),
        ensures
            final(self).is_indexed(),
            final(self).header == old(self).header,
            final(self).entries@ == old(self).entries@,
            final(self).contents@ == old(self).contents@,
    {
        broadcast use vstd::std_specs::hash::group_hash_axioms;
        let mut i: usize = 0;
        assert(self.index_map@ =~= index_of_ids(self.entries@, 0));
        while i < self.entries.len()
            invariant
                0 <= i <= self.entries@.len(),
                self.index_map@ == index_of_ids(self.entries@, i as int),
                self.contents@.len() == self.entries@.len(),
                self.header == old(self).header,
                self.entries@ == old(self).entries@,
                self.contents@ == old(self).contents@,
            decreases self.entries@.len() - i,
        {
            let id = self.entries[i].file_id;
            self.index_map.insert(id, i);
            i = i + 1;
        }
    }
}

impl DrsTableHeader {
    pub open spec fn new_spec() -> DrsTableHeader {
        DrsTableHeader { file_type: DrsFileType::Binary, table_offset: 0, file_count: 0 }
    }
}

/// Every index recorded for the first `n` entries points at one of them.
proof fn lemma_index_in_range(entries: Seq<DrsTableEntry>, n: int)
    requires
        0 <= n <= entries.len(),
    ensures
        forall|id: u32| #[trigger] index_of_ids(entries, n).contains_key(id)
            ==> index_of_ids(entries, n)[id] < n,
    decreases n,
{
    if n > 0 {
        lemma_index_in_range(entries, n - 1);
        assert forall|id: u32| #[trigger] index_of_ids(entries, n).contains_key(id)
            implies index_of_ids(entries, n)[id] < n by {
            if id != entries[n - 1].file_id {
                assert(index_of_ids(entries, n - 1).contains_key(id));
            }
        }
    }
}

/// The position of the first table of type `ty` from `i` on, or the number
/// of tables when there is none.
pub open spec fn first_table_index(tables: Seq<DrsLogicalTable>, ty: DrsFileType, i: int) -> int
    decreases tables.len() - i,
{
    if i < 0 || i >= tables.len() {
        tables.len() as int
    } else if tables[i].header.file_type == ty {
        i
    } else {
        first_table_index(tables, ty, i + 1)
    }
}

/// The first table of type `ty`, if there is one.
pub open spec fn table_of_type(tables: Seq<DrsLogicalTable>, ty: DrsFileType) -> Option<DrsLogicalTable> {
    let i = first_table_index(tables, ty, 0);
    if 0 <= i < tables.len() {
        Some(tables[i])
    } else {
        None
    }
}

/// A DRS archive: its header and its tables.
pub struct DrsFile {
    pub header: DrsHeader,
    pub tables: Vec<DrsLogicalTable>,
}

impl DrsFile {
    pub fn new() -> (r: DrsFile)
        ensures
            r.tables@.len() == 0,
            r.header.table_count == 0,
            r.header.file_offset == 0,
    {
        DrsFile { header: DrsHeader::new(), tables: Vec::new() }
    }

    /// DRS archives are partitioned into tables by file type. This method will
    /// attempt to find a table of the requested type, and return None if it doesn't exist.
    pub fn find_table(&self, file_type: DrsFileType) -> (r: Option<&DrsLogicalTable>)
        ensures
            match r {
                Some(t) => exists|i: int|
                    0 <= i < self.tables@.len() && self.tables@[i] == *t
                        && t.header.file_type == file_type
                        && forall|j: int| 0 <= j < i ==> (#[trigger] self.tables@[j]).header.file_type != file_type,
                None => forall|j: int| 0 <= j < self.tables@.len()
                    ==> (#[trigger] self.tables@[j]).header.file_type != file_type,
            },
            match table_of_type(self.tables@, file_type) {
                Some(t) => r matches Some(x) && *x == t,
                None => r is None,
            },
    {
        let mut i: usize = 0;
        while i < self.tables.len()
            invariant
                0 <= i <= self.tables@.len(),
                forall|j: int| 0 <= j < i ==> (#[trigger] self.tables@[j]).header.file_type != file_type,
                first_table_index(self.tables@, file_type, 0) == first_table_index(self.tables@, file_type, i as int),
            decreases self.tables@.len() - i,
        {
            if self.tables[i].header.file_type == file_type {
                return Some(&self.tables[i]);
            }
            i = i + 1;
        }
        None
    }
}

// ---------------------------------------------------------------------------
// The layout of an archive, as a function of its bytes.

/// Size of the archive header.
pub open spec fn header_size() -> int {
    64
}

/// Number of tables the header announces.
pub open spec fn table_count_of(d: Seq<u8>) -> int {
    u32_at(d, 56) as int
}

/// Position of the header of table `i`.
pub open spec fn table_header_pos(i: int) -> int {
    header_size() + 12 * i
}

/// The header of table `i` (its type code must be known).
pub open spec fn table_header_at(d: Seq<u8>, i: int) -> DrsTableHeader {
    let p = table_header_pos(i);
    DrsTableHeader {
        file_type: file_type_of(u32_at(d, p)),
        table_offset: u32_at(d, p + 4),
        file_count: u32_at(d, p + 8),
    }
}

/// The headers of the first `n` tables.
pub open spec fn table_headers(d: Seq<u8>, n: int) -> Seq<DrsTableHeader> {
    Seq::new(n as nat, |i: int| table_header_at(d, i))
}

/// Number of entries in the tables before table `i`.
pub open spec fn entries_before(d: Seq<u8>, i: int) -> int
    decreases i,
{
    if i <= 0 {
        0
    } else {
        entries_before(d, i - 1) + table_header_at(d, i - 1).file_count
    }
}

/// Position of the first entry.
pub open spec fn entries_start(d: Seq<u8>) -> int {
    table_header_pos(table_count_of(d))
}

/// Total number of entries over all tables.
pub open spec fn total_entries(d: Seq<u8>) -> int {
    entries_before(d, table_count_of(d))
}

/// The entry at position `p`.
pub open spec fn entry_at(d: Seq<u8>, p: int) -> DrsTableEntry {
    DrsTableEntry { file_id: u32_at(d, p), file_offset: u32_at(d, p + 4), file_size: u32_at(d, p + 8) }
}

/// Entry `k` counted over all tables in order.
pub open spec fn flat_entry(d: Seq<u8>, k: int) -> DrsTableEntry {
    entry_at(d, entries_start(d) + 12 * k)
}

/// The entries of table `i`.
pub open spec fn table_entries(d: Seq<u8>, i: int) -> Seq<DrsTableEntry> {
    Seq::new(table_header_at(d, i).file_count as nat, |j: int| flat_entry(d, entries_before(d, i) + j))
}

/// Total size of the files of the first `k` entries counted over all tables.
pub open spec fn size_before(d: Seq<u8>, k: int) -> int
    decreases k,
{
    if k <= 0 {
        0
    } else {
        size_before(d, k - 1) + flat_entry(d, k - 1).file_size
    }
}

/// Position of the first file's contents.
pub open spec fn contents_start(d: Seq<u8>) -> int {
    entries_start(d) + 12 * total_entries(d)
}

/// The contents of the file of entry `k` counted over all tables.
pub open spec fn flat_contents(d: Seq<u8>, k: int) -> Seq<u8> {
    let p = contents_start(d) + size_before(d, k);
    d.subrange(p, p + flat_entry(d, k).file_size)
}

/// The header can be read.
pub open spec fn header_readable(d: Seq<u8>) -> bool {
    d.len() >= header_size()
}

/// `bytes` starts with `expected`.
pub open spec fn starts_with(bytes: Seq<u8>, expected: Seq<u8>) -> bool {
    bytes.len() >= expected.len() && bytes.take(expected.len() as int) == expected
}

/// The header's copyright, version and type fields start with the expected texts.
pub open spec fn header_valid(d: Seq<u8>) -> bool {
    &&& starts_with(d.subrange(0, 40), expected_copyright())
    &&& starts_with(d.subrange(40, 44), expected_version())
    &&& starts_with(d.subrange(44, 56), expected_type())
}

/// Some table names a file type that the format does not define, and its type
/// code is read before the archive runs out.
pub open spec fn has_unknown_type(d: Seq<u8>) -> bool {
    exists|i: int|
        0 <= i < table_count_of(d) && available(d, table_header_pos(i), 4)
            && !known_type_code(#[trigger] u32_at(d, table_header_pos(i)))
            && forall|j: int| 0 <= j < i ==> known_type_code(#[trigger] u32_at(d, table_header_pos(j)))
}

/// The archive holds every table header, entry and file it announces.
pub open spec fn tables_fit(d: Seq<u8>) -> bool {
    contents_start(d) + size_before(d, total_entries(d)) <= d.len()
}

/// The tables of the archive, as a reader of its bytes must produce them.
pub open spec fn tables_match(d: Seq<u8>, tables: Seq<DrsLogicalTable>) -> bool {
    &&& tables.len() == table_count_of(d)
    &&& forall|i: int| #![trigger tables[i]] 0 <= i < tables.len() ==> {
        &&& tables[i].header == table_header_at(d, i)
        &&& tables[i].entries@ == table_entries(d, i)
        &&& tables[i].contents@.len() == table_entries(d, i).len()
        &&& tables[i].is_indexed()
        &&& forall|j: int| 0 <= j < tables[i].contents@.len()
            ==> (#[trigger] tables[i].contents@[j])@ == flat_contents(d, entries_before(d, i) + j)
    }
}

/// The header, as a reader of the archive's bytes must produce it.
pub open spec fn header_matches(d: Seq<u8>, h: DrsHeader) -> bool {
    &&& h.copyright_info@ == d.subrange(0, 40)
    &&& h.file_version@ == d.subrange(40, 44)
    &&& h.file_type@ == d.subrange(44, 56)
    &&& h.table_count == u32_at(d, 56)
    &&& h.file_offset == u32_at(d, 60)
}

/// Why an archive could not be read.
#[derive(Debug, Clone, Copy, PartialEq, Eq, Structural)]
pub enum DrsError {
    /// The archive ended before the header, a table, an entry or a file it announces.
    UnexpectedEof,
    /// The header does not identify a DRS archive.
    InvalidDrs,
}

// ---------------------------------------------------------------------------
// Reading.

fn array_40(v: &Vec<u8>) -> (r: [u8; 40])
    requires
        v@.len() == 40,
    ensures
        r@ == v@,
{
    let mut a = [0u8; 40];
    let mut i: usize = 0;
    while i < 40
        invariant
            0 <= i <= 40,
            v@.len() == 40,
            forall|j: int| 0 <= j < i ==> a@[j] == v@[j],
        decreases 40 - i,
    {
        a[i] = v[i];
        i = i + 1;
    }
    assert(a@ =~= v@);
    a
}

fn array_4(v: &Vec<u8>) -> (r: [u8; 4])
    requires
        v@.len() == 4,
    ensures
        r@ == v@,
{
    let a = [v[0], v[1], v[2], v[3]];
    assert(a@ =~= v@);
    a
}

fn array_12(v: &Vec<u8>) -> (r: [u8; 12])
    requires
        v@.len() == 12,
    ensures
        r@ == v@,
{
    let mut a = [0u8; 12];
    let mut i: usize = 0;
    while i < 12
        invariant
            0 <= i <= 12,
            v@.len() == 12,
            forall|j: int| 0 <= j < i ==> a@[j] == v@[j],
        decreases 12 - i,
    {
        a[i] = v[i];
        i = i + 1;
    }
    assert(a@ =~= v@);
    a
}

/// True when `bytes` starts with `expected`.
pub fn validate_str(bytes: &[u8], expected: &[u8]) -> (r: bool)
    ensures
        r == starts_with(bytes@, expected@),
{
    if bytes.len() < expected.len() {
        return false;
    }
    let mut i: usize = 0;
    while i < expected.len()
        invariant
            0 <= i <= expected@.len() <= bytes@.len(),
            forall|j: int| 0 <= j < i ==> bytes@[j] == expected@[j],
        decreases expected@.len() - i,
    {
        if bytes[i] != expected[i] {
            assert(bytes@.take(expected@.len() as int)[i as int] != expected@[i as int]);
            return false;
        }
        i = i + 1;
    }
    assert(bytes@.take(expected@.len() as int) =~= expected@);
    true
}

/// Reads the 64-byte archive header (without checking it).
pub fn read_header(data: &[u8]) -> (r: Result<DrsHeader, DrsError>)
    ensures
        match r {
            Ok(h) => header_readable(data@) && header_matches(data@, h),
            Err(e) => !header_readable(data@) && e == DrsError::UnexpectedEof,
        },
{
    if data.len() < 64 {
        return Err(DrsError::UnexpectedEof);
    }
    let mut pos: u64 = 0;
    let copyright = read_bytes(data, &mut pos, 40).unwrap();
    let version = read_bytes(data, &mut pos, 4).unwrap();
    let file_type = read_bytes(data, &mut pos, 12).unwrap();
    let table_count = read_u32(data, &mut pos).unwrap();
    let file_offset = read_u32(data, &mut pos).unwrap();
    Ok(DrsHeader {
        copyright_info: array_40(&copyright),
        file_version: array_4(&version),
        file_type: array_12(&file_type),
        table_count,
        file_offset,
    })
}

/// True when the header identifies a DRS archive.
pub fn header_is_valid(header: &DrsHeader) -> (r: bool)
    ensures
        r == (starts_with(header.copyright_info@, expected_copyright())
            && starts_with(header.file_version@, expected_version())
            && starts_with(header.file_type@, expected_type())),
{
    let c = copyright_text();
    let v = version_text();
    let t = type_text();
    validate_str(header.copyright_info.as_slice(), c.as_slice())
        && validate_str(header.file_version.as_slice(), v.as_slice())
        && validate_str(header.file_type.as_slice(), t.as_slice())
}

/// The tables of an archive before their lookup indices are built.
pub struct RawTable {
    pub header: DrsTableHeader,
    pub entries: Vec<DrsTableEntry>,
    pub contents: Vec<DrsFileContents>,
}

/// The tables read from the archive, as a reader of its bytes must produce them.
pub open spec fn raw_tables_match(d: Seq<u8>, tables: Seq<RawTable>) -> bool {
    &&& tables.len() == table_count_of(d)
    &&& forall|i: int| #![trigger tables[i]] 0 <= i < tables.len() ==> {
        &&& tables[i].header == table_header_at(d, i)
        &&& tables[i].entries@ == table_entries(d, i)
        &&& tables[i].contents@.len() == table_entries(d, i).len()
        &&& forall|j: int| 0 <= j < tables[i].contents@.len()
            ==> (#[trigger] tables[i].contents@[j])@ == flat_contents(d, entries_before(d, i) + j)
    }
}

proof fn lemma_entries_before_monotonic(d: Seq<u8>, i: int, j: int)
    requires
        0 <= i <= j,
    ensures
        entries_before(d, i) <= entries_before(d, j),
    decreases j - i,
{
    if i < j {
        lemma_entries_before_monotonic(d, i, j - 1);
    }
}

proof fn lemma_size_before_monotonic(d: Seq<u8>, i: int, j: int)
    requires
        0 <= i <= j,
    ensures
        size_before(d, i) <= size_before(d, j),
    decreases j - i,
{
    if i < j {
        lemma_size_before_monotonic(d, i, j - 1);
    }
}

/// No table up to `i` names an unknown type, and the archive ends before the
/// type code of any later table.
proof fn lemma_no_unknown_type(d: Seq<u8>, i: int)
    requires
        0 <= i <= table_count_of(d),
        forall|j: int| 0 <= j < i ==> known_type_code(#[trigger] u32_at(d, table_header_pos(j))),
        forall|k: int| i <= k < table_count_of(d) ==> !available(d, #[trigger] table_header_pos(k), 4),
    ensures
        !has_unknown_type(d),
{
    if has_unknown_type(d) {
        let k = choose|k: int|
            0 <= k < table_count_of(d) && available(d, table_header_pos(k), 4)
                && !known_type_code(#[trigger] u32_at(d, table_header_pos(k)))
                && forall|j: int| 0 <= j < k ==> known_type_code(#[trigger] u32_at(d, table_header_pos(j)));
        if k >= i {
            assert(!available(d, table_header_pos(k), 4));
        }
    }
}

/// Reads the table headers that follow the archive header. `None` when a
/// table names a file type that the format does not define.
fn read_table_headers(data: &[u8]) -> (r: Option<Result<Vec<DrsTableHeader>, DrsError>>)
    requires
        header_readable(data@),
    ensures
        match r {
            None => has_unknown_type(data@),
            Some(Err(e)) => !has_unknown_type(data@) && !tables_fit(data@) && e == DrsError::UnexpectedEof,
            Some(Ok(h)) => !has_unknown_type(data@) && h@ == table_headers(data@, table_count_of(data@))
                && entries_start(data@) <= data@.len(),
        },
{
    let ghost d = data@;
    let mut pos: u64 = 56;
    let table_count = read_u32(data, &mut pos).unwrap();
    let ghost t = table_count as int;
    pos = 64;
    let mut headers: Vec<DrsTableHeader> = Vec::new();
    let mut i: u32 = 0;
    while i < table_count
        invariant
            d == data@,
            t == table_count_of(d),
            table_count == t,
            0 <= i <= table_count,
            pos == table_header_pos(i as int),
            pos <= d.len(),
            headers@ == table_headers(d, i as int),
            forall|j: int| 0 <= j < i ==> known_type_code(#[trigger] u32_at(d, table_header_pos(j))),
        decreases table_count - i,
    {
        let code = match read_u32(data, &mut pos) {
            Ok(c) => c,
            Err(_) => {
                proof {
                    lemma_no_unknown_type(d, i as int);
                    lemma_short_before_entries(d, table_header_pos(i as int) + 12);
                }
                return Some(Err(DrsError::UnexpectedEof));
            },
        };
        let file_type = match DrsFileType::from_code(code) {
            Some(ft) => ft,
            None => {
                assert(!known_type_code(u32_at(d, table_header_pos(i as int))));
                assert(has_unknown_type(d));
                return None;
            },
        };
        let rest = (read_u32(data, &mut pos), read_u32(data, &mut pos));
        match rest {
            (Ok(table_offset), Ok(file_count)) => {
                headers.push(DrsTableHeader { file_type, table_offset, file_count });
                assert(headers@ =~= table_headers(d, i + 1));
            },
            _ => {
                proof {
                    lemma_no_unknown_type(d, i + 1);
                    lemma_short_before_entries(d, table_header_pos(i as int) + 12);
                }
                return Some(Err(DrsError::UnexpectedEof));
            },
        }
        i = i + 1;
    }
    proof {
        lemma_no_unknown_type(d, t);
    }
    Some(Ok(headers))
}

/// Reads the entries of every table.
fn read_entries(data: &[u8], headers: &Vec<DrsTableHeader>, pos: &mut u64)
    -> (r: Result<Vec<Vec<DrsTableEntry>>, DrsError>)
    requires
        header_readable(data@),
        headers@ == table_headers(data@, table_count_of(data@)),
        *old(pos) == entries_start(data@),
        entries_start(data@) <= data@.len(),
    ensures
        match r {
            Err(e) => !tables_fit(data@) && e == DrsError::UnexpectedEof,
            Ok(es) => es@.len() == table_count_of(data@) && *final(pos) == contents_start(data@)
                && *final(pos) <= data@.len()
                && forall|k: int| 0 <= k < es@.len() ==> (#[trigger] es@[k])@ == table_entries(data@, k),
        },
{
    let ghost d = data@;
    let ghost t = table_count_of(d);
    assert(*pos == entries_start(d) + 12 * entries_before(d, 0));
    let mut all_entries: Vec<Vec<DrsTableEntry>> = Vec::new();
    let mut ti: usize = 0;
    while ti < headers.len()
        invariant
            d == data@,
            t == table_count_of(d),
            headers@ == table_headers(d, t),
            0 <= ti <= headers@.len(),
            *pos == entries_start(d) + 12 * entries_before(d, ti as int),
            *pos <= d.len(),
            all_entries@.len() == ti,
            forall|k: int| 0 <= k < ti ==> (#[trigger] all_entries@[k])@ == table_entries(d, k),
        decreases headers@.len() - ti,
    {
        let count = headers[ti].file_count;
        let mut entries: Vec<DrsTableEntry> = Vec::new();
        let mut j: u32 = 0;
        while j < count
            invariant
                d == data@,
                t == table_count_of(d),
                0 <= ti < t,
                count == table_header_at(d, ti as int).file_count,
                0 <= j <= count,
                *pos == entries_start(d) + 12 * (entries_before(d, ti as int) + j),
                *pos <= d.len(),
                entries@ == table_entries(d, ti as int).take(j as int),
            decreases count - j,
        {
            let ghost p = *pos as int;
            let e = (read_u32(data, pos), read_u32(data, pos), read_u32(data, pos));
            match e {
                (Ok(file_id), Ok(file_offset), Ok(file_size)) => {
                    entries.push(DrsTableEntry { file_id, file_offset, file_size });
                    assert(entries@ =~= table_entries(d, ti as int).take(j + 1));
                },
                _ => {
                    proof {
                        lemma_entries_before_monotonic(d, ti as int + 1, t);
                        lemma_short_before_contents(d, p + 12);
                    }
                    return Err(DrsError::UnexpectedEof);
                },
            }
            j = j + 1;
        }
        assert(entries@ =~= table_entries(d, ti as int));
        all_entries.push(entries);
        ti = ti + 1;
    }
    Ok(all_entries)
}

/// Reads the contents of the files of one table, which start at `pos`.
#[verifier::rlimit(100)]
#[verifier::spinoff_prover]
fn read_table_contents(data: &[u8], pos: &mut u64, entries: &Vec<DrsTableEntry>, ti: Ghost<int>)
    -> (r: Result<Vec<DrsFileContents>, DrsError>)
    requires
        0 <= ti@ < table_count_of(data@),
        entries@ == table_entries(data@, ti@),
        *old(pos) == contents_start(data@) + size_before(data@, entries_before(data@, ti@)),
        *old(pos) <= data@.len(),
    ensures
        match r {
            Err(e) => !tables_fit(data@) && e == DrsError::UnexpectedEof,
            Ok(contents) => *final(pos) == contents_start(data@) + size_before(data@, entries_before(data@, ti@ + 1))
                && *final(pos) <= data@.len()
                && contents@.len() == entries@.len()
                && forall|j: int| 0 <= j < contents@.len()
                    ==> (#[trigger] contents@[j])@ == flat_contents(data@, entries_before(data@, ti@) + j),
        },
{
    let ghost d = data@;
    let ghost t = table_count_of(d);
    let ghost base = contents_start(d);
    let mut contents: Vec<DrsFileContents> = Vec::new();
    let mut j: usize = 0;
    while j < entries.len()
        invariant
            d == data@,
            t == table_count_of(d),
            0 <= ti@ < t,
            entries@ == table_entries(d, ti@),
            0 <= j <= entries@.len(),
            base == contents_start(d),
            *pos == base + size_before(d, entries_before(d, ti@) + j),
            *pos <= d.len(),
            contents@.len() == j,
            forall|k: int| 0 <= k < j
                ==> (#[trigger] contents@[k])@ == flat_contents(d, entries_before(d, ti@) + k),
        decreases entries@.len() - j,
    {
        let size = entries[j].file_size;
        let ghost k = entries_before(d, ti@) + j;
        match read_bytes(data, pos, size as u64) {
            Ok(buffer) => {
                proof {
                    lemma_contents_step(d, ti@, j as int);
                }
                contents.push(buffer);
            },
            Err(_) => {
                proof {
                    lemma_contents_short(d, ti@, j as int);
                }
                return Err(DrsError::UnexpectedEof);
            },
        }
        j = j + 1;
    }
    Ok(contents)
}

/// Reads the table headers, the entries and the contents of the files that
/// follow the archive header. `None` when a table names a file type that the
/// format does not define.
#[verifier::rlimit(100)]
#[verifier::spinoff_prover]
pub fn read_tables_checked(data: &[u8]) -> (r: Option<Result<Vec<RawTable>, DrsError>>)
    requires
        header_readable(data@),
    ensures
        match r {
            None => has_unknown_type(data@),
            Some(Err(e)) => !has_unknown_type(data@) && !tables_fit(data@) && e == DrsError::UnexpectedEof,
            Some(Ok(tables)) => !has_unknown_type(data@) && tables_fit(data@)
                && raw_tables_match(data@, tables@),
        },
{
    let ghost d = data@;
    let ghost t = table_count_of(d);
    let read_headers = read_table_headers(data);
    if read_headers.is_none() {
        assert(has_unknown_type(d));
        return None;
    }
    let headers = match read_headers.unwrap() {
        Err(e) => return Some(Err(e)),
        Ok(h) => h,
    };
    let mut pos: u64 = 64 + 12 * (headers.len() as u64);
    let all_entries = match read_entries(data, &headers, &mut pos) {
        Err(e) => return Some(Err(e)),
        Ok(es) => es,
    };
    let mut tables: Vec<RawTable> = Vec::new();
    let mut ti: usize = 0;
    while ti < headers.len()
        invariant
            d == data@,
            t == table_count_of(d),
            !has_unknown_type(d),
            headers@ == table_headers(d, t),
            all_entries@.len() == t,
            forall|k: int| 0 <= k < t ==> (#[trigger] all_entries@[k])@ == table_entries(d, k),
            0 <= ti <= headers@.len(),
            pos == contents_start(d) + size_before(d, entries_before(d, ti as int)),
            pos <= d.len(),
            tables@.len() == ti,
            forall|k: int| #![trigger tables@[k]] 0 <= k < ti ==> {
                &&& tables@[k].header == table_header_at(d, k)
                &&& tables@[k].entries@ == table_entries(d, k)
                &&& tables@[k].contents@.len() == table_entries(d, k).len()
                &&& forall|j: int| 0 <= j < tables@[k].contents@.len()
                    ==> (#[trigger] tables@[k].contents@[j])@ == flat_contents(d, entries_before(d, k) + j)
            },
        decreases headers@.len() - ti,
    {
        let entries = all_entries[ti].clone();
        assert(entries@ =~= all_entries@[ti as int]@);
        let contents = match read_table_contents(data, &mut pos, &entries, Ghost(ti as int)) {
            Err(e) => return Some(Err(e)),
            Ok(c) => c,
        };
        tables.push(RawTable { header: headers[ti], entries, contents });
        ti = ti + 1;
    }
    Some(Ok(tables))
}

/// The file of entry `j` of table `ti` does not fit in the archive, so the
/// archive does not hold what its header announces.
proof fn lemma_contents_short(d: Seq<u8>, ti: int, j: int)
    requires
        0 <= ti < table_count_of(d),
        0 <= j < table_header_at(d, ti).file_count,
        !available(d, contents_start(d) + size_before(d, entries_before(d, ti) + j),
            table_entries(d, ti)[j].file_size as int),
    ensures
        !tables_fit(d),
{
    let k = entries_before(d, ti) + j;
    assert(entries_before(d, ti + 1) == entries_before(d, ti) + table_header_at(d, ti).file_count);
    lemma_entries_before_monotonic(d, ti + 1, table_count_of(d));
    lemma_entries_before_monotonic(d, 0, ti);
    assert(size_before(d, k + 1) == size_before(d, k) + flat_entry(d, k).file_size);
    lemma_size_before_monotonic(d, k + 1, total_entries(d));
    lemma_size_before_monotonic(d, 0, k);
    lemma_entries_before_monotonic(d, 0, table_count_of(d));
}

/// Reading the file of entry `j` of table `ti` moves to the next file.
proof fn lemma_contents_step(d: Seq<u8>, ti: int, j: int)
    requires
        0 <= ti < table_count_of(d),
        0 <= j < table_header_at(d, ti).file_count,
    ensures
        size_before(d, entries_before(d, ti) + j + 1) == size_before(d, entries_before(d, ti) + j)
            + table_entries(d, ti)[j].file_size,
        flat_contents(d, entries_before(d, ti) + j) == d.subrange(
            contents_start(d) + size_before(d, entries_before(d, ti) + j),
            contents_start(d) + size_before(d, entries_before(d, ti) + j) + table_entries(d, ti)[j].file_size),
{
    lemma_entries_before_monotonic(d, 0, ti);
}

/// A read that fails before the first entry means the archive does not hold
/// what its header announces.
proof fn lemma_short_before_entries(d: Seq<u8>, p: int)
    requires
        p <= entries_start(d),
        d.len() < p,
    ensures
        !tables_fit(d),
{
    lemma_entries_before_monotonic(d, 0, table_count_of(d));
    lemma_short_before_contents(d, p);
}

/// A read that fails before the start of the file contents means the archive
/// does not hold what its header announces.
proof fn lemma_short_before_contents(d: Seq<u8>, p: int)
    requires
        p <= contents_start(d),
        d.len() < p,
    ensures
        !tables_fit(d),
{
    lemma_entries_before_monotonic(d, 0, table_count_of(d));
    lemma_size_before_monotonic(d, 0, total_entries(d));
}

/// What reading an archive from its bytes gives, short of the tables read
/// from them: `None` where a table names a file type the format does not define.
pub open spec fn drs_read_fails_with(d: Seq<u8>, e: DrsError) -> bool {
    match e {
        DrsError::UnexpectedEof => !header_readable(d)
            || (header_valid(d) && !has_unknown_type(d) && !tables_fit(d)),
        DrsError::InvalidDrs => header_readable(d) && !header_valid(d),
    }
}

/// The archive can be read.
pub open spec fn drs_readable(d: Seq<u8>) -> bool {
    header_readable(d) && header_valid(d) && !has_unknown_type(d) && tables_fit(d)
}

/// Reading the archive reaches a table whose file type the format does not define.
pub open spec fn drs_has_unknown_table(d: Seq<u8>) -> bool {
    header_readable(d) && header_valid(d) && has_unknown_type(d)
}

impl DrsFile {
    /// Reads a DRS archive from its bytes. `None` when a table names a file
    /// type that the format does not define.
    pub fn read_from_checked(data: &[u8]) -> (r: Option<Result<DrsFile, DrsError>>)
        ensures
            match r {
                None => drs_has_unknown_table(data@),
                Some(Err(e)) => drs_read_fails_with(data@, e),
                Some(Ok(f)) => drs_readable(data@) && header_matches(data@, f.header)
                    && tables_match(data@, f.tables@),
            },
    {
        let header = match read_header(data) {
            Ok(h) => h,
            Err(e) => return Some(Err(e)),
        };
        if !header_is_valid(&header) {
            return Some(Err(DrsError::InvalidDrs));
        }
        let raw = match read_tables_checked(data) {
            None => return None,
            Some(Err(e)) => return Some(Err(e)),
            Some(Ok(t)) => t,
        };
        let ghost d = data@;
        let ghost raw_view = raw@;
        let mut tables: Vec<DrsLogicalTable> = Vec::new();
        let mut rest = raw;
        let ghost n = raw_view.len();
        while rest.len() > 0
            invariant
                raw_tables_match(d, raw_view),
                n == raw_view.len(),
                tables@.len() + rest@.len() == n,
                rest@ == raw_view.skip(tables@.len() as int),
                forall|k: int| #![trigger tables@[k]] 0 <= k < tables@.len() ==> {
                    &&& tables@[k].header == table_header_at(d, k)
                    &&& tables@[k].entries@ == table_entries(d, k)
                    &&& tables@[k].contents@.len() == table_entries(d, k).len()
                    &&& tables@[k].is_indexed()
                    &&& forall|j: int| 0 <= j < tables@[k].contents@.len()
                        ==> (#[trigger] tables@[k].contents@[j])@ == flat_contents(d, entries_before(d, k) + j)
                },
            decreases rest@.len(),
        {
            let t = rest.remove(0);
            assert(t == raw_view[tables@.len() as int]);
            let mut table = DrsLogicalTable {
                header: t.header,
                entries: t.entries,
                contents: t.contents,
                index_map: HashMap::new(),
            };
            proof {
                broadcast use vstd::std_specs::hash::group_hash_axioms;
            }
            table.populate_index_map();
            tables.push(table);
        }
        Some(Ok(DrsFile { header, tables }))
    }

    /// Reads a DRS archive from its bytes; the archive must not name a file
    /// type that the format does not define.
    pub fn read_from(data: &[u8]) -> (r: Result<DrsFile, DrsError>)
        requires
            !drs_has_unknown_table(data@),
        ensures
            match r {
                Err(e) => drs_read_fails_with(data@, e),
                Ok(f) => drs_readable(data@) && header_matches(data@, f.header)
                    && tables_match(data@, f.tables@),
            },
    {
        DrsFile::read_from_checked(data).unwrap()
    }
}

} // verus!
