//! The string table of the game's language library (`language.dll`): a
//! Windows PE image whose string resources hold the game's texts.
//!
//! The path to them, as the reader follows it:
//! - "MZ" at the start, and at offset 60 the offset of the PE header;
//! - the PE header ("PE", two bytes skipped, then 20 bytes of fields, the
//!   section count among them), 96 bytes on the data directories (16 of
//!   8 bytes: address and size), of which the third locates the resources;
//! - the section headers (40 bytes each), among which the first whose virtual
//!   address is that of the resources: its raw data offset is the resource root;
//! - at the root, a resource directory (16 bytes, the count of ID entries at
//!   14, then 8 bytes per entry: name and offset) whose entry named 6 leads to
//!   the string directory, whose entries (one per block of 16 strings, named
//!   by block number from 1) lead to language directories, whose entries lead
//!   to data entries (data address and size, 16 bytes in all);
//! - the data of a block: its strings one after the other, each a 16-bit
//!   length and that many UTF-16 code units; an empty one takes an ID too.

use vstd::prelude::*;
use std::collections::BTreeMap;
use crate::bytes::{available, chars_of, has_bytes, read_sized_str, read_u16, read_u32, sized_text, u16_at, u32_at, StreamError};

verus! {

/// What reading the string table can fail with.
#[derive(Debug, Clone, Copy, PartialEq, Eq)]
pub enum LanguageError {
    /// The data ended early, or a text field is not valid UTF-8.
    Read(StreamError),
    /// The image does not start with "MZ", or its PE header with "PE".
    InvalidPeMagic,
    /// No section holds the resources.
    ResourceSectionNotFound,
    /// The resources hold no string table.
    StringResourcesNotFound,
    /// A string is not valid UTF-16.
    InvalidUtf16,
}

/// The texts of the game, by string ID.
#[derive(Debug)]
pub struct Language {
    pub strings: BTreeMap<usize, String>,
}

/// Texts by ID, as characters.
pub open spec fn text_map(m: Map<usize, String>) -> Map<usize, Seq<char>> {
    Map::new(|k: usize| m.contains_key(k), |k: usize| m[k]@)
}

/// The texts of a string table, by ID.
pub open spec fn strings_view(l: Language) -> Map<usize, Seq<char>> {
    text_map(l.strings@)
}

/// The characters that a sequence of UTF-16 code units encodes: a unit outside
/// 0xD800..=0xDFFF stands for itself, a high surrogate (0xD800..=0xDBFF)
/// followed by a low one (0xDC00..=0xDFFF) for the character
/// 0x10000 + (high - 0xD800) * 0x400 + (low - 0xDC00); `None` when a
/// surrogate is not part of such a pair.
pub open spec fn utf16_chars(w: Seq<u16>) -> Option<Seq<char>>
    decreases w.len(),
{
    if w.len() == 0 {
        Some(Seq::empty())
    } else if w[0] < 0xD800 || w[0] > 0xDFFF {
        match utf16_chars(w.drop_first()) {
            Some(rest) => Some(seq![w[0] as char] + rest),
            None => None,
        }
    } else if w[0] <= 0xDBFF && w.len() >= 2 && 0xDC00 <= w[1] <= 0xDFFF {
        let c = 0x10000 + (w[0] - 0xD800) * 0x400 + (w[1] - 0xDC00);
        match utf16_chars(w.skip(2)) {
            Some(rest) => Some(seq![c as char] + rest),
            None => None,
        }
    } else {
        None
    }
}

/// `String::from_utf16`: the text that UTF-16 code units encode, or `None`
/// when they are not valid UTF-16 (a surrogate outside a high-low pair).
#[verifier::external_body]
fn string_from_utf16(units: &[u16]) -> (r: Option<String>)
    ensures
        match utf16_chars(units@) {
            Some(s) => r matches Some(t) && t@ == s,
            None => r is None,
        },
{
    String::from_utf16(units).ok()
}

/// Where the offset of the PE header is stored.
pub const NEW_EXE_HEADER_ADDRESS_OFFSET: u64 = 60;
/// How far the data directories are from the fields of the PE header.
pub const DATA_DIRECTORY_OFFSET_FROM_OPTIONAL_HEADER: u64 = 96;
/// The number of data directories.
pub const DATA_DIRECTORY_COUNT: u64 = 16;
/// The data directory that locates the resources.
pub const DATA_DIRECTORY_RESOURCE_INDEX: u64 = 2;
/// The resource type of string tables.
pub const RESOURCE_TYPE_STRING: u32 = 6;

/// The outcome of checking the two-character text at `p` against `expected`:
/// `None` when it matches.
pub open spec fn magic_error(d: Seq<u8>, p: int, expected: Seq<char>) -> Option<LanguageError> {
    if !available(d, p, 2) {
        Some(LanguageError::Read(StreamError::UnexpectedEof))
    } else {
        match sized_text(d.subrange(p, p + 2)) {
            None => Some(LanguageError::Read(StreamError::InvalidData)),
            Some(t) => if t == expected {
                None
            } else {
                Some(LanguageError::InvalidPeMagic)
            },
        }
    }
}

/// The first error among the section headers `k` to `n - 1` at `base`
/// (40 bytes each: a name of 8 bytes of text, then 32 bytes of fields).
pub open spec fn sections_error(d: Seq<u8>, base: int, k: int, n: int) -> Option<LanguageError>
    decreases n - k,
{
    if k >= n || k < 0 {
        None
    } else {
        let s = base + 40 * k;
        if !available(d, s, 8) {
            Some(LanguageError::Read(StreamError::UnexpectedEof))
        } else if sized_text(d.subrange(s, s + 8)) is None {
            Some(LanguageError::Read(StreamError::InvalidData))
        } else if !available(d, s + 8, 32) {
            Some(LanguageError::Read(StreamError::UnexpectedEof))
        } else {
            sections_error(d, base, k + 1, n)
        }
    }
}

/// The first of the section headers `k` to `n - 1` at `base` whose virtual
/// address is `vaddr`, or `n`.
pub open spec fn first_section(d: Seq<u8>, base: int, vaddr: u32, k: int, n: int) -> int
    decreases n - k,
{
    if k >= n || k < 0 {
        n
    } else if u32_at(d, base + 40 * k + 12) == vaddr {
        k
    } else {
        first_section(d, base, vaddr, k + 1, n)
    }
}

/// The section that holds the resources: its virtual address and the offset
/// of its raw data (the resource root).
pub open spec fn resource_section(d: Seq<u8>) -> Result<(u32, u32), LanguageError> {
    match magic_error(d, 0, seq!['M', 'Z']) {
        Some(e) => Err(e),
        None => if !available(d, 60, 4) {
            Err(LanguageError::Read(StreamError::UnexpectedEof))
        } else {
            let pe = u32_at(d, 60) as int;
            match magic_error(d, pe, seq!['P', 'E']) {
                Some(e) => Err(e),
                None => if !available(d, pe + 4, 20) || !available(d, pe + 120, 128) {
                    Err(LanguageError::Read(StreamError::UnexpectedEof))
                } else {
                    let n = u16_at(d, pe + 6) as int;
                    let base = pe + 248;
                    match sections_error(d, base, 0, n) {
                        Some(e) => Err(e),
                        None => {
                            let k = first_section(d, base, u32_at(d, pe + 136), 0, n);
                            if k >= n {
                                Err(LanguageError::ResourceSectionNotFound)
                            } else {
                                Ok((u32_at(d, base + 40 * k + 12), u32_at(d, base + 40 * k + 20)))
                            }
                        },
                    }
                },
            }
        },
    }
}

/// Checks the two-character text at `pos` against `a` `b`.
fn check_magic(data: &[u8], pos: u64, a: char, b: char) -> (r: Result<(), LanguageError>)
    ensures
        match magic_error(data@, pos as int, seq![a, b]) {
            Some(e) => r == Err::<(), LanguageError>(e),
            None => r is Ok,
        },
{
    let mut p = pos;
    let text = match read_sized_str(data, &mut p, 2) {
        Ok(s) => s,
        Err(e) => {
            return Err(LanguageError::Read(e));
        },
    };
    let cs = chars_of(&text);
    if cs.len() == 2 && cs[0] == a && cs[1] == b {
        assert(cs@ =~= seq![a, b]);
        Ok(())
    } else {
        assert(cs@ != seq![a, b]) by {
            if cs@ == seq![a, b] {
                assert(cs@[0] == a && cs@[1] == b);
            }
        }
        Err(LanguageError::InvalidPeMagic)
    }
}

/// Finds the section that holds the resources: its virtual address and the
/// offset of its raw data.
fn find_resource_section(data: &[u8]) -> (r: Result<(u32, u32), LanguageError>)
    ensures
        r == resource_section(data@),
{
    check_magic(data, 0, 'M', 'Z')?;
    let mut p: u64 = NEW_EXE_HEADER_ADDRESS_OFFSET;
    let pe = match read_u32(data, &mut p) {
        Ok(v) => v as u64,
        Err(e) => return Err(LanguageError::Read(e)),
    };
    check_magic(data, pe, 'P', 'E')?;
    if !has_bytes(data, pe + 4, 20) || !has_bytes(data, pe + 120, 128) {
        return Err(LanguageError::Read(StreamError::UnexpectedEof));
    }
    let mut q: u64 = pe + 6;
    let section_count = match read_u16(data, &mut q) {
        Ok(v) => v as u64,
        Err(e) => return Err(LanguageError::Read(e)),
    };
    let mut q: u64 = pe + 24 + DATA_DIRECTORY_OFFSET_FROM_OPTIONAL_HEADER + 8 * DATA_DIRECTORY_RESOURCE_INDEX;
    let resource_vaddr = match read_u32(data, &mut q) {
        Ok(v) => v,
        Err(e) => return Err(LanguageError::Read(e)),
    };
    let base: u64 = pe + 24 + DATA_DIRECTORY_OFFSET_FROM_OPTIONAL_HEADER + 8 * DATA_DIRECTORY_COUNT;
    assert(base == pe + 248);
    // every section header is read before the resource section is chosen
    let mut k: u64 = 0;
    let mut found: Option<(u32, u32)> = None;
    let ghost d = data@;
    let ghost n = section_count as int;
    while k < section_count
        invariant
            d == data@,
            n == section_count,
            base == pe + 248,
            magic_error(d, 0, seq!['M', 'Z']) is None,
            available(d, 60, 4),
            pe == u32_at(d, 60),
            magic_error(d, pe as int, seq!['P', 'E']) is None,
            available(d, pe + 4, 20) && available(d, pe + 120, 128),
            section_count == u16_at(d, pe + 6),
            resource_vaddr == u32_at(d, pe + 136),
            pe <= u32::MAX,
            k <= section_count,
            section_count <= u16::MAX,
            sections_error(d, base as int, 0, n) == sections_error(d, base as int, k as int, n),
            match found {
                None => first_section(d, base as int, resource_vaddr, 0, n)
                    == first_section(d, base as int, resource_vaddr, k as int, n),
                Some((va, raw)) => {
                    let f = first_section(d, base as int, resource_vaddr, 0, n);
                    f < k && va == u32_at(d, base + 40 * f + 12) && raw == u32_at(d, base + 40 * f + 20)
                },
            },
        decreases section_count - k,
    {
        let s = base + 40 * k;
        let mut t = s;
        match read_sized_str(data, &mut t, 8) {
            Ok(_) => {},
            Err(e) => return Err(LanguageError::Read(e)),
        }
        if !has_bytes(data, s + 8, 32) {
            return Err(LanguageError::Read(StreamError::UnexpectedEof));
        }
        let mut t = s + 12;
        let va = match read_u32(data, &mut t) {
            Ok(v) => v,
            Err(e) => return Err(LanguageError::Read(e)),
        };
        let mut t = s + 20;
        let raw = match read_u32(data, &mut t) {
            Ok(v) => v,
            Err(e) => return Err(LanguageError::Read(e)),
        };
        if found.is_none() && va == resource_vaddr {
            found = Some((va, raw));
        }
        k = k + 1;
    }
    match found {
        Some(f) => Ok(f),
        None => Err(LanguageError::ResourceSectionNotFound),
    }
}

/// Whether a resource directory can be read at `q`: its 16 bytes of fields,
/// then 8 bytes for each of its ID entries.
pub open spec fn dir_readable(d: Seq<u8>, q: int) -> bool {
    available(d, q, 16) && available(d, q + 16, 8 * u16_at(d, q + 14))
}

/// The number of ID entries of the resource directory at `q`.
pub open spec fn dir_count(d: Seq<u8>, q: int) -> int {
    u16_at(d, q + 14) as int
}

/// The name (the ID) of entry `j` of the resource directory at `q`.
pub open spec fn dir_name(d: Seq<u8>, q: int, j: int) -> u32 {
    u32_at(d, q + 16 + 8 * j)
}

/// Where entry `j` of the resource directory at `q` leads, relative to the
/// resource root (the high bit, which marks a subdirectory, cleared).
pub open spec fn dir_offset(d: Seq<u8>, q: int, j: int) -> u32 {
    u32_at(d, q + 20 + 8 * j) & 0x7FFF_FFFFu32
}

/// Reads the ID entries of the resource directory at `q`: name and offset of
/// each; `None` when the data ends before them.
fn read_directory(data: &[u8], q: u64) -> (r: Option<Vec<(u32, u32)>>)
    requires
        q <= 0x1_0000_0000_0000,
    ensures
        match r {
            Some(v) => dir_readable(data@, q as int) && v@.len() == dir_count(data@, q as int)
                && forall|j: int| 0 <= j < v@.len() ==> (#[trigger] v@[j]) == (dir_name(data@, q as int, j), dir_offset(data@, q as int, j)),
            None => !dir_readable(data@, q as int),
        },
{
    if !has_bytes(data, q, 16) {
        return None;
    }
    let mut p = q + 14;
    let count = match read_u16(data, &mut p) {
        Ok(v) => v as u64,
        Err(_) => return None,
    };
    if !has_bytes(data, q + 16, 8 * count) {
        return None;
    }
    let mut entries: Vec<(u32, u32)> = Vec::new();
    let mut j: u64 = 0;
    while j < count
        invariant
            j <= count,
            count == u16_at(data@, q + 14),
            q <= 0x1_0000_0000_0000,
            available(data@, q as int + 16, 8 * count),
            entries@.len() == j,
            forall|k: int| 0 <= k < j ==> (#[trigger] entries@[k]) == (dir_name(data@, q as int, k), dir_offset(data@, q as int, k)),
        decreases count - j,
    {
        let mut p = q + 16 + 8 * j;
        let name = match read_u32(data, &mut p) {
            Ok(v) => v,
            Err(_) => return None,
        };
        let offset = match read_u32(data, &mut p) {
            Ok(v) => v & 0x7FFF_FFFF,
            Err(_) => return None,
        };
        entries.push((name, offset));
        j = j + 1;
    }
    Some(entries)
}

/// The first of the entries `j` to `n - 1` of the directory at `q` named
/// `name`, or `n`.
pub open spec fn first_named(d: Seq<u8>, q: int, name: u32, j: int, n: int) -> int
    decreases n - j,
{
    if j >= n || j < 0 {
        n
    } else if dir_name(d, q, j) == name {
        j
    } else {
        first_named(d, q, name, j + 1, n)
    }
}

/// `m` is the least of `names` that is at least `lo`.
pub open spec fn is_least_from(names: Seq<u32>, lo: int, m: u32) -> bool {
    &&& m >= lo
    &&& exists|i: int| 0 <= i < names.len() && names[i] == m
    &&& forall|j: int| 0 <= j < names.len() && names[j] >= lo ==> names[j] >= m
}

/// The positions `i` on of the names equal to `m`, in order.
pub open spec fn with_name(names: Seq<u32>, m: u32, i: int) -> Seq<int>
    decreases names.len() - i,
{
    if i >= names.len() || i < 0 {
        Seq::empty()
    } else if names[i] == m {
        seq![i] + with_name(names, m, i + 1)
    } else {
        with_name(names, m, i + 1)
    }
}

/// The positions of the names that are at least `lo`, by name and, among
/// equal names, in order: the order in which the blocks of strings are read.
pub open spec fn order_from(names: Seq<u32>, lo: int) -> Seq<int>
    decreases 0x1_0000_0000 - lo,
{
    if lo < 0 || lo > u32::MAX || !(exists|m: u32| is_least_from(names, lo, m)) {
        Seq::empty()
    } else {
        let m = choose|m: u32| is_least_from(names, lo, m);
        if m < lo {
            Seq::empty()
        } else {
            with_name(names, m, 0) + order_from(names, m + 1)
        }
    }
}

/// The least name from a bound on is unique.
proof fn lemma_least_unique(names: Seq<u32>, lo: int, a: u32, b: u32)
    requires
        is_least_from(names, lo, a),
        is_least_from(names, lo, b),
    ensures
        a == b,
{
    let i = choose|i: int| 0 <= i < names.len() && names[i] == a;
    let j = choose|j: int| 0 <= j < names.len() && names[j] == b;
}

/// The positions of `names` in the order in which their blocks are read.
fn work_order(names: &Vec<u32>) -> (r: Vec<usize>)
    ensures
        r@.len() == order_from(names@, 0).len(),
        forall|k: int| 0 <= k < r@.len() ==> (#[trigger] r@[k]) as int == order_from(names@, 0)[k],
{
    let ghost whole = order_from(names@, 0);
    let mut out: Vec<usize> = Vec::new();
    let mut lo: u64 = 0;
    while lo <= 0xFFFF_FFFF
        invariant
            lo <= 0x1_0000_0000,
            out@.len() + order_from(names@, lo as int).len() == whole.len(),
            forall|k: int| 0 <= k < out@.len() ==> (#[trigger] out@[k]) as int == whole[k],
            forall|k: int| 0 <= k < order_from(names@, lo as int).len()
                ==> #[trigger] order_from(names@, lo as int)[k] == whole[out@.len() + k],
            whole == order_from(names@, 0),
        ensures
            out@.len() == whole.len(),
            forall|k: int| 0 <= k < out@.len() ==> (#[trigger] out@[k]) as int == whole[k],
        decreases 0x1_0000_0000 - lo,
    {
        let mut found = false;
        let mut m: u32 = 0;
        let mut i: usize = 0;
        while i < names.len()
            invariant
                i <= names@.len(),
                lo <= 0xFFFF_FFFF,
                found ==> m >= lo && (exists|j: int| 0 <= j < i && names@[j] == m),
                found ==> forall|j: int| 0 <= j < i && names@[j] >= lo ==> names@[j] >= m,
                !found ==> forall|j: int| 0 <= j < i ==> names@[j] < lo,
            decreases names@.len() - i,
        {
            let v = names[i];
            if v as u64 >= lo && (!found || v < m) {
                m = v;
                found = true;
            }
            i = i + 1;
        }
        if !found {
            assert(!(exists|x: u32| is_least_from(names@, lo as int, x))) by {
                if exists|x: u32| is_least_from(names@, lo as int, x) {
                    let x = choose|x: u32| is_least_from(names@, lo as int, x);
                    let j = choose|j: int| 0 <= j < names@.len() && names@[j] == x;
                }
            }
            assert(order_from(names@, lo as int).len() == 0);
            break;
        }
        assert(is_least_from(names@, lo as int, m));
        proof {
            let c = choose|x: u32| is_least_from(names@, lo as int, x);
            lemma_least_unique(names@, lo as int, m, c);
        }
        let ghost base = out@.len();
        assert(order_from(names@, lo as int) == with_name(names@, m, 0) + order_from(names@, m + 1));
        let mut i: usize = 0;
        while i < names.len()
            invariant
                i <= names@.len(),
                out@.len() + with_name(names@, m, i as int).len() + order_from(names@, m + 1).len() == whole.len(),
                forall|k: int| 0 <= k < out@.len() ==> (#[trigger] out@[k]) as int == whole[k],
                forall|k: int| 0 <= k < (with_name(names@, m, i as int) + order_from(names@, m + 1)).len()
                    ==> #[trigger] (with_name(names@, m, i as int) + order_from(names@, m + 1))[k] == whole[out@.len() + k],
            decreases names@.len() - i,
        {
            let ghost tail = with_name(names@, m, i as int) + order_from(names@, m + 1);
            if names[i] == m {
                assert(tail[0] == i);
                assert(with_name(names@, m, i + 1) + order_from(names@, m + 1) =~= tail.drop_first());
                out.push(i);
            } else {
                assert(with_name(names@, m, i + 1) + order_from(names@, m + 1) =~= tail);
            }
            i = i + 1;
        }
        assert(with_name(names@, m, i as int) + order_from(names@, m + 1) =~= order_from(names@, m + 1));
        lo = m as u64 + 1;
        assert(lo > 0xFFFF_FFFF ==> order_from(names@, lo as int).len() == 0);
    }
    out
}

/// The `n` code units from `p` on.
pub open spec fn words_at(d: Seq<u8>, p: int, n: int) -> Seq<u16> {
    Seq::new(n as nat, |k: int| u16_at(d, p + 2 * k))
}

/// The strings of a block from `pos` up to `end` added to `m`, the first
/// with ID `id`: each is a 16-bit length and that many UTF-16 code units, an
/// empty one is not added but takes an ID. `None` when an ID would pass the
/// largest `usize`.
pub open spec fn records(d: Seq<u8>, pos: int, end: int, id: int, m: Map<usize, Seq<char>>)
    -> Option<Result<Map<usize, Seq<char>>, LanguageError>>
    decreases if end > pos { end - pos } else { 0 },
{
    if pos >= end {
        Some(Ok(m))
    } else if !available(d, pos, 2) {
        Some(Err(LanguageError::Read(StreamError::UnexpectedEof)))
    } else {
        let len = u16_at(d, pos) as int;
        if len == 0 {
            if id >= usize::MAX {
                None
            } else {
                records(d, pos + 2, end, id + 1, m)
            }
        } else if !available(d, pos + 2, 2 * len) {
            Some(Err(LanguageError::Read(StreamError::UnexpectedEof)))
        } else {
            match utf16_chars(words_at(d, pos + 2, len)) {
                None => Some(Err(LanguageError::InvalidUtf16)),
                Some(t) => if id < 0 || id >= usize::MAX {
                    None
                } else {
                    records(d, pos + 2 + 2 * len, end, id + 1, m.insert(id as usize, t))
                },
            }
        }
    }
}

/// The block of strings named `dir_id` whose data entry is at `e`, added to
/// `m`. The data entry (16 bytes) gives the address of the block and its
/// size; the address is turned into an offset from the resource root `r`
/// through the virtual address `sv` of the resource section. `None` when the
/// address is below `sv`, or the first ID of the block, (dir_id - 1) * 16,
/// is not a 32-bit number.
pub open spec fn block_outcome(d: Seq<u8>, r: int, sv: u32, dir_id: u32, e: int, m: Map<usize, Seq<char>>)
    -> Option<Result<Map<usize, Seq<char>>, LanguageError>>
{
    if !available(d, e, 16) {
        Some(Err(LanguageError::Read(StreamError::UnexpectedEof)))
    } else {
        let doff = u32_at(d, e);
        let size = u32_at(d, e + 4);
        if doff < sv {
            None
        } else if dir_id == 0 || (dir_id - 1) * 16 > u32::MAX {
            None
        } else {
            let start = r + (doff - sv);
            records(d, start, start + size, (dir_id - 1) * 16, m)
        }
    }
}

/// The blocks `items[k..]` (block number and position of the data entry),
/// read in turn into `m`.
pub open spec fn blocks_from(d: Seq<u8>, r: int, sv: u32, items: Seq<(u32, int)>, k: int, m: Map<usize, Seq<char>>)
    -> Option<Result<Map<usize, Seq<char>>, LanguageError>>
    decreases items.len() - k,
{
    if k >= items.len() || k < 0 {
        Some(Ok(m))
    } else {
        then_blocks(d, r, sv, items, k + 1, block_outcome(d, r, sv, items[k].0, items[k].1, m))
    }
}

/// What reading the blocks `items[k..]` after an outcome `o` gives.
pub open spec fn then_blocks(d: Seq<u8>, r: int, sv: u32, items: Seq<(u32, int)>, k: int,
    o: Option<Result<Map<usize, Seq<char>>, LanguageError>>) -> Option<Result<Map<usize, Seq<char>>, LanguageError>>
    decreases items.len() - k + 1, 0int,
{
    match o {
        Some(Ok(m)) => if k > items.len() || k < 1 { Some(Ok(m)) } else { blocks_from(d, r, sv, items, k, m) },
        _ => o,
    }
}

/// The data entries of the language directory of entry `j` of the string
/// directory at `q2`, each with the block number of that entry.
pub open spec fn blocks_of(d: Seq<u8>, r: int, q2: int, j: int) -> Seq<(u32, int)> {
    let q3 = r + dir_offset(d, q2, j);
    Seq::new(dir_count(d, q3) as nat, |t: int| (dir_name(d, q2, j), r + dir_offset(d, q3, t)))
}

/// The data entries of the entries `order` of the string directory at `q2`, in turn.
pub open spec fn blocks_in_order(d: Seq<u8>, r: int, q2: int, order: Seq<int>) -> Seq<(u32, int)>
    decreases order.len(),
{
    if order.len() == 0 {
        Seq::empty()
    } else {
        blocks_of(d, r, q2, order[0]) + blocks_in_order(d, r, q2, order.drop_first())
    }
}

/// The names of the entries of the directory at `q`.
pub open spec fn dir_names(d: Seq<u8>, q: int) -> Seq<u32> {
    Seq::new(dir_count(d, q) as nat, |j: int| dir_name(d, q, j))
}

/// The string directory of `d` is at `q2`: the resource section is found
/// (virtual address `sv`, root `rr`), and the root directory and the string
/// directory can be read.
pub open spec fn string_dir_at(d: Seq<u8>, sv: u32, rr: int, q2: int) -> bool {
    &&& 0 <= rr <= u32::MAX
    &&& resource_section(d) == Ok::<(u32, u32), LanguageError>((sv, rr as u32))
    &&& dir_readable(d, rr)
    &&& first_named(d, rr, 6, 0, dir_count(d, rr)) < dir_count(d, rr)
    &&& q2 == rr + dir_offset(d, rr, first_named(d, rr, 6, 0, dir_count(d, rr)))
    &&& dir_readable(d, q2)
}

/// The string table of the language library `d`, or why it cannot be read;
/// `None` where an address or a string ID is out of its range.
pub open spec fn language_outcome(d: Seq<u8>) -> Option<Result<Map<usize, Seq<char>>, LanguageError>> {
    match resource_section(d) {
        Err(e) => Some(Err(e)),
        Ok((sv, raw)) => {
            let r = raw as int;
            if !dir_readable(d, r) {
                Some(Err(LanguageError::Read(StreamError::UnexpectedEof)))
            } else {
                let j = first_named(d, r, 6, 0, dir_count(d, r));
                if j >= dir_count(d, r) {
                    Some(Err(LanguageError::StringResourcesNotFound))
                } else {
                    let q2 = r + dir_offset(d, r, j);
                    if !dir_readable(d, q2) {
                        Some(Err(LanguageError::Read(StreamError::UnexpectedEof)))
                    } else if exists|k: int| 0 <= k < dir_count(d, q2) && !dir_readable(d, #[trigger] (r + dir_offset(d, q2, k))) {
                        Some(Err(LanguageError::Read(StreamError::UnexpectedEof)))
                    } else {
                        let items = blocks_in_order(d, r, q2, order_from(dir_names(d, q2), 0));
                        blocks_from(d, r, sv, items, 0, Map::empty())
                    }
                }
            }
        },
    }
}

/// Reads the block of strings named `dir_id` whose data entry is at `e`
/// into `strings`, as `block_outcome` describes.
fn read_block(data: &[u8], r: u64, sv: u32, dir_id: u32, e: u64, strings: &mut BTreeMap<usize, String>)
    -> (res: Option<Result<(), LanguageError>>)
    requires
        r <= u32::MAX,
        e <= 0x2_0000_0000,
    ensures
        match block_outcome(data@, r as int, sv, dir_id, e as int, text_map(old(strings)@)) {
            None => res is None,
            Some(Err(x)) => res == Some(Err::<(), LanguageError>(x)),
            Some(Ok(m)) => res == Some(Ok::<(), LanguageError>(())) && text_map(final(strings)@) == m,
        },
{
    if !has_bytes(data, e, 16) {
        return Some(Err(LanguageError::Read(StreamError::UnexpectedEof)));
    }
    let mut p = e;
    let doff = match read_u32(data, &mut p) {
        Ok(v) => v,
        Err(x) => return Some(Err(LanguageError::Read(x))),
    };
    let size = match read_u32(data, &mut p) {
        Ok(v) => v,
        Err(x) => return Some(Err(LanguageError::Read(x))),
    };
    if doff < sv {
        return None;
    }
    if dir_id == 0 || dir_id - 1 > 0x0FFF_FFFF {
        return None;
    }
    let start: u64 = r + (doff - sv) as u64;
    let end: u64 = start + size as u64;
    let mut id: usize = ((dir_id - 1) * 16) as usize;
    let mut pos: u64 = start;
    let ghost d = data@;
    let ghost target = block_outcome(d, r as int, sv, dir_id, e as int, text_map(old(strings)@));
    assert(target == records(d, start as int, end as int, id as int, text_map(strings@)));
    while pos < end
        invariant
            d == data@,
            target == block_outcome(data@, r as int, sv, dir_id, e as int, text_map(old(strings)@)),
            target == records(d, pos as int, end as int, id as int, text_map(strings@)),
            pos <= end || pos <= data@.len(),
            end <= 0x4_0000_0000,
        decreases if end > pos { end - pos } else { 0 },
    {
        let mut p = pos;
        let len = match read_u16(data, &mut p) {
            Ok(v) => v as u64,
            Err(x) => return Some(Err(LanguageError::Read(x))),
        };
        if len == 0 {
            if id == usize::MAX {
                return None;
            }
            id = id + 1;
            pos = p;
        } else {
            if !has_bytes(data, p, 2 * len) {
                return Some(Err(LanguageError::Read(StreamError::UnexpectedEof)));
            }
            let mut units: Vec<u16> = Vec::new();
            let mut k: u64 = 0;
            let mut q: u64 = p;
            while k < len
                invariant
                    d == data@,
                    k <= len,
                    p == pos + 2,
                    available(d, p as int, 2 * len),
                    q == p + 2 * k,
                    len <= 0xFFFF,
                    units@ =~= words_at(d, p as int, k as int),
                decreases len - k,
            {
                let w = match read_u16(data, &mut q) {
                    Ok(v) => v,
                    Err(x) => return Some(Err(LanguageError::Read(x))),
                };
                units.push(w);
                k = k + 1;
            }
            match string_from_utf16(units.as_slice()) {
                None => return Some(Err(LanguageError::InvalidUtf16)),
                Some(text) => {
                    if id == usize::MAX {
                        return None;
                    }
                    let ghost before = text_map(strings@);
                    let ghost t = text@;
                    strings.insert(id, text);
                    assert(text_map(strings@) =~= before.insert(id, t));
                    id = id + 1;
                    pos = p + 2 * len;
                },
            }
        }
    }
    Some(Ok(()))
}

impl Language {
    /// Reads the string table of a language library from the bytes of the
    /// library; `None` where a data address lies below the resource section, or
    /// a block number or a string ID is out of range.
    pub fn read_from_stream_checked(data: &[u8]) -> (r: Option<Result<Language, LanguageError>>)
        ensures
            match language_outcome(data@) {
                None => r is None,
                Some(Err(e)) => r matches Some(Err(x)) && x == e,
                Some(Ok(m)) => r matches Some(Ok(l)) && strings_view(l) == m,
            },
    {
        let ghost d = data@;
        let (sv, raw) = match find_resource_section(data) {
            Ok(x) => x,
            Err(e) => return Some(Err(e)),
        };
        let root_pos: u64 = raw as u64;
        let root = match read_directory(data, root_pos) {
            Some(v) => v,
            None => return Some(Err(LanguageError::Read(StreamError::UnexpectedEof))),
        };
        let mut j: usize = 0;
        while j < root.len() && root[j].0 != RESOURCE_TYPE_STRING
            invariant
                j <= root@.len(),
                root@.len() == dir_count(d, root_pos as int),
                forall|k: int| 0 <= k < root@.len() ==> (#[trigger] root@[k]) == (dir_name(d, root_pos as int, k), dir_offset(d, root_pos as int, k)),
                first_named(d, root_pos as int, 6, 0, root@.len() as int) == first_named(d, root_pos as int, 6, j as int, root@.len() as int),
            decreases root@.len() - j,
        {
            j = j + 1;
        }
        if j == root.len() {
            return Some(Err(LanguageError::StringResourcesNotFound));
        }
        let string_dir_pos: u64 = root_pos + root[j].1 as u64;
        let subs = match read_directory(data, string_dir_pos) {
            Some(v) => v,
            None => return Some(Err(LanguageError::Read(StreamError::UnexpectedEof))),
        };
        let ghost q2 = string_dir_pos as int;
        let ghost rr = root_pos as int;
        assert(string_dir_at(d, sv, rr, q2));
        // every language directory is read before any string
        let mut langs: Vec<Vec<(u32, u32)>> = Vec::new();
        let mut names: Vec<u32> = Vec::new();
        let mut k: usize = 0;
        while k < subs.len()
            invariant
                d == data@,
                string_dir_at(d, sv, rr, q2),
                k <= subs@.len(),
                root_pos <= u32::MAX,
                rr == root_pos,
                subs@.len() == dir_count(d, q2),
                forall|i: int| 0 <= i < subs@.len() ==> (#[trigger] subs@[i]) == (dir_name(d, q2, i), dir_offset(d, q2, i)),
                langs@.len() == k,
                names@.len() == k,
                forall|i: int| 0 <= i < k ==> (#[trigger] names@[i]) == dir_name(d, q2, i),
                forall|i: int| 0 <= i < k ==> dir_readable(d, #[trigger] (rr + dir_offset(d, q2, i))),
                forall|i: int| 0 <= i < k ==> (#[trigger] langs@[i])@.len() == dir_count(d, rr + dir_offset(d, q2, i))
                    && forall|t: int| 0 <= t < langs@[i]@.len() ==> (#[trigger] langs@[i]@[t]).1 == dir_offset(d, rr + dir_offset(d, q2, i), t),
            decreases subs@.len() - k,
        {
            let (name, offset) = subs[k];
            let entries = match read_directory(data, root_pos + offset as u64) {
                Some(v) => v,
                None => {
                    assert(!dir_readable(d, rr + dir_offset(d, q2, k as int)));
                    return Some(Err(LanguageError::Read(StreamError::UnexpectedEof)));
                },
            };
            langs.push(entries);
            names.push(name);
            k = k + 1;
        }
        assert(names@ =~= dir_names(d, q2));
        let order = work_order(&names);
        let ghost all_order = order_from(dir_names(d, q2), 0);
        let ghost all_items = blocks_in_order(d, rr, q2, all_order);
        assert(!(exists|i: int| 0 <= i < dir_count(d, q2) && !dir_readable(d, #[trigger] (rr + dir_offset(d, q2, i)))));
        let ghost target = blocks_from(d, rr, sv, all_items, 0, Map::empty());
        assert(target == language_outcome(d));
        assert(all_order.skip(0) =~= all_order);
        // the data entries of the blocks, in the order in which they are read
        let mut items: Vec<(u32, u64)> = Vec::new();
        let mut o: usize = 0;
        while o < order.len()
            invariant
                d == data@,
                target == language_outcome(d),
                all_order == order_from(dir_names(d, q2), 0),
                names@.len() == dir_count(d, q2),
                o <= order@.len(),
                order@.len() == all_order.len(),
                forall|x: int| 0 <= x < order@.len() ==> (#[trigger] order@[x]) as int == all_order[x],
                all_items == blocks_in_order(d, rr, q2, all_order),
                rr == root_pos,
                root_pos <= u32::MAX,
                langs@.len() == names@.len(),
                names@ == dir_names(d, q2),
                forall|i: int| 0 <= i < langs@.len() ==> (#[trigger] langs@[i])@.len() == dir_count(d, rr + dir_offset(d, q2, i))
                    && forall|t: int| 0 <= t < langs@[i]@.len() ==> (#[trigger] langs@[i]@[t]).1 == dir_offset(d, rr + dir_offset(d, q2, i), t),
                items@.len() + blocks_in_order(d, rr, q2, all_order.skip(o as int)).len() == all_items.len(),
                forall|x: int| 0 <= x < items@.len() ==> ((#[trigger] items@[x]).0, items@[x].1 as int) == all_items[x],
                forall|x: int| 0 <= x < blocks_in_order(d, rr, q2, all_order.skip(o as int)).len()
                    ==> #[trigger] blocks_in_order(d, rr, q2, all_order.skip(o as int))[x] == all_items[items@.len() + x],
                forall|x: int| 0 <= x < items@.len() ==> (#[trigger] items@[x]).1 <= 0x2_0000_0000,
            decreases order@.len() - o,
        {
            let idx = order[o];
            proof {
                lemma_order_in_range(dir_names(d, q2), 0);
                assert(0 <= all_order[o as int] < dir_names(d, q2).len());
                assert(all_order.skip(o as int)[0] == idx);
                assert(all_order.skip(o as int).drop_first() =~= all_order.skip(o + 1));
            }
            let ghost rest = blocks_in_order(d, rr, q2, all_order.skip(o as int));
            let ghost block = blocks_of(d, rr, q2, idx as int);
            assert(rest == block + blocks_in_order(d, rr, q2, all_order.skip(o + 1)));
            let ghost before = items@.len();
            let mut t: usize = 0;
            while t < langs[idx].len()
                invariant
                    d == data@,
                    idx < langs@.len(),
                    langs@.len() == names@.len(),
                    t <= langs@[idx as int]@.len(),
                    rr == root_pos,
                    root_pos <= u32::MAX,
                    langs@[idx as int]@.len() == dir_count(d, rr + dir_offset(d, q2, idx as int)),
                    forall|u: int| 0 <= u < langs@[idx as int]@.len() ==> (#[trigger] langs@[idx as int]@[u]).1 == dir_offset(d, rr + dir_offset(d, q2, idx as int), u),
                    names@ == dir_names(d, q2),
                    block == blocks_of(d, rr, q2, idx as int),
                    items@.len() == before + t,
                    forall|x: int| 0 <= x < before ==> ((#[trigger] items@[x]).0, items@[x].1 as int) == all_items[x],
                    forall|x: int| 0 <= x < rest.len() ==> #[trigger] rest[x] == all_items[before + x],
                    rest == block + blocks_in_order(d, rr, q2, all_order.skip(o + 1)),
                    forall|x: int| before <= x < items@.len() ==> ((#[trigger] items@[x]).0, items@[x].1 as int) == block[x - before],
                    forall|x: int| 0 <= x < items@.len() ==> (#[trigger] items@[x]).1 <= 0x2_0000_0000,
                decreases langs@[idx as int]@.len() - t,
            {
                let off = langs[idx][t].1;
                items.push((names[idx], root_pos + off as u64));
                assert(((items@[before + t].0, items@[before + t].1 as int)) == block[t as int]);
                t = t + 1;
            }
            assert forall|x: int| 0 <= x < items@.len() implies ((#[trigger] items@[x]).0, items@[x].1 as int) == all_items[x] by {
                if x >= before {
                    assert(block[x - before] == rest[x - before]);
                }
            }
            assert forall|x: int| 0 <= x < blocks_in_order(d, rr, q2, all_order.skip(o + 1)).len()
                implies #[trigger] blocks_in_order(d, rr, q2, all_order.skip(o + 1))[x] == all_items[items@.len() + x] by {
                assert(blocks_in_order(d, rr, q2, all_order.skip(o + 1))[x] == rest[block.len() + x]);
            }
            o = o + 1;
        }
        assert(all_order.skip(o as int) =~= Seq::<int>::empty());
        // the strings of each block, in turn
        let mut strings: BTreeMap<usize, String> = BTreeMap::new();
        assert(text_map(strings@) =~= Map::<usize, Seq<char>>::empty());
        let mut x: usize = 0;
        while x < items.len()
            invariant
                d == data@,
                x <= items@.len(),
                items@.len() == all_items.len(),
                forall|y: int| 0 <= y < items@.len() ==> ((#[trigger] items@[y]).0, items@[y].1 as int) == all_items[y],
                forall|y: int| 0 <= y < items@.len() ==> (#[trigger] items@[y]).1 <= 0x2_0000_0000,
                root_pos <= u32::MAX,
                rr == root_pos,
                target == language_outcome(d),
                target == blocks_from(d, rr, sv, all_items, x as int, text_map(strings@)),
            decreases items@.len() - x,
        {
            let (dir_id, e) = items[x];
            match read_block(data, root_pos, sv, dir_id, e, &mut strings) {
                None => return None,
                Some(Err(err)) => return Some(Err(err)),
                Some(Ok(())) => {},
            }
            x = x + 1;
        }
        Some(Ok(Language { strings }))
    }

    /// Reads the string table of a language library from the bytes of the
    /// library; no data address may lie below the resource section, and no
    /// block number or string ID may be out of range.
    pub fn read_from_stream(data: &[u8]) -> (r: Result<Language, LanguageError>)
        requires
            language_outcome(data@) is Some,
        ensures
            match language_outcome(data@) {
                Some(Err(e)) => r matches Err(x) && x == e,
                Some(Ok(m)) => r matches Ok(l) && strings_view(l) == m,
                None => false,
            },
    {
        Language::read_from_stream_checked(data).unwrap()
    }
}

/// The positions that an order lists are positions of the names.
proof fn lemma_order_in_range(names: Seq<u32>, lo: int)
    ensures
        forall|k: int| 0 <= k < order_from(names, lo).len() ==> 0 <= #[trigger] order_from(names, lo)[k] < names.len(),
    decreases 0x1_0000_0000 - lo,
{
    if lo < 0 || lo > u32::MAX || !(exists|m: u32| is_least_from(names, lo, m)) {
    } else {
        let m = choose|m: u32| is_least_from(names, lo, m);
        if m >= lo {
            lemma_order_in_range(names, m + 1);
            lemma_with_name_in_range(names, m, 0);
            let o = order_from(names, lo);
            assert forall|k: int| 0 <= k < o.len() implies 0 <= #[trigger] o[k] < names.len() by {
                if k < with_name(names, m, 0).len() {
                    assert(o[k] == with_name(names, m, 0)[k]);
                } else {
                    assert(o[k] == order_from(names, m + 1)[k - with_name(names, m, 0).len()]);
                }
            }
        }
    }
}

/// The positions of a name are positions of the names.
proof fn lemma_with_name_in_range(names: Seq<u32>, m: u32, i: int)
    ensures
        forall|k: int| 0 <= k < with_name(names, m, i).len() ==> 0 <= #[trigger] with_name(names, m, i)[k] < names.len(),
    decreases names.len() - i,
{
    if i >= names.len() || i < 0 {
    } else {
        lemma_with_name_in_range(names, m, i + 1);
        let w = with_name(names, m, i);
        assert forall|k: int| 0 <= k < w.len() implies 0 <= #[trigger] w[k] < names.len() by {
            if names[i] == m {
                if k > 0 {
                    assert(w[k] == with_name(names, m, i + 1)[k - 1]);
                }
            } else {
                assert(w[k] == with_name(names, m, i + 1)[k]);
            }
        }
    }
}

} // verus!
