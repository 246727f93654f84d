//! DRS archives, read with the header fields checked as text: each of the
//! copyright, version and type fields must be valid UTF-8 and start with the
//! expected text.
//!
//! The archive layout, the header, table header and entry types are those of
//! [`crate::file_formats::drs`].

use vstd::prelude::*;
use vstd::utf8::valid_utf8;
use crate::bytes::string_from_utf8;
use crate::file_formats::drs::{expected_copyright, expected_type, expected_version, header_matches, header_readable, has_unknown_type, raw_tables_match, read_header, read_tables_checked, starts_with, table_count_of, table_entries, table_header_at, tables_fit, entries_before, flat_contents, RawTable};

pub use crate::file_formats::drs::{DrsFileContents, DrsFileType, DrsHeader, DrsTableEntry, DrsTableHeader};

verus! {

/// Why an archive could not be read.
#[derive(Debug, Clone, Copy, PartialEq, Eq, Structural)]
pub enum DrsError {
    /// The archive ended before the header, a table, an entry or a file it announces.
    ReadError,
    /// A header field does not start with the expected text.
    InvalidDrs,
    /// A header field is not valid UTF-8.
    EncodingError,
}

/// The outcome of checking one header field against the text it must start with.
pub open spec fn field_error(field: Seq<u8>, expected: Seq<u8>) -> Option<DrsError> {
    if !valid_utf8(field) {
        Some(DrsError::EncodingError)
    } else if !starts_with(field, expected) {
        Some(DrsError::InvalidDrs)
    } else {
        None
    }
}

/// The first error found when checking the copyright, version and type fields in turn.
pub open spec fn header_error(d: Seq<u8>) -> Option<DrsError> {
    let c = field_error(d.subrange(0, 40), expected_copyright());
    let v = field_error(d.subrange(40, 44), expected_version());
    let t = field_error(d.subrange(44, 56), expected_type());
    if c is Some { c } else if v is Some { v } else { t }
}

/// Checks that a header field is UTF-8 text that starts with `expected`.
pub fn validate_ascii(bytes: &[u8], expected: &[u8]) -> (r: Result<(), DrsError>)
    ensures
        match r {
            Ok(()) => field_error(bytes@, expected@) is None,
            Err(e) => field_error(bytes@, expected@) == Some(e),
        },
{
    let mut copy: Vec<u8> = Vec::new();
    let mut i: usize = 0;
    while i < bytes.len()
        invariant
            0 <= i <= bytes@.len(),
            copy@ == bytes@.take(i as int),
        decreases bytes@.len() - i,
    {
        copy.push(bytes[i]);
        i = i + 1;
    }
    assert(copy@ =~= bytes@);
    if string_from_utf8(copy).is_none() {
        return Err(DrsError::EncodingError);
    }
    if !crate::file_formats::drs::validate_str(bytes, expected) {
        return Err(DrsError::InvalidDrs);
    }
    Ok(())
}

/// Tables aren't actually stored in the DRS files in this layout; this struct
/// gathers each table's header, entries and file contents.
pub struct DrsLogicalTable {
    pub header: DrsTableHeader,
    pub entries: Vec<DrsTableEntry>,
    pub contents: Vec<DrsFileContents>,
}

impl DrsLogicalTable {
    pub fn new() -> (r: DrsLogicalTable)
        ensures
            r.header == DrsTableHeader::new_spec(),
            r.entries@.len() == 0,
            r.contents@.len() == 0,
    {
        DrsLogicalTable { header: DrsTableHeader::new(), entries: Vec::new(), contents: Vec::new() }
    }
}

/// The tables of the archive, as a reader of its bytes must produce them.
pub open spec fn tables_match(d: Seq<u8>, tables: Seq<DrsLogicalTable>) -> bool {
    &&& tables.len() == table_count_of(d)
    &&& forall|i: int| #![trigger tables[i]] 0 <= i < tables.len() ==> {
        &&& tables[i].header == table_header_at(d, i)
        &&& tables[i].entries@ == table_entries(d, i)
        &&& tables[i].contents@.len() == table_entries(d, i).len()
        &&& forall|j: int| 0 <= j < tables[i].contents@.len()
            ==> (#[trigger] tables[i].contents@[j])@ == flat_contents(d, entries_before(d, i) + j)
    }
}

/// The errors reading an archive from its bytes may end with.
pub open spec fn drs_read_fails_with(d: Seq<u8>, e: DrsError) -> bool {
    match e {
        DrsError::ReadError => !header_readable(d)
            || (header_error(d) is None && !has_unknown_type(d) && !tables_fit(d)),
        _ => header_readable(d) && header_error(d) == Some(e),
    }
}

/// A DRS archive: its header and its tables.
pub struct DrsFile {
    pub header: DrsHeader,
    pub tables: Vec<DrsLogicalTable>,
}

impl DrsFile {
    pub fn new() -> (r: DrsFile)
        ensures
            r.tables@.len() == 0,
            r.header.table_count == 0,
            r.header.file_offset == 0,
    {
        DrsFile { header: DrsHeader::new(), tables: Vec::new() }
    }

    /// Reads a DRS archive from its bytes. `None` when a table names a file
    /// type that the format does not define.
    pub fn read_from_checked(data: &[u8]) -> (r: Option<Result<DrsFile, DrsError>>)
        ensures
            match r {
                None => header_readable(data@) && header_error(data@) is None && has_unknown_type(data@),
                Some(Err(e)) => drs_read_fails_with(data@, e),
                Some(Ok(f)) => header_readable(data@) && header_error(data@) is None
                    && !has_unknown_type(data@) && tables_fit(data@)
                    && header_matches(data@, f.header) && tables_match(data@, f.tables@),
            },
    {
        let header = match read_header(data) {
            Ok(h) => h,
            Err(_) => return Some(Err(DrsError::ReadError)),
        };
        let copyright = crate::file_formats::drs::copyright_text();
        let version = crate::file_formats::drs::version_text();
        let file_type = crate::file_formats::drs::type_text();
        if let Err(e) = validate_ascii(header.copyright_info.as_slice(), copyright.as_slice()) {
            return Some(Err(e));
        }
        if let Err(e) = validate_ascii(header.file_version.as_slice(), version.as_slice()) {
            return Some(Err(e));
        }
        if let Err(e) = validate_ascii(header.file_type.as_slice(), file_type.as_slice()) {
            return Some(Err(e));
        }
        let raw = match read_tables_checked(data) {
            None => return None,
            Some(Err(_)) => return Some(Err(DrsError::ReadError)),
            Some(Ok(t)) => t,
        };
        let ghost d = data@;
        let ghost raw_view = raw@;
        let mut tables: Vec<DrsLogicalTable> = Vec::new();
        let mut rest = raw;
        while rest.len() > 0
            invariant
                raw_tables_match(d, raw_view),
                tables@.len() + rest@.len() == raw_view.len(),
                rest@ == raw_view.skip(tables@.len() as int),
                forall|k: int| #![trigger tables@[k]] 0 <= k < tables@.len() ==> {
                    &&& tables@[k].header == table_header_at(d, k)
                    &&& tables@[k].entries@ == table_entries(d, k)
                    &&& tables@[k].contents@.len() == table_entries(d, k).len()
                    &&& forall|j: int| 0 <= j < tables@[k].contents@.len()
                        ==> (#[trigger] tables@[k].contents@[j])@ == flat_contents(d, entries_before(d, k) + j)
                },
            decreases rest@.len(),
        {
            let t: RawTable = rest.remove(0);
            assert(t == raw_view[tables@.len() as int]);
            tables.push(DrsLogicalTable { header: t.header, entries: t.entries, contents: t.contents });
        }
        Some(Ok(DrsFile { header, tables }))
    }

    /// Reads a DRS archive from its bytes; the archive must not name a file
    /// type that the format does not define.
    pub fn read_from(data: &[u8]) -> (r: Result<DrsFile, DrsError>)
        requires
            !(header_readable(data@) && header_error(data@) is None && has_unknown_type(data@)),
        ensures
            match r {
                Err(e) => drs_read_fails_with(data@, e),
                Ok(f) => header_readable(data@) && header_error(data@) is None
                    && !has_unknown_type(data@) && tables_fit(data@)
                    && header_matches(data@, f.header) && tables_match(data@, f.tables@),
            },
    {
        DrsFile::read_from_checked(data).unwrap()
    }
}

} // verus!
