//! The earlier SLP reader, which draws no player colors.
//!
//! It decodes the same format as `file_formats::slp` (see there), with the
//! plain drawing of that module's decoder: command 0x6 copies its bytes
//! unchanged and command 0xA skips its pixels together with one byte of data.
//! Its errors tell a file that cannot be read, one whose header is wrong and
//! one whose drawing commands are corrupt apart.

use vstd::prelude::*;
use crate::bytes::{available, has_bytes, read_u32, u32_at};
use crate::file_formats::slp::{
    decode_shapes, read_shape_headers, shape_headers, shapes_match, slp_outcome,
    lemma_slp_outcome_ends, version_ok, Halt, Progress, SlpDecodeError,
};

pub use crate::file_formats::slp::{SlpLogicalShape, SlpPixels, SlpShapeHeader};

verus! {

/// What is corrupt in the drawing commands of a shape.
#[derive(Debug, Clone, Copy, PartialEq, Eq)]
pub enum SlpCorruption {
    /// Line `line` ended at `actual` rather than at `expected`.
    LineSize { line: u32, actual: u32, expected: u32 },
    /// A command started past the end of its line.
    LineOverrun,
    /// A short block copy had a zero length, in the line whose commands start at `at`.
    ZeroCopyLength { at: u32 },
    /// A short skip had a zero length, in the line whose commands start at `at`.
    ZeroSkipLength { at: u32 },
}

/// What reading an SLP file can fail with.
#[derive(Debug, Clone, Copy, PartialEq, Eq)]
pub enum SlpError {
    /// The data ended early.
    ReadError,
    /// The file is not an SLP file; the reason is "bad header".
    InvalidSlp(&'static str),
    /// The drawing commands of a shape are corrupt.
    CorruptSlp(SlpCorruption),
}

/// The error reported for a decoding failure.
pub open spec fn slp_error_of(e: SlpDecodeError) -> SlpError {
    match e {
        SlpDecodeError::UnexpectedEof => SlpError::ReadError,
        SlpDecodeError::BadHeader => SlpError::InvalidSlp("bad header"),
        SlpDecodeError::ZeroLength { skip, at } => SlpError::CorruptSlp(
            if skip {
                SlpCorruption::ZeroSkipLength { at }
            } else {
                SlpCorruption::ZeroCopyLength { at }
            },
        ),
        SlpDecodeError::LineSize { line, actual, expected } => SlpError::CorruptSlp(
            SlpCorruption::LineSize { line, actual, expected },
        ),
        SlpDecodeError::LineOverrun => SlpError::CorruptSlp(SlpCorruption::LineOverrun),
    }
}

fn slp_error(e: SlpDecodeError) -> (r: SlpError)
    ensures
        r == slp_error_of(e),
{
    match e {
        SlpDecodeError::UnexpectedEof => SlpError::ReadError,
        SlpDecodeError::BadHeader => SlpError::InvalidSlp("bad header"),
        SlpDecodeError::ZeroLength { skip, at } => SlpError::CorruptSlp(
            if skip {
                SlpCorruption::ZeroSkipLength { at }
            } else {
                SlpCorruption::ZeroCopyLength { at }
            },
        ),
        SlpDecodeError::LineSize { line, actual, expected } => SlpError::CorruptSlp(
            SlpCorruption::LineSize { line, actual, expected },
        ),
        SlpDecodeError::LineOverrun => SlpError::CorruptSlp(SlpCorruption::LineOverrun),
    }
}

/// The file header: format version, number of shapes and a free comment.
#[derive(Debug, Clone, Copy)]
pub struct SlpHeader {
    pub file_version: [u8; 4],
    pub shape_count: u32,
    pub comment: [u8; 24],
}

/// The header of a decoded file, as the data gives it.
pub open spec fn header_matches(d: Seq<u8>, h: SlpHeader) -> bool {
    &&& h.file_version@ == d.subrange(0, 4)
    &&& h.shape_count == u32_at(d, 4)
    &&& h.comment@ == d.subrange(8, 32)
}

impl SlpHeader {
    /// An empty header.
    pub fn new() -> (h: SlpHeader)
        ensures
            h.file_version@ == seq![0u8; 4],
            h.shape_count == 0,
            h.comment@ == seq![0u8; 24],
    {
        let h = SlpHeader {
            file_version: [0u8, 0, 0, 0],
            shape_count: 0u32,
            comment: [0u8, 0, 0, 0, 0, 0, 0, 0, 0, 0, 0, 0, 0, 0, 0, 0, 0, 0, 0, 0, 0, 0, 0, 0],
        };
        assert(h.file_version@ =~= seq![0u8; 4]);
        assert(h.comment@ =~= seq![0u8; 24]);
        h
    }

    /// Reads the 32-byte file header at `pos`: the data must hold all of it
    /// (else `ReadError`) and start with version "2.0N" (else `InvalidSlp("bad header")`).
    pub fn read_from_file(data: &[u8], pos: &mut u64) -> (r: Result<SlpHeader, SlpError>)
        ensures
            ({
                let p = *old(pos) as int;
                match r {
                    Ok(h) => available(data@, p, 32) && version_ok(data@, p)
                        && h.file_version@ == data@.subrange(p, p + 4)
                        && h.shape_count == u32_at(data@, p + 4)
                        && h.comment@ == data@.subrange(p + 8, p + 32)
                        && *final(pos) == p + 32,
                    Err(e) => if !available(data@, p, 32) {
                        e == SlpError::ReadError
                    } else {
                        !version_ok(data@, p) && e == SlpError::InvalidSlp("bad header")
                    },
                }
            }),
    {
        if !has_bytes(data, *pos, 32) {
            return Err(SlpError::ReadError);
        }
        let p = *pos as usize;
        let file_version = [data[p], data[p + 1], data[p + 2], data[p + 3]];
        let mut q: u64 = *pos + 4;
        let shape_count = match read_u32(data, &mut q) {
            Ok(v) => v,
            Err(_) => return Err(SlpError::ReadError),
        };
        let c = p + 8;
        let comment = [
            data[c], data[c + 1], data[c + 2], data[c + 3], data[c + 4], data[c + 5],
            data[c + 6], data[c + 7], data[c + 8], data[c + 9], data[c + 10], data[c + 11],
            data[c + 12], data[c + 13], data[c + 14], data[c + 15], data[c + 16], data[c + 17],
            data[c + 18], data[c + 19], data[c + 20], data[c + 21], data[c + 22], data[c + 23],
        ];
        if file_version[0] != 50 || file_version[1] != 46 || file_version[2] != 48 || file_version[3] != 78 {
            return Err(SlpError::InvalidSlp("bad header"));
        }
        assert(file_version@ =~= data@.subrange(p as int, p + 4));
        assert(comment@ =~= data@.subrange(p + 8, p + 32));
        *pos = *pos + 32;
        Ok(SlpHeader { file_version, shape_count, comment })
    }
}

/// A decoded SLP file.
#[derive(Debug)]
pub struct SlpFile {
    pub header: SlpHeader,
    pub shapes: Vec<SlpLogicalShape>,
}

impl SlpFile {
    /// An empty file.
    pub fn new() -> (f: SlpFile)
        ensures
            f.header.shape_count == 0,
            f.header.file_version@ == seq![0u8; 4],
            f.header.comment@ == seq![0u8; 24],
            f.shapes@.len() == 0,
    {
        SlpFile { header: SlpHeader::new(), shapes: Vec::new() }
    }

    /// Reads and decodes a whole SLP file; `None` on the data for which the
    /// decoder gives up (`slp_outcome` is `Aborted`).
    pub fn read_from_checked(data: &[u8]) -> (r: Option<Result<SlpFile, SlpError>>)
        requires
            data@.len() <= isize::MAX,
        ensures
            match slp_outcome(data@, None) {
                Progress::Finished(_) => r matches Some(Ok(f)) && header_matches(data@, f.header)
                    && shapes_match(data@, None, f.shapes@),
                Progress::Failed(e) => r == Some(Err::<SlpFile, SlpError>(slp_error_of(e))),
                _ => r is None,
            },
    {
        let mut pos: u64 = 0;
        let header = match SlpHeader::read_from_file(data, &mut pos) {
            Ok(h) => h,
            Err(e) => return Some(Err(e)),
        };
        let headers = match read_shape_headers(data, header.shape_count) {
            Some(hs) => hs,
            None => return Some(Err(SlpError::ReadError)),
        };
        assert(headers@ == shape_headers(data@));
        match decode_shapes(data, None, &headers) {
            Ok(shapes) => Some(Ok(SlpFile { header, shapes })),
            Err(Halt::Failed(e)) => Some(Err(slp_error(e))),
            Err(Halt::Aborted) => None,
        }
    }

    /// Reads and decodes a whole SLP file, on data for which the decoder does not give up.
    pub fn read_from(data: &[u8]) -> (r: Result<SlpFile, SlpError>)
        requires
            data@.len() <= isize::MAX,
            !(slp_outcome(data@, None) is Aborted),
        ensures
            match slp_outcome(data@, None) {
                Progress::Finished(_) => r matches Ok(f) && header_matches(data@, f.header)
                    && shapes_match(data@, None, f.shapes@),
                Progress::Failed(e) => r == Err::<SlpFile, SlpError>(slp_error_of(e)),
                _ => false,
            },
    {
        proof {
            lemma_slp_outcome_ends(data@, None);
        }
        SlpFile::read_from_checked(data).unwrap()
    }
}

} // verus!
