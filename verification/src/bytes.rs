//! Little-endian reading from an in-memory byte stream.
//!
//! A stream is a byte slice together with a read position (`pos`). Every
//! reader advances the position past what it consumed on success; on failure
//! the position is left unspecified, since every caller gives up on the stream.
//! All multi-byte integers are little endian.

use vstd::prelude::*;
use vstd::utf8::*;
use byteorder::{ByteOrder, LittleEndian};
use std::io::Read;

verus! {

/// What can go wrong while reading a stream.
#[derive(Debug, Clone, Copy, PartialEq, Eq)]
pub enum StreamError {
    /// The stream ended before the requested bytes.
    UnexpectedEof,
    /// The bytes were read but do not form a valid value (bad text encoding,
    /// corrupt compressed data).
    InvalidData,
    /// A skip would move the position past the largest 64-bit offset.
    SeekOverflow,
}

/// True when `n` bytes can be read at `pos`.
pub open spec fn available(d: Seq<u8>, pos: int, n: int) -> bool {
    0 <= pos && pos + n <= d.len()
}

/// The unsigned 16-bit little-endian value at `p`.
pub open spec fn u16_at(d: Seq<u8>, p: int) -> u16 {
    (d[p] + 256 * d[p + 1]) as u16
}

/// The unsigned 32-bit little-endian value at `p`.
pub open spec fn u32_at(d: Seq<u8>, p: int) -> u32 {
    (d[p] + 256 * d[p + 1] + 65536 * d[p + 2] + 16777216 * d[p + 3]) as u32
}

/// The two's complement reading of a byte.
pub open spec fn i8_of(b: u8) -> i8 {
    if b < 128 { b as i8 } else { (b - 256) as i8 }
}

/// The signed 16-bit little-endian value at `p`.
pub open spec fn i16_at(d: Seq<u8>, p: int) -> i16 {
    let u = u16_at(d, p);
    if u < 32768 { u as i16 } else { (u - 65536) as i16 }
}

/// The signed 32-bit little-endian value at `p`.
pub open spec fn i32_at(d: Seq<u8>, p: int) -> i32 {
    let u = u32_at(d, p);
    if u < 0x8000_0000 { u as i32 } else { (u - 0x1_0000_0000) as i32 }
}

/// Index of the first zero byte of `b` at or after `i`, or `b.len()` when there is none.
pub open spec fn first_zero_from(b: Seq<u8>, i: int) -> int
    decreases b.len() - i,
{
    if i >= b.len() || i < 0 {
        b.len() as int
    } else if b[i] == 0 {
        i
    } else {
        first_zero_from(b, i + 1)
    }
}

/// The bytes of `b` before its first zero byte (all of `b` when there is none).
pub open spec fn until_nul(b: Seq<u8>) -> Seq<u8> {
    b.take(first_zero_from(b, 0))
}

/// The text held in a fixed-width field: the bytes before the first zero,
/// decoded as UTF-8; `None` when those bytes are not valid UTF-8.
pub open spec fn sized_text(b: Seq<u8>) -> Option<Seq<char>> {
    if valid_utf8(until_nul(b)) {
        Some(decode_utf8(until_nul(b)))
    } else {
        None
    }
}

/// The result of decompressing a raw deflate stream (no zlib header):
/// `None` when the stream is corrupt; for a stream that is cut short, what
/// it decodes to before its end.
pub uninterp spec fn raw_inflate(compressed: Seq<u8>) -> Option<Seq<u8>>;

/// `byteorder::LittleEndian::read_u16`: the little-endian value of two bytes.
#[verifier::external_body]
fn le_u16(b: [u8; 2]) -> (r: u16)
    ensures
        r == b[0] + 256 * b[1],
{
    LittleEndian::read_u16(&b)
}

/// `byteorder::LittleEndian::read_i16`: the two's complement little-endian value of two bytes.
#[verifier::external_body]
fn le_i16(b: [u8; 2]) -> (r: i16)
    ensures
        r == (if b[0] + 256 * b[1] < 32768 { b[0] + 256 * b[1] } else { b[0] + 256 * b[1] - 65536 }),
{
    LittleEndian::read_i16(&b)
}

/// `byteorder::LittleEndian::read_u32`: the little-endian value of four bytes.
#[verifier::external_body]
fn le_u32(b: [u8; 4]) -> (r: u32)
    ensures
        r == b[0] + 256 * b[1] + 65536 * b[2] + 16777216 * b[3],
{
    LittleEndian::read_u32(&b)
}

/// `byteorder::LittleEndian::read_i32`: the two's complement little-endian value of four bytes.
#[verifier::external_body]
fn le_i32(b: [u8; 4]) -> (r: i32)
    ensures
        ({
            let u = b[0] + 256 * b[1] + 65536 * b[2] + 16777216 * b[3];
            r == (if u < 0x8000_0000 { u } else { u - 0x1_0000_0000 })
        }),
{
    LittleEndian::read_i32(&b)
}

/// `String::from_utf8`: `Some` exactly when the bytes are valid UTF-8, holding
/// the decoded characters.
#[verifier::external_body]
pub(crate) fn string_from_utf8(v: Vec<u8>) -> (r: Option<String>)
    ensures
        r is Some <==> valid_utf8(v@),
        r matches Some(s) ==> s@ == decode_utf8(v@),
{
    String::from_utf8(v).ok()
}

/// `flate2::read::DeflateDecoder` read to its end: the decompressed bytes of a
/// raw deflate stream; where flate2 reports the stream incomplete, the bytes
/// it decoded before that; `None` where it reports the stream corrupt. The
/// bytes are named, not stated: `raw_inflate` stands for them.
#[verifier::external_body]
fn inflate(compressed: &[u8]) -> (r: Option<Vec<u8>>)
    ensures
        match r {
            Some(v) => raw_inflate(compressed@) == Some(v@),
            None => raw_inflate(compressed@) is None,
        },
{
    let mut out = Vec::new();
    match flate2::read::DeflateDecoder::new(compressed).read_to_end(&mut out) {
        Ok(_) => Some(out),
        Err(e) if e.kind() == std::io::ErrorKind::UnexpectedEof => Some(out),
        Err(_) => None,
    }
}

/// True when `n` bytes can be read at `pos`.
pub fn has_bytes(data: &[u8], pos: u64, n: u64) -> (r: bool)
    ensures
        r == available(data@, pos as int, n as int),
{
    let len = data.len() as u64;
    pos <= len && n <= len - pos
}

/// Reads one byte.
pub fn read_u8(data: &[u8], pos: &mut u64) -> (r: Result<u8, StreamError>)
    ensures
        match r {
            Ok(v) => available(data@, *old(pos) as int, 1) && v == data@[*old(pos) as int]
                && *final(pos) == *old(pos) + 1,
            Err(e) => !available(data@, *old(pos) as int, 1) && e == StreamError::UnexpectedEof,
        },
{
    if !has_bytes(data, *pos, 1) {
        return Err(StreamError::UnexpectedEof);
    }
    let v = data[*pos as usize];
    *pos = *pos + 1;
    Ok(v)
}

/// Reads one signed byte.
pub fn read_i8(data: &[u8], pos: &mut u64) -> (r: Result<i8, StreamError>)
    ensures
        match r {
            Ok(v) => available(data@, *old(pos) as int, 1) && v == i8_of(data@[*old(pos) as int])
                && *final(pos) == *old(pos) + 1,
            Err(e) => !available(data@, *old(pos) as int, 1) && e == StreamError::UnexpectedEof,
        },
{
    let b = read_u8(data, pos)?;
    let v: i8 = if b < 128 { b as i8 } else { (b as i16 - 256) as i8 };
    Ok(v)
}

/// Reads an unsigned 16-bit integer.
pub fn read_u16(data: &[u8], pos: &mut u64) -> (r: Result<u16, StreamError>)
    ensures
        match r {
            Ok(v) => available(data@, *old(pos) as int, 2) && v == u16_at(data@, *old(pos) as int)
                && *final(pos) == *old(pos) + 2,
            Err(e) => !available(data@, *old(pos) as int, 2) && e == StreamError::UnexpectedEof,
        },
{
    if !has_bytes(data, *pos, 2) {
        return Err(StreamError::UnexpectedEof);
    }
    let p = *pos as usize;
    let v = le_u16([data[p], data[p + 1]]);
    *pos = *pos + 2;
    Ok(v)
}

/// Reads a signed 16-bit integer.
pub fn read_i16(data: &[u8], pos: &mut u64) -> (r: Result<i16, StreamError>)
    ensures
        match r {
            Ok(v) => available(data@, *old(pos) as int, 2) && v == i16_at(data@, *old(pos) as int)
                && *final(pos) == *old(pos) + 2,
            Err(e) => !available(data@, *old(pos) as int, 2) && e == StreamError::UnexpectedEof,
        },
{
    if !has_bytes(data, *pos, 2) {
        return Err(StreamError::UnexpectedEof);
    }
    let p = *pos as usize;
    let v = le_i16([data[p], data[p + 1]]);
    *pos = *pos + 2;
    Ok(v)
}

/// Reads an unsigned 32-bit integer.
pub fn read_u32(data: &[u8], pos: &mut u64) -> (r: Result<u32, StreamError>)
    ensures
        match r {
            Ok(v) => available(data@, *old(pos) as int, 4) && v == u32_at(data@, *old(pos) as int)
                && *final(pos) == *old(pos) + 4,
            Err(e) => !available(data@, *old(pos) as int, 4) && e == StreamError::UnexpectedEof,
        },
{
    if !has_bytes(data, *pos, 4) {
        return Err(StreamError::UnexpectedEof);
    }
    let p = *pos as usize;
    let v = le_u32([data[p], data[p + 1], data[p + 2], data[p + 3]]);
    *pos = *pos + 4;
    Ok(v)
}

/// Reads a signed 32-bit integer.
pub fn read_i32(data: &[u8], pos: &mut u64) -> (r: Result<i32, StreamError>)
    ensures
        match r {
            Ok(v) => available(data@, *old(pos) as int, 4) && v == i32_at(data@, *old(pos) as int)
                && *final(pos) == *old(pos) + 4,
            Err(e) => !available(data@, *old(pos) as int, 4) && e == StreamError::UnexpectedEof,
        },
{
    if !has_bytes(data, *pos, 4) {
        return Err(StreamError::UnexpectedEof);
    }
    let p = *pos as usize;
    let v = le_i32([data[p], data[p + 1], data[p + 2], data[p + 3]]);
    *pos = *pos + 4;
    Ok(v)
}

/// Reads `n` raw bytes.
pub fn read_bytes(data: &[u8], pos: &mut u64, n: u64) -> (r: Result<Vec<u8>, StreamError>)
    ensures
        match r {
            Ok(v) => available(data@, *old(pos) as int, n as int)
                && v@ == data@.subrange(*old(pos) as int, *old(pos) + n)
                && *final(pos) == *old(pos) + n,
            Err(e) => !available(data@, *old(pos) as int, n as int) && e == StreamError::UnexpectedEof,
        },
{
    if !has_bytes(data, *pos, n) {
        return Err(StreamError::UnexpectedEof);
    }
    let start = *pos as usize;
    assert(data@.len() == data.len());
    let end = start + n as usize;
    let mut v: Vec<u8> = Vec::new();
    let mut i: usize = start;
    while i < end
        invariant
            start <= i <= end,
            end <= data@.len(),
            v@ == data@.subrange(start as int, i as int),
        decreases end - i,
    {
        v.push(data[i]);
        i = i + 1;
    }
    *pos = *pos + n;
    Ok(v)
}

/// Reads a fixed-width text field of `len` bytes. The text ends at the first
/// zero byte, or fills the whole field when there is none.
pub fn read_sized_str(data: &[u8], pos: &mut u64, len: u64) -> (r: Result<String, StreamError>)
    ensures
        match r {
            Ok(s) => available(data@, *old(pos) as int, len as int)
                && sized_text(data@.subrange(*old(pos) as int, *old(pos) + len)) == Some(s@)
                && *final(pos) == *old(pos) + len,
            Err(StreamError::UnexpectedEof) => !available(data@, *old(pos) as int, len as int),
            Err(StreamError::InvalidData) => available(data@, *old(pos) as int, len as int)
                && sized_text(data@.subrange(*old(pos) as int, *old(pos) + len)) is None,
            Err(StreamError::SeekOverflow) => false,
        },
{
    let buffer = read_bytes(data, pos, len)?;
    let ghost b = buffer@;
    let mut text: Vec<u8> = Vec::new();
    let mut i: usize = 0;
    while i < buffer.len() && buffer[i] != 0
        invariant
            0 <= i <= b.len(),
            b == buffer@,
            forall|j: int| 0 <= j < i ==> b[j] != 0,
            text@ == b.take(i as int),
            first_zero_from(b, 0) == first_zero_from(b, i as int),
        decreases buffer.len() - i,
    {
        text.push(buffer[i]);
        i = i + 1;
    }
    assert(first_zero_from(b, i as int) == i as int);
    match string_from_utf8(text) {
        Some(s) => Ok(s),
        None => Err(StreamError::InvalidData),
    }
}

/// Decompresses a raw deflate stream (no zlib header, 15 window bits), as the
/// compressed game data files are stored.
pub fn decompress(compressed: &[u8]) -> (r: Result<Vec<u8>, StreamError>)
    ensures
        match r {
            Ok(v) => raw_inflate(compressed@) == Some(v@),
            Err(e) => raw_inflate(compressed@) is None && e == StreamError::InvalidData,
        },
{
    match inflate(compressed) {
        Some(v) => Ok(v),
        None => Err(StreamError::InvalidData),
    }
}

/// Reads the remainder of the stream and decompresses it.
pub fn read_and_decompress(data: &[u8], pos: &mut u64) -> (r: Result<Vec<u8>, StreamError>)
    ensures
        ({
            let rest = if *old(pos) <= data@.len() { data@.subrange(*old(pos) as int, data@.len() as int) }
                else { Seq::<u8>::empty() };
            match r {
                Ok(v) => raw_inflate(rest) == Some(v@),
                Err(e) => raw_inflate(rest) is None && e == StreamError::InvalidData,
            }
        }),
        *final(pos) == if *old(pos) <= data@.len() { data@.len() as u64 } else { *old(pos) },
{
    let len = data.len() as u64;
    if *pos > len {
        let empty: Vec<u8> = Vec::new();
        assert(empty@ == Seq::<u8>::empty());
        return decompress(empty.as_slice());
    }
    let rest = &data[*pos as usize..data.len()];
    *pos = len;
    decompress(rest)
}

/// The characters of a string.
pub(crate) fn chars_of(s: &String) -> (r: Vec<char>)
    ensures
        r@ == s@,
{
    let mut out: Vec<char> = Vec::new();
    for c in it: s.as_str().chars()
        invariant
            out@ == it.seq().take(it.index() as int),
            it.seq() == s@,
    {
        out.push(c);
        assert(it.seq().take(it.index() + 1) == it.seq().take(it.index() as int).push(c));
    }
    assert(out@ =~= s@);
    out
}

/// Reads `count` values one after the other with `read_method`, which reads
/// one value at a position and gives it with the position after it. Stops at
/// the first value that cannot be read, with its error, leaving `pos` where
/// that value starts; otherwise `pos` ends after the last value.
pub fn read_array<T, E, F: Fn(&[u8], u64) -> Result<(T, u64), E>>(
    data: &[u8],
    pos: &mut u64,
    count: usize,
    read_method: F,
) -> (r: Result<Vec<T>, E>)
    requires
        forall|p: u64| call_requires(read_method, (data, p)),
    ensures
        match r {
            Ok(v) => v@.len() == count && exists|ps: Seq<u64>| {
                &&& ps.len() == count + 1
                &&& ps[0] == *old(pos)
                &&& ps[count as int] == *final(pos)
                &&& forall|i: int| 0 <= i < count ==> call_ensures(read_method, (data, #[trigger] ps[i]), Ok::<(T, u64), E>((v@[i], ps[i + 1])))
            },
            Err(e) => exists|ps: Seq<u64>, vs: Seq<T>| {
                &&& 1 <= ps.len() <= count
                &&& vs.len() + 1 == ps.len()
                &&& ps[0] == *old(pos)
                &&& ps.last() == *final(pos)
                &&& forall|i: int| 0 <= i < vs.len() ==> call_ensures(read_method, (data, #[trigger] ps[i]), Ok::<(T, u64), E>((vs[i], ps[i + 1])))
                &&& call_ensures(read_method, (data, ps.last()), Err::<(T, u64), E>(e))
            },
        },
{
    let mut result: Vec<T> = Vec::new();
    let ghost mut ps: Seq<u64> = seq![*pos];
    let mut k: usize = 0;
    while k < count
        invariant
            k <= count,
            forall|p: u64| call_requires(read_method, (data, p)),
            result@.len() == k,
            ps.len() == k + 1,
            ps[0] == *old(pos),
            ps[k as int] == *pos,
            forall|i: int| 0 <= i < k ==> call_ensures(read_method, (data, #[trigger] ps[i]), Ok::<(T, u64), E>((result@[i], ps[i + 1]))),
        decreases count - k,
    {
        match read_method(data, *pos) {
            Ok((value, next)) => {
                proof {
                    ps = ps.push(next);
                }
                result.push(value);
                *pos = next;
            },
            Err(e) => {
                assert(ps.last() == ps[k as int]);
                return Err(e);
            },
        }
        k = k + 1;
    }
    Ok(result)
}

/// Reading a number of values one after the other from a stream.
pub trait ReadArrayExt {
    /// Reads `count` values with `read_method`, which reads one value at a
    /// position and gives it with the position after it; stops at the first
    /// value that cannot be read, with its error, leaving `pos` where that
    /// value starts.
    fn read_array<T, E, F: Fn(&Self, u64) -> Result<(T, u64), E>>(
        &self,
        pos: &mut u64,
        count: usize,
        read_method: F,
    ) -> (r: Result<Vec<T>, E>)
        requires
            forall|p: u64| call_requires(read_method, (self, p)),
        ensures
            match r {
                Ok(v) => v@.len() == count && exists|ps: Seq<u64>| {
                    &&& ps.len() == count + 1
                    &&& ps[0] == *old(pos)
                    &&& ps[count as int] == *final(pos)
                    &&& forall|i: int| 0 <= i < count ==> call_ensures(read_method, (self, #[trigger] ps[i]), Ok::<(T, u64), E>((v@[i], ps[i + 1])))
                },
                Err(e) => exists|ps: Seq<u64>, vs: Seq<T>| {
                    &&& 1 <= ps.len() <= count
                    &&& vs.len() + 1 == ps.len()
                    &&& ps[0] == *old(pos)
                    &&& ps.last() == *final(pos)
                    &&& forall|i: int| 0 <= i < vs.len() ==> call_ensures(read_method, (self, #[trigger] ps[i]), Ok::<(T, u64), E>((vs[i], ps[i + 1])))
                    &&& call_ensures(read_method, (self, ps.last()), Err::<(T, u64), E>(e))
                },
            },
    ;
}

impl ReadArrayExt for [u8] {
    fn read_array<T, E, F: Fn(&[u8], u64) -> Result<(T, u64), E>>(
        &self,
        pos: &mut u64,
        count: usize,
        read_method: F,
    ) -> (r: Result<Vec<T>, E>) {
        read_array(self, pos, count, read_method)
    }
}

} // verus!
