//! SLP shape files: the game's run-length encoded sprite format.
//!
//! Layout (integers little endian): a 32-byte header (version "2.0N", shape
//! count, comment), one 32-byte header per shape, then the data that the shape
//! headers point at: per line, a 4-byte outline entry (left and right padding)
//! in the outline table, a 4-byte offset in the data offset table, and at that
//! offset a stream of drawing commands ending with 0x0F.
//!
//! Decoding fills each shape's `width * height` pixel buffer (palette indices,
//! zero for transparent) line by line. The commands are, by their low four bits:
//! - 0x0, 0x4, 0x8, 0xC: copy the next `cmd >> 2` bytes into the line;
//! - 0x1, 0x5, 0x9, 0xD: skip `cmd >> 2` pixels;
//! - 0x2: copy `(cmd & 0xF0) << 4` plus the next byte of bytes;
//! - 0x3: skip `(cmd & 0xF0) << 4` plus the next byte of pixels;
//! - 0x6: copy `cmd >> 4` bytes (or, when that is zero, as many as the next
//!   byte says), drawn in the player's colors where player colors apply;
//! - 0x7: fill as many pixels (counted the same way) with the next byte;
//! - 0xA: with player colors, fill as many pixels with the player's color for
//!   the next byte; without, skip the next byte and as many pixels;
//! - 0xB: skip as many pixels (shadows are not drawn);
//! - 0xE: extended commands, which are not supported;
//! - 0xF: end of line: the line must have reached `width - right padding`.

use vstd::prelude::*;
use crate::bytes::{available, has_bytes, read_u16, read_u32, read_i32, u16_at, u32_at, i32_at};

verus! {

/// The file header: format version, number of shapes and a free comment.
#[derive(Debug, Clone, Copy)]
pub struct SlpHeader {
    pub file_version: [u8; 4],
    pub shape_count: u32,
    pub comment: [u8; 24],
}

/// The header of one shape: where its line tables are, and its size and center.
#[derive(Debug, Clone, Copy, PartialEq, Eq)]
pub struct SlpShapeHeader {
    /// Offset of the table of per-line data offsets.
    pub shape_data_offsets: u32,
    /// Offset of the table of per-line paddings.
    pub shape_outline_offset: u32,
    pub palette_offset: u32,
    pub properties: u32,
    pub width: u32,
    pub height: u32,
    pub center_x: i32,
    pub center_y: i32,
}

/// The pixels of a shape: `width * height` palette indices, row by row.
pub type SlpPixels = Vec<u8>;

/// A shape with its decoded pixels.
#[derive(Debug)]
pub struct SlpLogicalShape {
    pub header: SlpShapeHeader,
    pub pixels: SlpPixels,
}

/// A decoded SLP file, drawn in the colors of one player.
#[derive(Debug)]
pub struct SlpFile {
    pub header: SlpHeader,
    pub shapes: Vec<SlpLogicalShape>,
    pub player_index: u8,
}

/// Why an SLP file is invalid.
#[derive(Debug, Clone, Copy, PartialEq, Eq)]
pub enum SlpInvalidReason {
    /// The version is not "2.0N".
    BadHeader,
    /// Line `line` ended at `actual` rather than at `expected`.
    LineSize { line: u32, actual: u32, expected: u32 },
    /// A command started past the end of its line.
    LineOverrun,
}

/// What reading an SLP file can fail with.
#[derive(Debug, Clone, Copy, PartialEq, Eq)]
pub enum SlpError {
    /// The data ended early.
    UnexpectedEof,
    InvalidSlp(SlpInvalidReason),
    /// A short-form copy or skip command had a zero length.
    BadLength,
}

/// Whether the four bytes at `p` are the version "2.0N".
pub open spec fn version_ok(d: Seq<u8>, p: int) -> bool {
    d[p] == 50 && d[p + 1] == 46 && d[p + 2] == 48 && d[p + 3] == 78
}

/// The shape header stored at `o`.
pub open spec fn shape_header_at(d: Seq<u8>, o: int) -> SlpShapeHeader {
    SlpShapeHeader {
        shape_data_offsets: u32_at(d, o),
        shape_outline_offset: u32_at(d, o + 4),
        palette_offset: u32_at(d, o + 8),
        properties: u32_at(d, o + 12),
        width: u32_at(d, o + 16),
        height: u32_at(d, o + 20),
        center_x: i32_at(d, o + 24),
        center_y: i32_at(d, o + 28),
    }
}

/// Why decoding stopped, in the terms of the format itself.
#[derive(Debug, Clone, Copy, PartialEq, Eq)]
pub enum SlpDecodeError {
    /// The data ended before something that had to be read.
    UnexpectedEof,
    /// The file does not start with version "2.0N".
    BadHeader,
    /// A copy (`skip == false`) or skip (`skip == true`) command of the short
    /// form had a zero length, in the line whose commands start at `at`.
    ZeroLength { skip: bool, at: u32 },
    /// A line ended at `actual` rather than at `expected` (width minus right padding).
    LineSize { line: u32, actual: u32, expected: u32 },
    /// A command started past the end of its line.
    LineOverrun,
}

/// Where decoding stands after a step.
pub enum Progress {
    /// Decoding goes on with these pixels, this position in the line and this
    /// position in the data.
    Going(Seq<u8>, int, int),
    /// The work is complete; for a line or a shape, the pixels that it left.
    Finished(Seq<u8>),
    /// The data is malformed in the way given.
    Failed(SlpDecodeError),
    /// The data asks for something outside what the decoder handles: an
    /// extended or unknown command, an arithmetic overflow, a write outside
    /// the pixel buffer.
    Aborted,
}

/// How an executable decoding step stopped early.
#[derive(Debug, Clone, Copy, PartialEq, Eq)]
pub enum Halt {
    Failed(SlpDecodeError),
    Aborted,
}

/// The executable outcome that corresponds to a final decoding state.
pub open spec fn halted(p: Progress) -> Option<Halt> {
    match p {
        Progress::Failed(e) => Some(Halt::Failed(e)),
        Progress::Aborted => Some(Halt::Aborted),
        _ => None,
    }
}

/// The color drawn for palette byte `b`: the byte itself without player
/// colors; with player colors, `player * 16 + b` or-ed with `b`, when that sum
/// fits in a byte (`None` when it does not).
pub open spec fn player_color(player: Option<u8>, b: u8) -> Option<u8> {
    match player {
        None => Some(b),
        Some(pl) => if pl * 16 + b <= 255 {
            Some(((pl * 16 + b) as u8) | b)
        } else {
            None
        },
    }
}

/// Whether pixel `x` of line `y` can be written and `x` then advanced: its
/// index `y * w + x` fits in 32 bits and in the buffer, and `x + 1` fits in 32 bits.
pub open spec fn pixel_writable(y: int, w: int, x: int, len: int) -> bool {
    0 <= y * w + x <= u32::MAX && y * w + x < len && x + 1 <= u32::MAX
}

/// Copies `n` bytes from the data at `q` into line `y` from `x` on, each drawn
/// through `player_color`.
pub open spec fn copy_run(
    d: Seq<u8>,
    player: Option<u8>,
    y: int,
    w: int,
    px: Seq<u8>,
    x: int,
    q: int,
    n: int,
) -> Progress
    decreases n,
{
    if n <= 0 {
        Progress::Going(px, x, q)
    } else if !available(d, q, 1) {
        Progress::Failed(SlpDecodeError::UnexpectedEof)
    } else {
        match player_color(player, d[q]) {
            None => Progress::Aborted,
            Some(v) => if pixel_writable(y, w, x, px.len() as int) {
                copy_run(d, player, y, w, px.update(y * w + x, v), x + 1, q + 1, n - 1)
            } else {
                Progress::Aborted
            },
        }
    }
}

/// Fills `n` pixels of line `y` from `x` on with color `v`.
pub open spec fn fill_run(y: int, w: int, px: Seq<u8>, x: int, q: int, n: int, v: u8) -> Progress
    decreases n,
{
    if n <= 0 {
        Progress::Going(px, x, q)
    } else if pixel_writable(y, w, x, px.len() as int) {
        fill_run(y, w, px.update(y * w + x, v), x + 1, q, n - 1, v)
    } else {
        Progress::Aborted
    }
}

/// Skips `n` pixels.
pub open spec fn skip_run(px: Seq<u8>, x: int, q: int, n: int) -> Progress {
    if x + n <= u32::MAX {
        Progress::Going(px, x + n, q)
    } else {
        Progress::Aborted
    }
}

/// The three ways in which a command encodes its run length.
#[derive(Debug, Clone, Copy, PartialEq, Eq)]
pub enum SlpEncodedLength {
    /// The upper six bits of the command; zero is not a valid length.
    SixUpperBit,
    /// The upper four bits of the command, or the next byte when they are zero.
    FourUpperBit,
    /// The upper four bits of the command times 256, plus the next byte.
    LargeLength,
}

/// Why a run length could not be decoded.
#[derive(Debug, Clone, Copy, PartialEq, Eq)]
pub enum LengthError {
    UnexpectedEof,
    Zero,
}

/// The run length encoded by command byte `c` in the given way, with the
/// position in the data after it (`q` is the position after the command byte).
pub open spec fn encoded_length(kind: SlpEncodedLength, c: u8, d: Seq<u8>, q: int) -> Result<(int, int), LengthError> {
    match kind {
        SlpEncodedLength::SixUpperBit => if c / 4 == 0 {
            Err(LengthError::Zero)
        } else {
            Ok(((c / 4) as int, q))
        },
        SlpEncodedLength::FourUpperBit => if c / 16 != 0 {
            Ok(((c / 16) as int, q))
        } else if available(d, q, 1) {
            Ok((d[q] as int, q + 1))
        } else {
            Err(LengthError::UnexpectedEof)
        },
        SlpEncodedLength::LargeLength => if available(d, q, 1) {
            Ok(((c / 16) * 256 + d[q], q + 1))
        } else {
            Err(LengthError::UnexpectedEof)
        },
    }
}

/// The failure reported for a length that could not be decoded.
pub open spec fn length_failure(e: LengthError, skip: bool, start: u32) -> Progress {
    match e {
        LengthError::Zero => Progress::Failed(SlpDecodeError::ZeroLength { skip, at: start }),
        LengthError::UnexpectedEof => Progress::Failed(SlpDecodeError::UnexpectedEof),
    }
}

/// The effect of the drawing command at `p` (anything but the end of line),
/// in line `y` of width `w` whose commands start at `start`. `player` selects
/// player colors (`Some`) or the plain drawing of the older decoder (`None`):
/// the latter copies command 0x6 unchanged and treats command 0xA as a skip
/// that also passes over one byte of data.
pub open spec fn command(
    d: Seq<u8>,
    player: Option<u8>,
    y: int,
    w: int,
    start: u32,
    px: Seq<u8>,
    x: int,
    p: int,
) -> Progress {
    let c = d[p];
    let low = c % 16;
    let q = p + 1;
    if low == 0 || low == 4 || low == 8 || low == 12 {
        match encoded_length(SlpEncodedLength::SixUpperBit, c, d, q) {
            Ok((n, q2)) => copy_run(d, None, y, w, px, x, q2, n),
            Err(e) => length_failure(e, false, start),
        }
    } else if low == 1 || low == 5 || low == 9 || low == 13 {
        match encoded_length(SlpEncodedLength::SixUpperBit, c, d, q) {
            Ok((n, q2)) => skip_run(px, x, q2, n),
            Err(e) => length_failure(e, true, start),
        }
    } else if low == 2 || low == 3 {
        match encoded_length(SlpEncodedLength::LargeLength, c, d, q) {
            Ok((n, q2)) => if low == 2 {
                copy_run(d, None, y, w, px, x, q2, n)
            } else {
                skip_run(px, x, q2, n)
            },
            Err(e) => length_failure(e, false, start),
        }
    } else if low == 6 || low == 7 || low == 10 || low == 11 {
        match encoded_length(SlpEncodedLength::FourUpperBit, c, d, q) {
            Ok((n, q2)) => if low == 6 {
                copy_run(d, player, y, w, px, x, q2, n)
            } else if low == 11 {
                skip_run(px, x, q2, n)
            } else if low == 10 && player is None {
                skip_run(px, x, q2 + 1, n)
            } else if !available(d, q2, 1) {
                Progress::Failed(SlpDecodeError::UnexpectedEof)
            } else if low == 7 {
                fill_run(y, w, px, x, q2 + 1, n, d[q2])
            } else {
                match player_color(player, d[q2]) {
                    Some(v) => fill_run(y, w, px, x, q2 + 1, n, v),
                    None => Progress::Aborted,
                }
            },
            Err(e) => length_failure(e, false, start),
        }
    } else {
        Progress::Aborted
    }
}

/// A fill of `n` pixels that goes on sets pixels `y * w + x` to
/// `y * w + x + n - 1` to `v`, leaves every other pixel as it was, and moves
/// the position in the line by `n`.
proof fn lemma_fill_run(y: int, w: int, px: Seq<u8>, x: int, q: int, n: int, v: u8)
    requires
        n >= 0,
    ensures
        fill_run(y, w, px, x, q, n, v) matches Progress::Going(px2, x2, q2) ==> {
            &&& x2 == x + n && q2 == q && px2.len() == px.len()
            &&& forall|i: int| 0 <= i < n ==> #[trigger] px2[y * w + x + i] == v
            &&& forall|j: int| 0 <= j < px.len() && !(y * w + x <= j < y * w + x + n) ==> #[trigger] px2[j] == px[j]
        },
        (forall|i: int| 0 <= i < n ==> #[trigger] pixel_writable(y, w, x + i, px.len() as int))
            ==> fill_run(y, w, px, x, q, n, v) is Going,
    decreases n,
{
    if n > 0 {
        let px1 = px.update(y * w + x, v);
        lemma_fill_run(y, w, px1, x + 1, q, n - 1, v);
        if let Progress::Going(px2, x2, q2) = fill_run(y, w, px, x, q, n, v) {
            assert(pixel_writable(y, w, x, px.len() as int));
            assert forall|i: int| 0 <= i < n implies #[trigger] px2[y * w + x + i] == v by {
                if i > 0 {
                    assert(px2[y * w + (x + 1) + (i - 1)] == v);
                    assert(y * w + (x + 1) + (i - 1) == y * w + x + i);
                }
            }
        }
        if forall|i: int| 0 <= i < n ==> #[trigger] pixel_writable(y, w, x + i, px.len() as int) {
            assert(pixel_writable(y, w, x + 0, px.len() as int));
            assert forall|i: int| 0 <= i < n - 1 implies #[trigger] pixel_writable(y, w, x + 1 + i, px1.len() as int) by {
                assert(pixel_writable(y, w, x + (i + 1), px.len() as int));
            }
        }
    }
}

/// A copy of `n` bytes that goes on draws byte `q + i` of the data (through
/// `player_color`) at pixel `y * w + x + i` for each `i < n`, leaves every
/// other pixel as it was, and moves both positions by `n`.
proof fn lemma_copy_run(d: Seq<u8>, player: Option<u8>, y: int, w: int, px: Seq<u8>, x: int, q: int, n: int)
    requires
        n >= 0,
    ensures
        copy_run(d, player, y, w, px, x, q, n) matches Progress::Going(px2, x2, q2) ==> {
            &&& x2 == x + n && q2 == q + n && px2.len() == px.len()
            &&& n > 0 ==> 0 <= q && q + n <= d.len()
            &&& forall|i: int| 0 <= i < n ==> player_color(player, d[q + i]) == Some(#[trigger] px2[y * w + x + i])
            &&& forall|j: int| 0 <= j < px.len() && !(y * w + x <= j < y * w + x + n) ==> #[trigger] px2[j] == px[j]
        },
    decreases n,
{
    if n > 0 && available(d, q, 1) {
        if let Some(v) = player_color(player, d[q]) {
            let px1 = px.update(y * w + x, v);
            lemma_copy_run(d, player, y, w, px1, x + 1, q + 1, n - 1);
            if let Progress::Going(px2, x2, q2) = copy_run(d, player, y, w, px, x, q, n) {
                assert(pixel_writable(y, w, x, px.len() as int));
                assert(copy_run(d, player, y, w, px, x, q, n) == copy_run(d, player, y, w, px1, x + 1, q + 1, n - 1));
                assert(x2 == x + n && q2 == q + n && px2.len() == px.len());
                assert(0 <= y * w + x < px.len());
                assert(px2[y * w + x] == px1[y * w + x]);
                assert forall|i: int| 0 <= i < n implies player_color(player, d[q + i]) == Some(#[trigger] px2[y * w + x + i]) by {
                    if i > 0 {
                        assert(px2[y * w + (x + 1) + (i - 1)] == px2[y * w + x + i]);
                        assert(q + 1 + (i - 1) == q + i);
                    } else {
                        assert(y * w + x + 0 == y * w + x);
                    }
                }
                assert forall|j: int| 0 <= j < px.len() && !(y * w + x <= j < y * w + x + n) implies #[trigger] px2[j] == px[j] by {
                    assert(px1[j] == px[j]);
                }
            }
        }
    } else if n == 0 {
        assert(copy_run(d, player, y, w, px, x, q, n) == Progress::Going(px, x, q));
    }
}

/// A copy command (low two bits 0) at `p` copies the `c / 4` bytes after it,
/// unchanged, into the line from pixel `x` on: where it goes on, pixel
/// `y * w + x + i` is byte `p + 1 + i` of the data for each `i < c / 4`,
/// every other pixel is as it was, and both positions move past the copied
/// bytes. A skip command (low two bits 1) moves the line position by `c / 4`
/// and leaves every pixel as it was.
pub proof fn lemma_copy_and_skip_commands(d: Seq<u8>, player: Option<u8>, y: int, w: int, start: u32, px: Seq<u8>, x: int, p: int)
    requires
        0 <= p < d.len(),
    ensures
        d[p] % 4 == 0 ==> (command(d, player, y, w, start, px, x, p) matches Progress::Going(px2, x2, p2) ==> {
            let n = (d[p] / 4) as int;
            &&& n > 0 && x2 == x + n && p2 == p + 1 + n && px2.len() == px.len() && p + 1 + n <= d.len()
            &&& forall|i: int| 0 <= i < n ==> #[trigger] px2[y * w + x + i] == d[p + 1 + i]
            &&& forall|j: int| 0 <= j < px.len() && !(y * w + x <= j < y * w + x + n) ==> #[trigger] px2[j] == px[j]
        }),
        d[p] % 4 == 1 ==> (command(d, player, y, w, start, px, x, p) matches Progress::Going(px2, x2, p2) ==> {
            &&& px2 == px && x2 == x + d[p] / 4 && p2 == p + 1
        }),
{
    let c = d[p];
    assert(c % 4 == 0 ==> (c % 16 == 0 || c % 16 == 4 || c % 16 == 8 || c % 16 == 12));
    assert(c % 4 == 1 ==> (c % 16 == 1 || c % 16 == 5 || c % 16 == 9 || c % 16 == 13));
    if c % 4 == 0 && c / 4 != 0 {
        lemma_copy_run(d, None, y, w, px, x, p + 1, (c / 4) as int);
        assert(forall|b: u8| player_color(None, b) == Some(b));
        assert(encoded_length(SlpEncodedLength::SixUpperBit, c, d, p + 1) == Ok::<(int, int), LengthError>(((c / 4) as int, p + 1)));
    }
}

/// The length of a fill command (low four bits 7) at `p`: its upper four
/// bits, or the next byte when they are zero.
pub open spec fn fill_length(d: Seq<u8>, p: int) -> int {
    if d[p] / 16 != 0 { (d[p] / 16) as int } else { d[p + 1] as int }
}

/// Where the color byte of the fill command at `p` is.
pub open spec fn fill_color_at(d: Seq<u8>, p: int) -> int {
    if d[p] / 16 != 0 { p + 1 } else { p + 2 }
}

/// A fill command (low four bits 7) with length `n` and color byte `c`, at
/// pixel `x` of line `y`: where it goes on, pixels `y * w + x` to
/// `y * w + x + n - 1` are all `c`, whatever the player, every other pixel is
/// as it was, the line position moves by `n` and the data position to after
/// the color byte; and it goes on whenever its bytes are present and those
/// `n` pixels can be written.
pub proof fn lemma_fill_command(d: Seq<u8>, player: Option<u8>, y: int, w: int, start: u32, px: Seq<u8>, x: int, p: int)
    requires
        0 <= p < d.len(),
        d[p] % 16 == 7,
    ensures
        command(d, player, y, w, start, px, x, p) matches Progress::Going(px2, x2, p2) ==> {
            let n = fill_length(d, p);
            let c = d[fill_color_at(d, p)];
            &&& fill_color_at(d, p) < d.len()
            &&& x2 == x + n && p2 == fill_color_at(d, p) + 1 && px2.len() == px.len()
            &&& forall|i: int| 0 <= i < n ==> #[trigger] px2[y * w + x + i] == c
            &&& forall|j: int| 0 <= j < px.len() && !(y * w + x <= j < y * w + x + n) ==> #[trigger] px2[j] == px[j]
        },
        fill_color_at(d, p) < d.len()
            && (forall|i: int| 0 <= i < fill_length(d, p) ==> #[trigger] pixel_writable(y, w, x + i, px.len() as int))
            ==> command(d, player, y, w, start, px, x, p) is Going,
{
    let c = d[p];
    assert(c % 16 == 7 ==> !(c % 16 == 0 || c % 16 == 4 || c % 16 == 8 || c % 16 == 12));
    let q2 = fill_color_at(d, p);
    if fill_color_at(d, p) < d.len() {
        lemma_fill_run(y, w, px, x, q2 + 1, fill_length(d, p), d[q2]);
    }
}

/// One step of a line: the command at `p`, or the end of the line, which must
/// come exactly at `w - rp`.
pub open spec fn line_step(
    d: Seq<u8>,
    player: Option<u8>,
    y: int,
    w: int,
    rp: int,
    start: u32,
    px: Seq<u8>,
    x: int,
    p: int,
) -> Progress {
    if !available(d, p, 1) {
        Progress::Failed(SlpDecodeError::UnexpectedEof)
    } else if d[p] == 15 {
        if rp > w {
            Progress::Aborted
        } else if x != w - rp {
            Progress::Failed(SlpDecodeError::LineSize { line: y as u32, actual: x as u32, expected: (w - rp) as u32 })
        } else {
            Progress::Finished(px)
        }
    } else if x > w {
        Progress::Failed(SlpDecodeError::LineOverrun)
    } else {
        command(d, player, y, w, start, px, x, p)
    }
}

/// The commands of a line from `p` on, to its end.
pub open spec fn line_run(
    d: Seq<u8>,
    player: Option<u8>,
    y: int,
    w: int,
    rp: int,
    start: u32,
    px: Seq<u8>,
    x: int,
    p: int,
) -> Progress
    decreases d.len() + 1 - p,
{
    match line_step(d, player, y, w, rp, start, px, x, p) {
        Progress::Going(px2, x2, p2) => if p < p2 <= d.len() + 1 {
            line_run(d, player, y, w, rp, start, px2, x2, p2)
        } else {
            Progress::Aborted
        },
        other => other,
    }
}


/// The color for palette byte `b`, as `player_color` gives it.
fn color_for(player: Option<u8>, b: u8) -> (r: Option<u8>)
    ensures
        r == player_color(player, b),
{
    match player {
        None => Some(b),
        Some(pl) => {
            let c: u16 = pl as u16 * 16 + b as u16;
            if c > 255 {
                None
            } else {
                Some((c as u8) | b)
            }
        },
    }
}

/// The index of pixel `x` of line `y`, when it can be written and `x` then advanced.
fn pixel_index(y: u32, w: u32, x: u32, len: usize) -> (r: Option<usize>)
    ensures
        match r {
            Some(i) => pixel_writable(y as int, w as int, x as int, len as int) && i == y * w + x,
            None => !pixel_writable(y as int, w as int, x as int, len as int),
        },
{
    assert(y as u64 * w as u64 <= 0xFFFF_FFFE_0000_0001) by (nonlinear_arith)
        requires
            y <= 0xFFFF_FFFF,
            w <= 0xFFFF_FFFF,
    ;
    assert(0 <= y as u64 * w as u64) by (nonlinear_arith);
    let i: u64 = y as u64 * w as u64 + x as u64;
    if i > 0xFFFF_FFFF || i >= len as u64 || x == 0xFFFF_FFFF {
        None
    } else {
        Some(i as usize)
    }
}

/// Copies `n` bytes of data into the line, as `copy_run` describes.
fn copy_pixels(
    data: &[u8],
    player: Option<u8>,
    y: u32,
    w: u32,
    px: &mut Vec<u8>,
    x: &mut u32,
    pos: &mut u64,
    n: u32,
) -> (r: Result<(), Halt>)
    ensures
        match copy_run(data@, player, y as int, w as int, old(px)@, *old(x) as int, *old(pos) as int, n as int) {
            Progress::Going(p2, x2, q2) => r is Ok && final(px)@ == p2 && *final(x) == x2 && *final(pos) == q2,
            other => r is Err && halted(other) == Some(r->Err_0),
        },
        r is Ok ==> *old(pos) <= *final(pos) && (*final(pos) == *old(pos) || *final(pos) <= data@.len()),
{
    let ghost target = copy_run(data@, player, y as int, w as int, px@, *x as int, *pos as int, n as int);
    let mut k: u32 = n;
    while k > 0
        invariant
            copy_run(data@, player, y as int, w as int, px@, *x as int, *pos as int, k as int) == target,
            target == copy_run(data@, player, y as int, w as int, old(px)@, *old(x) as int, *old(pos) as int, n as int),
            *old(pos) <= *pos,
            *pos == *old(pos) || *pos <= data@.len(),
        decreases k,
    {
        if !has_bytes(data, *pos, 1) {
            return Err(Halt::Failed(SlpDecodeError::UnexpectedEof));
        }
        let b = data[*pos as usize];
        let v = match color_for(player, b) {
            Some(v) => v,
            None => return Err(Halt::Aborted),
        };
        let i = match pixel_index(y, w, *x, px.len()) {
            Some(i) => i,
            None => return Err(Halt::Aborted),
        };
        px.set(i, v);
        *x = *x + 1;
        *pos = *pos + 1;
        k = k - 1;
    }
    Ok(())
}

/// Fills `n` pixels of the line with `v`, as `fill_run` describes (the data
/// position `q` is not touched).
fn fill_pixels(y: u32, w: u32, px: &mut Vec<u8>, x: &mut u32, n: u32, v: u8, Ghost(q): Ghost<int>) -> (r: Result<(), Halt>)
    ensures
        match fill_run(y as int, w as int, old(px)@, *old(x) as int, q, n as int, v) {
            Progress::Going(p2, x2, q2) => r is Ok && final(px)@ == p2 && *final(x) == x2 && q2 == q,
            other => r is Err && halted(other) == Some(r->Err_0),
        },
{
    let ghost target = fill_run(y as int, w as int, px@, *x as int, q, n as int, v);
    let mut k: u32 = n;
    while k > 0
        invariant
            fill_run(y as int, w as int, px@, *x as int, q, k as int, v) == target,
            target == fill_run(y as int, w as int, old(px)@, *old(x) as int, q, n as int, v),
        decreases k,
    {
        let i = match pixel_index(y, w, *x, px.len()) {
            Some(i) => i,
            None => return Err(Halt::Aborted),
        };
        px.set(i, v);
        *x = *x + 1;
        k = k - 1;
    }
    Ok(())
}


/// Skips `n` pixels, as `skip_run` describes.
fn skip_pixels(x: &mut u32, n: usize) -> (r: Result<(), Halt>)
    ensures
        forall|px: Seq<u8>, q: int| match #[trigger] skip_run(px, *old(x) as int, q, n as int) {
            Progress::Going(p2, x2, q2) => r is Ok && p2 == px && *final(x) == x2 && q2 == q,
            _ => r == Err::<(), Halt>(Halt::Aborted),
        },
{
    if n > 0xFFFF_FFFF || *x as u64 + n as u64 > 0xFFFF_FFFF {
        Err(Halt::Aborted)
    } else {
        *x = *x + n as u32;
        Ok(())
    }
}

/// The early stop reported for a run length that could not be decoded.
fn length_halt(e: LengthError, skip: bool, start: u32) -> (h: Halt)
    ensures
        halted(length_failure(e, skip, start)) == Some(h),
{
    match e {
        LengthError::Zero => Halt::Failed(SlpDecodeError::ZeroLength { skip, at: start }),
        LengthError::UnexpectedEof => Halt::Failed(SlpDecodeError::UnexpectedEof),
    }
}

impl SlpEncodedLength {
    /// Decodes the run length of command `cmd_byte`, reading the byte after
    /// the command (at `pos`) where this kind of length needs it.
    fn decode(self, cmd_byte: u8, data: &[u8], pos: &mut u64) -> (r: Result<usize, LengthError>)
        ensures
            match encoded_length(self, cmd_byte, data@, *old(pos) as int) {
                Ok((n, q)) => r == Ok::<usize, LengthError>(n as usize) && *final(pos) == q,
                Err(e) => r == Err::<usize, LengthError>(e),
            },
    {
        match self {
            SlpEncodedLength::SixUpperBit => {
                let length = (cmd_byte / 4) as usize;
                if length == 0 {
                    return Err(LengthError::Zero);
                }
                Ok(length)
            },
            SlpEncodedLength::FourUpperBit => {
                let mut length = (cmd_byte / 16) as usize;
                if length == 0 {
                    if !has_bytes(data, *pos, 1) {
                        return Err(LengthError::UnexpectedEof);
                    }
                    length = data[*pos as usize] as usize;
                    *pos = *pos + 1;
                }
                Ok(length)
            },
            SlpEncodedLength::LargeLength => {
                let mut length = ((cmd_byte / 16) as usize) * 256;
                if !has_bytes(data, *pos, 1) {
                    return Err(LengthError::UnexpectedEof);
                }
                length = length + data[*pos as usize] as usize;
                *pos = *pos + 1;
                Ok(length)
            },
        }
    }
}

/// Runs the drawing command at `pos` (not an end of line), as `command` describes.
fn run_command(
    data: &[u8],
    player: Option<u8>,
    y: u32,
    w: u32,
    start: u32,
    px: &mut Vec<u8>,
    x: &mut u32,
    pos: &mut u64,
) -> (r: Result<(), Halt>)
    requires
        available(data@, *old(pos) as int, 1),
        data@.len() <= isize::MAX,
    ensures
        match command(data@, player, y as int, w as int, start, old(px)@, *old(x) as int, *old(pos) as int) {
            Progress::Going(p2, x2, q2) => r is Ok && final(px)@ == p2 && *final(x) == x2 && *final(pos) == q2,
            other => r is Err && halted(other) == Some(r->Err_0),
        },
        r is Ok ==> *old(pos) < *final(pos) <= data@.len() + 1,
{
    let c = data[*pos as usize];
    let low = c % 16;
    *pos = *pos + 1;
    if low == 0 || low == 4 || low == 8 || low == 12 {
        match SlpEncodedLength::SixUpperBit.decode(c, data, pos) {
            Ok(n) => copy_pixels(data, None, y, w, px, x, pos, n as u32),
            Err(e) => Err(length_halt(e, false, start)),
        }
    } else if low == 1 || low == 5 || low == 9 || low == 13 {
        match SlpEncodedLength::SixUpperBit.decode(c, data, pos) {
            Ok(n) => skip_pixels(x, n),
            Err(e) => Err(length_halt(e, true, start)),
        }
    } else if low == 2 || low == 3 {
        match SlpEncodedLength::LargeLength.decode(c, data, pos) {
            Ok(n) => if low == 2 {
                copy_pixels(data, None, y, w, px, x, pos, n as u32)
            } else {
                skip_pixels(x, n)
            },
            Err(e) => Err(length_halt(e, false, start)),
        }
    } else if low == 6 || low == 7 || low == 10 || low == 11 {
        match SlpEncodedLength::FourUpperBit.decode(c, data, pos) {
            Ok(n) => if low == 6 {
                copy_pixels(data, player, y, w, px, x, pos, n as u32)
            } else if low == 11 {
                skip_pixels(x, n)
            } else if low == 10 && player.is_none() {
                *pos = *pos + 1;
                skip_pixels(x, n)
            } else if !has_bytes(data, *pos, 1) {
                Err(Halt::Failed(SlpDecodeError::UnexpectedEof))
            } else {
                let b = data[*pos as usize];
                *pos = *pos + 1;
                if low == 7 {
                    fill_pixels(y, w, px, x, n as u32, b, Ghost(*pos as int))
                } else {
                    match color_for(player, b) {
                        Some(v) => fill_pixels(y, w, px, x, n as u32, v, Ghost(*pos as int)),
                        None => Err(Halt::Aborted),
                    }
                }
            },
            Err(e) => Err(length_halt(e, false, start)),
        }
    } else {
        Err(Halt::Aborted)
    }
}


/// The pixels of line `y` of a shape, drawn over `px`: a transparent line
/// (padding 0x8000 on either side) leaves them as they are.
pub open spec fn line_pixels(d: Seq<u8>, player: Option<u8>, h: SlpShapeHeader, px: Seq<u8>, y: int) -> Progress {
    let oo = h.shape_outline_offset + 4 * y;
    if oo > u32::MAX {
        Progress::Aborted
    } else if !available(d, oo, 4) {
        Progress::Failed(SlpDecodeError::UnexpectedEof)
    } else {
        let x = u16_at(d, oo);
        let rp = u16_at(d, oo + 2);
        if x == 0x8000 || rp == 0x8000 {
            Progress::Finished(px)
        } else {
            let po = h.shape_data_offsets + 4 * y;
            if po > u32::MAX {
                Progress::Aborted
            } else if !available(d, po, 4) {
                Progress::Failed(SlpDecodeError::UnexpectedEof)
            } else {
                let start = u32_at(d, po);
                line_run(d, player, y, h.width as int, rp as int, start, px, x as int, start as int)
            }
        }
    }
}

/// The lines of a shape from `y` on, drawn over `px`.
pub open spec fn shape_lines(d: Seq<u8>, player: Option<u8>, h: SlpShapeHeader, px: Seq<u8>, y: int) -> Progress
    decreases h.height - y,
{
    if y >= h.height {
        Progress::Finished(px)
    } else {
        match line_pixels(d, player, h, px, y) {
            Progress::Finished(px2) => shape_lines(d, player, h, px2, y + 1),
            other => other,
        }
    }
}

/// The decoded pixels of a shape: `width * height` palette indices, row by
/// row, starting from all zero.
pub open spec fn shape_pixels(d: Seq<u8>, player: Option<u8>, h: SlpShapeHeader) -> Progress {
    if h.width * h.height > u32::MAX {
        Progress::Aborted
    } else {
        shape_lines(d, player, h, Seq::new((h.width * h.height) as nat, |i: int| 0u8), 0)
    }
}

/// Draws one line whose commands start at `start`, from `x0` on, with right padding `rp`.
fn draw_line(
    data: &[u8],
    player: Option<u8>,
    y: u32,
    w: u32,
    rp: u32,
    start: u32,
    px: &mut Vec<u8>,
    x0: u32,
) -> (r: Result<(), Halt>)
    requires
        data@.len() <= isize::MAX,
    ensures
        match line_run(data@, player, y as int, w as int, rp as int, start, old(px)@, x0 as int, start as int) {
            Progress::Finished(p2) => r is Ok && final(px)@ == p2,
            other => r is Err && halted(other) == Some(r->Err_0),
        },
{
    let ghost target = line_run(data@, player, y as int, w as int, rp as int, start, px@, x0 as int, start as int);
    if !has_bytes(data, start as u64, 1) {
        return Err(Halt::Failed(SlpDecodeError::UnexpectedEof));
    }
    let mut x = x0;
    let mut pos: u64 = start as u64;
    loop
        invariant
            line_run(data@, player, y as int, w as int, rp as int, start, px@, x as int, pos as int) == target,
            target == line_run(data@, player, y as int, w as int, rp as int, start, old(px)@, x0 as int, start as int),
            pos <= data@.len() + 1,
            data@.len() <= isize::MAX,
        decreases data@.len() + 1 - pos,
    {
        if !has_bytes(data, pos, 1) {
            return Err(Halt::Failed(SlpDecodeError::UnexpectedEof));
        }
        let c = data[pos as usize];
        if c == 15 {
            if rp > w {
                return Err(Halt::Aborted);
            }
            if x != w - rp {
                return Err(Halt::Failed(SlpDecodeError::LineSize { line: y, actual: x, expected: w - rp }));
            }
            return Ok(());
        }
        if x > w {
            return Err(Halt::Failed(SlpDecodeError::LineOverrun));
        }
        match run_command(data, player, y, w, start, px, &mut x, &mut pos) {
            Ok(()) => {},
            Err(h) => return Err(h),
        }
    }
}

/// Draws the lines of a shape over `px`.
fn draw_lines(data: &[u8], player: Option<u8>, h: &SlpShapeHeader, px: &mut Vec<u8>) -> (r: Result<(), Halt>)
    requires
        data@.len() <= isize::MAX,
    ensures
        match shape_lines(data@, player, *h, old(px)@, 0) {
            Progress::Finished(p2) => r is Ok && final(px)@ == p2,
            other => r is Err && halted(other) == Some(r->Err_0),
        },
{
    let ghost target = shape_lines(data@, player, *h, px@, 0);
    let mut y: u32 = 0;
    while y < h.height
        invariant
            shape_lines(data@, player, *h, px@, y as int) == target,
            target == shape_lines(data@, player, *h, old(px)@, 0),
            y <= h.height,
            data@.len() <= isize::MAX,
        decreases h.height - y,
    {
        let oo: u64 = h.shape_outline_offset as u64 + 4 * y as u64;
        if oo > 0xFFFF_FFFF {
            return Err(Halt::Aborted);
        }
        let mut p = oo;
        let x = match read_u16(data, &mut p) {
            Ok(v) => v,
            Err(_) => return Err(Halt::Failed(SlpDecodeError::UnexpectedEof)),
        };
        let rp = match read_u16(data, &mut p) {
            Ok(v) => v,
            Err(_) => return Err(Halt::Failed(SlpDecodeError::UnexpectedEof)),
        };
        if x != 0x8000 && rp != 0x8000 {
            let po: u64 = h.shape_data_offsets as u64 + 4 * y as u64;
            if po > 0xFFFF_FFFF {
                return Err(Halt::Aborted);
            }
            let mut q = po;
            let start = match read_u32(data, &mut q) {
                Ok(v) => v,
                Err(_) => return Err(Halt::Failed(SlpDecodeError::UnexpectedEof)),
            };
            match draw_line(data, player, y, h.width, rp as u32, start, px, x as u32) {
                Ok(()) => {},
                Err(e) => return Err(e),
            }
        }
        y = y + 1;
    }
    Ok(())
}

/// Decodes the pixels of a shape, as `shape_pixels` describes.
pub fn decode_shape(data: &[u8], player: Option<u8>, h: &SlpShapeHeader) -> (r: Result<Vec<u8>, Halt>)
    requires
        data@.len() <= isize::MAX,
    ensures
        match shape_pixels(data@, player, *h) {
            Progress::Finished(p) => r matches Ok(v) && v@ == p,
            other => r is Err && halted(other) == Some(r->Err_0),
        },
{
    assert(h.width as u64 * h.height as u64 <= 0xFFFF_FFFE_0000_0001) by (nonlinear_arith)
        requires
            h.width <= 0xFFFF_FFFF,
            h.height <= 0xFFFF_FFFF,
    ;
    let total: u64 = h.width as u64 * h.height as u64;
    if total > 0xFFFF_FFFF {
        return Err(Halt::Aborted);
    }
    let mut px: Vec<u8> = Vec::new();
    let mut i: u64 = 0;
    while i < total
        invariant
            i <= total,
            px@ == Seq::new(i as nat, |j: int| 0u8),
        decreases total - i,
    {
        px.push(0u8);
        i = i + 1;
        assert(px@ =~= Seq::new(i as nat, |j: int| 0u8));
    }
    match draw_lines(data, player, h, &mut px) {
        Ok(()) => Ok(px),
        Err(e) => Err(e),
    }
}


proof fn lemma_line_run_ends(
    d: Seq<u8>,
    player: Option<u8>,
    y: int,
    w: int,
    rp: int,
    start: u32,
    px: Seq<u8>,
    x: int,
    p: int,
)
    ensures
        !(line_run(d, player, y, w, rp, start, px, x, p) is Going),
    decreases d.len() + 1 - p,
{
    if let Progress::Going(px2, x2, p2) = line_step(d, player, y, w, rp, start, px, x, p) {
        if p < p2 <= d.len() + 1 {
            lemma_line_run_ends(d, player, y, w, rp, start, px2, x2, p2);
        }
    }
}

proof fn lemma_shape_lines_end(d: Seq<u8>, player: Option<u8>, h: SlpShapeHeader, px: Seq<u8>, y: int)
    ensures
        !(shape_lines(d, player, h, px, y) is Going),
    decreases h.height - y,
{
    if y < h.height {
        let oo = h.shape_outline_offset + 4 * y;
        let po = h.shape_data_offsets + 4 * y;
        let start = u32_at(d, po);
        lemma_line_run_ends(d, player, y, h.width as int, u16_at(d, oo + 2) as int, start, px, u16_at(d, oo) as int, start as int);
        if let Progress::Finished(px2) = line_pixels(d, player, h, px, y) {
            lemma_shape_lines_end(d, player, h, px2, y + 1);
        }
    }
}

proof fn lemma_shapes_from_end(d: Seq<u8>, player: Option<u8>, hs: Seq<SlpShapeHeader>, i: int)
    ensures
        !(shapes_from(d, player, hs, i) is Going),
    decreases hs.len() - i,
{
    if i < hs.len() {
        lemma_shape_lines_end(d, player, hs[i], Seq::new((hs[i].width * hs[i].height) as nat, |j: int| 0u8), 0);
        lemma_shapes_from_end(d, player, hs, i + 1);
    }
}

/// Reading a file always comes to an end: it is never left half-way.
pub proof fn lemma_slp_outcome_ends(d: Seq<u8>, player: Option<u8>)
    ensures
        !(slp_outcome(d, player) is Going),
{
    lemma_shapes_from_end(d, player, shape_headers(d), 0);
}

proof fn lemma_copy_run_len(d: Seq<u8>, player: Option<u8>, y: int, w: int, px: Seq<u8>, x: int, q: int, n: int)
    ensures
        copy_run(d, player, y, w, px, x, q, n) matches Progress::Going(p2, _, _) ==> p2.len() == px.len(),
        !(copy_run(d, player, y, w, px, x, q, n) is Finished),
    decreases n,
{
    if n > 0 && available(d, q, 1) {
        if let Some(v) = player_color(player, d[q]) {
            lemma_copy_run_len(d, player, y, w, px.update(y * w + x, v), x + 1, q + 1, n - 1);
        }
    }
}

proof fn lemma_fill_run_len(y: int, w: int, px: Seq<u8>, x: int, q: int, n: int, v: u8)
    ensures
        fill_run(y, w, px, x, q, n, v) matches Progress::Going(p2, _, _) ==> p2.len() == px.len(),
        !(fill_run(y, w, px, x, q, n, v) is Finished),
    decreases n,
{
    if n > 0 {
        lemma_fill_run_len(y, w, px.update(y * w + x, v), x + 1, q, n - 1, v);
    }
}

proof fn lemma_command_len(
    d: Seq<u8>,
    player: Option<u8>,
    y: int,
    w: int,
    start: u32,
    px: Seq<u8>,
    x: int,
    p: int,
)
    ensures
        command(d, player, y, w, start, px, x, p) matches Progress::Going(p2, _, _) ==> p2.len() == px.len(),
        !(command(d, player, y, w, start, px, x, p) is Finished),
{
    let c = d[p];
    let q = p + 1;
    if let Ok((n, q2)) = encoded_length(SlpEncodedLength::SixUpperBit, c, d, q) {
        lemma_copy_run_len(d, None, y, w, px, x, q2, n);
    }
    if let Ok((n, q2)) = encoded_length(SlpEncodedLength::LargeLength, c, d, q) {
        lemma_copy_run_len(d, None, y, w, px, x, q2, n);
    }
    if let Ok((n, q2)) = encoded_length(SlpEncodedLength::FourUpperBit, c, d, q) {
        lemma_copy_run_len(d, player, y, w, px, x, q2, n);
        if available(d, q2, 1) {
            lemma_fill_run_len(y, w, px, x, q2 + 1, n, d[q2]);
            if let Some(v) = player_color(player, d[q2]) {
                lemma_fill_run_len(y, w, px, x, q2 + 1, n, v);
            }
        }
    }
}

proof fn lemma_line_run_len(
    d: Seq<u8>,
    player: Option<u8>,
    y: int,
    w: int,
    rp: int,
    start: u32,
    px: Seq<u8>,
    x: int,
    p: int,
)
    ensures
        line_run(d, player, y, w, rp, start, px, x, p) matches Progress::Finished(p2) ==> p2.len() == px.len(),
    decreases d.len() + 1 - p,
{
    lemma_command_len(d, player, y, w, start, px, x, p);
    if let Progress::Going(px2, x2, p2) = line_step(d, player, y, w, rp, start, px, x, p) {
        if p < p2 <= d.len() + 1 {
            lemma_line_run_len(d, player, y, w, rp, start, px2, x2, p2);
        }
    }
}

proof fn lemma_shape_lines_len(d: Seq<u8>, player: Option<u8>, h: SlpShapeHeader, px: Seq<u8>, y: int)
    ensures
        shape_lines(d, player, h, px, y) matches Progress::Finished(p2) ==> p2.len() == px.len(),
    decreases h.height - y,
{
    if y < h.height {
        let oo = h.shape_outline_offset + 4 * y;
        let po = h.shape_data_offsets + 4 * y;
        let start = u32_at(d, po);
        lemma_line_run_len(d, player, y, h.width as int, u16_at(d, oo + 2) as int, start, px, u16_at(d, oo) as int, start as int);
        if let Progress::Finished(px2) = line_pixels(d, player, h, px, y) {
            lemma_shape_lines_len(d, player, h, px2, y + 1);
        }
    }
}

/// A decoded shape holds exactly `width * height` pixels, one per position of
/// its rectangle.
pub proof fn lemma_decoded_shape_size(d: Seq<u8>, player: Option<u8>, h: SlpShapeHeader)
    ensures
        shape_pixels(d, player, h) matches Progress::Finished(px) ==> px.len() == h.width * h.height,
{
    if h.width * h.height <= u32::MAX {
        lemma_shape_lines_len(d, player, h, Seq::new((h.width * h.height) as nat, |i: int| 0u8), 0);
    }
}

/// The error reported for a decoding failure.
pub open spec fn slp_error_of(e: SlpDecodeError) -> SlpError {
    match e {
        SlpDecodeError::UnexpectedEof => SlpError::UnexpectedEof,
        SlpDecodeError::BadHeader => SlpError::InvalidSlp(SlpInvalidReason::BadHeader),
        SlpDecodeError::ZeroLength { .. } => SlpError::BadLength,
        SlpDecodeError::LineSize { line, actual, expected } => SlpError::InvalidSlp(
            SlpInvalidReason::LineSize { line, actual, expected },
        ),
        SlpDecodeError::LineOverrun => SlpError::InvalidSlp(SlpInvalidReason::LineOverrun),
    }
}

fn slp_error(e: SlpDecodeError) -> (r: SlpError)
    ensures
        r == slp_error_of(e),
{
    match e {
        SlpDecodeError::UnexpectedEof => SlpError::UnexpectedEof,
        SlpDecodeError::BadHeader => SlpError::InvalidSlp(SlpInvalidReason::BadHeader),
        SlpDecodeError::ZeroLength { .. } => SlpError::BadLength,
        SlpDecodeError::LineSize { line, actual, expected } => SlpError::InvalidSlp(
            SlpInvalidReason::LineSize { line, actual, expected },
        ),
        SlpDecodeError::LineOverrun => SlpError::InvalidSlp(SlpInvalidReason::LineOverrun),
    }
}

/// The shape headers of a file, which follow its 32-byte header.
pub open spec fn shape_headers(d: Seq<u8>) -> Seq<SlpShapeHeader> {
    Seq::new(u32_at(d, 4) as nat, |i: int| shape_header_at(d, 32 + 32 * i))
}

/// The shapes from `i` on, decoded in turn: `Finished` when all of them
/// decode, else where the first that does not stopped.
pub open spec fn shapes_from(d: Seq<u8>, player: Option<u8>, hs: Seq<SlpShapeHeader>, i: int) -> Progress
    decreases hs.len() - i,
{
    if i >= hs.len() {
        Progress::Finished(Seq::empty())
    } else {
        match shape_pixels(d, player, hs[i]) {
            Progress::Finished(_) => shapes_from(d, player, hs, i + 1),
            other => other,
        }
    }
}

/// How reading a whole file ends: the header, then all shape headers, then
/// the pixels of each shape.
pub open spec fn slp_outcome(d: Seq<u8>, player: Option<u8>) -> Progress {
    if !available(d, 0, 32) {
        Progress::Failed(SlpDecodeError::UnexpectedEof)
    } else if !version_ok(d, 0) {
        Progress::Failed(SlpDecodeError::BadHeader)
    } else if !available(d, 32, 32 * u32_at(d, 4)) {
        Progress::Failed(SlpDecodeError::UnexpectedEof)
    } else {
        shapes_from(d, player, shape_headers(d), 0)
    }
}

/// The shapes of a decoded file, as the data gives them.
pub open spec fn shapes_match(d: Seq<u8>, player: Option<u8>, shapes: Seq<SlpLogicalShape>) -> bool {
    &&& shapes.len() == u32_at(d, 4)
    &&& forall|i: int| #![trigger shapes[i]] 0 <= i < shapes.len() ==> {
        &&& shapes[i].header == shape_header_at(d, 32 + 32 * i)
        &&& shape_pixels(d, player, shapes[i].header) == Progress::Finished(shapes[i].pixels@)
    }
}

/// The header of a decoded file, as the data gives it.
pub open spec fn header_matches(d: Seq<u8>, h: SlpHeader) -> bool {
    &&& h.file_version@ == d.subrange(0, 4)
    &&& h.shape_count == u32_at(d, 4)
    &&& h.comment@ == d.subrange(8, 32)
}

impl SlpHeader {
    /// An empty header.
    pub fn new() -> (h: SlpHeader)
        ensures
            h.file_version@ == seq![0u8; 4],
            h.shape_count == 0,
            h.comment@ == seq![0u8; 24],
    {
        let h = SlpHeader {
            file_version: [0u8, 0, 0, 0],
            shape_count: 0u32,
            comment: [0u8, 0, 0, 0, 0, 0, 0, 0, 0, 0, 0, 0, 0, 0, 0, 0, 0, 0, 0, 0, 0, 0, 0, 0],
        };
        assert(h.file_version@ =~= seq![0u8; 4]);
        assert(h.comment@ =~= seq![0u8; 24]);
        h
    }

    /// Reads the 32-byte file header at `pos`: the data must hold all of it
    /// (else `UnexpectedEof`) and start with version "2.0N" (else `BadHeader`).
    pub fn read_from_file(data: &[u8], pos: &mut u64) -> (r: Result<SlpHeader, SlpError>)
        ensures
            ({
                let p = *old(pos) as int;
                match r {
                    Ok(h) => available(data@, p, 32) && version_ok(data@, p)
                        && h.file_version@ == data@.subrange(p, p + 4)
                        && h.shape_count == u32_at(data@, p + 4)
                        && h.comment@ == data@.subrange(p + 8, p + 32)
                        && *final(pos) == p + 32,
                    Err(e) => if !available(data@, p, 32) {
                        e == SlpError::UnexpectedEof
                    } else {
                        !version_ok(data@, p) && e == SlpError::InvalidSlp(SlpInvalidReason::BadHeader)
                    },
                }
            }),
    {
        if !has_bytes(data, *pos, 32) {
            return Err(SlpError::UnexpectedEof);
        }
        let p = *pos as usize;
        let file_version = [data[p], data[p + 1], data[p + 2], data[p + 3]];
        let mut q: u64 = *pos + 4;
        let shape_count = match read_u32(data, &mut q) {
            Ok(v) => v,
            Err(_) => return Err(SlpError::UnexpectedEof),
        };
        let c = p + 8;
        let comment = [
            data[c], data[c + 1], data[c + 2], data[c + 3], data[c + 4], data[c + 5],
            data[c + 6], data[c + 7], data[c + 8], data[c + 9], data[c + 10], data[c + 11],
            data[c + 12], data[c + 13], data[c + 14], data[c + 15], data[c + 16], data[c + 17],
            data[c + 18], data[c + 19], data[c + 20], data[c + 21], data[c + 22], data[c + 23],
        ];
        if file_version[0] != 50 || file_version[1] != 46 || file_version[2] != 48 || file_version[3] != 78 {
            return Err(SlpError::InvalidSlp(SlpInvalidReason::BadHeader));
        }
        assert(file_version@ =~= data@.subrange(p as int, p + 4));
        assert(comment@ =~= data@.subrange(p + 8, p + 32));
        *pos = *pos + 32;
        Ok(SlpHeader { file_version, shape_count, comment })
    }
}

/// The header of a shape of no size, all of whose fields are zero.
pub open spec fn empty_shape_header() -> SlpShapeHeader {
    SlpShapeHeader {
        shape_data_offsets: 0,
        shape_outline_offset: 0,
        palette_offset: 0,
        properties: 0,
        width: 0,
        height: 0,
        center_x: 0,
        center_y: 0,
    }
}

impl SlpShapeHeader {
    /// A header of a shape of no size at offset zero.
    pub fn new() -> (h: SlpShapeHeader)
        ensures
            h == empty_shape_header(),
    {
        SlpShapeHeader {
            shape_data_offsets: 0u32,
            shape_outline_offset: 0u32,
            palette_offset: 0u32,
            properties: 0u32,
            width: 0u32,
            height: 0u32,
            center_x: 0i32,
            center_y: 0i32,
        }
    }

    /// Reads a 32-byte shape header at `pos`.
    pub fn read_from_file(data: &[u8], pos: &mut u64) -> (r: Result<SlpShapeHeader, SlpError>)
        ensures
            match r {
                Ok(h) => available(data@, *old(pos) as int, 32) && h == shape_header_at(data@, *old(pos) as int)
                    && *final(pos) == *old(pos) + 32,
                Err(e) => !available(data@, *old(pos) as int, 32) && e == SlpError::UnexpectedEof,
            },
    {
        if !has_bytes(data, *pos, 32) {
            return Err(SlpError::UnexpectedEof);
        }
        let mut header = SlpShapeHeader::new();
        header.shape_data_offsets = read_u32(data, pos).unwrap();
        header.shape_outline_offset = read_u32(data, pos).unwrap();
        header.palette_offset = read_u32(data, pos).unwrap();
        header.properties = read_u32(data, pos).unwrap();
        header.width = read_u32(data, pos).unwrap();
        header.height = read_u32(data, pos).unwrap();
        header.center_x = read_i32(data, pos).unwrap();
        header.center_y = read_i32(data, pos).unwrap();
        Ok(header)
    }
}

impl SlpLogicalShape {
    /// A shape with an empty header and no pixels.
    pub fn new() -> (s: SlpLogicalShape)
        ensures
            s.header == empty_shape_header(),
            s.pixels@.len() == 0,
    {
        SlpLogicalShape { header: SlpShapeHeader::new(), pixels: Vec::new() }
    }
}


/// Reads the `count` shape headers that follow the file header.
pub(crate) fn read_shape_headers(data: &[u8], count: u32) -> (r: Option<Vec<SlpShapeHeader>>)
    requires
        data@.len() >= 32,
    ensures
        match r {
            Some(hs) => available(data@, 32, 32 * count) && hs@ == Seq::new(
                count as nat,
                |i: int| shape_header_at(data@, 32 + 32 * i),
            ),
            None => !available(data@, 32, 32 * count),
        },
{
    let mut pos: u64 = 32;
    let mut headers: Vec<SlpShapeHeader> = Vec::new();
    let mut i: u32 = 0;
    while i < count
        invariant
            i <= count,
            pos == 32 + 32 * i,
            pos <= data@.len() || i == 0,
            headers@ == Seq::new(i as nat, |j: int| shape_header_at(data@, 32 + 32 * j)),
        decreases count - i,
    {
        match SlpShapeHeader::read_from_file(data, &mut pos) {
            Ok(h) => headers.push(h),
            Err(_) => return None,
        }
        i = i + 1;
        assert(headers@ =~= Seq::new(i as nat, |j: int| shape_header_at(data@, 32 + 32 * j)));
    }
    Some(headers)
}

/// Decodes the pixels of each shape in turn, stopping at the first that fails.
pub(crate) fn decode_shapes(data: &[u8], player: Option<u8>, hs: &Vec<SlpShapeHeader>) -> (r: Result<Vec<SlpLogicalShape>, Halt>)
    requires
        data@.len() <= isize::MAX,
    ensures
        match shapes_from(data@, player, hs@, 0) {
            Progress::Finished(_) => r matches Ok(shapes) && shapes@.len() == hs@.len() && forall|i: int|
                #![trigger shapes@[i]]
                0 <= i < hs@.len() ==> shapes@[i].header == hs@[i]
                    && shape_pixels(data@, player, hs@[i]) == Progress::Finished(shapes@[i].pixels@),
            other => r is Err && halted(other) == Some(r->Err_0),
        },
{
    let mut shapes: Vec<SlpLogicalShape> = Vec::new();
    let mut k: usize = 0;
    while k < hs.len()
        invariant
            k <= hs@.len(),
            shapes_from(data@, player, hs@, k as int) == shapes_from(data@, player, hs@, 0),
            shapes@.len() == k,
            forall|i: int| #![trigger shapes@[i]] 0 <= i < k ==> shapes@[i].header == hs@[i]
                && shape_pixels(data@, player, hs@[i]) == Progress::Finished(shapes@[i].pixels@),
            data@.len() <= isize::MAX,
        decreases hs@.len() - k,
    {
        let h = hs[k];
        match decode_shape(data, player, &h) {
            Ok(px) => shapes.push(SlpLogicalShape { header: h, pixels: px }),
            Err(e) => return Err(e),
        }
        k = k + 1;
    }
    Ok(shapes)
}

impl SlpFile {
    /// An empty file, to be drawn in the colors of `player_index`.
    pub fn new(player_index: u8) -> (f: SlpFile)
        ensures
            f.header.shape_count == 0,
            f.header.file_version@ == seq![0u8; 4],
            f.header.comment@ == seq![0u8; 24],
            f.shapes@.len() == 0,
            f.player_index == player_index,
    {
        SlpFile { header: SlpHeader::new(), shapes: Vec::new(), player_index }
    }

    /// Reads and decodes a whole SLP file, drawing player colors for
    /// `player_index`; `None` on the data for which the decoder gives up
    /// (`slp_outcome` is `Aborted`: extended or unknown commands, arithmetic
    /// overflow, writes outside a shape).
    pub fn read_from_checked(data: &[u8], player_index: u8) -> (r: Option<Result<SlpFile, SlpError>>)
        requires
            data@.len() <= isize::MAX,
        ensures
            match slp_outcome(data@, Some(player_index)) {
                Progress::Finished(_) => r matches Some(Ok(f)) && f.player_index == player_index
                    && header_matches(data@, f.header) && shapes_match(data@, Some(player_index), f.shapes@),
                Progress::Failed(e) => r == Some(Err::<SlpFile, SlpError>(slp_error_of(e))),
                _ => r is None,
            },
    {
        let mut pos: u64 = 0;
        let header = match SlpHeader::read_from_file(data, &mut pos) {
            Ok(h) => h,
            Err(e) => return Some(Err(e)),
        };
        let headers = match read_shape_headers(data, header.shape_count) {
            Some(hs) => hs,
            None => return Some(Err(SlpError::UnexpectedEof)),
        };
        assert(headers@ == shape_headers(data@));
        match decode_shapes(data, Some(player_index), &headers) {
            Ok(shapes) => Some(Ok(SlpFile { header, shapes, player_index })),
            Err(Halt::Failed(e)) => Some(Err(slp_error(e))),
            Err(Halt::Aborted) => None,
        }
    }

    /// Reads and decodes a whole SLP file, drawing player colors for
    /// `player_index`, on data for which the decoder does not give up.
    pub fn read_from(data: &[u8], player_index: u8) -> (r: Result<SlpFile, SlpError>)
        requires
            data@.len() <= isize::MAX,
            !(slp_outcome(data@, Some(player_index)) is Aborted),
        ensures
            match slp_outcome(data@, Some(player_index)) {
                Progress::Finished(_) => r matches Ok(f) && f.player_index == player_index
                    && header_matches(data@, f.header) && shapes_match(data@, Some(player_index), f.shapes@),
                Progress::Failed(e) => r == Err::<SlpFile, SlpError>(slp_error_of(e)),
                _ => false,
            },
    {
        proof {
            lemma_slp_outcome_ends(data@, Some(player_index));
        }
        SlpFile::read_from_checked(data, player_index).unwrap()
    }
}

} // verus!
