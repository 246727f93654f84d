//! Shapes: the frames of an SLP file laid out side by side in one texture,
//! each drawn at a position with its center there.

use vstd::prelude::*;
use crate::file_formats::drs::{contents_of, table_of_type, DrsFile, DrsFileType};
use crate::file_formats::palette::{self, palette_of, Palette, PaletteError};
use crate::file_formats::slp::{
    header_matches, shapes_match, slp_error_of, slp_outcome, Progress, SlpError, SlpFile, SlpShapeHeader,
};
use crate::media::{extend_fits, extended, Point, Rect};
use crate::resource::drs_manager::{tables_indexed, DrsKey};

verus! {

/// The gap between two frames laid out side by side.
pub const SHAPE_PADDING: i32 = 4;
/// The ID of the palette in the binary table of the interface archive.
pub const PALETTE_FILE_ID: u32 = 50500;

/// Names a shape: its archive, the ID of its SLP file there, and the player
/// whose colors it takes.
#[derive(PartialEq, Eq, Structural, Hash, Copy, Clone, Debug)]
pub struct ShapeKey {
    pub drs_key: DrsKey,
    pub slp_id: u32,
    pub player_color: u8,
}

impl ShapeKey {
    pub fn new(drs_key: DrsKey, slp_id: u32, player_color: u8) -> (r: ShapeKey)
        ensures
            r == (ShapeKey { drs_key, slp_id, player_color }),
    {
        ShapeKey { drs_key: drs_key, slp_id: slp_id, player_color: player_color }
    }
}

/// Why a shape or the palette could not be loaded.
#[derive(Debug)]
pub enum ShapeError {
    /// The interface archive has no table of binary files.
    InterfacBinaryTableMissing,
    /// The binary table of the interface archive has no palette.
    InterfacMissingPalette,
    /// The palette could not be read.
    Palette(PaletteError),
    /// The archive has no table of SLP files.
    NoSlpTableInDrs(DrsKey),
    /// The archive has no SLP file with this ID.
    SlpNotFound(DrsKey, u32),
    /// The SLP file could not be read.
    Slp(SlpError),
}

/// The palette of the interface archive, or why there is none.
pub open spec fn palette_outcome(interfac: DrsFile) -> Result<Seq<palette::PaletteColor>, ShapeError> {
    match table_of_type(interfac.tables@, DrsFileType::Binary) {
        None => Err(ShapeError::InterfacBinaryTableMissing),
        Some(t) => match contents_of(t.entries@, t.contents@, PALETTE_FILE_ID) {
            None => Err(ShapeError::InterfacMissingPalette),
            Some(c) => match palette_of(c) {
                Ok(colors) => Ok(colors),
                Err(e) => Err(ShapeError::Palette(e)),
            },
        },
    }
}

/// Reads the palette in which the shapes are drawn: file 50500 of the binary
/// table of the interface archive.
pub fn load_palette(interfac: &DrsFile) -> (r: Result<Palette, ShapeError>)
    requires
        tables_indexed(*interfac),
    ensures
        match palette_outcome(*interfac) {
            Ok(colors) => r matches Ok(p) && p@ == colors,
            Err(ShapeError::Palette(e)) => r matches Err(ShapeError::Palette(x)) && x == e,
            Err(ShapeError::InterfacBinaryTableMissing) => r matches Err(ShapeError::InterfacBinaryTableMissing),
            Err(ShapeError::InterfacMissingPalette) => r matches Err(ShapeError::InterfacMissingPalette),
            Err(_) => false,
        },
{
    let table = match interfac.find_table(DrsFileType::Binary) {
        Some(t) => t,
        None => return Err(ShapeError::InterfacBinaryTableMissing),
    };
    proof {
        let i = choose|i: int| 0 <= i < interfac.tables@.len() && interfac.tables@[i] == *table
            && table.header.file_type == DrsFileType::Binary
            && forall|j: int| 0 <= j < i ==> (#[trigger] interfac.tables@[j]).header.file_type != DrsFileType::Binary;
        assert(interfac.tables@[i].is_indexed());
    }
    let contents = match table.find_file_contents(PALETTE_FILE_ID) {
        Some(c) => c,
        None => return Err(ShapeError::InterfacMissingPalette),
    };
    match palette::read_from(contents.as_slice()) {
        Ok(p) => Ok(p),
        Err(e) => Err(ShapeError::Palette(e)),
    }
}

/// The SLP file of a shape in its archive, decoded in the shape's player
/// colors, or why it cannot be; `None` where decoding cannot go on, or the
/// file is larger than the largest `isize`.
pub open spec fn slp_file_outcome(drs_file: DrsFile, key: ShapeKey) -> Option<Result<Seq<u8>, ShapeError>> {
    match table_of_type(drs_file.tables@, DrsFileType::Slp) {
        None => Some(Err(ShapeError::NoSlpTableInDrs(key.drs_key))),
        Some(t) => match contents_of(t.entries@, t.contents@, key.slp_id) {
            None => Some(Err(ShapeError::SlpNotFound(key.drs_key, key.slp_id))),
            Some(c) => if c.len() > isize::MAX { None } else { match slp_outcome(c, Some(key.player_color)) {
                Progress::Finished(_) => Some(Ok(c)),
                Progress::Failed(e) => Some(Err(ShapeError::Slp(slp_error_of(e)))),
                _ => None,
            } },
        },
    }
}

/// Finds and decodes the SLP file of a shape in its archive (the archive of
/// the key); `None` where the file cannot be decoded to its end, or is larger
/// than the largest `isize`.
pub fn load_slp_checked(drs_file: &DrsFile, key: &ShapeKey) -> (r: Option<Result<SlpFile, ShapeError>>)
    requires
        tables_indexed(*drs_file),
    ensures
        match slp_file_outcome(*drs_file, *key) {
            Some(Ok(c)) => r matches Some(Ok(f)) && f.player_index == key.player_color
                && header_matches(c, f.header) && shapes_match(c, Some(key.player_color), f.shapes@),
            Some(Err(ShapeError::Slp(e))) => r matches Some(Err(ShapeError::Slp(x))) && x == e,
            Some(Err(ShapeError::NoSlpTableInDrs(k))) => r matches Some(Err(ShapeError::NoSlpTableInDrs(x))) && x == k,
            Some(Err(ShapeError::SlpNotFound(k, id))) => r matches Some(Err(ShapeError::SlpNotFound(x, y))) && x == k && y == id,
            Some(Err(_)) => false,
            None => r is None,
        },
{
    let table = match drs_file.find_table(DrsFileType::Slp) {
        Some(t) => t,
        None => return Some(Err(ShapeError::NoSlpTableInDrs(key.drs_key))),
    };
    proof {
        let i = choose|i: int| 0 <= i < drs_file.tables@.len() && drs_file.tables@[i] == *table
            && table.header.file_type == DrsFileType::Slp
            && forall|j: int| 0 <= j < i ==> (#[trigger] drs_file.tables@[j]).header.file_type != DrsFileType::Slp;
        assert(drs_file.tables@[i].is_indexed());
    }
    let contents = match table.find_file_contents(key.slp_id) {
        Some(c) => c,
        None => return Some(Err(ShapeError::SlpNotFound(key.drs_key, key.slp_id))),
    };
    if contents.len() > isize::MAX as usize {
        return None;
    }
    match SlpFile::read_from_checked(contents.as_slice(), key.player_color) {
        Some(Ok(f)) => Some(Ok(f)),
        Some(Err(e)) => Some(Err(ShapeError::Slp(e))),
        None => None,
    }
}

/// Where frame `k` of a shape starts in its texture: after the frames before
/// it, each followed by the padding.
pub open spec fn frame_x(hs: Seq<SlpShapeHeader>, k: int) -> int
    decreases k,
{
    if k <= 0 {
        0
    } else {
        frame_x(hs, k - 1) + (hs[k - 1].width as i32) + SHAPE_PADDING
    }
}

/// The place of frame `k` in the texture.
pub open spec fn frame_rect(hs: Seq<SlpShapeHeader>, k: int) -> Rect {
    Rect { x: frame_x(hs, k) as i32, y: 0, w: hs[k].width as i32, h: hs[k].height as i32 }
}

/// The rectangle that covers the first `k` frames, grown frame by frame from
/// the empty rectangle at the origin.
pub open spec fn texture_rect(hs: Seq<SlpShapeHeader>, k: int) -> Rect
    decreases k,
{
    if k <= 0 {
        Rect { x: 0, y: 0, w: 0, h: 0 }
    } else {
        extended(texture_rect(hs, k - 1), frame_rect(hs, k - 1))
    }
}

/// Laying out the first `k` frames stays within 32-bit numbers.
pub open spec fn layout_fits(hs: Seq<SlpShapeHeader>, k: int) -> bool
    decreases k,
{
    if k <= 0 {
        true
    } else {
        &&& layout_fits(hs, k - 1)
        &&& extend_fits(texture_rect(hs, k - 1), frame_rect(hs, k - 1))
        &&& (hs[k - 1].width as i32) + SHAPE_PADDING <= i32::MAX
        &&& i32::MIN <= frame_x(hs, k) <= i32::MAX
    }
}

/// The frames of a shape laid out side by side in one texture.
#[derive(Debug)]
pub struct FrameLayout {
    /// The size of the texture.
    pub total: Rect,
    /// Where each frame lies in the texture.
    pub frames: Vec<Rect>,
    /// The center of each frame, relative to its corner.
    pub centers: Vec<Point>,
}

/// Lays out the frames of a shape side by side, from the left, each followed
/// by the padding; `None` when a position would not be a 32-bit number.
pub fn layout_frames(headers: &[SlpShapeHeader]) -> (r: Option<FrameLayout>)
    ensures
        match r {
            Some(l) => layout_fits(headers@, headers@.len() as int)
                && l.total == texture_rect(headers@, headers@.len() as int)
                && l.frames@.len() == headers@.len() && l.centers@.len() == headers@.len()
                && forall|k: int| 0 <= k < headers@.len() ==> #[trigger] l.frames@[k] == frame_rect(headers@, k)
                    && l.centers@[k] == (Point { x: headers@[k].center_x, y: headers@[k].center_y }),
            None => !layout_fits(headers@, headers@.len() as int),
        },
{
    let mut total = Rect::new();
    let mut frames: Vec<Rect> = Vec::new();
    let mut centers: Vec<Point> = Vec::new();
    let mut next_x: i32 = 0;
    let mut k: usize = 0;
    while k < headers.len()
        invariant
            k <= headers@.len(),
            layout_fits(headers@, k as int),
            next_x == frame_x(headers@, k as int),
            total == texture_rect(headers@, k as int),
            frames@.len() == k,
            centers@.len() == k,
            forall|j: int| 0 <= j < k ==> #[trigger] frames@[j] == frame_rect(headers@, j)
                && centers@[j] == (Point { x: headers@[j].center_x, y: headers@[j].center_y }),
        decreases headers@.len() - k,
    {
        let h = &headers[k];
        let w = #[verifier::truncate] (h.width as i32);
        let dst = Rect::of(next_x, 0, w, #[verifier::truncate] (h.height as i32));
        assert(dst == frame_rect(headers@, k as int));
        frames.push(dst);
        centers.push(Point::new(h.center_x, h.center_y));
        let ghost before = total;
        if !rect_extends(&total, &dst) {
            proof {
                lemma_layout_fits_prefix(headers@, k + 1, headers@.len() as int);
            }
            return None;
        }
        total.extend(&dst);
        if w > i32::MAX - SHAPE_PADDING {
            proof {
                lemma_layout_fits_prefix(headers@, k + 1, headers@.len() as int);
            }
            return None;
        }
        let step = w + SHAPE_PADDING;
        let sum = next_x as i64 + step as i64;
        if sum < i32::MIN as i64 || sum > i32::MAX as i64 {
            proof {
                lemma_layout_fits_prefix(headers@, k + 1, headers@.len() as int);
            }
            return None;
        }
        next_x = sum as i32;
        k = k + 1;
    }
    Some(FrameLayout { total, frames, centers })
}

/// Laying out more frames is possible only where laying out fewer is.
proof fn lemma_layout_fits_prefix(hs: Seq<SlpShapeHeader>, k: int, n: int)
    requires
        k <= n,
    ensures
        layout_fits(hs, n) ==> layout_fits(hs, k),
    decreases n - k,
{
    if k < n {
        lemma_layout_fits_prefix(hs, k, n - 1);
    }
}

/// Whether growing `r` towards `other` stays within 32-bit numbers.
fn rect_extends(r: &Rect, other: &Rect) -> (b: bool)
    ensures
        b == extend_fits(*r, *other),
{
    let x: i64 = if r.x <= other.x { r.x as i64 } else { other.x as i64 };
    let y: i64 = if r.y <= other.y { r.y as i64 } else { other.y as i64 };
    let right = x + r.w as i64;
    let other_right = other.x as i64 + other.w as i64;
    let bottom = y + r.h as i64;
    let other_bottom = other.y as i64 + other.h as i64;
    let far_x = if right >= other_right { right } else { other_right };
    let far_y = if bottom >= other_bottom { bottom } else { other_bottom };
    let lo: i64 = i32::MIN as i64;
    let hi: i64 = i32::MAX as i64;
    lo <= right && right <= hi && lo <= other_right && other_right <= hi && lo <= bottom && bottom <= hi
        && lo <= other_bottom && other_bottom <= hi && lo <= far_x - x && far_x - x <= hi && lo <= far_y - y
        && far_y - y <= hi
}

/// Where a frame is drawn so that its center lies at `position`: its place
/// in the texture moved by `position` less the center; `None` when that
/// would not be a 32-bit position.
pub fn place_frame(src: Rect, center: Point, position: Point) -> (r: Option<Rect>)
    ensures
        match r {
            Some(dst) => dst == (Rect { x: (src.x + position.x - center.x) as i32, y: (src.y + position.y - center.y) as i32, ..src })
                && i32::MIN <= src.x + position.x <= i32::MAX && i32::MIN <= src.y + position.y <= i32::MAX
                && center.x != i32::MIN && center.y != i32::MIN
                && i32::MIN <= src.x + position.x - center.x <= i32::MAX
                && i32::MIN <= src.y + position.y - center.y <= i32::MAX,
            None => !(i32::MIN <= src.x + position.x <= i32::MAX && i32::MIN <= src.y + position.y <= i32::MAX
                && center.x != i32::MIN && center.y != i32::MIN
                && i32::MIN <= src.x + position.x - center.x <= i32::MAX
                && i32::MIN <= src.y + position.y - center.y <= i32::MAX),
        },
{
    let mut dst = src;
    let x1 = src.x as i64 + position.x as i64;
    let y1 = src.y as i64 + position.y as i64;
    if x1 < i32::MIN as i64 || x1 > i32::MAX as i64 || y1 < i32::MIN as i64 || y1 > i32::MAX as i64 {
        return None;
    }
    dst.translate(position.x, position.y);
    if center.x == i32::MIN || center.y == i32::MIN {
        return None;
    }
    let x2 = dst.x as i64 - center.x as i64;
    let y2 = dst.y as i64 - center.y as i64;
    if x2 < i32::MIN as i64 || x2 > i32::MAX as i64 || y2 < i32::MIN as i64 || y2 > i32::MAX as i64 {
        return None;
    }
    dst.translate(-center.x, -center.y);
    Some(dst)
}

} // verus!
