//! The terrain block: map and tile dimensions, the terrains and their borders.

use vstd::prelude::*;
use crate::layout::{fields_read, num, repeat, text, values_view, num_at, text_at, push_repeat, Field, FieldValue, Value};

use super::{read_values, EmpiresDbError};

verus! {

/// The number of tile types.
pub const TILE_TYPE_COUNT: usize = 19;

/// The number of units that a terrain can hold.
pub const MAX_TERRAIN_UNITS: usize = 30;

/// The graphic of a terrain for one tile type.
#[derive(Default, Debug, Clone, Copy, PartialEq, Eq)]
pub struct TerrainFrameData {
    pub frame_count: i16,
    pub angle_count: i16,
    pub shape_id: i16,
}

/// A border drawn between terrains. Float values are kept as their raw bits.
#[derive(Default, Debug)]
pub struct TerrainBorder {
    pub enabled: bool,
    pub random: i8,
    pub name: String,
    pub short_name: String,
    pub slp_id: i32,
    pub sound_id: i32,
    pub colors: [u8; 3],
    pub animated: bool,
    pub animation_frames: i16,
    pub pause_frames: i16,
    pub frame_interval: u32,
    pub pause_between_loops: u32,
    pub frame: i16,
    pub draw_frame: i16,
    pub animate_last: u32,
    pub frame_changed: i8,
    pub drawn: i8,
    pub borders: Vec<Vec<TerrainFrameData>>,
    pub draw_tile: i16,
    pub underlay_terrain: i16,
    pub border_style: i16,
}

/// A unit that a terrain places.
#[derive(Default, Debug, Clone, Copy, PartialEq, Eq)]
pub struct TerrainUnit {
    pub id: i16,
    pub density: i16,
    pub priority: i8,
}

/// A terrain. Float values are kept as their raw bits.
#[derive(Default, Debug)]
pub struct Terrain {
    pub enabled: bool,
    pub random: i8,
    pub name: String,
    pub short_name: String,
    pub slp_id: i32,
    pub sound_id: i32,
    pub colors: [u8; 3],
    pub cliff_colors: [u8; 2],
    pub passable_terrain: i8,
    pub impassable_terrain: i8,
    pub animated: bool,
    pub animation_frames: i16,
    pub pause_frames: i16,
    pub frame_interval: u32,
    pub pause_between_loops: u32,
    pub frame: i16,
    pub draw_frame: i16,
    pub animate_last: u32,
    pub frame_changed: i8,
    pub drawn: i8,
    pub elevation_graphics: Vec<TerrainFrameData>,
    pub terrain_to_draw: i16,
    pub terrain_width: i16,
    pub terrain_height: i16,
    pub terrain_borders: Vec<i16>,
    pub terrain_units: Vec<TerrainUnit>,
}

/// The size of a tile type.
#[derive(Default, Debug, Clone, Copy, PartialEq, Eq)]
pub struct TileSize {
    pub width: i16,
    pub height: i16,
    pub delta_y: i16,
}

/// The terrain block.
#[derive(Default, Debug)]
pub struct TerrainBlock {
    pub map_pointer: i32,
    pub map_width: i32,
    pub map_height: i32,
    pub world_width: i32,
    pub world_height: i32,
    pub tile_sizes: Vec<TileSize>,
    pub terrains: Vec<Terrain>,
    pub terrain_borders: Vec<TerrainBorder>,
    pub terrains_used: u16,
    pub borders_used: u16,
    pub max_terrain: i16,
    pub tile_width: i16,
    pub tile_height: i16,
    pub tile_half_height: i16,
    pub tile_half_width: i16,
    pub elevation_height: i16,
    pub current_row: i16,
    pub current_col: i16,
    pub block_begin_row: i16,
    pub block_end_row: i16,
    pub block_begin_col: i16,
    pub block_end_col: i16,
    pub any_frame_change: i8,
    pub map_visible: bool,
    pub fog: bool,
}

/// Three 16-bit values: the frame data of a tile type, or a tile size.
pub open spec fn triple_fields() -> Seq<Field> {
    seq![Field::I16, Field::I16, Field::I16]
}

/// The frame data whose values start at `k`.
pub open spec fn frame_at(vs: Seq<FieldValue>, k: int) -> TerrainFrameData {
    TerrainFrameData { frame_count: num(vs, k) as i16, angle_count: num(vs, k + 1) as i16, shape_id: num(vs, k + 2) as i16 }
}

/// The fields that the terrains and their borders open with: enabled, random,
/// name, short name, SLP id, an unknown word and the sound id.
pub open spec fn common_fields() -> Seq<Field> {
    seq![Field::U8, Field::I8, Field::Text(13), Field::Text(13), Field::I32, Field::U32, Field::I32]
}

/// The animation fields that follow the colors: animated, animation frames,
/// pause frames, frame interval, pause between loops, frame, draw frame,
/// animate last, frame changed, drawn.
pub open spec fn animation_fields() -> Seq<Field> {
    seq![Field::U8, Field::I16, Field::I16, Field::F32, Field::F32, Field::I16, Field::I16, Field::F32, Field::I8, Field::I8]
}

/// The fields of a terrain up to its count of units used: the common
/// fields, three colors, two cliff colors, passable and impassable terrain,
/// the animation fields, the graphics of the 19 tile types, terrain to draw,
/// width and height, 32 borders, and 30 unit ids, densities and priorities.
pub open spec fn terrain_fields() -> Seq<Field> {
    common_fields() + seq![Field::U8, Field::U8, Field::U8, Field::U8, Field::U8, Field::I8, Field::I8]
        + animation_fields() + repeat(triple_fields(), 19) + triple_fields() + repeat(seq![Field::I16], 32)
        + repeat(seq![Field::I16], 30) + repeat(seq![Field::I16], 30) + repeat(seq![Field::I8], 30)
        + seq![Field::I16]
}

/// A terrain at `p`: its values and where it ends. More than 30 units used
/// (or a negative count) makes the file bad.
pub open spec fn terrain_read(d: Seq<u8>, p: int) -> Result<(Seq<FieldValue>, int), EmpiresDbError> {
    match fields_read(d, p, terrain_fields()) {
        Err(e) => Err(EmpiresDbError::ReadError(e)),
        Ok((vs, q)) => if num(vs, 206) < 0 || num(vs, 206) > 30 {
            Err(EmpiresDbError::BadFile("invalid number of terrain units used"))
        } else {
            match fields_read(d, q, seq![Field::U16]) {
                Err(e) => Err(EmpiresDbError::ReadError(e)),
                Ok((_, e)) => Ok((vs, e)),
            }
        },
    }
}

/// A terrain as its values give it.
pub open spec fn terrain_matches(t: Terrain, vs: Seq<FieldValue>) -> bool {
    &&& t.enabled == (num(vs, 0) != 0) && t.random == num(vs, 1) as i8
    &&& t.name@ == text(vs, 2) && t.short_name@ == text(vs, 3)
    &&& t.slp_id == num(vs, 4) as i32 && t.sound_id == num(vs, 6) as i32
    &&& t.colors[0] == num(vs, 7) as u8 && t.colors[1] == num(vs, 8) as u8 && t.colors[2] == num(vs, 9) as u8
    &&& t.cliff_colors[0] == num(vs, 10) as u8 && t.cliff_colors[1] == num(vs, 11) as u8
    &&& t.passable_terrain == num(vs, 12) as i8 && t.impassable_terrain == num(vs, 13) as i8
    &&& t.animated == (num(vs, 14) != 0) && t.animation_frames == num(vs, 15) as i16
    &&& t.pause_frames == num(vs, 16) as i16 && t.frame_interval == num(vs, 17) as u32
    &&& t.pause_between_loops == num(vs, 18) as u32 && t.frame == num(vs, 19) as i16
    &&& t.draw_frame == num(vs, 20) as i16 && t.animate_last == num(vs, 21) as u32
    &&& t.frame_changed == num(vs, 22) as i8 && t.drawn == num(vs, 23) as i8
    &&& t.elevation_graphics@.len() == 19
    &&& forall|i: int| 0 <= i < 19 ==> #[trigger] t.elevation_graphics@[i] == frame_at(vs, 24 + 3 * i)
    &&& t.terrain_to_draw == num(vs, 81) as i16 && t.terrain_width == num(vs, 82) as i16
    &&& t.terrain_height == num(vs, 83) as i16
    &&& t.terrain_borders@.len() == 32
    &&& forall|i: int| 0 <= i < 32 ==> #[trigger] t.terrain_borders@[i] == num(vs, 84 + i) as i16
    &&& t.terrain_units@.len() == num(vs, 206)
    &&& forall|i: int| 0 <= i < t.terrain_units@.len() ==> #[trigger] t.terrain_units@[i] == (TerrainUnit {
        id: num(vs, 116 + i) as i16,
        density: num(vs, 146 + i) as i16,
        priority: num(vs, 176 + i) as i8,
    })
}

/// The fields of a border: the common fields, three colors, the animation
/// fields, 19 times 12 frame data, draw tile, underlay terrain, border style.
pub open spec fn border_fields() -> Seq<Field> {
    common_fields() + seq![Field::U8, Field::U8, Field::U8] + animation_fields() + repeat(triple_fields(), 228)
        + triple_fields()
}

/// A border as its values give it.
pub open spec fn border_matches(b: TerrainBorder, vs: Seq<FieldValue>) -> bool {
    &&& b.enabled == (num(vs, 0) != 0) && b.random == num(vs, 1) as i8
    &&& b.name@ == text(vs, 2) && b.short_name@ == text(vs, 3)
    &&& b.slp_id == num(vs, 4) as i32 && b.sound_id == num(vs, 6) as i32
    &&& b.colors[0] == num(vs, 7) as u8 && b.colors[1] == num(vs, 8) as u8 && b.colors[2] == num(vs, 9) as u8
    &&& b.animated == (num(vs, 10) != 0) && b.animation_frames == num(vs, 11) as i16
    &&& b.pause_frames == num(vs, 12) as i16 && b.frame_interval == num(vs, 13) as u32
    &&& b.pause_between_loops == num(vs, 14) as u32 && b.frame == num(vs, 15) as i16
    &&& b.draw_frame == num(vs, 16) as i16 && b.animate_last == num(vs, 17) as u32
    &&& b.frame_changed == num(vs, 18) as i8 && b.drawn == num(vs, 19) as i8
    &&& b.borders@.len() == 19
    &&& forall|i: int| 0 <= i < 19 ==> (#[trigger] b.borders@[i])@.len() == 12
    &&& forall|i: int, j: int| 0 <= i < 19 && 0 <= j < 12 ==> #[trigger] b.borders@[i]@[j] == frame_at(vs, 20 + 3 * (12 * i + j))
    &&& b.draw_tile == num(vs, 704) as i16 && b.underlay_terrain == num(vs, 705) as i16
    &&& b.border_style == num(vs, 706) as i16
}

/// `n` terrains one after another from `p`.
pub open spec fn terrains_from(d: Seq<u8>, p: int, n: nat) -> Result<(Seq<Seq<FieldValue>>, int), EmpiresDbError>
    decreases n,
{
    if n == 0 {
        Ok((Seq::empty(), p))
    } else {
        match terrains_from(d, p, (n - 1) as nat) {
            Err(e) => Err(e),
            Ok((ts, q)) => match terrain_read(d, q) {
                Err(e) => Err(e),
                Ok((vs, e)) => Ok((ts.push(vs), e)),
            },
        }
    }
}

/// `n` borders one after another from `p`.
pub open spec fn borders_from(d: Seq<u8>, p: int, n: nat) -> Result<(Seq<Seq<FieldValue>>, int), EmpiresDbError>
    decreases n,
{
    if n == 0 {
        Ok((Seq::empty(), p))
    } else {
        match borders_from(d, p, (n - 1) as nat) {
            Err(e) => Err(e),
            Ok((bs, q)) => match fields_read(d, q, border_fields()) {
                Err(e) => Err(EmpiresDbError::ReadError(e)),
                Ok((vs, e)) => Ok((bs.push(vs), e)),
            },
        }
    }
}

/// The fields that open the block: map pointer, an unknown value, map and
/// world size, the sizes of the 19 tile types and an unknown word.
pub open spec fn block_head_fields() -> Seq<Field> {
    seq![Field::I32, Field::I32, Field::I32, Field::I32, Field::I32, Field::I32] + repeat(triple_fields(), 19)
        + seq![Field::U16]
}

/// The fields that close the block: an unknown pointer, terrains and borders
/// used, twelve 16-bit values from the maximum terrain to the block's end
/// column, two unknown pointers, frame change, visibility, fog and 25 unknown bytes.
pub open spec fn block_tail_fields() -> Seq<Field> {
    seq![
        Field::I32, Field::U16, Field::U16, Field::I16, Field::I16, Field::I16, Field::I16, Field::I16,
        Field::I16, Field::I16, Field::I16, Field::I16, Field::I16, Field::I16, Field::I16, Field::U32,
        Field::U32, Field::I8, Field::U8, Field::U8, Field::Skip(25),
    ]
}

/// The values of the terrain block.
pub struct BlockValues {
    pub head: Seq<FieldValue>,
    pub terrains: Seq<Seq<FieldValue>>,
    pub borders: Seq<Seq<FieldValue>>,
    pub tail: Seq<FieldValue>,
    pub end: int,
}

/// The terrain block at `p`: its opening fields, 32 terrains, 16 borders and its closing fields.
pub open spec fn block_read(d: Seq<u8>, p: int) -> Result<BlockValues, EmpiresDbError> {
    match fields_read(d, p, block_head_fields()) {
        Err(e) => Err(EmpiresDbError::ReadError(e)),
        Ok((head, q1)) => match terrains_from(d, q1, 32) {
            Err(e) => Err(e),
            Ok((terrains, q2)) => match borders_from(d, q2, 16) {
                Err(e) => Err(e),
                Ok((borders, q3)) => match fields_read(d, q3, block_tail_fields()) {
                    Err(e) => Err(EmpiresDbError::ReadError(e)),
                    Ok((tail, e)) => Ok(BlockValues { head, terrains, borders, tail, end: e }),
                },
            },
        },
    }
}

/// The block as its values give it.
pub open spec fn block_matches(b: TerrainBlock, v: BlockValues) -> bool {
    let h = v.head;
    let t = v.tail;
    &&& b.map_pointer == num(h, 0) as i32 && b.map_width == num(h, 2) as i32 && b.map_height == num(h, 3) as i32
    &&& b.world_width == num(h, 4) as i32 && b.world_height == num(h, 5) as i32
    &&& b.tile_sizes@.len() == 19
    &&& forall|i: int| 0 <= i < 19 ==> #[trigger] b.tile_sizes@[i] == (TileSize {
        width: num(h, 6 + 3 * i) as i16,
        height: num(h, 7 + 3 * i) as i16,
        delta_y: num(h, 8 + 3 * i) as i16,
    })
    &&& b.terrains@.len() == 32
    &&& forall|i: int| 0 <= i < 32 ==> terrain_matches(#[trigger] b.terrains@[i], v.terrains[i])
    &&& b.terrain_borders@.len() == 16
    &&& forall|i: int| 0 <= i < 16 ==> border_matches(#[trigger] b.terrain_borders@[i], v.borders[i])
    &&& b.terrains_used == num(t, 1) as u16 && b.borders_used == num(t, 2) as u16
    &&& b.max_terrain == num(t, 3) as i16 && b.tile_width == num(t, 4) as i16
    &&& b.tile_height == num(t, 5) as i16 && b.tile_half_height == num(t, 6) as i16
    &&& b.tile_half_width == num(t, 7) as i16 && b.elevation_height == num(t, 8) as i16
    &&& b.current_row == num(t, 9) as i16 && b.current_col == num(t, 10) as i16
    &&& b.block_begin_row == num(t, 11) as i16 && b.block_end_row == num(t, 12) as i16
    &&& b.block_begin_col == num(t, 13) as i16 && b.block_end_col == num(t, 14) as i16
    &&& b.any_frame_change == num(t, 17) as i8 && b.map_visible == (num(t, 18) != 0) && b.fog == (num(t, 19) != 0)
}

/// The frame data whose values start at `k`.
fn read_frame_data(vals: &Vec<Value>, k: usize) -> (r: TerrainFrameData)
    requires
        k + 2 < vals@.len(),
    ensures
        r == frame_at(values_view(vals@), k as int),
{
    let _n = vals.len();
    TerrainFrameData {
        frame_count: #[verifier::truncate] (num_at(vals, k) as i16),
        angle_count: #[verifier::truncate] (num_at(vals, k + 1) as i16),
        shape_id: #[verifier::truncate] (num_at(vals, k + 2) as i16),
    }
}

/// `count` frame data whose values start at `start`, three values each.
fn frames_from(vals: &Vec<Value>, start: usize, count: usize) -> (r: Vec<TerrainFrameData>)
    requires
        start + 3 * count <= vals@.len(),
    ensures
        r@.len() == count,
        forall|i: int| 0 <= i < count ==> #[trigger] r@[i] == frame_at(values_view(vals@), start + 3 * i),
{
    let _n = vals.len();
    let mut out: Vec<TerrainFrameData> = Vec::new();
    let mut i: usize = 0;
    while i < count
        invariant
            i <= count,
            start + 3 * count <= vals@.len() <= usize::MAX,
            out@.len() == i,
            forall|j: int| 0 <= j < i ==> #[trigger] out@[j] == frame_at(values_view(vals@), start + 3 * j),
        decreases count - i,
    {
        out.push(read_frame_data(vals, start + 3 * i));
        i = i + 1;
    }
    out
}

proof fn lemma_terrain_fields_len()
    ensures
        terrain_fields().len() == 207,
{
    crate::layout::lemma_repeat_len(triple_fields(), 19);
    crate::layout::lemma_repeat_len(seq![Field::I16], 32);
    crate::layout::lemma_repeat_len(seq![Field::I16], 30);
    crate::layout::lemma_repeat_len(seq![Field::I8], 30);
}

fn build_terrain_fields() -> (r: Vec<Field>)
    ensures
        r@ == terrain_fields(),
{
    let mut v: Vec<Field> = Vec::new();
    let head = [
        Field::U8, Field::I8, Field::Text(13), Field::Text(13), Field::I32, Field::U32, Field::I32,
        Field::U8, Field::U8, Field::U8, Field::U8, Field::U8, Field::I8, Field::I8,
        Field::U8, Field::I16, Field::I16, Field::F32, Field::F32, Field::I16, Field::I16, Field::F32, Field::I8, Field::I8,
    ];
    let triple = [Field::I16, Field::I16, Field::I16];
    let one_i16 = [Field::I16];
    let one_i8 = [Field::I8];
    push_repeat(&mut v, &head, 1);
    push_repeat(&mut v, &triple, 19);
    push_repeat(&mut v, &triple, 1);
    push_repeat(&mut v, &one_i16, 32);
    push_repeat(&mut v, &one_i16, 30);
    push_repeat(&mut v, &one_i16, 30);
    push_repeat(&mut v, &one_i8, 30);
    push_repeat(&mut v, &one_i16, 1);
    proof {
        assert(repeat(head@, 1) == head@) by {
            assert(repeat(head@, 0) == Seq::<Field>::empty());
            assert(Seq::<Field>::empty() + head@ == head@);
        }
        assert(repeat(triple@, 1) == triple@) by {
            assert(repeat(triple@, 0) == Seq::<Field>::empty());
            assert(Seq::<Field>::empty() + triple@ == triple@);
        }
        assert(repeat(one_i16@, 1) == one_i16@) by {
            assert(repeat(one_i16@, 0) == Seq::<Field>::empty());
            assert(Seq::<Field>::empty() + one_i16@ == one_i16@);
        }
        assert(head@ == common_fields() + seq![Field::U8, Field::U8, Field::U8, Field::U8, Field::U8, Field::I8, Field::I8] + animation_fields());
        assert(triple@ == triple_fields());
        assert(one_i16@ == seq![Field::I16]);
        assert(one_i8@ == seq![Field::I8]);
    }
    v
}

/// Reads one terrain.
fn read_terrain(data: &[u8], pos: &mut u64) -> (r: Result<Terrain, EmpiresDbError>)
    ensures
        match terrain_read(data@, *old(pos) as int) {
            Ok((vs, e)) => r matches Ok(t) && terrain_matches(t, vs) && *final(pos) == e,
            Err(e) => r == Err::<Terrain, EmpiresDbError>(e),
        },
{
    let layout = build_terrain_fields();
    proof {
        lemma_terrain_fields_len();
    }
    let ghost p0 = *pos as int;
    let v = read_values(data, pos, layout.as_slice())?;
    let ghost vs = values_view(v@);
    let used = num_at(&v, 206);
    if used < 0 || used > 30 {
        return Err(EmpiresDbError::BadFile("invalid number of terrain units used"));
    }
    let mut units: Vec<TerrainUnit> = Vec::new();
    let mut i: usize = 0;
    while i < used as usize
        invariant
            i <= used <= 30,
            v@.len() == 207,
            vs == values_view(v@),
            units@.len() == i,
            forall|j: int| 0 <= j < i ==> #[trigger] units@[j] == (TerrainUnit {
                id: num(vs, 116 + j) as i16,
                density: num(vs, 146 + j) as i16,
                priority: num(vs, 176 + j) as i8,
            }),
        decreases used - i,
    {
        units.push(TerrainUnit {
            id: #[verifier::truncate] (num_at(&v, 116 + i) as i16),
            density: #[verifier::truncate] (num_at(&v, 146 + i) as i16),
            priority: #[verifier::truncate] (num_at(&v, 176 + i) as i8),
        });
        i = i + 1;
    }
    let mut borders: Vec<i16> = Vec::new();
    let mut k: usize = 0;
    while k < 32
        invariant
            k <= 32,
            v@.len() == 207,
            vs == values_view(v@),
            borders@.len() == k,
            forall|j: int| 0 <= j < k ==> #[trigger] borders@[j] == num(vs, 84 + j) as i16,
        decreases 32 - k,
    {
        borders.push(#[verifier::truncate] (num_at(&v, 84 + k) as i16));
        k = k + 1;
    }
    let unknown = [Field::U16];
    let ghost q = *pos as int;
    match read_values(data, pos, &unknown) {
        Ok(_) => {},
        Err(e) => {
            assert(unknown@ == seq![Field::U16]);
            return Err(e);
        },
    }
    assert(unknown@ == seq![Field::U16]);
    let t = Terrain {
        enabled: num_at(&v, 0) != 0,
        random: #[verifier::truncate] (num_at(&v, 1) as i8),
        name: text_at(&v, 2),
        short_name: text_at(&v, 3),
        slp_id: #[verifier::truncate] (num_at(&v, 4) as i32),
        sound_id: #[verifier::truncate] (num_at(&v, 6) as i32),
        colors: [
            #[verifier::truncate] (num_at(&v, 7) as u8),
            #[verifier::truncate] (num_at(&v, 8) as u8),
            #[verifier::truncate] (num_at(&v, 9) as u8),
        ],
        cliff_colors: [#[verifier::truncate] (num_at(&v, 10) as u8), #[verifier::truncate] (num_at(&v, 11) as u8)],
        passable_terrain: #[verifier::truncate] (num_at(&v, 12) as i8),
        impassable_terrain: #[verifier::truncate] (num_at(&v, 13) as i8),
        animated: num_at(&v, 14) != 0,
        animation_frames: #[verifier::truncate] (num_at(&v, 15) as i16),
        pause_frames: #[verifier::truncate] (num_at(&v, 16) as i16),
        frame_interval: #[verifier::truncate] (num_at(&v, 17) as u32),
        pause_between_loops: #[verifier::truncate] (num_at(&v, 18) as u32),
        frame: #[verifier::truncate] (num_at(&v, 19) as i16),
        draw_frame: #[verifier::truncate] (num_at(&v, 20) as i16),
        animate_last: #[verifier::truncate] (num_at(&v, 21) as u32),
        frame_changed: #[verifier::truncate] (num_at(&v, 22) as i8),
        drawn: #[verifier::truncate] (num_at(&v, 23) as i8),
        elevation_graphics: frames_from(&v, 24, 19),
        terrain_to_draw: #[verifier::truncate] (num_at(&v, 81) as i16),
        terrain_width: #[verifier::truncate] (num_at(&v, 82) as i16),
        terrain_height: #[verifier::truncate] (num_at(&v, 83) as i16),
        terrain_borders: borders,
        terrain_units: units,
    };
    Ok(t)
}


proof fn lemma_border_fields_len()
    ensures
        border_fields().len() == 707,
{
    crate::layout::lemma_repeat_len(triple_fields(), 228);
}

fn build_border_fields() -> (r: Vec<Field>)
    ensures
        r@ == border_fields(),
{
    let mut v: Vec<Field> = Vec::new();
    let head = [
        Field::U8, Field::I8, Field::Text(13), Field::Text(13), Field::I32, Field::U32, Field::I32,
        Field::U8, Field::U8, Field::U8,
        Field::U8, Field::I16, Field::I16, Field::F32, Field::F32, Field::I16, Field::I16, Field::F32, Field::I8, Field::I8,
    ];
    let triple = [Field::I16, Field::I16, Field::I16];
    push_repeat(&mut v, &head, 1);
    push_repeat(&mut v, &triple, 228);
    push_repeat(&mut v, &triple, 1);
    proof {
        assert(repeat(head@, 1) == head@) by {
            assert(repeat(head@, 0) == Seq::<Field>::empty());
            assert(Seq::<Field>::empty() + head@ == head@);
        }
        assert(repeat(triple@, 1) == triple@) by {
            assert(repeat(triple@, 0) == Seq::<Field>::empty());
            assert(Seq::<Field>::empty() + triple@ == triple@);
        }
        assert(head@ == common_fields() + seq![Field::U8, Field::U8, Field::U8] + animation_fields());
        assert(triple@ == triple_fields());
    }
    v
}

/// Reads one terrain border.
fn read_terrain_border(data: &[u8], pos: &mut u64) -> (r: Result<TerrainBorder, EmpiresDbError>)
    ensures
        match fields_read(data@, *old(pos) as int, border_fields()) {
            Ok((vs, e)) => r matches Ok(b) && border_matches(b, vs) && *final(pos) == e,
            Err(e) => r == Err::<TerrainBorder, EmpiresDbError>(EmpiresDbError::ReadError(e)),
        },
{
    let layout = build_border_fields();
    proof {
        lemma_border_fields_len();
    }
    let v = read_values(data, pos, layout.as_slice())?;
    let ghost vs = values_view(v@);
    let mut borders: Vec<Vec<TerrainFrameData>> = Vec::new();
    let mut i: usize = 0;
    while i < 19
        invariant
            i <= 19,
            v@.len() == 707,
            vs == values_view(v@),
            borders@.len() == i,
            forall|a: int| 0 <= a < i ==> (#[trigger] borders@[a])@.len() == 12,
            forall|a: int, b: int| 0 <= a < i && 0 <= b < 12 ==> #[trigger] borders@[a]@[b] == frame_at(vs, 20 + 3 * (12 * a + b)),
        decreases 19 - i,
    {
        let row = frames_from(&v, 20 + 36 * i, 12);
        assert(forall|b: int| 0 <= b < 12 ==> row@[b] == frame_at(vs, 20 + 3 * (12 * i + b)));
        borders.push(row);
        i = i + 1;
    }
    Ok(TerrainBorder {
        enabled: num_at(&v, 0) != 0,
        random: #[verifier::truncate] (num_at(&v, 1) as i8),
        name: text_at(&v, 2),
        short_name: text_at(&v, 3),
        slp_id: #[verifier::truncate] (num_at(&v, 4) as i32),
        sound_id: #[verifier::truncate] (num_at(&v, 6) as i32),
        colors: [
            #[verifier::truncate] (num_at(&v, 7) as u8),
            #[verifier::truncate] (num_at(&v, 8) as u8),
            #[verifier::truncate] (num_at(&v, 9) as u8),
        ],
        animated: num_at(&v, 10) != 0,
        animation_frames: #[verifier::truncate] (num_at(&v, 11) as i16),
        pause_frames: #[verifier::truncate] (num_at(&v, 12) as i16),
        frame_interval: #[verifier::truncate] (num_at(&v, 13) as u32),
        pause_between_loops: #[verifier::truncate] (num_at(&v, 14) as u32),
        frame: #[verifier::truncate] (num_at(&v, 15) as i16),
        draw_frame: #[verifier::truncate] (num_at(&v, 16) as i16),
        animate_last: #[verifier::truncate] (num_at(&v, 17) as u32),
        frame_changed: #[verifier::truncate] (num_at(&v, 18) as i8),
        drawn: #[verifier::truncate] (num_at(&v, 19) as i8),
        borders,
        draw_tile: #[verifier::truncate] (num_at(&v, 704) as i16),
        underlay_terrain: #[verifier::truncate] (num_at(&v, 705) as i16),
        border_style: #[verifier::truncate] (num_at(&v, 706) as i16),
    })
}

/// The two blocks agree on everything but their tile sizes, terrains and borders.
pub open spec fn same_scalars(a: TerrainBlock, b: TerrainBlock) -> bool {
    &&& a.map_pointer == b.map_pointer && a.map_width == b.map_width && a.map_height == b.map_height
    &&& a.world_width == b.world_width && a.world_height == b.world_height
}

proof fn lemma_terrains_error_stays(d: Seq<u8>, p: int, i: nat, n: nat)
    requires
        i <= n,
        terrains_from(d, p, i) is Err,
    ensures
        terrains_from(d, p, n) == terrains_from(d, p, i),
    decreases n - i,
{
    if i < n {
        lemma_terrains_error_stays(d, p, i + 1, n);
    }
}

proof fn lemma_borders_error_stays(d: Seq<u8>, p: int, i: nat, n: nat)
    requires
        i <= n,
        borders_from(d, p, i) is Err,
    ensures
        borders_from(d, p, n) == borders_from(d, p, i),
    decreases n - i,
{
    if i < n {
        lemma_borders_error_stays(d, p, i + 1, n);
    }
}

/// Reads the 32 terrains, appending them to the block.
fn read_terrains(terrain_block: &mut TerrainBlock, data: &[u8], pos: &mut u64) -> (r: Result<(), EmpiresDbError>)
    requires
        old(terrain_block).terrains@.len() == 0,
    ensures
        match terrains_from(data@, *old(pos) as int, 32) {
            Ok((ts, e)) => r is Ok && *final(pos) == e && final(terrain_block).terrains@.len() == 32
                && forall|i: int| 0 <= i < 32 ==> terrain_matches(#[trigger] final(terrain_block).terrains@[i], ts[i]),
            Err(e) => r == Err::<(), EmpiresDbError>(e),
        },
        final(terrain_block).tile_sizes@ == old(terrain_block).tile_sizes@,
        final(terrain_block).terrain_borders@ == old(terrain_block).terrain_borders@,
        same_scalars(*final(terrain_block), *old(terrain_block)),
{
    let ghost p0 = *pos as int;
    let ghost mut ts: Seq<Seq<FieldValue>> = Seq::empty();
    let mut i: usize = 0;
    while i < 32
        invariant
            i <= 32,
            p0 == *old(pos),
            terrains_from(data@, p0, i as nat) == Ok::<(Seq<Seq<FieldValue>>, int), EmpiresDbError>((ts, *pos as int)),
            ts.len() == i,
            terrain_block.terrains@.len() == i,
            forall|j: int| 0 <= j < i ==> terrain_matches(#[trigger] terrain_block.terrains@[j], ts[j]),
            terrain_block.tile_sizes@ == old(terrain_block).tile_sizes@,
            terrain_block.terrain_borders@ == old(terrain_block).terrain_borders@,
            same_scalars(*terrain_block, *old(terrain_block)),
        decreases 32 - i,
    {
        let ghost q = *pos as int;
        match read_terrain(data, pos) {
            Ok(t) => {
                proof {
                    ts = ts.push(terrain_read(data@, q)->Ok_0.0);
                }
                terrain_block.terrains.push(t);
            },
            Err(e) => {
                proof {
                    lemma_terrains_error_stays(data@, p0, (i + 1) as nat, 32);
                }
                return Err(e);
            },
        }
        i = i + 1;
    }
    Ok(())
}

/// Reads the 16 terrain borders, appending them to the block.
fn read_terrain_borders(terrain_block: &mut TerrainBlock, data: &[u8], pos: &mut u64) -> (r: Result<(), EmpiresDbError>)
    requires
        old(terrain_block).terrain_borders@.len() == 0,
    ensures
        match borders_from(data@, *old(pos) as int, 16) {
            Ok((bs, e)) => r is Ok && *final(pos) == e && final(terrain_block).terrain_borders@.len() == 16
                && forall|i: int| 0 <= i < 16 ==> border_matches(#[trigger] final(terrain_block).terrain_borders@[i], bs[i]),
            Err(e) => r == Err::<(), EmpiresDbError>(e),
        },
        final(terrain_block).tile_sizes@ == old(terrain_block).tile_sizes@,
        final(terrain_block).terrains@ == old(terrain_block).terrains@,
        same_scalars(*final(terrain_block), *old(terrain_block)),
{
    let ghost p0 = *pos as int;
    let ghost mut bs: Seq<Seq<FieldValue>> = Seq::empty();
    let mut i: usize = 0;
    while i < 16
        invariant
            i <= 16,
            p0 == *old(pos),
            borders_from(data@, p0, i as nat) == Ok::<(Seq<Seq<FieldValue>>, int), EmpiresDbError>((bs, *pos as int)),
            bs.len() == i,
            terrain_block.terrain_borders@.len() == i,
            forall|j: int| 0 <= j < i ==> border_matches(#[trigger] terrain_block.terrain_borders@[j], bs[j]),
            terrain_block.tile_sizes@ == old(terrain_block).tile_sizes@,
            terrain_block.terrains@ == old(terrain_block).terrains@,
            same_scalars(*terrain_block, *old(terrain_block)),
        decreases 16 - i,
    {
        let ghost q = *pos as int;
        match read_terrain_border(data, pos) {
            Ok(b) => {
                proof {
                    bs = bs.push(fields_read(data@, q, border_fields())->Ok_0.0);
                }
                terrain_block.terrain_borders.push(b);
            },
            Err(e) => {
                proof {
                    lemma_borders_error_stays(data@, p0, (i + 1) as nat, 16);
                }
                return Err(e);
            },
        }
        i = i + 1;
    }
    Ok(())
}

/// Takes the 19 tile sizes from the values of the block's opening fields.
fn read_tile_sizes(terrain_block: &mut TerrainBlock, vals: &Vec<Value>)
    requires
        vals@.len() == 64,
        old(terrain_block).tile_sizes@.len() == 0,
    ensures
        final(terrain_block).tile_sizes@.len() == 19,
        forall|i: int| 0 <= i < 19 ==> #[trigger] final(terrain_block).tile_sizes@[i] == (TileSize {
            width: num(values_view(vals@), 6 + 3 * i) as i16,
            height: num(values_view(vals@), 7 + 3 * i) as i16,
            delta_y: num(values_view(vals@), 8 + 3 * i) as i16,
        }),
        final(terrain_block).terrains@ == old(terrain_block).terrains@,
        final(terrain_block).terrain_borders@ == old(terrain_block).terrain_borders@,
        same_scalars(*final(terrain_block), *old(terrain_block)),
{
    let ghost vs = values_view(vals@);
    let mut i: usize = 0;
    while i < 19
        invariant
            i <= 19,
            vals@.len() == 64,
            vs == values_view(vals@),
            terrain_block.tile_sizes@.len() == i,
            forall|j: int| 0 <= j < i ==> #[trigger] terrain_block.tile_sizes@[j] == (TileSize {
                width: num(vs, 6 + 3 * j) as i16,
                height: num(vs, 7 + 3 * j) as i16,
                delta_y: num(vs, 8 + 3 * j) as i16,
            }),
            terrain_block.terrains@ == old(terrain_block).terrains@,
            terrain_block.terrain_borders@ == old(terrain_block).terrain_borders@,
            same_scalars(*terrain_block, *old(terrain_block)),
        decreases 19 - i,
    {
        let k = 6 + 3 * i;
        terrain_block.tile_sizes.push(TileSize {
            width: #[verifier::truncate] (num_at(vals, k) as i16),
            height: #[verifier::truncate] (num_at(vals, k + 1) as i16),
            delta_y: #[verifier::truncate] (num_at(vals, k + 2) as i16),
        });
        i = i + 1;
    }
}

/// Reads the terrain block.
pub fn read_terrain_block(data: &[u8], pos: &mut u64) -> (r: Result<TerrainBlock, EmpiresDbError>)
    ensures
        match block_read(data@, *old(pos) as int) {
            Ok(v) => r matches Ok(b) && block_matches(b, v) && *final(pos) == v.end,
            Err(e) => r == Err::<TerrainBlock, EmpiresDbError>(e),
        },
{
    let mut head_layout: Vec<Field> = Vec::new();
    let first = [Field::I32, Field::I32, Field::I32, Field::I32, Field::I32, Field::I32];
    let triple = [Field::I16, Field::I16, Field::I16];
    let last = [Field::U16];
    push_repeat(&mut head_layout, &first, 1);
    push_repeat(&mut head_layout, &triple, 19);
    push_repeat(&mut head_layout, &last, 1);
    proof {
        assert(repeat(first@, 1) == first@) by {
            assert(repeat(first@, 0) == Seq::<Field>::empty());
            assert(Seq::<Field>::empty() + first@ == first@);
        }
        assert(repeat(last@, 1) == last@) by {
            assert(repeat(last@, 0) == Seq::<Field>::empty());
            assert(Seq::<Field>::empty() + last@ == last@);
        }
        assert(triple@ == triple_fields());
        assert(head_layout@ == block_head_fields());
        crate::layout::lemma_repeat_len(triple_fields(), 19);
    }
    let head = read_values(data, pos, head_layout.as_slice())?;
    let mut terrain_block = TerrainBlock {
        map_pointer: #[verifier::truncate] (num_at(&head, 0) as i32),
        map_width: #[verifier::truncate] (num_at(&head, 2) as i32),
        map_height: #[verifier::truncate] (num_at(&head, 3) as i32),
        world_width: #[verifier::truncate] (num_at(&head, 4) as i32),
        world_height: #[verifier::truncate] (num_at(&head, 5) as i32),
        tile_sizes: Vec::new(),
        terrains: Vec::new(),
        terrain_borders: Vec::new(),
        terrains_used: 0,
        borders_used: 0,
        max_terrain: 0,
        tile_width: 0,
        tile_height: 0,
        tile_half_height: 0,
        tile_half_width: 0,
        elevation_height: 0,
        current_row: 0,
        current_col: 0,
        block_begin_row: 0,
        block_end_row: 0,
        block_begin_col: 0,
        block_end_col: 0,
        any_frame_change: 0,
        map_visible: false,
        fog: false,
    };
    read_tile_sizes(&mut terrain_block, &head);
    read_terrains(&mut terrain_block, data, pos)?;
    read_terrain_borders(&mut terrain_block, data, pos)?;
    let tail_layout = [
        Field::I32, Field::U16, Field::U16, Field::I16, Field::I16, Field::I16, Field::I16, Field::I16,
        Field::I16, Field::I16, Field::I16, Field::I16, Field::I16, Field::I16, Field::I16, Field::U32,
        Field::U32, Field::I8, Field::U8, Field::U8, Field::Skip(25),
    ];
    assert(tail_layout@ == block_tail_fields());
    let tail = read_values(data, pos, &tail_layout)?;
    terrain_block.terrains_used = #[verifier::truncate] (num_at(&tail, 1) as u16);
    terrain_block.borders_used = #[verifier::truncate] (num_at(&tail, 2) as u16);
    terrain_block.max_terrain = #[verifier::truncate] (num_at(&tail, 3) as i16);
    terrain_block.tile_width = #[verifier::truncate] (num_at(&tail, 4) as i16);
    terrain_block.tile_height = #[verifier::truncate] (num_at(&tail, 5) as i16);
    terrain_block.tile_half_height = #[verifier::truncate] (num_at(&tail, 6) as i16);
    terrain_block.tile_half_width = #[verifier::truncate] (num_at(&tail, 7) as i16);
    terrain_block.elevation_height = #[verifier::truncate] (num_at(&tail, 8) as i16);
    terrain_block.current_row = #[verifier::truncate] (num_at(&tail, 9) as i16);
    terrain_block.current_col = #[verifier::truncate] (num_at(&tail, 10) as i16);
    terrain_block.block_begin_row = #[verifier::truncate] (num_at(&tail, 11) as i16);
    terrain_block.block_end_row = #[verifier::truncate] (num_at(&tail, 12) as i16);
    terrain_block.block_begin_col = #[verifier::truncate] (num_at(&tail, 13) as i16);
    terrain_block.block_end_col = #[verifier::truncate] (num_at(&tail, 14) as i16);
    terrain_block.any_frame_change = #[verifier::truncate] (num_at(&tail, 17) as i8);
    terrain_block.map_visible = num_at(&tail, 18) != 0;
    terrain_block.fog = num_at(&tail, 19) != 0;
    Ok(terrain_block)
}

} // verus!
