//! The empires database (`empires.dat`): the game's units, graphics, sounds,
//! terrains, maps, ages, civilizations and research, stored as one
//! raw-deflate-compressed stream of little-endian records.

pub mod id;
pub mod sound;
pub mod player_color;
pub mod random_map;
pub mod graphics;
pub mod age;
pub mod terrain_block;
pub mod research;
pub mod terrain_restrictions;
pub mod database;

use vstd::prelude::*;
use crate::bytes::{available, decompress, raw_inflate, StreamError};
use crate::layout::{read_fields, Field, Value, fields_read, fits, values_view};
use crate::identifier::{index_of_restriction, AgeId, GraphicId, PlayerColorId, ResearchId, SoundGroupId, TerrainBorderId, TerrainId, UnitTerrainRestrictionId};

verus! {

/// What reading the database can fail with.
#[derive(Debug, Clone, Copy, PartialEq, Eq)]
pub enum EmpiresDbError {
    /// The data ended early, or held a text that is not UTF-8.
    ReadError(StreamError),
    /// The compressed stream is corrupt.
    CompressionError,
    /// The data breaks a rule of the format; the reason says which.
    BadFile(&'static str),
}

/// The parts of the database that the readers of this module fill.
#[derive(Default, Debug)]
pub struct EmpiresDb {
    pub terrain_restrictions: Vec<terrain_restrictions::TerrainRestriction>,
    pub player_colors: Vec<player_color::PlayerColor>,
    pub sound_effect_groups: Vec<sound::SoundEffectGroup>,
    pub graphics: Vec<graphics::Graphic>,
    pub terrain_block: terrain_block::TerrainBlock,
    pub random_maps: Vec<random_map::RandomMap>,
    pub ages: Vec<age::Age>,
    pub research: Vec<research::Research>,
}

/// The version that a database file must start with: "VER 3.7" and a zero byte.
pub open spec fn expected_version() -> Seq<u8> {
    seq![86u8, 69, 82, 32, 51, 46, 55, 0]
}

/// Checks the 8-byte version at the start of the (decompressed) data.
pub fn read_header(data: &[u8], pos: &mut u64) -> (r: Result<(), EmpiresDbError>)
    ensures
        !available(data@, *old(pos) as int, 8) ==> r == Err::<(), EmpiresDbError>(EmpiresDbError::ReadError(StreamError::UnexpectedEof)),
        available(data@, *old(pos) as int, 8) ==> {
            &&& *final(pos) == *old(pos) + 8
            &&& if data@.subrange(*old(pos) as int, *old(pos) + 8) == expected_version() {
                r is Ok
            } else {
                r == Err::<(), EmpiresDbError>(EmpiresDbError::BadFile("unexpected file version"))
            }
        },
{
    let version = match crate::bytes::read_bytes(data, pos, 8) {
        Ok(v) => v,
        Err(e) => return Err(EmpiresDbError::ReadError(e)),
    };
    let expected: [u8; 8] = [86u8, 69, 82, 32, 51, 46, 55, 0];
    assert(expected@ == expected_version());
    let mut same = true;
    let mut i: usize = 0;
    while i < 8
        invariant
            i <= 8,
            version@.len() == 8,
            expected@ == expected_version(),
            same == (forall|j: int| 0 <= j < i ==> version@[j] == expected_version()[j]),
        decreases 8 - i,
    {
        if version[i] != expected[i] {
            same = false;
        }
        i = i + 1;
    }
    if !same {
        assert(version@ != expected_version());
        return Err(EmpiresDbError::BadFile("unexpected file version"));
    }
    assert(version@ == expected_version());
    Ok(())
}

/// Decompresses a database file, stored as raw deflate data.
pub fn read_and_decompress(compressed: &[u8]) -> (r: Result<Vec<u8>, EmpiresDbError>)
    ensures
        match raw_inflate(compressed@) {
            Some(v) => r matches Ok(d) && d@ == v,
            None => r == Err::<Vec<u8>, EmpiresDbError>(EmpiresDbError::CompressionError),
        },
{
    match decompress(compressed) {
        Ok(v) => Ok(v),
        Err(_) => Err(EmpiresDbError::CompressionError),
    }
}

/// Reads fields, reporting a failure as a read error.
pub(crate) fn read_values(data: &[u8], pos: &mut u64, fields: &[Field]) -> (r: Result<Vec<Value>, EmpiresDbError>)
    ensures
        match fields_read(data@, *old(pos) as int, fields@) {
            Ok((vs, e)) => r matches Ok(v) && values_view(v@) == vs && *final(pos) == e
                && vs.len() == fields@.len()
                && forall|k: int| 0 <= k < fields@.len() ==> fits(fields@[k], #[trigger] vs[k]),
            Err(e) => r == Err::<Vec<Value>, EmpiresDbError>(EmpiresDbError::ReadError(e)),
        },
{
    match read_fields(data, pos, fields) {
        Ok(v) => Ok(v),
        Err(e) => Err(EmpiresDbError::ReadError(e)),
    }
}

impl EmpiresDb {
    /// A database that holds nothing yet.
    pub fn new() -> (r: EmpiresDb)
        ensures
            r.terrain_restrictions@.len() == 0 && r.player_colors@.len() == 0,
            r.sound_effect_groups@.len() == 0 && r.graphics@.len() == 0,
            r.random_maps@.len() == 0 && r.ages@.len() == 0 && r.research@.len() == 0,
            r.terrain_block.tile_sizes@.len() == 0 && r.terrain_block.terrains@.len() == 0,
            r.terrain_block.terrain_borders@.len() == 0,
            r.terrain_block.map_pointer == 0 && r.terrain_block.map_width == 0 && r.terrain_block.map_height == 0,
            r.terrain_block.world_width == 0 && r.terrain_block.world_height == 0,
            r.terrain_block.terrains_used == 0 && r.terrain_block.borders_used == 0,
            r.terrain_block.max_terrain == 0 && r.terrain_block.tile_width == 0 && r.terrain_block.tile_height == 0,
            r.terrain_block.tile_half_height == 0 && r.terrain_block.tile_half_width == 0,
            r.terrain_block.elevation_height == 0 && r.terrain_block.current_row == 0 && r.terrain_block.current_col == 0,
            r.terrain_block.block_begin_row == 0 && r.terrain_block.block_end_row == 0,
            r.terrain_block.block_begin_col == 0 && r.terrain_block.block_end_col == 0,
            r.terrain_block.any_frame_change == 0 && !r.terrain_block.map_visible && !r.terrain_block.fog,
    {
        EmpiresDb {
            terrain_restrictions: Vec::new(),
            player_colors: Vec::new(),
            sound_effect_groups: Vec::new(),
            graphics: Vec::new(),
            terrain_block: terrain_block::TerrainBlock {
                map_pointer: 0,
                map_width: 0,
                map_height: 0,
                world_width: 0,
                world_height: 0,
                tile_sizes: Vec::new(),
                terrains: Vec::new(),
                terrain_borders: Vec::new(),
                terrains_used: 0,
                borders_used: 0,
                max_terrain: 0,
                tile_width: 0,
                tile_height: 0,
                tile_half_height: 0,
                tile_half_width: 0,
                elevation_height: 0,
                current_row: 0,
                current_col: 0,
                block_begin_row: 0,
                block_end_row: 0,
                block_begin_col: 0,
                block_end_col: 0,
                any_frame_change: 0,
                map_visible: false,
                fog: false,
            },
            random_maps: Vec::new(),
            ages: Vec::new(),
            research: Vec::new(),
        }
    }

    /// The age with the given ID.
    pub fn age(&self, age_id: AgeId) -> (r: &age::Age)
        requires
            age_id.0 < self.ages@.len(),
        ensures
            *r == self.ages@[age_id.0 as int],
    {
        &self.ages[age_id.0 as usize]
    }

    /// The player color with the given ID.
    pub fn player_color(&self, player_color_id: PlayerColorId) -> (r: &player_color::PlayerColor)
        requires
            player_color_id.0 < self.player_colors@.len(),
        ensures
            *r == self.player_colors@[player_color_id.0 as int],
    {
        &self.player_colors[player_color_id.0 as usize]
    }

    /// The graphic with the given ID.
    pub fn graphic(&self, graphic_id: GraphicId) -> (r: &graphics::Graphic)
        requires
            graphic_id.0 < self.graphics@.len(),
        ensures
            *r == self.graphics@[graphic_id.0 as int],
    {
        &self.graphics[graphic_id.0 as usize]
    }

    /// The terrain information.
    pub fn terrain_block(&self) -> (r: &terrain_block::TerrainBlock)
        ensures
            *r == self.terrain_block,
    {
        &self.terrain_block
    }

    /// The terrain with the given ID.
    pub fn terrain(&self, terrain_id: TerrainId) -> (r: &terrain_block::Terrain)
        requires
            terrain_id.0 < self.terrain_block.terrains@.len(),
        ensures
            *r == self.terrain_block.terrains@[terrain_id.0 as int],
    {
        &self.terrain_block.terrains[terrain_id.0 as usize]
    }

    /// The terrain restriction of the given kind of unit.
    pub fn terrain_restrictions(&self, unit_terrain_restriction_id: UnitTerrainRestrictionId) -> (r: &terrain_restrictions::TerrainRestriction)
        requires
            index_of_restriction(unit_terrain_restriction_id) < self.terrain_restrictions@.len(),
        ensures
            *r == self.terrain_restrictions@[index_of_restriction(unit_terrain_restriction_id) as int],
    {
        &self.terrain_restrictions[unit_terrain_restriction_id.as_index()]
    }

    /// The terrain border with the given ID.
    pub fn terrain_border(&self, terrain_border_id: TerrainBorderId) -> (r: &terrain_block::TerrainBorder)
        requires
            terrain_border_id.0 < self.terrain_block.terrain_borders@.len(),
        ensures
            *r == self.terrain_block.terrain_borders@[terrain_border_id.0 as int],
    {
        &self.terrain_block.terrain_borders[terrain_border_id.0 as usize]
    }

    /// Half the width and half the height of a tile.
    pub fn tile_half_sizes(&self) -> (r: (i32, i32))
        ensures
            r == (self.terrain_block.tile_half_width as i32, self.terrain_block.tile_half_height as i32),
    {
        (self.terrain_block.tile_half_width as i32, self.terrain_block.tile_half_height as i32)
    }

    /// The research with the given ID.
    pub fn research(&self, research_id: ResearchId) -> (r: &research::Research)
        requires
            research_id.0 < self.research@.len(),
        ensures
            *r == self.research@[research_id.0 as int],
    {
        &self.research[research_id.0 as usize]
    }

    /// The sound effect group with the given ID.
    pub fn sound_effect_group(&self, sound_group_id: SoundGroupId) -> (r: &sound::SoundEffectGroup)
        requires
            sound_group_id.0 < self.sound_effect_groups@.len(),
        ensures
            *r == self.sound_effect_groups@[sound_group_id.0 as int],
    {
        &self.sound_effect_groups[sound_group_id.0 as usize]
    }
}

} // verus!
