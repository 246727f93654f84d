//! Reading the database in file order, from its header through the ages.
//! The civilizations follow the ages in the file; their records are not read
//! here, and so neither is the research that comes after them.

use vstd::prelude::*;
use crate::bytes::{available, raw_inflate, read_u16, u16_at, StreamError};
use crate::layout::{num, record, FieldValue};
use super::age::{age_matches, ages_read, read_ages, Age, AgeValues};
use super::graphics::{graphic_matches, graphics_read, Graphic, GraphicValues};
use super::player_color::{color_matches, colors_read, read_player_colors, PlayerColor};
use super::random_map::{map_matches, random_maps_read, MapValues, RandomMap};
use super::sound::{group_matches, sounds_read, SoundEffectGroup};
use super::terrain_block::{block_matches, block_read, read_terrain_block, BlockValues, TerrainBlock};
use super::terrain_restrictions::{read_terrain_restrictions, restrictions_read, TerrainRestriction};
use super::{expected_version, read_and_decompress, read_header, EmpiresDb, EmpiresDbError};

verus! {

/// The values of the sections of the database, from the terrain restrictions
/// through the ages.
pub struct SectionValues {
    pub restriction_count: nat,
    pub terrain_count: nat,
    pub restrictions: Seq<FieldValue>,
    pub color_count: nat,
    pub colors: Seq<FieldValue>,
    pub sounds: Seq<(Seq<FieldValue>, Seq<FieldValue>)>,
    pub graphics: Seq<GraphicValues>,
    pub block: BlockValues,
    pub maps: Seq<MapValues>,
    pub ages: Seq<AgeValues>,
    pub end: int,
}

/// The (decompressed) database `d` read in file order: the version, the
/// numbers of terrain restrictions and of terrains, then the terrain
/// restrictions, player colors, sounds, graphics, terrain block, random maps
/// and ages, each section where the one before ends; or the first error.
pub open spec fn sections_read(d: Seq<u8>) -> Result<SectionValues, EmpiresDbError> {
    if !available(d, 0, 8) || !(d.subrange(0, 8) == expected_version()) {
        if !available(d, 0, 8) {
            Err(EmpiresDbError::ReadError(StreamError::UnexpectedEof))
        } else {
            Err(EmpiresDbError::BadFile("unexpected file version"))
        }
    } else if !available(d, 8, 2) || !available(d, 10, 2) {
        Err(EmpiresDbError::ReadError(StreamError::UnexpectedEof))
    } else {
        let rc = u16_at(d, 8) as nat;
        let tc = u16_at(d, 10) as nat;
        match restrictions_read(d, 12, rc, tc) {
            Err(e) => Err(EmpiresDbError::ReadError(e)),
            Ok((rv, p1)) => match colors_read(d, p1) {
                Err(e) => Err(EmpiresDbError::ReadError(e)),
                Ok((cv, p2)) => match sounds_read(d, p2) {
                    Err(e) => Err(EmpiresDbError::ReadError(e)),
                    Ok((sv, p3)) => match graphics_read(d, p3) {
                        Err(e) => Err(EmpiresDbError::ReadError(e)),
                        Ok((gv, p4)) => match block_read(d, p4) {
                            Err(e) => Err(e),
                            Ok(bv) => match random_maps_read(d, bv.end) {
                                Err(e) => Err(EmpiresDbError::ReadError(e)),
                                Ok((mv, p6)) => match ages_read(d, p6) {
                                    Err(e) => Err(EmpiresDbError::ReadError(e)),
                                    Ok((av, p7)) => Ok(SectionValues {
                                        restriction_count: rc,
                                        terrain_count: tc,
                                        restrictions: rv,
                                        color_count: u16_at(d, p1) as nat,
                                        colors: cv,
                                        sounds: sv,
                                        graphics: gv,
                                        block: bv,
                                        maps: mv,
                                        ages: av,
                                        end: p7,
                                    }),
                                },
                            },
                        },
                    },
                },
            },
        }
    }
}

/// The terrain restrictions as their values give them: `count` restrictions
/// of `terrain_count` values each.
#[verifier::opaque]
pub open spec fn restrictions_match(rs: Seq<TerrainRestriction>, vs: Seq<FieldValue>, count: nat, terrain_count: nat) -> bool {
    &&& rs.len() == count
    &&& forall|i: int| 0 <= i < count ==> {
        &&& (#[trigger] rs[i]).some_floats@.len() == terrain_count
        &&& forall|j: int| 0 <= j < terrain_count ==> rs[i].some_floats@[j] == num(vs, i * terrain_count + j) as u32
    }
}

/// `count` player colors, as their records give them.
#[verifier::opaque]
pub open spec fn colors_match(cs: Seq<PlayerColor>, vs: Seq<FieldValue>, count: nat) -> bool {
    &&& cs.len() == count
    &&& forall|i: int| 0 <= i < cs.len() ==> color_matches(#[trigger] cs[i], record(vs, 5, i))
}

/// The sound effect groups, as their values give them.
#[verifier::opaque]
pub open spec fn sounds_match(gs: Seq<SoundEffectGroup>, vs: Seq<(Seq<FieldValue>, Seq<FieldValue>)>) -> bool {
    &&& gs.len() == vs.len()
    &&& forall|i: int| 0 <= i < vs.len() ==> group_matches(#[trigger] gs[i], vs[i].0, vs[i].1)
}

/// The graphics, as their values give them.
#[verifier::opaque]
pub open spec fn graphics_match(gs: Seq<Graphic>, vs: Seq<GraphicValues>) -> bool {
    &&& gs.len() == vs.len()
    &&& forall|i: int| 0 <= i < vs.len() ==> graphic_matches(#[trigger] gs[i], vs[i])
}

/// The terrain block, as its values give it.
#[verifier::opaque]
pub open spec fn block_matches_values(b: TerrainBlock, v: BlockValues) -> bool {
    block_matches(b, v)
}

/// The random maps, as their values give them.
#[verifier::opaque]
pub open spec fn maps_match(ms: Seq<RandomMap>, vs: Seq<MapValues>) -> bool {
    &&& ms.len() == vs.len()
    &&& forall|i: int| 0 <= i < vs.len() ==> map_matches(#[trigger] ms[i], vs[i])
}

/// The ages, as their values give them, each with its position as its ID.
#[verifier::opaque]
pub open spec fn ages_match(ages: Seq<Age>, vs: Seq<AgeValues>) -> bool {
    &&& ages.len() == vs.len()
    &&& forall|i: int| 0 <= i < vs.len() ==> age_matches(#[trigger] ages[i], vs[i]) && ages[i].id == i
}

/// The database holds what its sections give, and no research.
pub open spec fn db_matches(db: EmpiresDb, v: SectionValues) -> bool {
    &&& restrictions_match(db.terrain_restrictions@, v.restrictions, v.restriction_count, v.terrain_count)
    &&& colors_match(db.player_colors@, v.colors, v.color_count)
    &&& sounds_match(db.sound_effect_groups@, v.sounds)
    &&& graphics_match(db.graphics@, v.graphics)
    &&& block_matches_values(db.terrain_block, v.block)
    &&& maps_match(db.random_maps@, v.maps)
    &&& ages_match(db.ages@, v.ages)
    &&& db.research@.len() == 0
}


fn read_restrictions_section(data: &[u8], pos: &mut u64, rc: u16, tc: u16) -> (r: Result<Vec<TerrainRestriction>, EmpiresDbError>)
    ensures
        match restrictions_read(data@, *old(pos) as int, rc as nat, tc as nat) {
            Ok((vs, e)) => r matches Ok(rs) && *final(pos) == e && restrictions_match(rs@, vs, rc as nat, tc as nat),
            Err(e) => r == Err::<Vec<TerrainRestriction>, EmpiresDbError>(EmpiresDbError::ReadError(e)),
        },
{
    assert((rc as usize) * (tc as usize) <= 0xFFFF_FFFF) by (nonlinear_arith)
        requires
            rc <= 0xFFFF,
            tc <= 0xFFFF,
    ;
    let r = read_terrain_restrictions(data, pos, rc as usize, tc as usize);
    proof {
        reveal(restrictions_match);
    }
    r
}

fn read_colors_section(data: &[u8], pos: &mut u64) -> (r: Result<Vec<PlayerColor>, EmpiresDbError>)
    ensures
        match colors_read(data@, *old(pos) as int) {
            Ok((vs, e)) => r matches Ok(cs) && *final(pos) == e
                && colors_match(cs@, vs, u16_at(data@, *old(pos) as int) as nat),
            Err(e) => r == Err::<Vec<PlayerColor>, EmpiresDbError>(EmpiresDbError::ReadError(e)),
        },
{
    let r = read_player_colors(data, pos);
    proof {
        reveal(colors_match);
    }
    r
}

fn read_sounds_section(db: &mut EmpiresDb, data: &[u8], pos: &mut u64) -> (r: Result<(), EmpiresDbError>)
    requires
        old(db).sound_effect_groups@.len() == 0,
    ensures
        final(db).terrain_restrictions@ == old(db).terrain_restrictions@,
        final(db).player_colors@ == old(db).player_colors@,
        final(db).graphics@ == old(db).graphics@,
        final(db).terrain_block == old(db).terrain_block,
        final(db).random_maps@ == old(db).random_maps@,
        final(db).ages@ == old(db).ages@,
        final(db).research@ == old(db).research@,
        match sounds_read(data@, *old(pos) as int) {
            Ok((vs, e)) => r is Ok && *final(pos) == e && sounds_match(final(db).sound_effect_groups@, vs),
            Err(e) => r == Err::<(), EmpiresDbError>(EmpiresDbError::ReadError(e)),
        },
{
    let ghost p0 = *pos as int;
    let r = db.read_sounds(data, pos);
    proof {
        reveal(sounds_match);
        if let Ok((vs, e)) = sounds_read(data@, p0) {
            assert forall|i: int| 0 <= i < vs.len() implies group_matches(db.sound_effect_groups@[i], vs[i].0, vs[i].1) by {
                assert(0 + i == i);
            }
        }
    }
    r
}

fn read_graphics_section(db: &mut EmpiresDb, data: &[u8], pos: &mut u64) -> (r: Result<(), EmpiresDbError>)
    requires
        old(db).graphics@.len() == 0,
    ensures
        final(db).terrain_restrictions@ == old(db).terrain_restrictions@,
        final(db).player_colors@ == old(db).player_colors@,
        final(db).sound_effect_groups@ == old(db).sound_effect_groups@,
        final(db).terrain_block == old(db).terrain_block,
        final(db).random_maps@ == old(db).random_maps@,
        final(db).ages@ == old(db).ages@,
        final(db).research@ == old(db).research@,
        match graphics_read(data@, *old(pos) as int) {
            Ok((vs, e)) => r is Ok && *final(pos) == e && graphics_match(final(db).graphics@, vs),
            Err(e) => r == Err::<(), EmpiresDbError>(EmpiresDbError::ReadError(e)),
        },
{
    let ghost p0 = *pos as int;
    let r = db.read_graphics(data, pos);
    proof {
        reveal(graphics_match);
        if let Ok((vs, e)) = graphics_read(data@, p0) {
            assert forall|i: int| 0 <= i < vs.len() implies graphic_matches(db.graphics@[i], vs[i]) by {
                assert(0 + i == i);
            }
        }
    }
    r
}

fn read_block_section(data: &[u8], pos: &mut u64) -> (r: Result<TerrainBlock, EmpiresDbError>)
    ensures
        match block_read(data@, *old(pos) as int) {
            Ok(v) => r matches Ok(b) && block_matches_values(b, v) && *final(pos) == v.end,
            Err(e) => r == Err::<TerrainBlock, EmpiresDbError>(e),
        },
{
    let r = read_terrain_block(data, pos);
    proof {
        reveal(block_matches_values);
    }
    r
}

fn read_maps_section(db: &mut EmpiresDb, data: &[u8], pos: &mut u64) -> (r: Result<(), EmpiresDbError>)
    requires
        old(db).random_maps@.len() == 0,
    ensures
        final(db).terrain_restrictions@ == old(db).terrain_restrictions@,
        final(db).player_colors@ == old(db).player_colors@,
        final(db).sound_effect_groups@ == old(db).sound_effect_groups@,
        final(db).graphics@ == old(db).graphics@,
        final(db).terrain_block == old(db).terrain_block,
        final(db).ages@ == old(db).ages@,
        final(db).research@ == old(db).research@,
        match random_maps_read(data@, *old(pos) as int) {
            Ok((vs, e)) => r is Ok && *final(pos) == e && maps_match(final(db).random_maps@, vs),
            Err(e) => r == Err::<(), EmpiresDbError>(EmpiresDbError::ReadError(e)),
        },
{
    let ghost p0 = *pos as int;
    let r = db.read_random_maps(data, pos);
    proof {
        reveal(maps_match);
        if let Ok((vs, e)) = random_maps_read(data@, p0) {
            assert forall|i: int| 0 <= i < vs.len() implies map_matches(db.random_maps@[i], vs[i]) by {
                assert(0 + i == i);
            }
        }
    }
    r
}

fn read_ages_section(data: &[u8], pos: &mut u64) -> (r: Result<Vec<Age>, EmpiresDbError>)
    ensures
        match ages_read(data@, *old(pos) as int) {
            Ok((vs, e)) => r matches Ok(ages) && *final(pos) == e && ages_match(ages@, vs),
            Err(e) => r == Err::<Vec<Age>, EmpiresDbError>(EmpiresDbError::ReadError(e)),
        },
{
    let r = read_ages(data, pos);
    proof {
        reveal(ages_match);
    }
    r
}

impl EmpiresDb {
    /// Reads the (decompressed) database in file order, from its version
    /// through the ages; the civilizations and the research after them are
    /// not read.
    pub fn read_through_ages(data: &[u8]) -> (r: Result<EmpiresDb, EmpiresDbError>)
        ensures
            match sections_read(data@) {
                Ok(v) => r matches Ok(db) && db_matches(db, v),
                Err(e) => r == Err::<EmpiresDb, EmpiresDbError>(e),
            },
    {
        let mut pos: u64 = 0;
        match read_header(data, &mut pos) {
            Ok(()) => {},
            Err(e) => return Err(e),
        }
        let restriction_count = match read_u16(data, &mut pos) {
            Ok(v) => v,
            Err(e) => return Err(EmpiresDbError::ReadError(e)),
        };
        let terrain_count = match read_u16(data, &mut pos) {
            Ok(v) => v,
            Err(e) => return Err(EmpiresDbError::ReadError(e)),
        };
        assert(pos == 12);
        let mut db = EmpiresDb::new();
        db.terrain_restrictions = match read_restrictions_section(data, &mut pos, restriction_count, terrain_count) {
            Ok(v) => v,
            Err(e) => return Err(e),
        };
        let ghost p1 = pos as int;
        db.player_colors = match read_colors_section(data, &mut pos) {
            Ok(v) => v,
            Err(e) => return Err(e),
        };
        match read_sounds_section(&mut db, data, &mut pos) {
            Ok(()) => {},
            Err(e) => return Err(e),
        }
        match read_graphics_section(&mut db, data, &mut pos) {
            Ok(()) => {},
            Err(e) => return Err(e),
        }
        db.terrain_block = match read_block_section(data, &mut pos) {
            Ok(b) => b,
            Err(e) => return Err(e),
        };
        match read_maps_section(&mut db, data, &mut pos) {
            Ok(()) => {},
            Err(e) => return Err(e),
        }
        db.ages = match read_ages_section(data, &mut pos) {
            Ok(v) => v,
            Err(e) => return Err(e),
        };
        Ok(db)
    }

    /// Decompresses the raw-deflate stream of a database file and reads it
    /// as `read_through_ages` does.
    pub fn read_compressed_through_ages(compressed: &[u8]) -> (r: Result<EmpiresDb, EmpiresDbError>)
        ensures
            match raw_inflate(compressed@) {
                None => r == Err::<EmpiresDb, EmpiresDbError>(EmpiresDbError::CompressionError),
                Some(d) => match sections_read(d) {
                    Ok(v) => r matches Ok(db) && db_matches(db, v),
                    Err(e) => r == Err::<EmpiresDb, EmpiresDbError>(e),
                },
            },
    {
        let data = match read_and_decompress(compressed) {
            Ok(d) => d,
            Err(e) => return Err(e),
        };
        EmpiresDb::read_through_ages(data.as_slice())
    }
}

} // verus!
