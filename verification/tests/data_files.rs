use chariot::dat::graphics::Graphic;
use chariot::dat::sound::SoundEffectGroup;
use chariot::dat::EmpiresDb;
use chariot::identifier::{GraphicId, SoundGroupId};
use chariot::bytes::StreamError;
use chariot::dat::EmpiresDbError;
use chariot::file_formats::dat::resource::ResourceType;
use chariot::file_formats::dat::sound::read_sound_effect_groups;
use chariot::file_formats::dat::tileedge::{OutlineEntry, TileEdgeDb};
use chariot::file_formats::scn::map::ScenarioMap;
use chariot::file_formats::scn::player_resources::PlayerResources;

#[test]
fn scenario_map_reads_its_tiles() {
    let mut d = Vec::new();
    d.extend_from_slice(&2u32.to_le_bytes());
    d.extend_from_slice(&1u32.to_le_bytes());
    d.extend_from_slice(&[4, 1, 0, 5, 2, 9]);
    let mut pos = 0u64;
    let map = ScenarioMap::read_from_stream(&d, &mut pos).unwrap();
    assert_eq!((2, 1, 2), (map.width, map.height, map.tiles.len()));
    assert_eq!(4, map.tiles[0].terrain_id.0);
    assert_eq!(2, map.tiles[1].elevation);
    assert_eq!(9, map.tiles[1].unused);
    assert_eq!(14, pos);
}

#[test]
fn scenario_map_errors() {
    let mut d = Vec::new();
    d.extend_from_slice(&2u32.to_le_bytes());
    d.extend_from_slice(&1u32.to_le_bytes());
    d.extend_from_slice(&[4, 1, 0, 5]);
    assert_eq!(Some(Err(StreamError::UnexpectedEof)),
               ScenarioMap::read_from_stream_checked(&d, &mut 0u64).map(|r| r.map(|_| ())));
    let mut d = Vec::new();
    d.extend_from_slice(&1u32.to_le_bytes());
    d.extend_from_slice(&1u32.to_le_bytes());
    d.extend_from_slice(&[0xFF, 1, 0]);
    assert!(ScenarioMap::read_from_stream_checked(&d, &mut 0u64).is_none());
}

#[test]
fn player_resources_of_eight_players() {
    let mut d = Vec::new();
    for i in 0..32u32 {
        d.extend_from_slice(&(i as f32).to_bits().to_le_bytes());
    }
    let mut pos = 0u64;
    let rs = PlayerResources::read_from_stream(&d, &mut pos).unwrap();
    assert_eq!(8, rs.len());
    assert_eq!(7, rs[7].player_id.0);
    assert_eq!(29.0f32, f32::from_bits(rs[7].wood));
    assert_eq!(128, pos);
    assert_eq!(Err(StreamError::UnexpectedEof), PlayerResources::read_from_stream(&d[..127], &mut 0u64));
}

#[test]
fn tile_edges_are_grouped_by_closing_records() {
    let mut d = vec![0u8; 444];
    d.extend_from_slice(&[1, 2, 3, 4, 5, 6, 255, 0, 0, 7, 8, 9, 255, 1, 1, 10, 11, 12, 13]);
    let db = TileEdgeDb::read_from(&d);
    assert_eq!(2, db.entries.len());
    assert_eq!(vec![OutlineEntry { index: 1, left_offset: 2, right_offset: 3 },
                    OutlineEntry { index: 4, left_offset: 5, right_offset: 6 }], db.entries[0].outlines);
    assert_eq!(vec![OutlineEntry { index: 7, left_offset: 8, right_offset: 9 }], db.entries[1].outlines);
    assert_eq!(0, TileEdgeDb::read_from(&[0u8; 10]).entries.len());
}

#[test]
fn resource_types_from_codes() {
    assert_eq!(ResourceType::Food, ResourceType::from_i16(0));
    assert_eq!(ResourceType::Gold, ResourceType::from_i16(3));
    assert_eq!(ResourceType::Unknown(7), ResourceType::from_i16(7));
    assert_eq!(ResourceType::Unknown(-1), ResourceType::default());
}

#[test]
fn sound_groups_with_their_effects() {
    let mut d = Vec::new();
    d.extend_from_slice(&1u16.to_le_bytes());
    d.extend_from_slice(&5u16.to_le_bytes());
    d.extend_from_slice(&3u16.to_le_bytes());
    d.extend_from_slice(&2u16.to_le_bytes());
    d.extend_from_slice(&300u32.to_le_bytes());
    for (name, id, p) in [("a.wav", 100i32, 50u16), ("bb.wav", -1, 50)] {
        let mut n = name.as_bytes().to_vec();
        n.resize(13, 0);
        d.extend_from_slice(&n);
        d.extend_from_slice(&id.to_le_bytes());
        d.extend_from_slice(&p.to_le_bytes());
    }
    let mut pos = 0u64;
    let gs = read_sound_effect_groups(&d, &mut pos).unwrap();
    assert_eq!(1, gs.len());
    assert_eq!(5, gs[0].id.0);
    assert_eq!(3, gs[0].play_at_update_count);
    assert_eq!(300, gs[0].cache_time);
    assert_eq!("bb.wav", gs[0].sound_effects[1].file_name);
    assert_eq!(100, gs[0].sound_effects[0].resource_id.0);
    assert_eq!(d.len() as u64, pos);
    assert!(matches!(read_sound_effect_groups(&d[..20], &mut 0u64),
                     Err(EmpiresDbError::ReadError(StreamError::UnexpectedEof))));
}

use chariot::file_formats::dat::research::{read_research, read_research_checked};
use chariot::file_formats::dat::resource::{read_resource_costs, ReadResourceCost, ResourceCost};
use chariot::file_formats::dat::terrain_restrictions::read_terrain_restrictions;
use chariot::identifier::UnitTerrainRestrictionId;

fn research_record(name_id: i16, costs: [(i16, i16, u8); 3], techs_used: u16, name: &str) -> Vec<u8> {
    let mut d = Vec::new();
    for t in [10i16, 11, 12, 13] {
        d.extend_from_slice(&t.to_le_bytes());
    }
    for (kind, amount, enabled) in costs {
        d.extend_from_slice(&kind.to_le_bytes());
        d.extend_from_slice(&amount.to_le_bytes());
        d.push(enabled);
    }
    d.extend_from_slice(&techs_used.to_le_bytes());
    d.extend_from_slice(&(-1i16).to_le_bytes()); // location
    d.extend_from_slice(&name_id.to_le_bytes());
    d.extend_from_slice(&7i16.to_le_bytes()); // description
    d.extend_from_slice(&30i16.to_le_bytes()); // time
    d.extend_from_slice(&2i16.to_le_bytes()); // age
    d.extend_from_slice(&1i16.to_le_bytes()); // type
    d.extend_from_slice(&5i16.to_le_bytes()); // icon
    d.push(3); // button
    d.extend_from_slice(&(-1i32).to_le_bytes()); // help
    d.extend_from_slice(&99i32.to_le_bytes()); // tech tree
    d.extend_from_slice(&0i32.to_le_bytes()); // unknown
    d.extend_from_slice(&(name.len() as u16).to_le_bytes());
    d.extend_from_slice(name.as_bytes());
    d
}

#[test]
fn research_keeps_only_costs_that_apply() {
    let mut d = 1u16.to_le_bytes().to_vec();
    d.extend(research_record(4, [(0, 50, 1), (3, 20, 0), (1, 10, 1)], 2, "Bronze"));
    let mut pos = 0u64;
    let rs = read_research(&d, &mut pos).unwrap();
    assert_eq!(1, rs.len());
    let r = &rs[0];
    assert_eq!(0, r.id.0);
    assert_eq!(vec![10, 11], r.required_techs);
    assert_eq!(2, r.resource_costs.len());
    assert_eq!(ResourceType::Food, r.resource_costs[0].resource_type);
    assert_eq!(10, r.resource_costs[1].amount);
    assert_eq!(None, r.location);
    assert_eq!(4, r.name_id.0);
    assert_eq!(7, r.description_id.0);
    assert_eq!(Some(2), r.age_id.map(|a| a.0));
    assert_eq!(None, r.help_id);
    assert_eq!(Some(99), r.tech_tree_id.map(|t| t.0));
    assert_eq!("Bronze", r.name);
    assert_eq!(d.len() as u64, pos);
}

#[test]
fn research_errors() {
    let mut d = 1u16.to_le_bytes().to_vec();
    d.extend(research_record(4, [(0, 50, 1), (3, 20, 0), (1, 10, 1)], 5, "X"));
    assert!(matches!(read_research(&d, &mut 0u64),
                     Err(EmpiresDbError::BadFile("more required techs than possible"))));
    let mut d = 1u16.to_le_bytes().to_vec();
    d.extend(research_record(-1, [(0, 50, 1), (3, 20, 0), (1, 10, 1)], 1, "X"));
    assert!(read_research_checked(&d, &mut 0u64).is_none());
    assert!(matches!(read_research(&d[..10], &mut 0u64),
                     Err(EmpiresDbError::ReadError(StreamError::UnexpectedEof))));
}

#[test]
fn resource_costs_of_each_layout() {
    let d = [2u8, 0, 100, 0, 1, 0, 0, 0];
    let mut a: ResourceCost<i16, u8> = ResourceCost { resource_type: ResourceType::Unknown(-1), amount: 0, enabled: false, phantom: std::marker::PhantomData };
    let mut pos = 0u64;
    a.read_resource_cost(&d, &mut pos).unwrap();
    assert_eq!((ResourceType::Stone, 100, true, 5), (a.resource_type, a.amount, a.enabled, pos));

    let mut b: ResourceCost<i16, i16> = ResourceCost { resource_type: ResourceType::Unknown(-1), amount: 0, enabled: true, phantom: std::marker::PhantomData };
    let mut pos = 0u64;
    b.read_resource_cost(&[1u8, 0, 7, 0, 0, 0], &mut pos).unwrap();
    assert_eq!((ResourceType::Wood, 7, false, 6), (b.resource_type, b.amount, b.enabled, pos));

    let mut c: ResourceCost<u32, u8> = ResourceCost { resource_type: ResourceType::Unknown(-1), amount: 0, enabled: false, phantom: std::marker::PhantomData };
    let mut d = vec![9u8, 0];
    d.extend_from_slice(&2.5f32.to_bits().to_le_bytes());
    d.push(1);
    c.read_resource_cost(&d, &mut 0u64).unwrap();
    assert_eq!(ResourceType::Unknown(9), c.resource_type);
    assert_eq!(2.5f32, f32::from_bits(c.amount));
    assert_eq!(Err(StreamError::UnexpectedEof), c.read_resource_cost(&d[..6], &mut 0u64));
}

#[test]
fn resource_costs_that_apply_in_order() {
    let d = [0u8, 0, 1, 0, 0, 3, 0, 2, 0, 1, 1, 0, 3, 0, 1];
    let costs = read_resource_costs(&d, &mut 0u64, 3).unwrap();
    assert_eq!(2, costs.len());
    assert_eq!(ResourceType::Gold, costs[0].resource_type);
    assert_eq!(3, costs[1].amount);
    assert!(read_resource_costs(&d, &mut 0u64, 4).is_err());
}

#[test]
fn terrain_restrictions_by_terrain() {
    let mut d = Vec::new();
    for _ in 0..2 {
        d.extend_from_slice(&0u32.to_le_bytes());
    }
    for v in [0.0f32, 1.0, 0.25, 1.0, 0.0, 0.5] {
        d.extend_from_slice(&v.to_bits().to_le_bytes());
    }
    let mut pos = 0u64;
    let rs = read_terrain_restrictions(&d, &mut pos, 2, 3).unwrap();
    assert_eq!(2, rs.len());
    assert_eq!(UnitTerrainRestrictionId::Flying, rs[0].id);
    assert_eq!(UnitTerrainRestrictionId::GroundWildlife, rs[1].id);
    assert_eq!(0.25f32, f32::from_bits(rs[0].passability_map[&2]));
    assert_eq!(0.5f32, f32::from_bits(rs[1].passability_map[&2]));
    assert_eq!(32, pos);
    assert!(read_terrain_restrictions(&d[..30], &mut 0u64, 2, 3).is_err());
}

#[test]
fn empires_db_getters_find_what_it_holds() {

    let mut db = EmpiresDb::new();
    assert_eq!((0, 0), db.tile_half_sizes());
    assert!(db.graphics.is_empty() && db.terrain_block().terrains.is_empty());

    let mut first = Graphic::new();
    first.slp_resource_id = 3;
    let mut second = Graphic::new();
    second.slp_resource_id = 7;
    db.graphics.push(first);
    db.graphics.push(second);
    assert_eq!(7, db.graphic(GraphicId(1)).slp_resource_id);
    assert_eq!(3, db.graphic(GraphicId(0)).slp_resource_id);

    let mut group = SoundEffectGroup::new();
    group.id = 12;
    db.sound_effect_groups.push(group);
    assert_eq!(12, db.sound_effect_group(SoundGroupId(0)).id);

    db.terrain_block.tile_half_width = 32;
    db.terrain_block.tile_half_height = 16;
    assert_eq!((32, 16), db.tile_half_sizes());
}

/// A database through the ages: one terrain restriction over two terrains,
/// one player color, no sounds or graphics, a zeroed terrain block with the
/// tile half sizes set, no random maps and no ages.
fn small_database() -> Vec<u8> {
    let mut d = b"VER 3.7\0".to_vec();
    d.extend_from_slice(&1u16.to_le_bytes());
    d.extend_from_slice(&2u16.to_le_bytes());
    d.extend_from_slice(&0u32.to_le_bytes());
    d.extend_from_slice(&1.0f32.to_bits().to_le_bytes());
    d.extend_from_slice(&0.5f32.to_bits().to_le_bytes());
    d.extend_from_slice(&1u16.to_le_bytes());
    let mut name = b"Blue".to_vec();
    name.resize(30, 0);
    d.extend_from_slice(&name);
    d.extend_from_slice(&3u16.to_le_bytes());
    d.extend_from_slice(&0u16.to_le_bytes());
    d.extend_from_slice(&[9, 0]);
    d.extend_from_slice(&0u16.to_le_bytes());
    d.extend_from_slice(&0u16.to_le_bytes());
    let mut block = vec![0u8; 140 + 32 * 408 + 16 * 1440 + 68];
    let tail = block.len() - 68;
    block[tail + 14..tail + 16].copy_from_slice(&16i16.to_le_bytes());
    block[tail + 16..tail + 18].copy_from_slice(&32i16.to_le_bytes());
    d.extend_from_slice(&block);
    d.extend_from_slice(&0u32.to_le_bytes());
    d.extend_from_slice(&0u32.to_le_bytes());
    d.extend_from_slice(&0u32.to_le_bytes());
    d
}

#[test]
fn database_reads_through_the_ages() {
    let db = EmpiresDb::read_through_ages(&small_database()).unwrap();
    assert_eq!(1, db.terrain_restrictions.len());
    assert_eq!(vec![1.0f32.to_bits(), 0.5f32.to_bits()], db.terrain_restrictions[0].some_floats);
    assert_eq!(1, db.player_colors.len());
    assert_eq!("Blue", db.player_colors[0].name);
    assert_eq!((3, 9), (db.player_colors[0].id, db.player_colors[0].palette_index));
    assert!(db.sound_effect_groups.is_empty() && db.graphics.is_empty());
    assert_eq!(32, db.terrain_block.terrains.len());
    assert_eq!(16, db.terrain_block.terrain_borders.len());
    assert_eq!((32, 16), db.tile_half_sizes());
    assert!(db.random_maps.is_empty() && db.ages.is_empty() && db.research.is_empty());
}

#[test]
fn database_refuses_a_wrong_version_or_short_data() {
    let mut d = small_database();
    d[4] = b'4';
    assert_eq!(EmpiresDbError::BadFile("unexpected file version"), EmpiresDb::read_through_ages(&d).unwrap_err());
    let full = small_database();
    let cut = &full[..full.len() - 2];
    assert_eq!(EmpiresDbError::ReadError(StreamError::UnexpectedEof), EmpiresDb::read_through_ages(cut).unwrap_err());
    assert_eq!(EmpiresDbError::CompressionError, EmpiresDb::read_compressed_through_ages(&[0xFF, 0xFF, 0xFF]).unwrap_err());
}
