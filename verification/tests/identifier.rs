use chariot::identifier::{optional_id, required_id, PlayerColorId, PlayerId, TerrainId, UnitTerrainRestrictionId};

#[test]
fn test_deref() {
    assert_eq!(5u8, *TerrainId(5));
}

#[test]
fn test_required_id() {
    let id: TerrainId = TerrainId::from_usize(required_id(5i32 as i64));
    assert_eq!(TerrainId(5), id);

    let id: TerrainId = TerrainId::from_usize(required_id(5isize as i64));
    assert_eq!(TerrainId(5), id);
}

#[test]
fn test_optional_id() {
    let val: Option<TerrainId> = optional_id(-1i32 as i64).map(TerrainId::from_usize);
    assert_eq!(None, val);

    let val: Option<TerrainId> = optional_id(5i32 as i64).map(TerrainId::from_usize);
    assert_eq!(Some(TerrainId(5)), val);
}

#[test]
fn player_id_gives_its_color() {
    let color: PlayerColorId = PlayerId(3).to_player_color_id();
    assert_eq!(PlayerColorId(3), color);
}

#[test]
fn terrain_restriction_index_round_trip() {
    for i in 0..20usize {
        assert_eq!(i, UnitTerrainRestrictionId::from_index(i).as_index());
    }
    assert_eq!(UnitTerrainRestrictionId::Wall, UnitTerrainRestrictionId::from_index(10));
    assert_eq!(UnitTerrainRestrictionId::Unknown(11), UnitTerrainRestrictionId::from_index(11));
}
