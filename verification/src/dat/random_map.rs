//! Random map definitions.

use vstd::prelude::*;
use crate::layout::{fields_read, fits, num, read_records, record, repeat, values_view, num_at, Field, FieldValue, Value};
use crate::bytes::{available, read_u32, u32_at, StreamError};
use super::{read_values, EmpiresDb, EmpiresDbError};

verus! {

/// The summary of a random map that precedes the maps themselves.
#[derive(Default, Debug, Clone, Copy, PartialEq, Eq)]
pub struct RandomMapHeader {
    pub script_id: i32,
    pub border_sw: i32,
    pub border_nw: i32,
    pub border_ne: i32,
    pub border_se: i32,
    pub border_usage: i32,
    pub water_shape: i32,
    pub non_base_terrain: i32,
    pub base_zone_coverage: i32,
    pub base_zone_count: u32,
    pub terrain_count: u32,
    pub unit_count: u32,
}

impl RandomMapHeader {
    pub fn new() -> (r: RandomMapHeader)
        ensures
            r == (RandomMapHeader {
                script_id: 0,
                border_sw: 0,
                border_nw: 0,
                border_ne: 0,
                border_se: 0,
                border_usage: 0,
                water_shape: 0,
                non_base_terrain: 0,
                base_zone_coverage: 0,
                base_zone_count: 0,
                terrain_count: 0,
                unit_count: 0,
            }),
    {
        RandomMapHeader {
            script_id: 0,
            border_sw: 0,
            border_nw: 0,
            border_ne: 0,
            border_se: 0,
            border_usage: 0,
            water_shape: 0,
            non_base_terrain: 0,
            base_zone_coverage: 0,
            base_zone_count: 0,
            terrain_count: 0,
            unit_count: 0,
        }
    }
}

/// A zone where players start.
#[derive(Default, Debug, Clone, Copy, PartialEq, Eq)]
pub struct BaseZone {
    pub base_terrain: i32,
    pub space_between_players: i32,
    pub start_area_radius: i32,
}

impl BaseZone {
    pub fn new() -> (r: BaseZone)
        ensures
            r == (BaseZone { base_terrain: 0, space_between_players: 0, start_area_radius: 0 }),
    {
        BaseZone { base_terrain: 0, space_between_players: 0, start_area_radius: 0 }
    }
}

/// A terrain placed on a random map.
#[derive(Default, Debug, Clone, Copy, PartialEq, Eq)]
pub struct MapTerrain {
    pub proportion: i32,
    pub terrain: i32,
    pub clump_count: i32,
    pub spacing_to_other_terrains: i32,
    pub placement_zone: i32,
}

impl MapTerrain {
    pub fn new() -> (r: MapTerrain)
        ensures
            r == (MapTerrain {
                proportion: 0,
                terrain: 0,
                clump_count: 0,
                spacing_to_other_terrains: 0,
                placement_zone: 0,
            }),
    {
        MapTerrain { proportion: 0, terrain: 0, clump_count: 0, spacing_to_other_terrains: 0, placement_zone: 0 }
    }
}

/// A group of units placed on a random map.
#[derive(Default, Debug, Clone, Copy, PartialEq, Eq)]
pub struct MapUnit {
    pub unit: i32,
    pub host_terrain: i32,
    pub objects_per_group: i32,
    pub fluctuation: i32,
    pub groups_per_player: i32,
    pub group_radius: i32,
    pub own_at_start: i32,
    pub set_place_for_all_players: i32,
    pub min_distance_to_players: i32,
    pub max_distance_to_players: i32,
}

impl MapUnit {
    pub fn new() -> (r: MapUnit)
        ensures
            r == (MapUnit {
                unit: 0,
                host_terrain: 0,
                objects_per_group: 0,
                fluctuation: 0,
                groups_per_player: 0,
                group_radius: 0,
                own_at_start: 0,
                set_place_for_all_players: 0,
                min_distance_to_players: 0,
                max_distance_to_players: 0,
            }),
    {
        MapUnit {
            unit: 0,
            host_terrain: 0,
            objects_per_group: 0,
            fluctuation: 0,
            groups_per_player: 0,
            group_radius: 0,
            own_at_start: 0,
            set_place_for_all_players: 0,
            min_distance_to_players: 0,
            max_distance_to_players: 0,
        }
    }
}

/// A random map.
#[derive(Default, Debug)]
pub struct RandomMap {
    pub border_sw: i32,
    pub border_nw: i32,
    pub border_ne: i32,
    pub border_se: i32,
    pub border_usage: i32,
    pub water_shape: i32,
    pub non_base_terrain: i32,
    pub base_zone_coverage: i32,
    pub base_zones: Vec<BaseZone>,
    pub terrains: Vec<MapTerrain>,
    pub units: Vec<MapUnit>,
}

impl RandomMap {
    pub fn new() -> (r: RandomMap)
        ensures
            r.border_sw == 0 && r.border_nw == 0 && r.border_ne == 0 && r.border_se == 0,
            r.border_usage == 0 && r.water_shape == 0 && r.non_base_terrain == 0 && r.base_zone_coverage == 0,
            r.base_zones@.len() == 0 && r.terrains@.len() == 0 && r.units@.len() == 0,
    {
        RandomMap {
            border_sw: 0,
            border_nw: 0,
            border_ne: 0,
            border_se: 0,
            border_usage: 0,
            water_shape: 0,
            non_base_terrain: 0,
            base_zone_coverage: 0,
            base_zones: Vec::new(),
            terrains: Vec::new(),
            units: Vec::new(),
        }
    }
}

/// The fields of a map header: nine values, an unknown one, then three
/// counts each followed by an unused pointer, and an unknown count and pointer.
pub open spec fn header_fields() -> Seq<Field> {
    seq![
        Field::I32, Field::I32, Field::I32, Field::I32, Field::I32, Field::I32, Field::I32, Field::I32,
        Field::I32, Field::I32, Field::U32, Field::I32, Field::U32, Field::I32, Field::U32, Field::I32,
        Field::I32, Field::I32,
    ]
}

/// The header as its field values give it.
pub open spec fn header_matches(h: RandomMapHeader, vs: Seq<FieldValue>) -> bool {
    &&& h.script_id == num(vs, 0) && h.border_sw == num(vs, 1) && h.border_nw == num(vs, 2)
    &&& h.border_ne == num(vs, 3) && h.border_se == num(vs, 4) && h.border_usage == num(vs, 5)
    &&& h.water_shape == num(vs, 6) && h.non_base_terrain == num(vs, 7) && h.base_zone_coverage == num(vs, 8)
    &&& h.base_zone_count == num(vs, 10) && h.terrain_count == num(vs, 12) && h.unit_count == num(vs, 14)
}

/// The fields that open a map: eight values, an unknown one, the zone count
/// and an unused pointer.
pub open spec fn map_fields() -> Seq<Field> {
    seq![
        Field::I32, Field::I32, Field::I32, Field::I32, Field::I32, Field::I32, Field::I32, Field::I32,
        Field::I32, Field::U32, Field::U32,
    ]
}

/// A count and an unused pointer.
pub open spec fn count_fields() -> Seq<Field> {
    seq![Field::U32, Field::U32]
}

/// The fields of a base zone.
pub open spec fn zone_fields() -> Seq<Field> {
    seq![Field::U32, Field::I32, Field::I32, Field::Skip(20), Field::I32, Field::Skip(8)]
}

/// The fields of a map terrain.
pub open spec fn terrain_fields() -> Seq<Field> {
    seq![Field::I32, Field::I32, Field::I32, Field::I32, Field::I32, Field::I32]
}

/// The fields of a map unit.
pub open spec fn unit_fields() -> Seq<Field> {
    seq![
        Field::I32, Field::I32, Field::I32, Field::I32, Field::I32, Field::I32, Field::I32, Field::I32,
        Field::I32, Field::I32, Field::I32,
    ]
}

/// The values of one map: its opening fields, its zones, terrains and units,
/// and where it ends.
pub struct MapValues {
    pub head: Seq<FieldValue>,
    pub zones: Seq<FieldValue>,
    pub terrain_count: int,
    pub terrains: Seq<FieldValue>,
    pub unit_count: int,
    pub units: Seq<FieldValue>,
    pub end: int,
}

/// A map at `p`: its opening fields, the zones, the terrain count and
/// terrains, the unit count and units, and an unknown count of 24-byte
/// records that are passed over.
pub open spec fn random_map_read(d: Seq<u8>, p: int) -> Result<MapValues, StreamError> {
    match fields_read(d, p, map_fields()) {
        Err(e) => Err(e),
        Ok((head, q1)) => match fields_read(d, q1, repeat(zone_fields(), num(head, 9) as nat)) {
            Err(e) => Err(e),
            Ok((zones, q2)) => match fields_read(d, q2, count_fields()) {
                Err(e) => Err(e),
                Ok((tc, q3)) => match fields_read(d, q3, repeat(terrain_fields(), num(tc, 0) as nat)) {
                    Err(e) => Err(e),
                    Ok((terrains, q4)) => match fields_read(d, q4, count_fields()) {
                        Err(e) => Err(e),
                        Ok((uc, q5)) => match fields_read(d, q5, repeat(unit_fields(), num(uc, 0) as nat)) {
                            Err(e) => Err(e),
                            Ok((units, q6)) => match fields_read(d, q6, count_fields()) {
                                Err(e) => Err(e),
                                Ok((kc, q7)) => if q7 + 24 * num(kc, 0) <= u64::MAX {
                                    Ok(MapValues {
                                        head,
                                        zones,
                                        terrain_count: num(tc, 0),
                                        terrains,
                                        unit_count: num(uc, 0),
                                        units,
                                        end: q7 + 24 * num(kc, 0),
                                    })
                                } else {
                                    Err(StreamError::SeekOverflow)
                                },
                            },
                        },
                    },
                },
            },
        },
    }
}

pub open spec fn zone_matches(z: BaseZone, vs: Seq<FieldValue>) -> bool {
    z.base_terrain == num(vs, 1) && z.space_between_players == num(vs, 2) && z.start_area_radius == num(vs, 4)
}

pub open spec fn terrain_matches(t: MapTerrain, vs: Seq<FieldValue>) -> bool {
    &&& t.proportion == num(vs, 0) && t.terrain == num(vs, 1) && t.clump_count == num(vs, 2)
    &&& t.spacing_to_other_terrains == num(vs, 3) && t.placement_zone == num(vs, 4)
}

pub open spec fn unit_matches(u: MapUnit, vs: Seq<FieldValue>) -> bool {
    &&& u.unit == num(vs, 0) && u.host_terrain == num(vs, 1) && u.objects_per_group == num(vs, 3)
    &&& u.fluctuation == num(vs, 4) && u.groups_per_player == num(vs, 5) && u.group_radius == num(vs, 6)
    &&& u.own_at_start == num(vs, 7) && u.set_place_for_all_players == num(vs, 8)
    &&& u.min_distance_to_players == num(vs, 9) && u.max_distance_to_players == num(vs, 10)
}

/// A map as its values give it.
pub open spec fn map_matches(m: RandomMap, v: MapValues) -> bool {
    &&& m.border_sw == num(v.head, 0) && m.border_nw == num(v.head, 1) && m.border_ne == num(v.head, 2)
    &&& m.border_se == num(v.head, 3) && m.border_usage == num(v.head, 4) && m.water_shape == num(v.head, 5)
    &&& m.non_base_terrain == num(v.head, 6) && m.base_zone_coverage == num(v.head, 7)
    &&& m.base_zones@.len() == num(v.head, 9)
    &&& forall|i: int| 0 <= i < m.base_zones@.len() ==> zone_matches(#[trigger] m.base_zones@[i], record(v.zones, 6, i))
    &&& m.terrains@.len() == v.terrain_count
    &&& forall|i: int| 0 <= i < m.terrains@.len() ==> terrain_matches(#[trigger] m.terrains@[i], record(v.terrains, 6, i))
    &&& m.units@.len() == v.unit_count
    &&& forall|i: int| 0 <= i < m.units@.len() ==> unit_matches(#[trigger] m.units@[i], record(v.units, 11, i))
}

/// `n` maps one after another from `p`.
pub open spec fn maps_read(d: Seq<u8>, p: int, n: nat) -> Result<(Seq<MapValues>, int), StreamError>
    decreases n,
{
    if n == 0 {
        Ok((Seq::empty(), p))
    } else {
        match maps_read(d, p, (n - 1) as nat) {
            Err(e) => Err(e),
            Ok((ms, q)) => match random_map_read(d, q) {
                Err(e) => Err(e),
                Ok(v) => Ok((ms.push(v), v.end)),
            },
        }
    }
}

/// The random map section at `p`: a count and an unused pointer, that many
/// map headers (read and set aside), then that many maps.
pub open spec fn random_maps_read(d: Seq<u8>, p: int) -> Result<(Seq<MapValues>, int), StreamError> {
    if !available(d, p, 8) {
        Err(StreamError::UnexpectedEof)
    } else {
        let n = u32_at(d, p) as nat;
        match fields_read(d, p + 8, repeat(header_fields(), n)) {
            Err(e) => Err(e),
            Ok((_, q)) => maps_read(d, q, n),
        }
    }
}

fn zones_from(recs: &Vec<Vec<Value>>, Ghost(vs): Ghost<Seq<FieldValue>>) -> (r: Vec<BaseZone>)
    requires
        forall|j: int| 0 <= j < recs@.len() ==> {
            &&& values_view(#[trigger] recs@[j]@) == record(vs, 6, j)
            &&& recs@[j]@.len() == 6
            &&& forall|m: int| 0 <= m < 6 ==> fits(zone_fields()[m], #[trigger] values_view(recs@[j]@)[m])
        },
    ensures
        r@.len() == recs@.len(),
        forall|i: int| 0 <= i < r@.len() ==> zone_matches(#[trigger] r@[i], record(vs, 6, i)),
{
    let mut out: Vec<BaseZone> = Vec::new();
    let mut i: usize = 0;
    while i < recs.len()
        invariant
            i <= recs@.len(),
            out@.len() == i,
            forall|j: int| 0 <= j < recs@.len() ==> {
                &&& values_view(#[trigger] recs@[j]@) == record(vs, 6, j)
                &&& recs@[j]@.len() == 6
                &&& forall|m: int| 0 <= m < 6 ==> fits(zone_fields()[m], #[trigger] values_view(recs@[j]@)[m])
            },
            forall|j: int| 0 <= j < i ==> zone_matches(#[trigger] out@[j], record(vs, 6, j)),
        decreases recs@.len() - i,
    {
        let rec = &recs[i];
        assert(fits(zone_fields()[1], values_view(recs@[i as int]@)[1]));
        assert(fits(zone_fields()[2], values_view(recs@[i as int]@)[2]));
        assert(fits(zone_fields()[4], values_view(recs@[i as int]@)[4]));
        out.push(BaseZone {
            base_terrain: num_at(rec, 1) as i32,
            space_between_players: num_at(rec, 2) as i32,
            start_area_radius: num_at(rec, 4) as i32,
        });
        i = i + 1;
    }
    out
}

fn terrains_from(recs: &Vec<Vec<Value>>, Ghost(vs): Ghost<Seq<FieldValue>>) -> (r: Vec<MapTerrain>)
    requires
        forall|j: int| 0 <= j < recs@.len() ==> {
            &&& values_view(#[trigger] recs@[j]@) == record(vs, 6, j)
            &&& recs@[j]@.len() == 6
            &&& forall|m: int| 0 <= m < 6 ==> fits(terrain_fields()[m], #[trigger] values_view(recs@[j]@)[m])
        },
    ensures
        r@.len() == recs@.len(),
        forall|i: int| 0 <= i < r@.len() ==> terrain_matches(#[trigger] r@[i], record(vs, 6, i)),
{
    let mut out: Vec<MapTerrain> = Vec::new();
    let mut i: usize = 0;
    while i < recs.len()
        invariant
            i <= recs@.len(),
            out@.len() == i,
            forall|j: int| 0 <= j < recs@.len() ==> {
                &&& values_view(#[trigger] recs@[j]@) == record(vs, 6, j)
                &&& recs@[j]@.len() == 6
                &&& forall|m: int| 0 <= m < 6 ==> fits(terrain_fields()[m], #[trigger] values_view(recs@[j]@)[m])
            },
            forall|j: int| 0 <= j < i ==> terrain_matches(#[trigger] out@[j], record(vs, 6, j)),
        decreases recs@.len() - i,
    {
        let rec = &recs[i];
        assert(fits(terrain_fields()[0], values_view(recs@[i as int]@)[0]));
        assert(fits(terrain_fields()[1], values_view(recs@[i as int]@)[1]));
        assert(fits(terrain_fields()[2], values_view(recs@[i as int]@)[2]));
        assert(fits(terrain_fields()[3], values_view(recs@[i as int]@)[3]));
        assert(fits(terrain_fields()[4], values_view(recs@[i as int]@)[4]));
        out.push(MapTerrain {
            proportion: num_at(rec, 0) as i32,
            terrain: num_at(rec, 1) as i32,
            clump_count: num_at(rec, 2) as i32,
            spacing_to_other_terrains: num_at(rec, 3) as i32,
            placement_zone: num_at(rec, 4) as i32,
        });
        i = i + 1;
    }
    out
}

fn units_from(recs: &Vec<Vec<Value>>, Ghost(vs): Ghost<Seq<FieldValue>>) -> (r: Vec<MapUnit>)
    requires
        forall|j: int| 0 <= j < recs@.len() ==> {
            &&& values_view(#[trigger] recs@[j]@) == record(vs, 11, j)
            &&& recs@[j]@.len() == 11
            &&& forall|m: int| 0 <= m < 11 ==> fits(unit_fields()[m], #[trigger] values_view(recs@[j]@)[m])
        },
    ensures
        r@.len() == recs@.len(),
        forall|i: int| 0 <= i < r@.len() ==> unit_matches(#[trigger] r@[i], record(vs, 11, i)),
{
    let mut out: Vec<MapUnit> = Vec::new();
    let mut i: usize = 0;
    while i < recs.len()
        invariant
            i <= recs@.len(),
            out@.len() == i,
            forall|j: int| 0 <= j < recs@.len() ==> {
                &&& values_view(#[trigger] recs@[j]@) == record(vs, 11, j)
                &&& recs@[j]@.len() == 11
                &&& forall|m: int| 0 <= m < 11 ==> fits(unit_fields()[m], #[trigger] values_view(recs@[j]@)[m])
            },
            forall|j: int| 0 <= j < i ==> unit_matches(#[trigger] out@[j], record(vs, 11, j)),
        decreases recs@.len() - i,
    {
        let rec = &recs[i];
        let ghost v = values_view(recs@[i as int]@);
        assert(fits(unit_fields()[0], v[0]) && fits(unit_fields()[1], v[1]) && fits(unit_fields()[3], v[3]));
        assert(fits(unit_fields()[4], v[4]) && fits(unit_fields()[5], v[5]) && fits(unit_fields()[6], v[6]));
        assert(fits(unit_fields()[7], v[7]) && fits(unit_fields()[8], v[8]) && fits(unit_fields()[9], v[9]));
        assert(fits(unit_fields()[10], v[10]));
        out.push(MapUnit {
            unit: num_at(rec, 0) as i32,
            host_terrain: num_at(rec, 1) as i32,
            objects_per_group: num_at(rec, 3) as i32,
            fluctuation: num_at(rec, 4) as i32,
            groups_per_player: num_at(rec, 5) as i32,
            group_radius: num_at(rec, 6) as i32,
            own_at_start: num_at(rec, 7) as i32,
            set_place_for_all_players: num_at(rec, 8) as i32,
            min_distance_to_players: num_at(rec, 9) as i32,
            max_distance_to_players: num_at(rec, 10) as i32,
        });
        i = i + 1;
    }
    out
}

impl EmpiresDb {
    /// Reads one random map header.
    fn read_random_map_header(data: &[u8], pos: &mut u64) -> (r: Result<RandomMapHeader, EmpiresDbError>)
        ensures
            match fields_read(data@, *old(pos) as int, header_fields()) {
                Ok((vs, e)) => r matches Ok(h) && header_matches(h, vs) && *final(pos) == e,
                Err(e) => r == Err::<RandomMapHeader, EmpiresDbError>(EmpiresDbError::ReadError(e)),
            },
    {
        let layout = [
            Field::I32, Field::I32, Field::I32, Field::I32, Field::I32, Field::I32, Field::I32, Field::I32,
            Field::I32, Field::I32, Field::U32, Field::I32, Field::U32, Field::I32, Field::U32, Field::I32,
            Field::I32, Field::I32,
        ];
        assert(layout@ == header_fields());
        let v = read_values(data, pos, &layout)?;
        let ghost w = values_view(v@);
        assert(fits(header_fields()[0], w[0]) && fits(header_fields()[1], w[1]) && fits(header_fields()[2], w[2]));
        assert(fits(header_fields()[3], w[3]) && fits(header_fields()[4], w[4]) && fits(header_fields()[5], w[5]));
        assert(fits(header_fields()[6], w[6]) && fits(header_fields()[7], w[7]) && fits(header_fields()[8], w[8]));
        assert(fits(header_fields()[10], w[10]) && fits(header_fields()[12], w[12]) && fits(header_fields()[14], w[14]));
        Ok(RandomMapHeader {
            script_id: num_at(&v, 0) as i32,
            border_sw: num_at(&v, 1) as i32,
            border_nw: num_at(&v, 2) as i32,
            border_ne: num_at(&v, 3) as i32,
            border_se: num_at(&v, 4) as i32,
            border_usage: num_at(&v, 5) as i32,
            water_shape: num_at(&v, 6) as i32,
            non_base_terrain: num_at(&v, 7) as i32,
            base_zone_coverage: num_at(&v, 8) as i32,
            base_zone_count: num_at(&v, 10) as u32,
            terrain_count: num_at(&v, 12) as u32,
            unit_count: num_at(&v, 14) as u32,
        })
    }

    /// Reads one random map.
    fn read_random_map(data: &[u8], pos: &mut u64) -> (r: Result<RandomMap, EmpiresDbError>)
        ensures
            match random_map_read(data@, *old(pos) as int) {
                Ok(v) => r matches Ok(m) && map_matches(m, v) && *final(pos) == v.end,
                Err(e) => r == Err::<RandomMap, EmpiresDbError>(EmpiresDbError::ReadError(e)),
            },
    {
        let ghost p0 = *pos as int;
        let head_layout = [
            Field::I32, Field::I32, Field::I32, Field::I32, Field::I32, Field::I32, Field::I32, Field::I32,
            Field::I32, Field::U32, Field::U32,
        ];
        assert(head_layout@ == map_fields());
        let head = read_values(data, pos, &head_layout)?;
        let ghost hv = values_view(head@);
        assert(fits(map_fields()[0], hv[0]) && fits(map_fields()[1], hv[1]) && fits(map_fields()[2], hv[2]));
        assert(fits(map_fields()[3], hv[3]) && fits(map_fields()[4], hv[4]) && fits(map_fields()[5], hv[5]));
        assert(fits(map_fields()[6], hv[6]) && fits(map_fields()[7], hv[7]) && fits(map_fields()[9], hv[9]));
        let counts = [Field::U32, Field::U32];
        assert(counts@ == count_fields());

        let zone_layout = [Field::U32, Field::I32, Field::I32, Field::Skip(20), Field::I32, Field::Skip(8)];
        assert(zone_layout@ == zone_fields());
        let zone_count = num_at(&head, 9) as usize;
        let ghost q1 = *pos as int;
        let zone_recs = match read_records(data, pos, &zone_layout, zone_count) {
            Ok(v) => v,
            Err(e) => return Err(EmpiresDbError::ReadError(e)),
        };
        let ghost zones = fields_read(data@, q1, repeat(zone_fields(), zone_count as nat))->Ok_0.0;
        let base_zones = zones_from(&zone_recs, Ghost(zones));

        let tc = read_values(data, pos, &counts)?;
        assert(fits(count_fields()[0], values_view(tc@)[0]));
        let terrain_layout = [Field::I32, Field::I32, Field::I32, Field::I32, Field::I32, Field::I32];
        assert(terrain_layout@ == terrain_fields());
        let terrain_count = num_at(&tc, 0) as usize;
        let ghost q3 = *pos as int;
        let terrain_recs = match read_records(data, pos, &terrain_layout, terrain_count) {
            Ok(v) => v,
            Err(e) => return Err(EmpiresDbError::ReadError(e)),
        };
        let ghost terrains = fields_read(data@, q3, repeat(terrain_fields(), terrain_count as nat))->Ok_0.0;
        let terrains_read = terrains_from(&terrain_recs, Ghost(terrains));

        let uc = read_values(data, pos, &counts)?;
        assert(fits(count_fields()[0], values_view(uc@)[0]));
        let unit_layout = [
            Field::I32, Field::I32, Field::I32, Field::I32, Field::I32, Field::I32, Field::I32, Field::I32,
            Field::I32, Field::I32, Field::I32,
        ];
        assert(unit_layout@ == unit_fields());
        let unit_count = num_at(&uc, 0) as usize;
        let ghost q5 = *pos as int;
        let unit_recs = match read_records(data, pos, &unit_layout, unit_count) {
            Ok(v) => v,
            Err(e) => return Err(EmpiresDbError::ReadError(e)),
        };
        let ghost units = fields_read(data@, q5, repeat(unit_fields(), unit_count as nat))->Ok_0.0;
        let units_read = units_from(&unit_recs, Ghost(units));

        let kc = read_values(data, pos, &counts)?;
        assert(fits(count_fields()[0], values_view(kc@)[0]));
        let unknown_count = num_at(&kc, 0) as u64;
        match pos.checked_add(24 * unknown_count) {
            Some(q) => *pos = q,
            None => return Err(EmpiresDbError::ReadError(StreamError::SeekOverflow)),
        }
        Ok(RandomMap {
            border_sw: num_at(&head, 0) as i32,
            border_nw: num_at(&head, 1) as i32,
            border_ne: num_at(&head, 2) as i32,
            border_se: num_at(&head, 3) as i32,
            border_usage: num_at(&head, 4) as i32,
            water_shape: num_at(&head, 5) as i32,
            non_base_terrain: num_at(&head, 6) as i32,
            base_zone_coverage: num_at(&head, 7) as i32,
            base_zones,
            terrains: terrains_read,
            units: units_read,
        })
    }

    /// Reads the random map section (a count and an unused pointer, that
    /// many headers, then that many maps), appending the maps to the database.
    pub fn read_random_maps(&mut self, data: &[u8], pos: &mut u64) -> (r: Result<(), EmpiresDbError>)
        ensures
            final(self).terrain_restrictions@ == old(self).terrain_restrictions@,
            final(self).terrain_block == old(self).terrain_block,
            final(self).ages@ == old(self).ages@,
            final(self).research@ == old(self).research@,
            final(self).graphics@ == old(self).graphics@,
            final(self).player_colors@ == old(self).player_colors@,
            final(self).sound_effect_groups@ == old(self).sound_effect_groups@,
            final(self).random_maps@.len() >= old(self).random_maps@.len(),
            final(self).random_maps@.subrange(0, old(self).random_maps@.len() as int) == old(self).random_maps@,
            match random_maps_read(data@, *old(pos) as int) {
                Ok((ms, e)) => r is Ok && *final(pos) == e
                    && final(self).random_maps@.len() == old(self).random_maps@.len() + ms.len()
                    && forall|i: int| 0 <= i < ms.len() ==> map_matches(
                        #[trigger] final(self).random_maps@[old(self).random_maps@.len() + i],
                        ms[i],
                    ),
                Err(e) => r == Err::<(), EmpiresDbError>(EmpiresDbError::ReadError(e)),
            },
    {
        let ghost p0 = *pos as int;
        let ghost base = self.random_maps@.len();
        let random_map_count = match read_u32(data, pos) {
            Ok(v) => v as usize,
            Err(e) => return Err(EmpiresDbError::ReadError(e)),
        };
        match read_u32(data, pos) {
            Ok(_) => {},
            Err(e) => return Err(EmpiresDbError::ReadError(e)),
        }
        let ghost h0 = *pos as int;
        let mut i: usize = 0;
        assert(repeat(header_fields(), 0) == Seq::<Field>::empty());
        while i < random_map_count
            invariant
                i <= random_map_count,
                p0 == *old(pos),
                available(data@, p0, 8),
                random_map_count == u32_at(data@, p0),
                h0 == p0 + 8,
                fields_read(data@, h0, repeat(header_fields(), i as nat)) matches Ok((_, q)) && q == *pos,
                self.random_maps@ == old(self).random_maps@,
                self.graphics@ == old(self).graphics@,
                self.player_colors@ == old(self).player_colors@,
                self.terrain_restrictions@ == old(self).terrain_restrictions@,
                self.terrain_block == old(self).terrain_block,
                self.ages@ == old(self).ages@,
                self.research@ == old(self).research@,
                self.sound_effect_groups@ == old(self).sound_effect_groups@,
            decreases random_map_count - i,
        {
            proof {
                crate::layout::lemma_fields_read_concat(data@, h0, repeat(header_fields(), i as nat), header_fields());
            }
            assert(repeat(header_fields(), (i + 1) as nat) == repeat(header_fields(), i as nat) + header_fields());
            match EmpiresDb::read_random_map_header(data, pos) {
                Ok(_) => {},
                Err(e) => {
                    proof {
                        lemma_headers_error_stays(data@, h0, (i + 1) as nat, random_map_count as nat);
                    }
                    return Err(e);
                },
            }
            i = i + 1;
        }
        let ghost m0 = *pos as int;
        let ghost mut ms: Seq<MapValues> = Seq::empty();
        let mut k: usize = 0;
        while k < random_map_count
            invariant
                k <= random_map_count,
                p0 == *old(pos),
                ms.len() == k,
                available(data@, p0, 8),
                random_map_count == u32_at(data@, p0),
                fields_read(data@, p0 + 8, repeat(header_fields(), random_map_count as nat)) matches Ok((_, q)) && q == m0,
                maps_read(data@, m0, k as nat) == Ok::<(Seq<MapValues>, int), StreamError>((ms, *pos as int)),
                base == old(self).random_maps@.len(),
                self.random_maps@.len() == base + k,
                self.random_maps@.subrange(0, base as int) == old(self).random_maps@,
                forall|j: int| 0 <= j < k ==> map_matches(#[trigger] self.random_maps@[base + j], ms[j]),
                self.graphics@ == old(self).graphics@,
                self.player_colors@ == old(self).player_colors@,
                self.terrain_restrictions@ == old(self).terrain_restrictions@,
                self.terrain_block == old(self).terrain_block,
                self.ages@ == old(self).ages@,
                self.research@ == old(self).research@,
                self.sound_effect_groups@ == old(self).sound_effect_groups@,
            decreases random_map_count - k,
        {
            let ghost q = *pos as int;
            match EmpiresDb::read_random_map(data, pos) {
                Ok(m) => {
                    proof {
                        ms = ms.push(random_map_read(data@, q)->Ok_0);
                    }
                    let ghost before = self.random_maps@;
                    self.random_maps.push(m);
                    assert(self.random_maps@.subrange(0, base as int) == before.subrange(0, base as int));
                },
                Err(e) => {
                    proof {
                        lemma_maps_error_stays(data@, m0, (k + 1) as nat, random_map_count as nat);
                    }
                    return Err(e);
                },
            }
            k = k + 1;
        }
        Ok(())
    }
}

proof fn lemma_headers_error_stays(d: Seq<u8>, p: int, i: nat, n: nat)
    requires
        i <= n,
        fields_read(d, p, repeat(header_fields(), i)) is Err,
    ensures
        fields_read(d, p, repeat(header_fields(), n)) == fields_read(d, p, repeat(header_fields(), i)),
    decreases n - i,
{
    if i < n {
        crate::layout::lemma_fields_read_concat(d, p, repeat(header_fields(), i), header_fields());
        assert(repeat(header_fields(), i + 1) == repeat(header_fields(), i) + header_fields());
        lemma_headers_error_stays(d, p, i + 1, n);
    }
}

proof fn lemma_maps_error_stays(d: Seq<u8>, p: int, i: nat, n: nat)
    requires
        i <= n,
        maps_read(d, p, i) is Err,
    ensures
        maps_read(d, p, n) == maps_read(d, p, i),
    decreases n - i,
{
    if i < n {
        lemma_maps_error_stays(d, p, i + 1, n);
    }
}

} // verus!
