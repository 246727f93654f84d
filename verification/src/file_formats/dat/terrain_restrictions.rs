//! Terrain restrictions in the later reader of the empires database: each
//! restriction, by its identifier, maps every terrain to how passable it is.

use vstd::prelude::*;
use std::collections::BTreeMap;
use crate::dat::terrain_restrictions::{read_terrain_restrictions as read_rows, restrictions_read};
use crate::dat::EmpiresDbError;
use crate::identifier::{restriction_of_index, UnitTerrainRestrictionId};
use crate::layout::{num, FieldValue};

verus! {

/// A terrain restriction: for each terrain (by its ID), whether a unit can
/// stand on it (0 or 1), or its share where several terrains are needed (a
/// dock stands on land, beach and shallows); each value the raw bits of a
/// 32-bit float.
#[derive(Default, Debug)]
pub struct TerrainRestriction {
    pub id: UnitTerrainRestrictionId,
    pub passability_map: BTreeMap<u8, u32>,
}

/// The passability of the first `k` terrains of restriction `i`, by terrain ID
/// (the low eight bits of the terrain's position).
pub open spec fn passability_of(vs: Seq<FieldValue>, i: int, terrain_count: int, k: int) -> Map<u8, u32>
    decreases k,
{
    if k <= 0 {
        Map::empty()
    } else {
        passability_of(vs, i, terrain_count, k - 1).insert((k - 1) as u8, num(vs, i * terrain_count + k - 1) as u32)
    }
}

/// Reads the terrain restrictions: the pointers are passed over, then each
/// restriction holds one float per terrain; restriction `i` gets the
/// identifier of index `i`.
pub fn read_terrain_restrictions(
    data: &[u8],
    pos: &mut u64,
    terrain_restriction_count: usize,
    terrain_count: usize,
) -> (r: Result<Vec<TerrainRestriction>, EmpiresDbError>)
    requires
        terrain_restriction_count * terrain_count <= usize::MAX,
    ensures
        match restrictions_read(data@, *old(pos) as int, terrain_restriction_count as nat, terrain_count as nat) {
            Ok((vs, e)) => r matches Ok(rs) && *final(pos) == e && rs@.len() == terrain_restriction_count
                && forall|i: int| 0 <= i < terrain_restriction_count ==> {
                    &&& (#[trigger] rs@[i]).id == restriction_of_index(i as usize)
                    &&& rs@[i].passability_map@ == passability_of(vs, i, terrain_count as int, terrain_count as int)
                },
            Err(e) => r == Err::<Vec<TerrainRestriction>, EmpiresDbError>(EmpiresDbError::ReadError(e)),
        },
{
    let ghost p0 = *pos as int;
    let rows = read_rows(data, pos, terrain_restriction_count, terrain_count)?;
    let ghost vs = restrictions_read(data@, p0, terrain_restriction_count as nat, terrain_count as nat)->Ok_0.0;
    let mut restrictions: Vec<TerrainRestriction> = Vec::new();
    let mut i: usize = 0;
    while i < rows.len()
        invariant
            i <= rows@.len(),
            rows@.len() == terrain_restriction_count,
            forall|a: int| 0 <= a < terrain_restriction_count ==> {
                &&& (#[trigger] rows@[a]).some_floats@.len() == terrain_count
                &&& forall|b: int| 0 <= b < terrain_count ==> rows@[a].some_floats@[b] == num(vs, a * terrain_count + b) as u32
            },
            restrictions@.len() == i,
            forall|a: int| 0 <= a < i ==> {
                &&& (#[trigger] restrictions@[a]).id == restriction_of_index(a as usize)
                &&& restrictions@[a].passability_map@ == passability_of(vs, a, terrain_count as int, terrain_count as int)
            },
        decreases rows@.len() - i,
    {
        let mut map: BTreeMap<u8, u32> = BTreeMap::new();
        let mut k: usize = 0;
        while k < terrain_count
            invariant
                k <= terrain_count,
                i < rows@.len(),
                rows@[i as int].some_floats@.len() == terrain_count,
                forall|b: int| 0 <= b < terrain_count ==> rows@[i as int].some_floats@[b] == num(vs, i * terrain_count + b) as u32,
                map@ == passability_of(vs, i as int, terrain_count as int, k as int),
            decreases terrain_count - k,
        {
            map.insert(#[verifier::truncate] (k as u8), rows[i].some_floats[k]);
            k = k + 1;
        }
        restrictions.push(TerrainRestriction { id: UnitTerrainRestrictionId::from_index(i), passability_map: map });
        i = i + 1;
    }
    Ok(restrictions)
}

} // verus!
