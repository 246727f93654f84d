//! Terrain restrictions: for each restriction, one value per terrain.

use vstd::prelude::*;
use crate::layout::{fields_read, num, read_records, record, repeat, values_view, num_at, Field, FieldValue};
use crate::bytes::StreamError;
use super::EmpiresDbError;

verus! {

/// A terrain restriction: one value per terrain (passable, buildable or a
/// damage multiplier), each the raw bits of a 32-bit float.
#[derive(Default, Debug)]
pub struct TerrainRestriction {
    pub some_floats: Vec<u32>,
}

/// The restrictions at `p`: `count` pointers, then `count` restrictions of
/// `terrain_count` floats each.
pub open spec fn restrictions_read(d: Seq<u8>, p: int, count: nat, terrain_count: nat) -> Result<(Seq<FieldValue>, int), StreamError> {
    match fields_read(d, p, repeat(seq![Field::U32], count)) {
        Err(e) => Err(e),
        Ok((_, q)) => fields_read(d, q, repeat(seq![Field::F32], count * terrain_count)),
    }
}

/// Reads the terrain restrictions: the pointers are passed over, then each
/// restriction holds one float per terrain.
pub fn read_terrain_restrictions(
    data: &[u8],
    pos: &mut u64,
    terrain_restriction_count: usize,
    terrain_count: usize,
) -> (r: Result<Vec<TerrainRestriction>, EmpiresDbError>)
    requires
        terrain_restriction_count * terrain_count <= usize::MAX,
    ensures
        match restrictions_read(data@, *old(pos) as int, terrain_restriction_count as nat, terrain_count as nat) {
            Ok((vs, e)) => r matches Ok(rs) && *final(pos) == e && rs@.len() == terrain_restriction_count
                && forall|i: int| 0 <= i < terrain_restriction_count ==> {
                    &&& (#[trigger] rs@[i]).some_floats@.len() == terrain_count
                    &&& forall|j: int| 0 <= j < terrain_count ==> rs@[i].some_floats@[j] == num(vs, i * terrain_count + j) as u32
                },
            Err(e) => r == Err::<Vec<TerrainRestriction>, EmpiresDbError>(EmpiresDbError::ReadError(e)),
        },
{
    let pointer = [Field::U32];
    assert(pointer@ == seq![Field::U32]);
    match read_records(data, pos, &pointer, terrain_restriction_count) {
        Ok(_) => {},
        Err(e) => return Err(EmpiresDbError::ReadError(e)),
    }
    let float = [Field::F32];
    assert(float@ == seq![Field::F32]);
    let total = terrain_restriction_count * terrain_count;
    let ghost q = *pos as int;
    let recs = match read_records(data, pos, &float, total) {
        Ok(v) => v,
        Err(e) => return Err(EmpiresDbError::ReadError(e)),
    };
    let ghost vs = fields_read(data@, q, repeat(seq![Field::F32], total as nat))->Ok_0.0;
    let mut restrictions: Vec<TerrainRestriction> = Vec::new();
    let mut i: usize = 0;
    while i < terrain_restriction_count
        invariant
            i <= terrain_restriction_count,
            total == terrain_restriction_count * terrain_count,
            recs@.len() == total,
            vs.len() == total,
            forall|j: int| 0 <= j < total ==> {
                &&& values_view(#[trigger] recs@[j]@) == record(vs, 1, j)
                &&& recs@[j]@.len() == 1
            },
            restrictions@.len() == i,
            forall|a: int| 0 <= a < i ==> {
                &&& (#[trigger] restrictions@[a]).some_floats@.len() == terrain_count
                &&& forall|b: int| 0 <= b < terrain_count ==> restrictions@[a].some_floats@[b] == num(vs, a * terrain_count + b) as u32
            },
        decreases terrain_restriction_count - i,
    {
        let mut floats: Vec<u32> = Vec::new();
        let mut k: usize = 0;
        assert((i + 1) * terrain_count <= total) by (nonlinear_arith)
            requires
                i < terrain_restriction_count,
                total == terrain_restriction_count * terrain_count,
        ;
        while k < terrain_count
            invariant
                k <= terrain_count,
                (i + 1) * terrain_count <= total,
                recs@.len() == total,
                vs.len() == total,
                forall|j: int| 0 <= j < total ==> {
                    &&& values_view(#[trigger] recs@[j]@) == record(vs, 1, j)
                    &&& recs@[j]@.len() == 1
                },
                floats@.len() == k,
                forall|b: int| 0 <= b < k ==> #[trigger] floats@[b] == num(vs, i * terrain_count + b) as u32,
            decreases terrain_count - k,
        {
            assert(i * terrain_count + k < total) by (nonlinear_arith)
                requires
                    k < terrain_count,
                    (i + 1) * terrain_count <= total,
            ;
            let index = i * terrain_count + k;
            assert(record(vs, 1, index as int)[0] == vs[index as int]);
            floats.push(#[verifier::truncate] (num_at(&recs[index], 0) as u32));
            k = k + 1;
        }
        restrictions.push(TerrainRestriction { some_floats: floats });
        i = i + 1;
    }
    Ok(restrictions)
}

} // verus!
