//! The players' starting resources.

use vstd::prelude::*;
use crate::layout::{fields_read, num, read_records, record, repeat, values_view, num_at, Field};
use crate::bytes::StreamError;
use crate::identifier::PlayerId;

verus! {

/// The resources of a player; each amount is the raw bits of a 32-bit float.
#[derive(Default, Debug, Clone, Copy, PartialEq, Eq)]
pub struct PlayerResources {
    pub player_id: PlayerId,
    pub food: u32,
    pub wood: u32,
    pub gold: u32,
    pub stone: u32,
}

/// The fields of a player's resources: food, wood, gold and stone.
pub open spec fn resources_fields() -> Seq<Field> {
    seq![Field::F32, Field::F32, Field::F32, Field::F32]
}

impl PlayerResources {
    /// Reads the resources of the eight players, each given its index.
    pub fn read_from_stream(data: &[u8], pos: &mut u64) -> (r: Result<Vec<PlayerResources>, StreamError>)
        ensures
            match fields_read(data@, *old(pos) as int, repeat(resources_fields(), 8)) {
                Ok((vs, e)) => r matches Ok(rs) && *final(pos) == e && rs@.len() == 8
                    && forall|i: int| 0 <= i < 8 ==> #[trigger] rs@[i] == (PlayerResources {
                        player_id: PlayerId(i as u8),
                        food: num(vs, 4 * i) as u32,
                        wood: num(vs, 4 * i + 1) as u32,
                        gold: num(vs, 4 * i + 2) as u32,
                        stone: num(vs, 4 * i + 3) as u32,
                    }),
                Err(e) => r == Err::<Vec<PlayerResources>, StreamError>(e),
            },
    {
        let layout = [Field::F32, Field::F32, Field::F32, Field::F32];
        assert(layout@ == resources_fields());
        let ghost p0 = *pos as int;
        let recs = read_records(data, pos, &layout, 8)?;
        let ghost vs = fields_read(data@, p0, repeat(resources_fields(), 8))->Ok_0.0;
        let mut resources: Vec<PlayerResources> = Vec::new();
        let mut i: usize = 0;
        while i < 8
            invariant
                i <= 8,
                recs@.len() == 8,
                vs.len() == 32,
                forall|j: int| 0 <= j < 8 ==> {
                    &&& values_view(#[trigger] recs@[j]@) == record(vs, 4, j)
                    &&& recs@[j]@.len() == 4
                },
                resources@.len() == i,
                forall|j: int| 0 <= j < i ==> #[trigger] resources@[j] == (PlayerResources {
                    player_id: PlayerId(j as u8),
                    food: num(vs, 4 * j) as u32,
                    wood: num(vs, 4 * j + 1) as u32,
                    gold: num(vs, 4 * j + 2) as u32,
                    stone: num(vs, 4 * j + 3) as u32,
                }),
            decreases 8 - i,
        {
            let rec = &recs[i];
            assert(record(vs, 4, i as int)[0] == vs[4 * i]);
            assert(record(vs, 4, i as int)[1] == vs[4 * i + 1]);
            assert(record(vs, 4, i as int)[2] == vs[4 * i + 2]);
            assert(record(vs, 4, i as int)[3] == vs[4 * i + 3]);
            resources.push(PlayerResources {
                player_id: PlayerId::from_usize(i),
                food: #[verifier::truncate] (num_at(rec, 0) as u32),
                wood: #[verifier::truncate] (num_at(rec, 1) as u32),
                gold: #[verifier::truncate] (num_at(rec, 2) as u32),
                stone: #[verifier::truncate] (num_at(rec, 3) as u32),
            });
            i = i + 1;
        }
        Ok(resources)
    }
}

} // verus!
