//! Sound effect groups.

use vstd::prelude::*;
use crate::layout::{fields_read, num, read_records, record, repeat, text, values_view, num_at, text_at, Field, FieldValue};
use crate::bytes::{available, read_u16, u16_at, StreamError};
use super::{read_values, EmpiresDb, EmpiresDbError};

verus! {

/// A sound file that a group may play.
#[derive(Default, Debug)]
pub struct SoundEffect {
    pub file_name: String,
    pub resource_id: i32,
    pub probability: u16,
}

impl SoundEffect {
    pub fn new() -> (r: SoundEffect)
        ensures
            r.file_name@.len() == 0,
            r.resource_id == 0,
            r.probability == 0,
    {
        SoundEffect { file_name: String::new(), resource_id: 0, probability: 0 }
    }
}

/// A group of sound effects of which one is played at a time.
#[derive(Default, Debug)]
pub struct SoundEffectGroup {
    pub id: u16,
    pub play_at_update_count: u16,
    pub cache_time: u32,
    pub sound_effects: Vec<SoundEffect>,
}

impl SoundEffectGroup {
    pub fn new() -> (r: SoundEffectGroup)
        ensures
            r.id == 0,
            r.play_at_update_count == 0,
            r.cache_time == 0,
            r.sound_effects@.len() == 0,
    {
        SoundEffectGroup { id: 0, play_at_update_count: 0, cache_time: 0, sound_effects: Vec::new() }
    }
}

/// The fields of a group header: id, update count, effect count, cache time.
pub open spec fn group_fields() -> Seq<Field> {
    seq![Field::U16, Field::U16, Field::U16, Field::U32]
}

/// The fields of an effect: file name, resource id, probability.
pub open spec fn effect_fields() -> Seq<Field> {
    seq![Field::Text(13), Field::I32, Field::U16]
}

/// A group at `p`: its header values, the values of its effects, and the end.
pub open spec fn group_read(d: Seq<u8>, p: int) -> Result<(Seq<FieldValue>, Seq<FieldValue>, int), StreamError> {
    match fields_read(d, p, group_fields()) {
        Err(e) => Err(e),
        Ok((h, q)) => match fields_read(d, q, repeat(effect_fields(), num(h, 2) as nat)) {
            Err(e) => Err(e),
            Ok((es, e)) => Ok((h, es, e)),
        },
    }
}

/// `n` groups one after another from `p`.
pub open spec fn groups_read(d: Seq<u8>, p: int, n: nat) -> Result<(Seq<(Seq<FieldValue>, Seq<FieldValue>)>, int), StreamError>
    decreases n,
{
    if n == 0 {
        Ok((Seq::empty(), p))
    } else {
        match groups_read(d, p, (n - 1) as nat) {
            Err(e) => Err(e),
            Ok((gs, q)) => match group_read(d, q) {
                Err(e) => Err(e),
                Ok((h, es, e)) => Ok((gs.push((h, es)), e)),
            },
        }
    }
}

/// An effect as its field values give it.
pub open spec fn effect_matches(x: SoundEffect, vs: Seq<FieldValue>) -> bool {
    x.file_name@ == text(vs, 0) && x.resource_id == num(vs, 1) && x.probability == num(vs, 2)
}

/// A group as its header and effect values give it.
pub open spec fn group_matches(g: SoundEffectGroup, h: Seq<FieldValue>, es: Seq<FieldValue>) -> bool {
    &&& g.id == num(h, 0)
    &&& g.play_at_update_count == num(h, 1)
    &&& g.cache_time == num(h, 3)
    &&& g.sound_effects@.len() == num(h, 2)
    &&& forall|i: int| 0 <= i < g.sound_effects@.len() ==> effect_matches(#[trigger] g.sound_effects@[i], record(es, 3, i))
}

/// The sound section: a count, then that many groups.
pub open spec fn sounds_read(d: Seq<u8>, p: int) -> Result<(Seq<(Seq<FieldValue>, Seq<FieldValue>)>, int), StreamError> {
    if !available(d, p, 2) {
        Err(StreamError::UnexpectedEof)
    } else {
        groups_read(d, p + 2, u16_at(d, p) as nat)
    }
}

fn read_sound_group(data: &[u8], pos: &mut u64) -> (r: Result<SoundEffectGroup, EmpiresDbError>)
    ensures
        match group_read(data@, *old(pos) as int) {
            Ok((h, es, e)) => r matches Ok(g) && group_matches(g, h, es) && *final(pos) == e,
            Err(e) => r == Err::<SoundEffectGroup, EmpiresDbError>(EmpiresDbError::ReadError(e)),
        },
{
    let layout = [Field::U16, Field::U16, Field::U16, Field::U32];
    assert(layout@ == group_fields());
    let h = read_values(data, pos, &layout)?;
    let count = num_at(&h, 2) as usize;
    let effect_layout = [Field::Text(13), Field::I32, Field::U16];
    assert(effect_layout@ == effect_fields());
    let ghost q = *pos as int;
    let recs = match read_records(data, pos, &effect_layout, count) {
        Ok(v) => v,
        Err(e) => return Err(EmpiresDbError::ReadError(e)),
    };
    let ghost es = fields_read(data@, q, repeat(effect_fields(), count as nat))->Ok_0.0;
    let mut effects: Vec<SoundEffect> = Vec::new();
    let mut i: usize = 0;
    while i < count
        invariant
            i <= count,
            recs@.len() == count,
            effects@.len() == i,
            forall|j: int| 0 <= j < count ==> {
                &&& values_view(#[trigger] recs@[j]@) == record(es, 3, j)
                &&& recs@[j]@.len() == 3
                &&& forall|m: int| 0 <= m < 3 ==> crate::layout::fits(effect_fields()[m], #[trigger] values_view(recs@[j]@)[m])
            },
            forall|j: int| 0 <= j < i ==> effect_matches(#[trigger] effects@[j], record(es, 3, j)),
        decreases count - i,
    {
        let rec = &recs[i];
        assert(crate::layout::fits(effect_fields()[0], values_view(recs@[i as int]@)[0]));
        assert(crate::layout::fits(effect_fields()[1], values_view(recs@[i as int]@)[1]));
        assert(crate::layout::fits(effect_fields()[2], values_view(recs@[i as int]@)[2]));
        let e = SoundEffect {
            file_name: text_at(rec, 0),
            resource_id: num_at(rec, 1) as i32,
            probability: num_at(rec, 2) as u16,
        };
        effects.push(e);
        i = i + 1;
    }
    Ok(SoundEffectGroup {
        id: num_at(&h, 0) as u16,
        play_at_update_count: num_at(&h, 1) as u16,
        cache_time: num_at(&h, 3) as u32,
        sound_effects: effects,
    })
}


impl EmpiresDb {
    /// Reads the sound section (a count, then that many groups), appending
    /// the groups to the database in order.
    pub fn read_sounds(&mut self, data: &[u8], pos: &mut u64) -> (r: Result<(), EmpiresDbError>)
        ensures
            final(self).terrain_restrictions@ == old(self).terrain_restrictions@,
            final(self).terrain_block == old(self).terrain_block,
            final(self).ages@ == old(self).ages@,
            final(self).research@ == old(self).research@,
            final(self).graphics@ == old(self).graphics@,
            final(self).player_colors@ == old(self).player_colors@,
            final(self).random_maps@ == old(self).random_maps@,
            final(self).sound_effect_groups@.len() >= old(self).sound_effect_groups@.len(),
            final(self).sound_effect_groups@.subrange(0, old(self).sound_effect_groups@.len() as int)
                == old(self).sound_effect_groups@,
            match sounds_read(data@, *old(pos) as int) {
                Ok((gs, e)) => r is Ok && *final(pos) == e
                    && final(self).sound_effect_groups@.len() == old(self).sound_effect_groups@.len() + gs.len()
                    && forall|i: int| 0 <= i < gs.len() ==> group_matches(
                        #[trigger] final(self).sound_effect_groups@[old(self).sound_effect_groups@.len() + i],
                        gs[i].0,
                        gs[i].1,
                    ),
                Err(e) => r == Err::<(), EmpiresDbError>(EmpiresDbError::ReadError(e)),
            },
    {
        let ghost p0 = *pos as int;
        let ghost base = self.sound_effect_groups@.len();
        let sound_count = match read_u16(data, pos) {
            Ok(v) => v,
            Err(e) => return Err(EmpiresDbError::ReadError(e)),
        };
        let ghost mut gs: Seq<(Seq<FieldValue>, Seq<FieldValue>)> = Seq::empty();
        let mut i: u16 = 0;
        while i < sound_count
            invariant
                i <= sound_count,
                p0 == *old(pos),
                available(data@, p0, 2),
                sound_count == u16_at(data@, p0),
                groups_read(data@, p0 + 2, i as nat) == Ok::<(Seq<(Seq<FieldValue>, Seq<FieldValue>)>, int), StreamError>((gs, *pos as int)),
                self.graphics@ == old(self).graphics@,
                self.player_colors@ == old(self).player_colors@,
                self.terrain_restrictions@ == old(self).terrain_restrictions@,
                self.terrain_block == old(self).terrain_block,
                self.ages@ == old(self).ages@,
                self.research@ == old(self).research@,
                self.random_maps@ == old(self).random_maps@,
                base == old(self).sound_effect_groups@.len(),
                gs.len() == i,
                self.sound_effect_groups@.len() == base + i,
                self.sound_effect_groups@.subrange(0, base as int) == old(self).sound_effect_groups@,
                forall|j: int| 0 <= j < i ==> group_matches(#[trigger] self.sound_effect_groups@[base + j], gs[j].0, gs[j].1),
            decreases sound_count - i,
        {
            let ghost q = *pos as int;
            match read_sound_group(data, pos) {
                Ok(g) => {
                    proof {
                        let (h, es, _) = group_read(data@, q)->Ok_0;
                        gs = gs.push((h, es));
                    }
                    let ghost before = self.sound_effect_groups@;
                    self.sound_effect_groups.push(g);
                    assert(self.sound_effect_groups@.subrange(0, base as int) == before.subrange(0, base as int));
                },
                Err(e) => {
                    proof {
                        lemma_groups_error_stays(data@, p0 + 2, (i + 1) as nat, sound_count as nat);
                    }
                    return Err(e);
                },
            }
            i = i + 1;
        }
        Ok(())
    }
}

proof fn lemma_groups_error_stays(d: Seq<u8>, p: int, i: nat, n: nat)
    requires
        i <= n,
        groups_read(d, p, i) is Err,
    ensures
        groups_read(d, p, n) == groups_read(d, p, i),
    decreases n - i,
{
    if i < n {
        lemma_groups_error_stays(d, p, i + 1, n);
    }
}

} // verus!
