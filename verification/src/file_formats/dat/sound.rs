//! Sound effect groups, with identifiers for groups and sound files.

use vstd::prelude::*;
use crate::layout::{fields_read, num, read_records, record, repeat, text, values_view, num_at, text_at, Field, FieldValue};
use crate::bytes::{available, read_u16, u16_at, StreamError};
use crate::dat::sound::{effect_fields, group_fields, group_read, groups_read, sounds_read};
use crate::dat::id::{SoundGroupId, WavFileId};
use crate::dat::{read_values, EmpiresDbError};

verus! {

/// A sound file that a group may play.
#[derive(Default, Debug)]
pub struct SoundEffect {
    pub file_name: String,
    /// ID of the wav file in sounds.drs
    pub resource_id: WavFileId,
    pub probability: u16,
}

/// A group of sound effects of which one is played at a time.
#[derive(Default, Debug)]
pub struct SoundEffectGroup {
    pub id: SoundGroupId,
    pub play_at_update_count: u16,
    pub cache_time: u32,
    pub sound_effects: Vec<SoundEffect>,
}

/// An effect as its field values give it.
pub open spec fn effect_matches(x: SoundEffect, vs: Seq<FieldValue>) -> bool {
    x.file_name@ == text(vs, 0) && x.resource_id == WavFileId(num(vs, 1) as isize) && x.probability == num(vs, 2) as u16
}

/// A group as its header and effect values give it.
pub open spec fn group_matches(g: SoundEffectGroup, h: Seq<FieldValue>, es: Seq<FieldValue>) -> bool {
    &&& g.id == SoundGroupId(num(h, 0) as isize)
    &&& g.play_at_update_count == num(h, 1) as u16
    &&& g.cache_time == num(h, 3) as u32
    &&& g.sound_effects@.len() == num(h, 2)
    &&& forall|i: int| 0 <= i < g.sound_effects@.len() ==> effect_matches(#[trigger] g.sound_effects@[i], record(es, 3, i))
}

fn read_sound_group(data: &[u8], pos: &mut u64) -> (r: Result<SoundEffectGroup, EmpiresDbError>)
    ensures
        match group_read(data@, *old(pos) as int) {
            Ok((h, es, e)) => r matches Ok(g) && group_matches(g, h, es) && *final(pos) == e,
            Err(e) => r == Err::<SoundEffectGroup, EmpiresDbError>(EmpiresDbError::ReadError(e)),
        },
{
    let layout = [Field::U16, Field::U16, Field::U16, Field::U32];
    assert(layout@ == group_fields());
    let h = read_values(data, pos, &layout)?;
    assert(crate::layout::fits(group_fields()[2], values_view(h@)[2]));
    let count = num_at(&h, 2) as usize;
    let effect_layout = [Field::Text(13), Field::I32, Field::U16];
    assert(effect_layout@ == effect_fields());
    let ghost q = *pos as int;
    let recs = match read_records(data, pos, &effect_layout, count) {
        Ok(v) => v,
        Err(e) => return Err(EmpiresDbError::ReadError(e)),
    };
    let ghost es = fields_read(data@, q, repeat(effect_fields(), count as nat))->Ok_0.0;
    let mut effects: Vec<SoundEffect> = Vec::new();
    let mut i: usize = 0;
    while i < count
        invariant
            i <= count,
            recs@.len() == count,
            effects@.len() == i,
            forall|j: int| 0 <= j < count ==> {
                &&& values_view(#[trigger] recs@[j]@) == record(es, 3, j)
                &&& recs@[j]@.len() == 3
            },
            forall|j: int| 0 <= j < i ==> effect_matches(#[trigger] effects@[j], record(es, 3, j)),
        decreases count - i,
    {
        let rec = &recs[i];
        effects.push(SoundEffect {
            file_name: text_at(rec, 0),
            resource_id: WavFileId(#[verifier::truncate] (num_at(rec, 1) as isize)),
            probability: #[verifier::truncate] (num_at(rec, 2) as u16),
        });
        i = i + 1;
    }
    Ok(SoundEffectGroup {
        id: SoundGroupId(#[verifier::truncate] (num_at(&h, 0) as isize)),
        play_at_update_count: #[verifier::truncate] (num_at(&h, 1) as u16),
        cache_time: #[verifier::truncate] (num_at(&h, 3) as u32),
        sound_effects: effects,
    })
}

proof fn lemma_groups_error_stays(d: Seq<u8>, p: int, i: nat, n: nat)
    requires
        i <= n,
        groups_read(d, p, i) is Err,
    ensures
        groups_read(d, p, n) == groups_read(d, p, i),
    decreases n - i,
{
    if i < n {
        lemma_groups_error_stays(d, p, i + 1, n);
    }
}

/// Reads the sound section: a count, then that many groups.
pub fn read_sound_effect_groups(data: &[u8], pos: &mut u64) -> (r: Result<Vec<SoundEffectGroup>, EmpiresDbError>)
    ensures
        match sounds_read(data@, *old(pos) as int) {
            Ok((gs, e)) => r matches Ok(groups) && *final(pos) == e && groups@.len() == gs.len()
                && forall|i: int| 0 <= i < gs.len() ==> group_matches(#[trigger] groups@[i], gs[i].0, gs[i].1),
            Err(e) => r == Err::<Vec<SoundEffectGroup>, EmpiresDbError>(EmpiresDbError::ReadError(e)),
        },
{
    let ghost p0 = *pos as int;
    let sound_count = match read_u16(data, pos) {
        Ok(v) => v,
        Err(e) => return Err(EmpiresDbError::ReadError(e)),
    };
    let mut groups: Vec<SoundEffectGroup> = Vec::new();
    let ghost mut gs: Seq<(Seq<FieldValue>, Seq<FieldValue>)> = Seq::empty();
    let mut i: u16 = 0;
    while i < sound_count
        invariant
            i <= sound_count,
            p0 == *old(pos),
            available(data@, p0, 2),
            sound_count == u16_at(data@, p0),
            groups_read(data@, p0 + 2, i as nat) == Ok::<(Seq<(Seq<FieldValue>, Seq<FieldValue>)>, int), StreamError>((gs, *pos as int)),
            gs.len() == i,
            groups@.len() == i,
            forall|j: int| 0 <= j < i ==> group_matches(#[trigger] groups@[j], gs[j].0, gs[j].1),
        decreases sound_count - i,
    {
        let ghost q = *pos as int;
        match read_sound_group(data, pos) {
            Ok(g) => {
                proof {
                    let (h, es, _) = group_read(data@, q)->Ok_0;
                    gs = gs.push((h, es));
                }
                groups.push(g);
            },
            Err(e) => {
                proof {
                    lemma_groups_error_stays(data@, p0 + 2, (i + 1) as nat, sound_count as nat);
                }
                return Err(e);
            },
        }
        i = i + 1;
    }
    Ok(groups)
}

} // verus!
