//! Graphics, with their references to other data as identifiers.
//!
//! The records are laid out as `dat::graphics` reads them. Here an absent
//! reference (stored as -1) becomes `None`, deltas and attack sounds that
//! reference nothing are left out, and every graphic must carry its own id:
//! the reader gives up on a graphic whose id is -1.

use vstd::prelude::*;
use crate::layout::{fields_read, num, read_records, record, repeat, text, values_view, num_at, text_at, Field, FieldValue};
use crate::bytes::{available, read_u16, u16_at, StreamError};
use crate::dat::graphics::{attack_sound_fields, delta_fields, graphic_fields, graphic_read, GraphicValues};
use crate::dat::{read_values, EmpiresDbError};
use crate::identifier::{GraphicId, PlayerColorId, SlpFileId, SoundGroupId};

verus! {

/// A sound played with an attack.
#[derive(Default, Debug, Clone, Copy, PartialEq, Eq)]
pub struct GraphicAttackSound {
    pub sound_delay: i16,
    pub sound_group_id: SoundGroupId,
}

/// Additional graphic to draw with a graphic.
#[derive(Default, Debug, Clone, Copy, PartialEq, Eq)]
pub struct GraphicDelta {
    /// Graphic ID to draw
    pub graphic_id: GraphicId,
    /// X offset from parent graphic
    pub offset_x: i16,
    /// Y offset from parent graphic
    pub offset_y: i16,
    /// Appears to be unused in AOE 1
    pub display_angle: i16,
}

/// A graphic. The three speeds are the raw bits of 32-bit floats.
#[derive(Default, Debug)]
pub struct Graphic {
    pub id: GraphicId,
    pub name: String,
    pub short_name: String,
    pub slp_id: Option<SlpFileId>,
    pub layer: u8,
    pub player_color_id: Option<PlayerColorId>,
    pub second_player_color_id: Option<PlayerColorId>,
    /// Whether or not to replay at the end of the animation
    pub replay: bool,
    pub coordinates: Vec<u16>,
    /// Sound played when graphic is on screen
    pub sound_group_id: Option<SoundGroupId>,
    pub frame_count: u16,
    pub angle_count: u16,
    pub new_speed: u32,
    pub frame_rate: u32,
    pub replay_delay: u32,
    pub sequence_type: u8,
    pub mirror_mode: u8,
    /// Deltas this graphic would create.
    pub deltas: Vec<GraphicDelta>,
    pub attack_sounds: Vec<GraphicAttackSound>,
}

/// The deltas among the first `n` delta records that reference a graphic.
pub open spec fn kept_deltas(vs: Seq<FieldValue>, n: nat) -> Seq<GraphicDelta>
    decreases n,
{
    if n == 0 {
        Seq::empty()
    } else {
        let rec = record(vs, 6, n - 1);
        let kept = kept_deltas(vs, (n - 1) as nat);
        if num(rec, 0) == -1 {
            kept
        } else {
            kept.push(GraphicDelta {
                graphic_id: GraphicId(num(rec, 0) as u32),
                offset_x: num(rec, 2) as i16,
                offset_y: num(rec, 3) as i16,
                display_angle: num(rec, 4) as i16,
            })
        }
    }
}

/// The attack sounds among the first `n` records that reference a sound group.
pub open spec fn kept_attack_sounds(vs: Seq<FieldValue>, n: nat) -> Seq<GraphicAttackSound>
    decreases n,
{
    if n == 0 {
        Seq::empty()
    } else {
        let rec = record(vs, 2, n - 1);
        let kept = kept_attack_sounds(vs, (n - 1) as nat);
        if num(rec, 1) == -1 {
            kept
        } else {
            kept.push(GraphicAttackSound { sound_delay: num(rec, 0) as i16, sound_group_id: SoundGroupId(num(rec, 1) as u32) })
        }
    }
}

/// `None` for -1, else the value as an identifier.
pub open spec fn optional_slp(v: int) -> Option<SlpFileId> {
    if v == -1 { None } else { Some(SlpFileId(v as u32)) }
}

pub open spec fn optional_color(v: int) -> Option<PlayerColorId> {
    if v == -1 { None } else { Some(PlayerColorId(v as u8)) }
}

pub open spec fn optional_sound(v: int) -> Option<SoundGroupId> {
    if v == -1 { None } else { Some(SoundGroupId(v as u32)) }
}

/// A graphic at `p` whose id must be present: `None` where the id is -1.
pub open spec fn graphic_with_id_read(d: Seq<u8>, p: int) -> Option<Result<GraphicValues, StreamError>> {
    match fields_read(d, p, graphic_fields()) {
        Err(e) => Some(Err(e)),
        Ok((head, _)) => if num(head, 21) == -1 {
            None
        } else {
            Some(graphic_read(d, p))
        },
    }
}

/// A graphic as its values give it.
pub open spec fn graphic_matches(g: Graphic, v: GraphicValues) -> bool {
    let h = v.head;
    &&& g.id == GraphicId(num(h, 21) as u32)
    &&& g.name@ == text(h, 0) && g.short_name@ == text(h, 1)
    &&& g.slp_id == optional_slp(num(h, 2))
    &&& g.layer == num(h, 4) as u8
    &&& g.player_color_id == optional_color(num(h, 5)) && g.second_player_color_id == optional_color(num(h, 6))
    &&& g.replay == (num(h, 7) != 0)
    &&& g.coordinates@ == seq![num(h, 8) as u16, num(h, 9) as u16, num(h, 10) as u16, num(h, 11) as u16]
    &&& g.sound_group_id == optional_sound(num(h, 13))
    &&& g.frame_count == num(h, 15) as u16 && g.angle_count == num(h, 16) as u16
    &&& g.new_speed == num(h, 17) as u32 && g.frame_rate == num(h, 18) as u32 && g.replay_delay == num(h, 19) as u32
    &&& g.sequence_type == num(h, 20) as u8 && g.mirror_mode == num(h, 22) as u8
    &&& g.deltas@ == kept_deltas(v.deltas, num(h, 12) as nat)
    &&& g.attack_sounds@ == kept_attack_sounds(v.sounds, v.sound_count as nat)
}

/// The graphics for the first `n` pointers from `p`, skipping zero pointers;
/// `None` where the reader gives up on a graphic without an id.
pub open spec fn graphics_with_ids_from(d: Seq<u8>, p: int, ptrs: Seq<FieldValue>, n: nat) -> Option<Result<(Seq<GraphicValues>, int), StreamError>>
    decreases n,
{
    if n == 0 {
        Some(Ok((Seq::empty(), p)))
    } else {
        match graphics_with_ids_from(d, p, ptrs, (n - 1) as nat) {
            None => None,
            Some(Err(e)) => Some(Err(e)),
            Some(Ok((gs, q))) => if num(ptrs, n - 1) == 0 {
                Some(Ok((gs, q)))
            } else {
                match graphic_with_id_read(d, q) {
                    None => None,
                    Some(Err(e)) => Some(Err(e)),
                    Some(Ok(g)) => Some(Ok((gs.push(g), g.end))),
                }
            },
        }
    }
}

/// The graphics section at `p`: a count, that many pointers, then a graphic
/// for each pointer that is not zero.
pub open spec fn graphics_with_ids_read(d: Seq<u8>, p: int) -> Option<Result<(Seq<GraphicValues>, int), StreamError>> {
    if !available(d, p, 2) {
        Some(Err(StreamError::UnexpectedEof))
    } else {
        let n = u16_at(d, p) as nat;
        match fields_read(d, p + 2, repeat(seq![Field::U32], n)) {
            Err(e) => Some(Err(e)),
            Ok((ptrs, q)) => graphics_with_ids_from(d, q, ptrs, n),
        }
    }
}

fn optional_u8(v: i64) -> (r: Option<u8>)
    ensures
        v == -1 ==> r is None,
        v != -1 ==> r == Some(v as u8),
{
    if v == -1 { None } else { Some(#[verifier::truncate] (v as u8)) }
}

fn optional_u32(v: i64) -> (r: Option<u32>)
    ensures
        v == -1 ==> r is None,
        v != -1 ==> r == Some(v as u32),
{
    if v == -1 { None } else { Some(#[verifier::truncate] (v as u32)) }
}

/// Reads one graphic; `None` where its id is -1.
fn read_graphic(data: &[u8], pos: &mut u64) -> (r: Option<Result<Graphic, EmpiresDbError>>)
    ensures
        match graphic_with_id_read(data@, *old(pos) as int) {
            None => r is None,
            Some(Ok(v)) => r matches Some(Ok(g)) && graphic_matches(g, v) && *final(pos) == v.end,
            Some(Err(e)) => r == Some(Err::<Graphic, EmpiresDbError>(EmpiresDbError::ReadError(e))),
        },
{
    let layout = [
        Field::Text(21), Field::Text(13), Field::I32, Field::Skip(2), Field::U8, Field::I8, Field::I8,
        Field::U8, Field::U16, Field::U16, Field::U16, Field::U16, Field::U16, Field::I16, Field::U8,
        Field::U16, Field::U16, Field::F32, Field::F32, Field::F32, Field::U8, Field::U16, Field::U8,
    ];
    assert(layout@ == graphic_fields());
    let h = match read_values(data, pos, &layout) {
        Ok(v) => v,
        Err(e) => return Some(Err(e)),
    };
    let raw_id = num_at(&h, 21);
    if raw_id == -1 {
        return None;
    }
    let ghost hv = values_view(h@);
    assert(crate::layout::fits(graphic_fields()[12], hv[12]) && crate::layout::fits(graphic_fields()[16], hv[16]));

    let delta_layout = [Field::I16, Field::Skip(6), Field::U16, Field::U16, Field::I16, Field::Skip(2)];
    assert(delta_layout@ == delta_fields());
    let delta_count = num_at(&h, 12) as usize;
    let ghost q1 = *pos as int;
    let delta_recs = match read_records(data, pos, &delta_layout, delta_count) {
        Ok(v) => v,
        Err(e) => return Some(Err(EmpiresDbError::ReadError(e))),
    };
    let ghost dv = fields_read(data@, q1, repeat(delta_fields(), delta_count as nat))->Ok_0.0;
    let mut deltas: Vec<GraphicDelta> = Vec::new();
    let mut i: usize = 0;
    while i < delta_count
        invariant
            i <= delta_count,
            delta_recs@.len() == delta_count,
            forall|j: int| 0 <= j < delta_count ==> {
                &&& values_view(#[trigger] delta_recs@[j]@) == record(dv, 6, j)
                &&& delta_recs@[j]@.len() == 6
            },
            deltas@ == kept_deltas(dv, i as nat),
        decreases delta_count - i,
    {
        let rec = &delta_recs[i];
        let graphic_id = num_at(rec, 0);
        if graphic_id != -1 {
            deltas.push(GraphicDelta {
                graphic_id: GraphicId(#[verifier::truncate] (graphic_id as u32)),
                offset_x: #[verifier::truncate] (num_at(rec, 2) as i16),
                offset_y: #[verifier::truncate] (num_at(rec, 3) as i16),
                display_angle: #[verifier::truncate] (num_at(rec, 4) as i16),
            });
        }
        i = i + 1;
    }

    let attack_sound_used = num_at(&h, 14);
    let angle_count = num_at(&h, 16) as u16;
    let sound_count: usize = if attack_sound_used != 0 { 3 * angle_count as usize } else { 0 };
    let sound_layout = [Field::I16, Field::I16];
    assert(sound_layout@ == attack_sound_fields());
    let ghost q2 = *pos as int;
    let sound_recs = match read_records(data, pos, &sound_layout, sound_count) {
        Ok(v) => v,
        Err(e) => return Some(Err(EmpiresDbError::ReadError(e))),
    };
    let ghost sv = fields_read(data@, q2, repeat(attack_sound_fields(), sound_count as nat))->Ok_0.0;
    let mut attack_sounds: Vec<GraphicAttackSound> = Vec::new();
    let mut k: usize = 0;
    while k < sound_count
        invariant
            k <= sound_count,
            sound_recs@.len() == sound_count,
            forall|j: int| 0 <= j < sound_count ==> {
                &&& values_view(#[trigger] sound_recs@[j]@) == record(sv, 2, j)
                &&& sound_recs@[j]@.len() == 2
            },
            attack_sounds@ == kept_attack_sounds(sv, k as nat),
        decreases sound_count - k,
    {
        let rec = &sound_recs[k];
        let group = num_at(rec, 1);
        if group != -1 {
            attack_sounds.push(GraphicAttackSound {
                sound_delay: #[verifier::truncate] (num_at(rec, 0) as i16),
                sound_group_id: SoundGroupId(#[verifier::truncate] (group as u32)),
            });
        }
        k = k + 1;
    }
    let mut coordinates: Vec<u16> = Vec::new();
    coordinates.push(#[verifier::truncate] (num_at(&h, 8) as u16));
    coordinates.push(#[verifier::truncate] (num_at(&h, 9) as u16));
    coordinates.push(#[verifier::truncate] (num_at(&h, 10) as u16));
    coordinates.push(#[verifier::truncate] (num_at(&h, 11) as u16));
    assert(coordinates@ =~= seq![num(hv, 8) as u16, num(hv, 9) as u16, num(hv, 10) as u16, num(hv, 11) as u16]);
    let g = Graphic {
        id: GraphicId(#[verifier::truncate] (raw_id as u32)),
        name: text_at(&h, 0),
        short_name: text_at(&h, 1),
        slp_id: match optional_u32(num_at(&h, 2)) { Some(v) => Some(SlpFileId(v)), None => None },
        layer: #[verifier::truncate] (num_at(&h, 4) as u8),
        player_color_id: match optional_u8(num_at(&h, 5)) { Some(v) => Some(PlayerColorId(v)), None => None },
        second_player_color_id: match optional_u8(num_at(&h, 6)) { Some(v) => Some(PlayerColorId(v)), None => None },
        replay: num_at(&h, 7) != 0,
        coordinates,
        sound_group_id: match optional_u32(num_at(&h, 13)) { Some(v) => Some(SoundGroupId(v)), None => None },
        frame_count: #[verifier::truncate] (num_at(&h, 15) as u16),
        angle_count,
        new_speed: #[verifier::truncate] (num_at(&h, 17) as u32),
        frame_rate: #[verifier::truncate] (num_at(&h, 18) as u32),
        replay_delay: #[verifier::truncate] (num_at(&h, 19) as u32),
        sequence_type: #[verifier::truncate] (num_at(&h, 20) as u8),
        mirror_mode: #[verifier::truncate] (num_at(&h, 22) as u8),
        deltas,
        attack_sounds,
    };
    Some(Ok(g))
}

proof fn lemma_graphics_stop_stays(d: Seq<u8>, p: int, ptrs: Seq<FieldValue>, i: nat, n: nat)
    requires
        i <= n,
        !(graphics_with_ids_from(d, p, ptrs, i) matches Some(Ok(_))),
    ensures
        graphics_with_ids_from(d, p, ptrs, n) == graphics_with_ids_from(d, p, ptrs, i),
    decreases n - i,
{
    if i < n {
        lemma_graphics_stop_stays(d, p, ptrs, i + 1, n);
    }
}

/// Reads the graphics section (a count, that many pointers, then a graphic
/// for each pointer that is not zero); `None` where a graphic has no id.
pub fn read_graphics_checked(data: &[u8], pos: &mut u64) -> (r: Option<Result<Vec<Graphic>, EmpiresDbError>>)
    ensures
        match graphics_with_ids_read(data@, *old(pos) as int) {
            None => r is None,
            Some(Ok((gs, e))) => r matches Some(Ok(graphics)) && *final(pos) == e && graphics@.len() == gs.len()
                && forall|i: int| 0 <= i < gs.len() ==> graphic_matches(#[trigger] graphics@[i], gs[i]),
            Some(Err(e)) => r == Some(Err::<Vec<Graphic>, EmpiresDbError>(EmpiresDbError::ReadError(e))),
        },
{
    let ghost p0 = *pos as int;
    let graphic_count = match read_u16(data, pos) {
        Ok(v) => v,
        Err(e) => return Some(Err(EmpiresDbError::ReadError(e))),
    };
    let ptr_layout = [Field::U32];
    assert(ptr_layout@ == seq![Field::U32]);
    let ghost q = *pos as int;
    let ptr_recs = match read_records(data, pos, &ptr_layout, graphic_count as usize) {
        Ok(v) => v,
        Err(e) => return Some(Err(EmpiresDbError::ReadError(e))),
    };
    let ghost ptrs = fields_read(data@, q, repeat(seq![Field::U32], graphic_count as nat))->Ok_0.0;
    let ghost g0 = *pos as int;
    let ghost mut gs: Seq<GraphicValues> = Seq::empty();
    let mut graphics: Vec<Graphic> = Vec::new();
    let mut i: usize = 0;
    while i < graphic_count as usize
        invariant
            i <= graphic_count,
            p0 == *old(pos),
            available(data@, p0, 2),
            graphic_count == u16_at(data@, p0),
            fields_read(data@, p0 + 2, repeat(seq![Field::U32], graphic_count as nat)) == Ok::<(Seq<FieldValue>, int), StreamError>((ptrs, g0)),
            ptr_recs@.len() == graphic_count,
            ptrs.len() == graphic_count,
            forall|j: int| 0 <= j < graphic_count ==> {
                &&& values_view(#[trigger] ptr_recs@[j]@) == record(ptrs, 1, j)
                &&& ptr_recs@[j]@.len() == 1
            },
            graphics_with_ids_from(data@, g0, ptrs, i as nat) == Some(Ok::<(Seq<GraphicValues>, int), StreamError>((gs, *pos as int))),
            graphics@.len() == gs.len(),
            forall|j: int| 0 <= j < gs.len() ==> graphic_matches(#[trigger] graphics@[j], gs[j]),
        decreases graphic_count - i,
    {
        assert(record(ptrs, 1, i as int)[0] == ptrs[i as int]);
        let pointer = num_at(&ptr_recs[i], 0);
        if pointer != 0 {
            let ghost q = *pos as int;
            match read_graphic(data, pos) {
                Some(Ok(g)) => {
                    proof {
                        gs = gs.push(graphic_read(data@, q)->Ok_0);
                    }
                    graphics.push(g);
                },
                Some(Err(e)) => {
                    proof {
                        lemma_graphics_stop_stays(data@, g0, ptrs, (i + 1) as nat, graphic_count as nat);
                    }
                    return Some(Err(e));
                },
                None => {
                    proof {
                        lemma_graphics_stop_stays(data@, g0, ptrs, (i + 1) as nat, graphic_count as nat);
                    }
                    return None;
                },
            }
        }
        i = i + 1;
    }
    Some(Ok(graphics))
}

/// Reads the graphics section, where every graphic has its id.
pub fn read_graphics(data: &[u8], pos: &mut u64) -> (r: Result<Vec<Graphic>, EmpiresDbError>)
    requires
        graphics_with_ids_read(data@, *old(pos) as int) is Some,
    ensures
        match graphics_with_ids_read(data@, *old(pos) as int) {
            Some(Ok((gs, e))) => r matches Ok(graphics) && *final(pos) == e && graphics@.len() == gs.len()
                && forall|i: int| 0 <= i < gs.len() ==> graphic_matches(#[trigger] graphics@[i], gs[i]),
            Some(Err(e)) => r == Err::<Vec<Graphic>, EmpiresDbError>(EmpiresDbError::ReadError(e)),
            None => false,
        },
{
    read_graphics_checked(data, pos).unwrap()
}

} // verus!
