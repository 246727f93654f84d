//! Graphics: the sprites and their animation data.

use vstd::prelude::*;
use crate::layout::{fields_read, fits, num, read_records, record, repeat, text, values_view, num_at, text_at, Field, FieldValue, Value};
use crate::bytes::{available, read_u16, u16_at, StreamError};
use super::{read_values, EmpiresDb, EmpiresDbError};

verus! {

/// A sound played with an attack, for one angle.
#[derive(Default, Debug, Clone, Copy, PartialEq, Eq)]
pub struct GraphicAttackSound {
    pub sound_delay: i16,
    pub sound_id: i16,
}

impl GraphicAttackSound {
    pub fn new() -> (r: GraphicAttackSound)
        ensures
            r == (GraphicAttackSound { sound_delay: 0, sound_id: 0 }),
    {
        GraphicAttackSound { sound_delay: 0, sound_id: 0 }
    }
}

/// A graphic drawn together with another, with its offset.
#[derive(Default, Debug, Clone, Copy, PartialEq, Eq)]
pub struct GraphicDelta {
    pub graphic_id: i16,
    pub direction_x: u16,
    pub direction_y: u16,
    pub display_angle: i16,
}

impl GraphicDelta {
    pub fn new() -> (r: GraphicDelta)
        ensures
            r == (GraphicDelta { graphic_id: 0, direction_x: 0, direction_y: 0, display_angle: 0 }),
    {
        GraphicDelta { graphic_id: 0, direction_x: 0, direction_y: 0, display_angle: 0 }
    }
}

/// A graphic. The three speeds are the raw bits of 32-bit floats.
#[derive(Default, Debug)]
pub struct Graphic {
    pub name: String,
    pub short_name: String,
    pub slp_resource_id: i32,
    pub layer: u8,
    pub player_color: i8,
    pub second_player_color: i8,
    pub replay: u8,
    pub coordinates: [u16; 4],
    pub sound_id: i16,
    pub frame_count: u16,
    pub angle_count: u16,
    pub new_speed: u32,
    pub frame_rate: u32,
    pub replay_delay: u32,
    pub sequence_type: u8,
    pub id: u16,
    pub mirror_mode: u8,
    pub deltas: Vec<GraphicDelta>,
    pub attack_sounds: Vec<GraphicAttackSound>,
}

impl Graphic {
    /// A graphic with empty names and all values zero.
    pub fn new() -> (r: Graphic)
        ensures
            r.name@.len() == 0 && r.short_name@.len() == 0,
            r.slp_resource_id == 0 && r.layer == 0 && r.player_color == 0 && r.second_player_color == 0,
            r.replay == 0 && r.coordinates@ == seq![0u16; 4] && r.sound_id == 0 && r.frame_count == 0,
            r.angle_count == 0 && r.new_speed == 0 && r.frame_rate == 0 && r.replay_delay == 0,
            r.sequence_type == 0 && r.id == 0 && r.mirror_mode == 0,
            r.deltas@.len() == 0 && r.attack_sounds@.len() == 0,
    {
        let r = Graphic {
            name: String::new(),
            short_name: String::new(),
            slp_resource_id: 0,
            layer: 0,
            player_color: 0,
            second_player_color: 0,
            replay: 0,
            coordinates: [0u16, 0, 0, 0],
            sound_id: 0,
            frame_count: 0,
            angle_count: 0,
            new_speed: 0,
            frame_rate: 0,
            replay_delay: 0,
            sequence_type: 0,
            id: 0,
            mirror_mode: 0,
            deltas: Vec::new(),
            attack_sounds: Vec::new(),
        };
        assert(r.coordinates@ =~= seq![0u16; 4]);
        r
    }
}

/// The fixed fields of a graphic: name, short name, SLP id, two unknown
/// bytes, layer, two player colors, replay, four coordinates, delta count,
/// sound id, whether attack sounds follow, frame count, angle count, three
/// speeds, sequence type, id and mirror mode.
pub open spec fn graphic_fields() -> Seq<Field> {
    seq![
        Field::Text(21), Field::Text(13), Field::I32, Field::Skip(2), Field::U8, Field::I8, Field::I8,
        Field::U8, Field::U16, Field::U16, Field::U16, Field::U16, Field::U16, Field::I16, Field::U8,
        Field::U16, Field::U16, Field::F32, Field::F32, Field::F32, Field::U8, Field::U16, Field::U8,
    ]
}

/// The fields of a delta: graphic id, six unknown bytes, direction, angle, two unknown bytes.
pub open spec fn delta_fields() -> Seq<Field> {
    seq![Field::I16, Field::Skip(6), Field::U16, Field::U16, Field::I16, Field::Skip(2)]
}

/// The fields of an attack sound: delay and sound id.
pub open spec fn attack_sound_fields() -> Seq<Field> {
    seq![Field::I16, Field::I16]
}

/// The values of one graphic: its fixed fields, its deltas, its attack
/// sounds (three per angle, when the graphic has them), and where it ends.
pub struct GraphicValues {
    pub head: Seq<FieldValue>,
    pub deltas: Seq<FieldValue>,
    pub sound_count: int,
    pub sounds: Seq<FieldValue>,
    pub end: int,
}

/// The number of attack sounds that follow a graphic's deltas.
pub open spec fn attack_sound_count(head: Seq<FieldValue>) -> int {
    if num(head, 14) != 0 { 3 * num(head, 16) } else { 0 }
}

/// A graphic at `p`.
pub open spec fn graphic_read(d: Seq<u8>, p: int) -> Result<GraphicValues, StreamError> {
    match fields_read(d, p, graphic_fields()) {
        Err(e) => Err(e),
        Ok((head, q1)) => match fields_read(d, q1, repeat(delta_fields(), num(head, 12) as nat)) {
            Err(e) => Err(e),
            Ok((deltas, q2)) => match fields_read(d, q2, repeat(attack_sound_fields(), attack_sound_count(head) as nat)) {
                Err(e) => Err(e),
                Ok((sounds, q3)) => Ok(GraphicValues { head, deltas, sound_count: attack_sound_count(head), sounds, end: q3 }),
            },
        },
    }
}

pub open spec fn delta_matches(x: GraphicDelta, vs: Seq<FieldValue>) -> bool {
    &&& x.graphic_id == num(vs, 0) && x.direction_x == num(vs, 2)
    &&& x.direction_y == num(vs, 3) && x.display_angle == num(vs, 4)
}

pub open spec fn attack_sound_matches(x: GraphicAttackSound, vs: Seq<FieldValue>) -> bool {
    x.sound_delay == num(vs, 0) && x.sound_id == num(vs, 1)
}

/// A graphic as its values give it.
pub open spec fn graphic_matches(g: Graphic, v: GraphicValues) -> bool {
    let h = v.head;
    &&& g.name@ == text(h, 0) && g.short_name@ == text(h, 1) && g.slp_resource_id == num(h, 2)
    &&& g.layer == num(h, 4) && g.player_color == num(h, 5) && g.second_player_color == num(h, 6)
    &&& g.replay == num(h, 7)
    &&& g.coordinates[0] == num(h, 8) && g.coordinates[1] == num(h, 9)
    &&& g.coordinates[2] == num(h, 10) && g.coordinates[3] == num(h, 11)
    &&& g.sound_id == num(h, 13) && g.frame_count == num(h, 15) && g.angle_count == num(h, 16)
    &&& g.new_speed == num(h, 17) && g.frame_rate == num(h, 18) && g.replay_delay == num(h, 19)
    &&& g.sequence_type == num(h, 20) && g.id == num(h, 21) && g.mirror_mode == num(h, 22)
    &&& g.deltas@.len() == num(h, 12)
    &&& forall|i: int| 0 <= i < g.deltas@.len() ==> delta_matches(#[trigger] g.deltas@[i], record(v.deltas, 6, i))
    &&& g.attack_sounds@.len() == v.sound_count
    &&& forall|i: int| 0 <= i < g.attack_sounds@.len() ==> attack_sound_matches(#[trigger] g.attack_sounds@[i], record(v.sounds, 2, i))
}

/// The graphics for the first `n` pointers, from `p`: a graphic is stored
/// only for each pointer that is not zero.
pub open spec fn graphics_from(d: Seq<u8>, p: int, ptrs: Seq<FieldValue>, n: nat) -> Result<(Seq<GraphicValues>, int), StreamError>
    decreases n,
{
    if n == 0 {
        Ok((Seq::empty(), p))
    } else {
        match graphics_from(d, p, ptrs, (n - 1) as nat) {
            Err(e) => Err(e),
            Ok((gs, q)) => if num(ptrs, n - 1) == 0 {
                Ok((gs, q))
            } else {
                match graphic_read(d, q) {
                    Err(e) => Err(e),
                    Ok(g) => Ok((gs.push(g), g.end)),
                }
            },
        }
    }
}

/// The graphics section at `p`: a count, that many pointers, then a graphic
/// for each pointer that is not zero.
pub open spec fn graphics_read(d: Seq<u8>, p: int) -> Result<(Seq<GraphicValues>, int), StreamError> {
    if !available(d, p, 2) {
        Err(StreamError::UnexpectedEof)
    } else {
        let n = u16_at(d, p) as nat;
        match fields_read(d, p + 2, repeat(seq![Field::U32], n)) {
            Err(e) => Err(e),
            Ok((ptrs, q)) => graphics_from(d, q, ptrs, n),
        }
    }
}

fn deltas_from(recs: &Vec<Vec<Value>>, Ghost(vs): Ghost<Seq<FieldValue>>) -> (r: Vec<GraphicDelta>)
    requires
        forall|j: int| 0 <= j < recs@.len() ==> {
            &&& values_view(#[trigger] recs@[j]@) == record(vs, 6, j)
            &&& recs@[j]@.len() == 6
            &&& forall|m: int| 0 <= m < 6 ==> fits(delta_fields()[m], #[trigger] values_view(recs@[j]@)[m])
        },
    ensures
        r@.len() == recs@.len(),
        forall|i: int| 0 <= i < r@.len() ==> delta_matches(#[trigger] r@[i], record(vs, 6, i)),
{
    let mut out: Vec<GraphicDelta> = Vec::new();
    let mut i: usize = 0;
    while i < recs.len()
        invariant
            i <= recs@.len(),
            out@.len() == i,
            forall|j: int| 0 <= j < recs@.len() ==> {
                &&& values_view(#[trigger] recs@[j]@) == record(vs, 6, j)
                &&& recs@[j]@.len() == 6
                &&& forall|m: int| 0 <= m < 6 ==> fits(delta_fields()[m], #[trigger] values_view(recs@[j]@)[m])
            },
            forall|j: int| 0 <= j < i ==> delta_matches(#[trigger] out@[j], record(vs, 6, j)),
        decreases recs@.len() - i,
    {
        let rec = &recs[i];
        let ghost v = values_view(recs@[i as int]@);
        assert(fits(delta_fields()[0], v[0]) && fits(delta_fields()[2], v[2]));
        assert(fits(delta_fields()[3], v[3]) && fits(delta_fields()[4], v[4]));
        out.push(GraphicDelta {
            graphic_id: num_at(rec, 0) as i16,
            direction_x: num_at(rec, 2) as u16,
            direction_y: num_at(rec, 3) as u16,
            display_angle: num_at(rec, 4) as i16,
        });
        i = i + 1;
    }
    out
}

fn attack_sounds_from(recs: &Vec<Vec<Value>>, Ghost(vs): Ghost<Seq<FieldValue>>) -> (r: Vec<GraphicAttackSound>)
    requires
        forall|j: int| 0 <= j < recs@.len() ==> {
            &&& values_view(#[trigger] recs@[j]@) == record(vs, 2, j)
            &&& recs@[j]@.len() == 2
            &&& forall|m: int| 0 <= m < 2 ==> fits(attack_sound_fields()[m], #[trigger] values_view(recs@[j]@)[m])
        },
    ensures
        r@.len() == recs@.len(),
        forall|i: int| 0 <= i < r@.len() ==> attack_sound_matches(#[trigger] r@[i], record(vs, 2, i)),
{
    let mut out: Vec<GraphicAttackSound> = Vec::new();
    let mut i: usize = 0;
    while i < recs.len()
        invariant
            i <= recs@.len(),
            out@.len() == i,
            forall|j: int| 0 <= j < recs@.len() ==> {
                &&& values_view(#[trigger] recs@[j]@) == record(vs, 2, j)
                &&& recs@[j]@.len() == 2
                &&& forall|m: int| 0 <= m < 2 ==> fits(attack_sound_fields()[m], #[trigger] values_view(recs@[j]@)[m])
            },
            forall|j: int| 0 <= j < i ==> attack_sound_matches(#[trigger] out@[j], record(vs, 2, j)),
        decreases recs@.len() - i,
    {
        let rec = &recs[i];
        let ghost v = values_view(recs@[i as int]@);
        assert(fits(attack_sound_fields()[0], v[0]) && fits(attack_sound_fields()[1], v[1]));
        out.push(GraphicAttackSound { sound_delay: num_at(rec, 0) as i16, sound_id: num_at(rec, 1) as i16 });
        i = i + 1;
    }
    out
}

/// Reads one graphic.
fn read_graphic(data: &[u8], pos: &mut u64) -> (r: Result<Graphic, EmpiresDbError>)
    ensures
        match graphic_read(data@, *old(pos) as int) {
            Ok(v) => r matches Ok(g) && graphic_matches(g, v) && *final(pos) == v.end,
            Err(e) => r == Err::<Graphic, EmpiresDbError>(EmpiresDbError::ReadError(e)),
        },
{
    let layout = [
        Field::Text(21), Field::Text(13), Field::I32, Field::Skip(2), Field::U8, Field::I8, Field::I8,
        Field::U8, Field::U16, Field::U16, Field::U16, Field::U16, Field::U16, Field::I16, Field::U8,
        Field::U16, Field::U16, Field::F32, Field::F32, Field::F32, Field::U8, Field::U16, Field::U8,
    ];
    assert(layout@ == graphic_fields());
    let h = read_values(data, pos, &layout)?;
    let ghost w = values_view(h@);
    assert(fits(graphic_fields()[0], w[0]) && fits(graphic_fields()[1], w[1]) && fits(graphic_fields()[2], w[2]));
    assert(fits(graphic_fields()[4], w[4]) && fits(graphic_fields()[5], w[5]) && fits(graphic_fields()[6], w[6]));
    assert(fits(graphic_fields()[7], w[7]) && fits(graphic_fields()[8], w[8]) && fits(graphic_fields()[9], w[9]));
    assert(fits(graphic_fields()[10], w[10]) && fits(graphic_fields()[11], w[11]) && fits(graphic_fields()[12], w[12]));
    assert(fits(graphic_fields()[13], w[13]) && fits(graphic_fields()[14], w[14]) && fits(graphic_fields()[15], w[15]));
    assert(fits(graphic_fields()[16], w[16]) && fits(graphic_fields()[17], w[17]) && fits(graphic_fields()[18], w[18]));
    assert(fits(graphic_fields()[19], w[19]) && fits(graphic_fields()[20], w[20]) && fits(graphic_fields()[21], w[21]));
    assert(fits(graphic_fields()[22], w[22]));

    let delta_layout = [Field::I16, Field::Skip(6), Field::U16, Field::U16, Field::I16, Field::Skip(2)];
    assert(delta_layout@ == delta_fields());
    let delta_count = num_at(&h, 12) as usize;
    let ghost q1 = *pos as int;
    let delta_recs = match read_records(data, pos, &delta_layout, delta_count) {
        Ok(v) => v,
        Err(e) => return Err(EmpiresDbError::ReadError(e)),
    };
    let ghost dv = fields_read(data@, q1, repeat(delta_fields(), delta_count as nat))->Ok_0.0;
    let deltas = deltas_from(&delta_recs, Ghost(dv));

    let attack_sound_used = num_at(&h, 14);
    let angle_count = num_at(&h, 16) as u16;
    let sound_count: usize = if attack_sound_used != 0 { 3 * angle_count as usize } else { 0 };
    let sound_layout = [Field::I16, Field::I16];
    assert(sound_layout@ == attack_sound_fields());
    let ghost q2 = *pos as int;
    let sound_recs = match read_records(data, pos, &sound_layout, sound_count) {
        Ok(v) => v,
        Err(e) => return Err(EmpiresDbError::ReadError(e)),
    };
    let ghost sv = fields_read(data@, q2, repeat(attack_sound_fields(), sound_count as nat))->Ok_0.0;
    let attack_sounds = attack_sounds_from(&sound_recs, Ghost(sv));

    let g = Graphic {
        name: text_at(&h, 0),
        short_name: text_at(&h, 1),
        slp_resource_id: num_at(&h, 2) as i32,
        layer: num_at(&h, 4) as u8,
        player_color: num_at(&h, 5) as i8,
        second_player_color: num_at(&h, 6) as i8,
        replay: num_at(&h, 7) as u8,
        coordinates: [num_at(&h, 8) as u16, num_at(&h, 9) as u16, num_at(&h, 10) as u16, num_at(&h, 11) as u16],
        sound_id: num_at(&h, 13) as i16,
        frame_count: num_at(&h, 15) as u16,
        angle_count,
        new_speed: num_at(&h, 17) as u32,
        frame_rate: num_at(&h, 18) as u32,
        replay_delay: num_at(&h, 19) as u32,
        sequence_type: num_at(&h, 20) as u8,
        id: num_at(&h, 21) as u16,
        mirror_mode: num_at(&h, 22) as u8,
        deltas,
        attack_sounds,
    };
    Ok(g)
}

impl EmpiresDb {
    /// Reads the graphics section (a count, that many pointers, then a
    /// graphic for each pointer that is not zero), appending the graphics.
    pub fn read_graphics(&mut self, data: &[u8], pos: &mut u64) -> (r: Result<(), EmpiresDbError>)
        ensures
            final(self).terrain_restrictions@ == old(self).terrain_restrictions@,
            final(self).terrain_block == old(self).terrain_block,
            final(self).ages@ == old(self).ages@,
            final(self).research@ == old(self).research@,
            final(self).random_maps@ == old(self).random_maps@,
            final(self).player_colors@ == old(self).player_colors@,
            final(self).sound_effect_groups@ == old(self).sound_effect_groups@,
            final(self).graphics@.len() >= old(self).graphics@.len(),
            final(self).graphics@.subrange(0, old(self).graphics@.len() as int) == old(self).graphics@,
            match graphics_read(data@, *old(pos) as int) {
                Ok((gs, e)) => r is Ok && *final(pos) == e
                    && final(self).graphics@.len() == old(self).graphics@.len() + gs.len()
                    && forall|i: int| 0 <= i < gs.len() ==> graphic_matches(
                        #[trigger] final(self).graphics@[old(self).graphics@.len() + i],
                        gs[i],
                    ),
                Err(e) => r == Err::<(), EmpiresDbError>(EmpiresDbError::ReadError(e)),
            },
    {
        let ghost p0 = *pos as int;
        let ghost base = self.graphics@.len();
        let graphic_count = match read_u16(data, pos) {
            Ok(v) => v,
            Err(e) => return Err(EmpiresDbError::ReadError(e)),
        };
        let ptr_layout = [Field::U32];
        assert(ptr_layout@ == seq![Field::U32]);
        let ghost q = *pos as int;
        let ptr_recs = match read_records(data, pos, &ptr_layout, graphic_count as usize) {
            Ok(v) => v,
            Err(e) => return Err(EmpiresDbError::ReadError(e)),
        };
        let ghost ptrs = fields_read(data@, q, repeat(seq![Field::U32], graphic_count as nat))->Ok_0.0;
        let ghost g0 = *pos as int;
        let ghost mut gs: Seq<GraphicValues> = Seq::empty();
        let mut i: usize = 0;
        while i < graphic_count as usize
            invariant
                i <= graphic_count,
                p0 == *old(pos),
                available(data@, p0, 2),
                graphic_count == u16_at(data@, p0),
                fields_read(data@, p0 + 2, repeat(seq![Field::U32], graphic_count as nat)) == Ok::<(Seq<FieldValue>, int), StreamError>((ptrs, g0)),
                ptr_recs@.len() == graphic_count,
                ptrs.len() == graphic_count,
                forall|j: int| 0 <= j < graphic_count ==> {
                    &&& values_view(#[trigger] ptr_recs@[j]@) == record(ptrs, 1, j)
                    &&& ptr_recs@[j]@.len() == 1
                    &&& forall|m: int| 0 <= m < 1 ==> fits(seq![Field::U32][m], #[trigger] values_view(ptr_recs@[j]@)[m])
                },
                graphics_from(data@, g0, ptrs, i as nat) == Ok::<(Seq<GraphicValues>, int), StreamError>((gs, *pos as int)),
                base == old(self).graphics@.len(),
                self.graphics@.len() == base + gs.len(),
                self.graphics@.subrange(0, base as int) == old(self).graphics@,
                forall|j: int| 0 <= j < gs.len() ==> graphic_matches(#[trigger] self.graphics@[base + j], gs[j]),
                self.random_maps@ == old(self).random_maps@,
                self.player_colors@ == old(self).player_colors@,
                self.terrain_restrictions@ == old(self).terrain_restrictions@,
                self.terrain_block == old(self).terrain_block,
                self.ages@ == old(self).ages@,
                self.research@ == old(self).research@,
                self.sound_effect_groups@ == old(self).sound_effect_groups@,
            decreases graphic_count - i,
        {
            let ghost pv = values_view(ptr_recs@[i as int]@);
            assert(fits(seq![Field::U32][0], pv[0]));
            assert(record(ptrs, 1, i as int)[0] == ptrs[i as int]);
            let pointer = num_at(&ptr_recs[i], 0);
            if pointer != 0 {
                let ghost q = *pos as int;
                match read_graphic(data, pos) {
                    Ok(g) => {
                        proof {
                            gs = gs.push(graphic_read(data@, q)->Ok_0);
                        }
                        let ghost before = self.graphics@;
                        self.graphics.push(g);
                        assert(self.graphics@.subrange(0, base as int) == before.subrange(0, base as int));
                    },
                    Err(e) => {
                        proof {
                            lemma_graphics_error_stays(data@, g0, ptrs, (i + 1) as nat, graphic_count as nat);
                        }
                        return Err(e);
                    },
                }
            }
            i = i + 1;
        }
        Ok(())
    }
}

proof fn lemma_graphics_error_stays(d: Seq<u8>, p: int, ptrs: Seq<FieldValue>, i: nat, n: nat)
    requires
        i <= n,
        graphics_from(d, p, ptrs, i) is Err,
    ensures
        graphics_from(d, p, ptrs, n) == graphics_from(d, p, ptrs, i),
    decreases n - i,
{
    if i < n {
        lemma_graphics_error_stays(d, p, ptrs, i + 1, n);
    }
}

} // verus!
