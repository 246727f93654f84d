//! Player colors.

use vstd::prelude::*;
use crate::layout::{fields_read, fits, num, read_records, record, repeat, text, values_view, num_at, text_at, Field, FieldValue};
use crate::bytes::{available, read_u16, u16_at, StreamError};
use super::EmpiresDbError;

verus! {

/// A color that a player can be given.
#[derive(Default, Debug)]
pub struct PlayerColor {
    pub id: u16,
    pub name: String,
    pub palette_index: u8,
}

/// The fields of a color: name, id, an unknown word, palette index, an unknown byte.
pub open spec fn color_fields() -> Seq<Field> {
    seq![Field::Text(30), Field::U16, Field::U16, Field::U8, Field::U8]
}

/// A color as its field values give it.
pub open spec fn color_matches(c: PlayerColor, vs: Seq<FieldValue>) -> bool {
    c.name@ == text(vs, 0) && c.id == num(vs, 1) && c.palette_index == num(vs, 3)
}

/// The color section at `p`: a count, then that many colors.
pub open spec fn colors_read(d: Seq<u8>, p: int) -> Result<(Seq<FieldValue>, int), StreamError> {
    if !available(d, p, 2) {
        Err(StreamError::UnexpectedEof)
    } else {
        fields_read(d, p + 2, repeat(color_fields(), u16_at(d, p) as nat))
    }
}

/// Reads the player colors: a count, then that many colors.
pub fn read_player_colors(data: &[u8], pos: &mut u64) -> (r: Result<Vec<PlayerColor>, EmpiresDbError>)
    ensures
        match colors_read(data@, *old(pos) as int) {
            Ok((vs, e)) => r matches Ok(colors) && *final(pos) == e
                && colors@.len() == u16_at(data@, *old(pos) as int)
                && forall|i: int| 0 <= i < colors@.len() ==> color_matches(#[trigger] colors@[i], record(vs, 5, i)),
            Err(e) => r == Err::<Vec<PlayerColor>, EmpiresDbError>(EmpiresDbError::ReadError(e)),
        },
{
    let ghost p0 = *pos as int;
    let color_count = match read_u16(data, pos) {
        Ok(v) => v,
        Err(e) => return Err(EmpiresDbError::ReadError(e)),
    };
    let layout = [Field::Text(30), Field::U16, Field::U16, Field::U8, Field::U8];
    assert(layout@ == color_fields());
    let recs = match read_records(data, pos, &layout, color_count as usize) {
        Ok(v) => v,
        Err(e) => return Err(EmpiresDbError::ReadError(e)),
    };
    let ghost vs = fields_read(data@, p0 + 2, repeat(color_fields(), color_count as nat))->Ok_0.0;
    let mut player_colors: Vec<PlayerColor> = Vec::new();
    let mut i: usize = 0;
    while i < color_count as usize
        invariant
            i <= color_count,
            recs@.len() == color_count,
            player_colors@.len() == i,
            forall|j: int| 0 <= j < color_count ==> {
                &&& values_view(#[trigger] recs@[j]@) == record(vs, 5, j)
                &&& recs@[j]@.len() == 5
                &&& forall|m: int| 0 <= m < 5 ==> fits(color_fields()[m], #[trigger] values_view(recs@[j]@)[m])
            },
            forall|j: int| 0 <= j < i ==> color_matches(#[trigger] player_colors@[j], record(vs, 5, j)),
        decreases color_count - i,
    {
        let rec = &recs[i];
        assert(fits(color_fields()[0], values_view(recs@[i as int]@)[0]));
        assert(fits(color_fields()[1], values_view(recs@[i as int]@)[1]));
        assert(fits(color_fields()[3], values_view(recs@[i as int]@)[3]));
        player_colors.push(PlayerColor {
            id: num_at(rec, 1) as u16,
            name: text_at(rec, 0),
            palette_index: num_at(rec, 3) as u8,
        });
        i = i + 1;
    }
    Ok(player_colors)
}

} // verus!
