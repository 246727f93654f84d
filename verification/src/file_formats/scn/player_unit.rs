//! Units placed in a scenario.

use vstd::prelude::*;
use crate::layout::{fields_read, num, num_at, read_fields, Field};
use crate::bytes::StreamError;
use crate::identifier::{PlayerId, SpawnId, UnitId};

verus! {

/// A unit placed on the map. The rotation is the raw bits of a 32-bit float.
#[derive(Default, Debug, Clone, Copy, PartialEq, Eq)]
pub struct PlayerUnit {
    pub position_x: i32,
    pub position_y: i32,
    pub position_z: i32,
    pub spawn_id: SpawnId,
    pub unit_id: UnitId,
    pub state: u8,
    pub rotation: u32,
    pub player_id: PlayerId,
}

/// The value of the 32-bit float with bits `bits` converted to `i32` as
/// Rust's `as` does: rounded toward zero, saturated at the bounds of `i32`,
/// and zero for NaN.
pub open spec fn float_bits_to_i32(bits: u32) -> i32 {
    let negative = bits >> 31u32 == 1;
    let exponent = (bits >> 23u32) & 0xFF;
    let fraction = bits & 0x7F_FFFF;
    let mantissa = (fraction | 0x80_0000) as u64;
    if exponent == 255 && fraction != 0 {
        0
    } else if exponent < 127 {
        0
    } else if exponent >= 158 {
        if negative { i32::MIN } else { i32::MAX }
    } else {
        let magnitude: u64 = if exponent >= 150 {
            mantissa << ((exponent - 150) as u64)
        } else {
            mantissa >> ((150 - exponent) as u64)
        };
        if negative {
            if magnitude > 0x8000_0000 { i32::MIN } else { (-magnitude) as i32 }
        } else {
            if magnitude > 0x7FFF_FFFF { i32::MAX } else { magnitude as i32 }
        }
    }
}

/// Converts the 32-bit float with bits `bits` to `i32`, as `float_bits_to_i32` describes.
pub fn float_bits_as_i32(bits: u32) -> (r: i32)
    ensures
        r == float_bits_to_i32(bits),
{
    let negative = bits >> 31u32 == 1;
    let exponent = (bits >> 23u32) & 0xFF;
    let fraction = bits & 0x7F_FFFF;
    let mantissa = (fraction | 0x80_0000) as u64;
    if exponent == 255 && fraction != 0 {
        0
    } else if exponent < 127 {
        0
    } else if exponent >= 158 {
        if negative { i32::MIN } else { i32::MAX }
    } else {
        let magnitude: u64 = if exponent >= 150 {
            mantissa << ((exponent - 150) as u64)
        } else {
            mantissa >> ((150 - exponent) as u64)
        };
        if negative {
            if magnitude > 0x8000_0000 { i32::MIN } else { (-(magnitude as i64)) as i32 }
        } else {
            if magnitude > 0x7FFF_FFFF { i32::MAX } else { magnitude as i32 }
        }
    }
}

/// The fields of a unit: three float coordinates, spawn id, unit id, state, rotation.
pub open spec fn unit_fields() -> Seq<Field> {
    seq![Field::F32, Field::F32, Field::F32, Field::U32, Field::U16, Field::U8, Field::F32]
}

impl PlayerUnit {
    /// Reads one unit; its coordinates are the floats of the data rounded
    /// toward zero, and its player is left at zero.
    pub fn read_from_stream(data: &[u8], pos: &mut u64) -> (r: Result<PlayerUnit, StreamError>)
        ensures
            match fields_read(data@, *old(pos) as int, unit_fields()) {
                Ok((vs, e)) => r == Ok::<PlayerUnit, StreamError>(PlayerUnit {
                    position_x: float_bits_to_i32(num(vs, 0) as u32),
                    position_y: float_bits_to_i32(num(vs, 1) as u32),
                    position_z: float_bits_to_i32(num(vs, 2) as u32),
                    spawn_id: SpawnId(num(vs, 3) as u32),
                    unit_id: UnitId(num(vs, 4) as u32),
                    state: num(vs, 5) as u8,
                    rotation: num(vs, 6) as u32,
                    player_id: PlayerId(0),
                }) && *final(pos) == e,
                Err(e) => r == Err::<PlayerUnit, StreamError>(e),
            },
    {
        let layout = [Field::F32, Field::F32, Field::F32, Field::U32, Field::U16, Field::U8, Field::F32];
        assert(layout@ == unit_fields());
        let v = read_fields(data, pos, &layout)?;
        Ok(PlayerUnit {
            position_x: float_bits_as_i32(#[verifier::truncate] (num_at(&v, 0) as u32)),
            position_y: float_bits_as_i32(#[verifier::truncate] (num_at(&v, 1) as u32)),
            position_z: float_bits_as_i32(#[verifier::truncate] (num_at(&v, 2) as u32)),
            spawn_id: SpawnId(#[verifier::truncate] (num_at(&v, 3) as u32)),
            unit_id: UnitId(#[verifier::truncate] (num_at(&v, 4) as u32)),
            state: #[verifier::truncate] (num_at(&v, 5) as u8),
            rotation: #[verifier::truncate] (num_at(&v, 6) as u32),
            player_id: PlayerId(0),
        })
    }
}

} // verus!
