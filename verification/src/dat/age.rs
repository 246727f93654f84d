//! Ages: named groups of effects that research applies.

use vstd::prelude::*;
use crate::layout::{fields_read, fits, num, record, repeat, text, values_view, num_at, text_at, Field, FieldValue};
use crate::bytes::{available, read_u32, u32_at, StreamError};
use crate::file_formats::dat::resource::{resource_of, ResourceType};
use super::{read_values, EmpiresDbError};

verus! {

/// The unit attributes that an effect can change.
#[derive(Debug, Clone, Copy, PartialEq, Eq, Structural)]
pub enum UnitAttributeId {
    HitPoints,
    LineOfSight,
    SizeRadius1,
    SizeRadius2,
    Speed,
    ArmorStrength,
    AttackStrength,
    ReloadTime,
    AttackAccuracy,
    AttackRange,
    WorkRate,
    ResourceCarryCapacity,
    MissileUnitId,
    BuildingUpgradeLevel,
    MissileAccuracyMode,
    ResourceCost,
    Unknown(i16),
}

/// The attribute that a stored value names.
pub open spec fn attribute_of(val: i16) -> UnitAttributeId {
    if val == 0 { UnitAttributeId::HitPoints }
    else if val == 1 { UnitAttributeId::LineOfSight }
    else if val == 3 { UnitAttributeId::SizeRadius1 }
    else if val == 4 { UnitAttributeId::SizeRadius2 }
    else if val == 5 { UnitAttributeId::Speed }
    else if val == 8 { UnitAttributeId::ArmorStrength }
    else if val == 9 { UnitAttributeId::AttackStrength }
    else if val == 10 { UnitAttributeId::ReloadTime }
    else if val == 11 { UnitAttributeId::AttackAccuracy }
    else if val == 12 { UnitAttributeId::AttackRange }
    else if val == 13 { UnitAttributeId::WorkRate }
    else if val == 14 { UnitAttributeId::ResourceCarryCapacity }
    else if val == 16 { UnitAttributeId::MissileUnitId }
    else if val == 17 { UnitAttributeId::BuildingUpgradeLevel }
    else if val == 19 { UnitAttributeId::MissileAccuracyMode }
    else if val == 100 { UnitAttributeId::ResourceCost }
    else { UnitAttributeId::Unknown(val) }
}

impl UnitAttributeId {
    pub fn from_i16(val: i16) -> (r: UnitAttributeId)
        ensures
            r == attribute_of(val),
    {
        match val {
            0 => UnitAttributeId::HitPoints,
            1 => UnitAttributeId::LineOfSight,
            3 => UnitAttributeId::SizeRadius1,
            4 => UnitAttributeId::SizeRadius2,
            5 => UnitAttributeId::Speed,
            8 => UnitAttributeId::ArmorStrength,
            9 => UnitAttributeId::AttackStrength,
            10 => UnitAttributeId::ReloadTime,
            11 => UnitAttributeId::AttackAccuracy,
            12 => UnitAttributeId::AttackRange,
            13 => UnitAttributeId::WorkRate,
            14 => UnitAttributeId::ResourceCarryCapacity,
            16 => UnitAttributeId::MissileUnitId,
            17 => UnitAttributeId::BuildingUpgradeLevel,
            19 => UnitAttributeId::MissileAccuracyMode,
            100 => UnitAttributeId::ResourceCost,
            _ => UnitAttributeId::Unknown(val),
        }
    }
}

/// How an effect changes a value; the amount is the raw bits of a 32-bit float.
#[derive(Debug, Clone, Copy, PartialEq, Eq, Structural)]
pub enum AgeEffectValue {
    SetTo(u32),
    Add(u32),
    MultiplyBy(u32),
}

/// An effect of an age. Float amounts are kept as their raw bits.
#[derive(Debug, Clone, Copy, PartialEq, Eq, Structural)]
pub enum AgeEffect {
    UnitAttribute { target_unit_id: i16, target_unit_class_id: i16, attribute_id: UnitAttributeId, effect: AgeEffectValue },
    CivHeader { target_civ_header_id: i16, effect: AgeEffectValue },
    SetUnitEnabled { target_unit_id: i16, enabled: bool },
    UpgradeUnit { source_unit_id: i16, target_unit_id: i16 },
    ResearchCost { research_id: i16, resource_type: ResourceType, effect: AgeEffectValue },
    DisableResearch { research_id: i16 },
    GainResearch { research_id: i16 },
    Unknown { type_id: i8, param_a: i16, param_b: i16, param_c: i16, param_d: u32 },
}

/// The value of the 32-bit float with bits `bits` converted to `i16` as
/// Rust's `as` does: rounded toward zero, saturated at the bounds of `i16`,
/// and zero for NaN.
pub open spec fn float_bits_to_i16(bits: u32) -> i16 {
    let negative = bits >> 31u32 == 1;
    let exponent = (bits >> 23u32) & 0xFF;
    let fraction = bits & 0x7F_FFFF;
    let mantissa = fraction | 0x80_0000;
    if exponent == 255 && fraction != 0 {
        0
    } else if exponent < 127 {
        0
    } else if exponent >= 150 {
        if negative { i16::MIN } else { i16::MAX }
    } else {
        let magnitude = mantissa >> ((150 - exponent) as u32);
        if negative {
            if magnitude > 32768 { i16::MIN } else { (-magnitude) as i16 }
        } else {
            if magnitude > 32767 { i16::MAX } else { magnitude as i16 }
        }
    }
}

/// Converts the 32-bit float with bits `bits` to `i16`, as `float_bits_to_i16` describes.
pub fn float_bits_as_i16(bits: u32) -> (r: i16)
    ensures
        r == float_bits_to_i16(bits),
{
    let negative = bits >> 31u32 == 1;
    let exponent = (bits >> 23u32) & 0xFF;
    let fraction = bits & 0x7F_FFFF;
    let mantissa = fraction | 0x80_0000;
    if exponent == 255 && fraction != 0 {
        0
    } else if exponent < 127 {
        0
    } else if exponent >= 150 {
        if negative { i16::MIN } else { i16::MAX }
    } else {
        let magnitude = mantissa >> (150 - exponent);
        if negative {
            if magnitude > 32768 { i16::MIN } else { (-(magnitude as i32)) as i16 }
        } else {
            if magnitude > 32767 { i16::MAX } else { magnitude as i16 }
        }
    }
}

/// The effect that the five stored parameters describe.
pub open spec fn effect_of(t: i8, a: i16, b: i16, c: i16, d: u32) -> AgeEffect {
    if t == 0 || t == 4 || t == 5 {
        AgeEffect::UnitAttribute {
            target_unit_id: a,
            target_unit_class_id: b,
            attribute_id: attribute_of(c),
            effect: if t == 0 { AgeEffectValue::SetTo(d) } else if t == 4 { AgeEffectValue::Add(d) } else { AgeEffectValue::MultiplyBy(d) },
        }
    } else if t == 1 && (b == 0 || b == 1) {
        AgeEffect::CivHeader {
            target_civ_header_id: a,
            effect: if b == 0 { AgeEffectValue::SetTo(d) } else { AgeEffectValue::Add(d) },
        }
    } else if t == 6 {
        AgeEffect::CivHeader { target_civ_header_id: a, effect: AgeEffectValue::MultiplyBy(d) }
    } else if t == 2 {
        AgeEffect::SetUnitEnabled { target_unit_id: a, enabled: b == 1 }
    } else if t == 3 {
        AgeEffect::UpgradeUnit { source_unit_id: a, target_unit_id: b }
    } else if t == 101 && (c == 0 || c == 1) {
        AgeEffect::ResearchCost {
            research_id: a,
            resource_type: resource_of(b),
            effect: if c == 0 { AgeEffectValue::SetTo(d) } else { AgeEffectValue::Add(d) },
        }
    } else if t == 102 {
        AgeEffect::DisableResearch { research_id: float_bits_to_i16(d) }
    } else if t == 103 {
        AgeEffect::GainResearch { research_id: a }
    } else {
        AgeEffect::Unknown { type_id: t, param_a: a, param_b: b, param_c: c, param_d: d }
    }
}

/// The fields of an effect: type, three parameters and a float amount.
pub open spec fn effect_fields() -> Seq<Field> {
    seq![Field::I8, Field::I16, Field::I16, Field::I16, Field::F32]
}

/// The effect that its field values describe.
pub open spec fn effect_from(vs: Seq<FieldValue>) -> AgeEffect {
    effect_of(num(vs, 0) as i8, num(vs, 1) as i16, num(vs, 2) as i16, num(vs, 3) as i16, num(vs, 4) as u32)
}

/// Reads one effect.
fn read_age_effect(data: &[u8], pos: &mut u64) -> (r: Result<AgeEffect, EmpiresDbError>)
    ensures
        match fields_read(data@, *old(pos) as int, effect_fields()) {
            Ok((vs, e)) => r == Ok::<AgeEffect, EmpiresDbError>(effect_from(vs)) && *final(pos) == e,
            Err(e) => r == Err::<AgeEffect, EmpiresDbError>(EmpiresDbError::ReadError(e)),
        },
{
    let layout = [Field::I8, Field::I16, Field::I16, Field::I16, Field::F32];
    assert(layout@ == effect_fields());
    let v = read_values(data, pos, &layout)?;
    let ghost w = values_view(v@);
    assert(fits(effect_fields()[0], w[0]) && fits(effect_fields()[1], w[1]) && fits(effect_fields()[2], w[2]));
    assert(fits(effect_fields()[3], w[3]) && fits(effect_fields()[4], w[4]));
    let type_id = num_at(&v, 0) as i8;
    let param_a = num_at(&v, 1) as i16;
    let param_b = num_at(&v, 2) as i16;
    let param_c = num_at(&v, 3) as i16;
    let param_d = num_at(&v, 4) as u32;
    let result = if type_id == 0 || type_id == 4 || type_id == 5 {
        AgeEffect::UnitAttribute {
            target_unit_id: param_a,
            target_unit_class_id: param_b,
            attribute_id: UnitAttributeId::from_i16(param_c),
            effect: if type_id == 0 {
                AgeEffectValue::SetTo(param_d)
            } else if type_id == 4 {
                AgeEffectValue::Add(param_d)
            } else {
                AgeEffectValue::MultiplyBy(param_d)
            },
        }
    } else if type_id == 1 && (param_b == 0 || param_b == 1) {
        AgeEffect::CivHeader {
            target_civ_header_id: param_a,
            effect: if param_b == 0 { AgeEffectValue::SetTo(param_d) } else { AgeEffectValue::Add(param_d) },
        }
    } else if type_id == 6 {
        AgeEffect::CivHeader { target_civ_header_id: param_a, effect: AgeEffectValue::MultiplyBy(param_d) }
    } else if type_id == 2 {
        AgeEffect::SetUnitEnabled { target_unit_id: param_a, enabled: param_b == 1 }
    } else if type_id == 3 {
        AgeEffect::UpgradeUnit { source_unit_id: param_a, target_unit_id: param_b }
    } else if type_id == 101 && (param_c == 0 || param_c == 1) {
        AgeEffect::ResearchCost {
            research_id: param_a,
            resource_type: ResourceType::from_i16(param_b),
            effect: if param_c == 0 { AgeEffectValue::SetTo(param_d) } else { AgeEffectValue::Add(param_d) },
        }
    } else if type_id == 102 {
        AgeEffect::DisableResearch { research_id: float_bits_as_i16(param_d) }
    } else if type_id == 103 {
        AgeEffect::GainResearch { research_id: param_a }
    } else {
        AgeEffect::Unknown { type_id, param_a, param_b, param_c, param_d }
    };
    Ok(result)
}

/// An age: its index in the file, its name and its effects.
#[derive(Default, Debug)]
pub struct Age {
    pub id: usize,
    pub name: String,
    pub effects: Vec<AgeEffect>,
}

/// The fields that open an age: its name and its effect count.
pub open spec fn age_fields() -> Seq<Field> {
    seq![Field::Text(31), Field::U16]
}

/// The values of one age and where it ends.
pub struct AgeValues {
    pub head: Seq<FieldValue>,
    pub effects: Seq<FieldValue>,
    pub end: int,
}

/// An age at `p`.
pub open spec fn age_read(d: Seq<u8>, p: int) -> Result<AgeValues, StreamError> {
    match fields_read(d, p, age_fields()) {
        Err(e) => Err(e),
        Ok((head, q)) => match fields_read(d, q, repeat(effect_fields(), num(head, 1) as nat)) {
            Err(e) => Err(e),
            Ok((effects, e)) => Ok(AgeValues { head, effects, end: e }),
        },
    }
}

/// An age as its values give it (without its index).
pub open spec fn age_matches(a: Age, v: AgeValues) -> bool {
    &&& a.name@ == text(v.head, 0)
    &&& a.effects@.len() == num(v.head, 1)
    &&& forall|i: int| 0 <= i < a.effects@.len() ==> #[trigger] a.effects@[i] == effect_from(record(v.effects, 5, i))
}

/// `n` ages one after another from `p`.
pub open spec fn ages_from(d: Seq<u8>, p: int, n: nat) -> Result<(Seq<AgeValues>, int), StreamError>
    decreases n,
{
    if n == 0 {
        Ok((Seq::empty(), p))
    } else {
        match ages_from(d, p, (n - 1) as nat) {
            Err(e) => Err(e),
            Ok((ages, q)) => match age_read(d, q) {
                Err(e) => Err(e),
                Ok(v) => Ok((ages.push(v), v.end)),
            },
        }
    }
}

/// The age section at `p`: a count, then that many ages.
pub open spec fn ages_read(d: Seq<u8>, p: int) -> Result<(Seq<AgeValues>, int), StreamError> {
    if !available(d, p, 4) {
        Err(StreamError::UnexpectedEof)
    } else {
        ages_from(d, p + 4, u32_at(d, p) as nat)
    }
}

/// Reads one age (its index left at zero).
pub fn read_age(data: &[u8], pos: &mut u64) -> (r: Result<Age, EmpiresDbError>)
    ensures
        match age_read(data@, *old(pos) as int) {
            Ok(v) => r matches Ok(a) && age_matches(a, v) && a.id == 0 && *final(pos) == v.end,
            Err(e) => r == Err::<Age, EmpiresDbError>(EmpiresDbError::ReadError(e)),
        },
{
    let layout = [Field::Text(31), Field::U16];
    assert(layout@ == age_fields());
    let h = read_values(data, pos, &layout)?;
    assert(fits(age_fields()[0], values_view(h@)[0]) && fits(age_fields()[1], values_view(h@)[1]));
    let name = text_at(&h, 0);
    let effect_count = num_at(&h, 1) as usize;
    let ghost q = *pos as int;
    let ghost target = fields_read(data@, q, repeat(effect_fields(), effect_count as nat));
    let mut effects: Vec<AgeEffect> = Vec::new();
    let ghost mut all: Seq<FieldValue> = Seq::empty();
    let mut i: usize = 0;
    assert(repeat(effect_fields(), 0) == Seq::<Field>::empty());
    while i < effect_count
        invariant
            i <= effect_count,
            fields_read(data@, q, repeat(effect_fields(), i as nat)) == Ok::<(Seq<FieldValue>, int), StreamError>((all, *pos as int)),
            all.len() == i * 5,
            effects@.len() == i,
            forall|j: int| 0 <= j < i ==> #[trigger] effects@[j] == effect_from(record(all, 5, j)),
            target == fields_read(data@, q, repeat(effect_fields(), effect_count as nat)),
            fields_read(data@, *old(pos) as int, age_fields()) == Ok::<(Seq<FieldValue>, int), StreamError>((values_view(h@), q)),
            effect_count == num(values_view(h@), 1),
        decreases effect_count - i,
    {
        proof {
            crate::layout::lemma_fields_read_concat(data@, q, repeat(effect_fields(), i as nat), effect_fields());
        }
        assert(repeat(effect_fields(), (i + 1) as nat) == repeat(effect_fields(), i as nat) + effect_fields());
        let ghost before = all;
        let ghost pe = *pos as int;
        match read_age_effect(data, pos) {
            Ok(effect) => {
                proof {
                    let vs = fields_read(data@, pe, effect_fields())->Ok_0.0;
                    crate::layout::lemma_fields_read_fit(data@, pe, effect_fields());
                    all = all + vs;
                    assert((i + 1) * 5 == i * 5 + 5) by (nonlinear_arith);
                    assert forall|j: int| 0 <= j < i implies record(all, 5, j) == record(before, 5, j) by {
                        assert(j * 5 + 5 <= i * 5) by (nonlinear_arith)
                            requires
                                j < i,
                        ;
                    }
                    assert(record(all, 5, i as int) == vs);
                }
                effects.push(effect);
            },
            Err(e) => {
                proof {
                    crate::layout::lemma_repeat_error_stays(data@, q, effect_fields(), (i + 1) as nat, effect_count as nat);
                }
                return Err(e);
            },
        }
        i = i + 1;
    }
    Ok(Age { id: 0, name, effects })
}

/// Reads the ages: a count, then that many ages, each given its index.
pub fn read_ages(data: &[u8], pos: &mut u64) -> (r: Result<Vec<Age>, EmpiresDbError>)
    ensures
        match ages_read(data@, *old(pos) as int) {
            Ok((vs, e)) => r matches Ok(ages) && *final(pos) == e && ages@.len() == vs.len()
                && forall|i: int| 0 <= i < ages@.len() ==> age_matches(#[trigger] ages@[i], vs[i]) && ages@[i].id == i,
            Err(e) => r == Err::<Vec<Age>, EmpiresDbError>(EmpiresDbError::ReadError(e)),
        },
{
    let ghost p0 = *pos as int;
    let age_count = match read_u32(data, pos) {
        Ok(v) => v as usize,
        Err(e) => return Err(EmpiresDbError::ReadError(e)),
    };
    let mut ages: Vec<Age> = Vec::new();
    let ghost mut vs: Seq<AgeValues> = Seq::empty();
    let mut i: usize = 0;
    while i < age_count
        invariant
            i <= age_count,
            p0 == *old(pos),
            available(data@, p0, 4),
            age_count == u32_at(data@, p0),
            ages_from(data@, p0 + 4, i as nat) == Ok::<(Seq<AgeValues>, int), StreamError>((vs, *pos as int)),
            vs.len() == i,
            ages@.len() == i,
            forall|j: int| 0 <= j < i ==> age_matches(#[trigger] ages@[j], vs[j]) && ages@[j].id == j,
        decreases age_count - i,
    {
        let ghost q = *pos as int;
        match read_age(data, pos) {
            Ok(mut age) => {
                age.id = i;
                proof {
                    vs = vs.push(age_read(data@, q)->Ok_0);
                }
                ages.push(age);
            },
            Err(e) => {
                proof {
                    lemma_ages_error_stays(data@, p0 + 4, (i + 1) as nat, age_count as nat);
                }
                return Err(e);
            },
        }
        i = i + 1;
    }
    Ok(ages)
}

proof fn lemma_ages_error_stays(d: Seq<u8>, p: int, i: nat, n: nat)
    requires
        i <= n,
        ages_from(d, p, i) is Err,
    ensures
        ages_from(d, p, n) == ages_from(d, p, i),
    decreases n - i,
{
    if i < n {
        lemma_ages_error_stays(d, p, i + 1, n);
    }
}

} // verus!
