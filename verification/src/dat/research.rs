//! Research: technologies and their costs.

use vstd::prelude::*;
use crate::layout::{fields_read, field_value, num, text, values_view, num_at, Field, FieldValue};
use crate::bytes::{available, read_u16, read_sized_str, u16_at, StreamError};
use super::{read_values, EmpiresDbError};

verus! {

/// The most technologies that a research can require.
pub const MAX_REQUIRED_TECHS: usize = 4;

/// The number of resource costs of a research.
pub const RESOURCE_COST_COUNT: usize = 3;

/// A resource cost of a research.
#[derive(Default, Debug, Clone, Copy, PartialEq, Eq)]
pub struct ResearchCost {
    pub type_id: i16,
    pub amount: i16,
    pub enabled: bool,
}

/// A research.
#[derive(Default, Debug)]
pub struct Research {
    pub id: u16,
    pub required_techs: Vec<i16>,
    pub resource_costs: Vec<ResearchCost>,
    pub location: i16,
    pub language_dll_name: u16,
    pub language_dll_description: u16,
    pub time: i16,
    pub age_id: i16,
    pub type_id: i16,
    pub icon_id: i16,
    pub button_id: i8,
    pub language_dll_help: i32,
    pub language_dll_tech_tree: i32,
    pub name: String,
}

/// The fields that open a research: four required techs, three costs (type,
/// amount, enabled) and the number of required techs in use.
pub open spec fn research_head_fields() -> Seq<Field> {
    seq![
        Field::I16, Field::I16, Field::I16, Field::I16, Field::I16, Field::I16, Field::U8, Field::I16,
        Field::I16, Field::U8, Field::I16, Field::I16, Field::U8, Field::U16,
    ]
}

/// The fields that follow: location, name and description ids, time, age,
/// type, icon, button, help and tech tree ids, an unknown value and the name length.
pub open spec fn research_body_fields() -> Seq<Field> {
    seq![
        Field::I16, Field::U16, Field::U16, Field::I16, Field::I16, Field::I16, Field::I16, Field::I8,
        Field::I32, Field::I32, Field::I32, Field::U16,
    ]
}

/// The values of one research, its name, and where it ends.
pub struct ResearchValues {
    pub head: Seq<FieldValue>,
    pub body: Seq<FieldValue>,
    pub name: Seq<char>,
    pub end: int,
}

/// A research at `p`. More required techs in use than four makes the file bad.
pub open spec fn research_read(d: Seq<u8>, p: int) -> Result<ResearchValues, EmpiresDbError> {
    match fields_read(d, p, research_head_fields()) {
        Err(e) => Err(EmpiresDbError::ReadError(e)),
        Ok((head, q1)) => if num(head, 13) > 4 {
            Err(EmpiresDbError::BadFile("more required techs than possible"))
        } else {
            match fields_read(d, q1, research_body_fields()) {
                Err(e) => Err(EmpiresDbError::ReadError(e)),
                Ok((body, q2)) => if num(body, 11) == 0 {
                    Ok(ResearchValues { head, body, name: Seq::empty(), end: q2 })
                } else {
                    match field_value(d, q2, Field::Text(num(body, 11) as u32)) {
                        Err(e) => Err(EmpiresDbError::ReadError(e)),
                        Ok(name) => Ok(ResearchValues { head, body, name: text(seq![name], 0), end: q2 + num(body, 11) }),
                    }
                },
            }
        },
    }
}

/// A research as its values give it (without its index).
pub open spec fn research_matches(r: Research, v: ResearchValues) -> bool {
    let h = v.head;
    let b = v.body;
    &&& r.required_techs@.len() == num(h, 13)
    &&& forall|i: int| 0 <= i < r.required_techs@.len() ==> #[trigger] r.required_techs@[i] == num(h, i) as i16
    &&& r.resource_costs@.len() == 3
    &&& forall|i: int| 0 <= i < 3 ==> #[trigger] r.resource_costs@[i] == (ResearchCost {
        type_id: num(h, 4 + 3 * i) as i16,
        amount: num(h, 5 + 3 * i) as i16,
        enabled: num(h, 6 + 3 * i) != 0,
    })
    &&& r.location == num(b, 0) as i16 && r.language_dll_name == num(b, 1) as u16
    &&& r.language_dll_description == num(b, 2) as u16 && r.time == num(b, 3) as i16
    &&& r.age_id == num(b, 4) as i16 && r.type_id == num(b, 5) as i16 && r.icon_id == num(b, 6) as i16
    &&& r.button_id == num(b, 7) as i8 && r.language_dll_help == num(b, 8) as i32
    &&& r.language_dll_tech_tree == num(b, 9) as i32
    &&& r.name@ == v.name
}

/// Reads one research (its index left at zero).
pub(crate) fn read_single_research(data: &[u8], pos: &mut u64) -> (r: Result<Research, EmpiresDbError>)
    ensures
        match research_read(data@, *old(pos) as int) {
            Ok(v) => r matches Ok(x) && research_matches(x, v) && x.id == 0 && *final(pos) == v.end,
            Err(e) => r == Err::<Research, EmpiresDbError>(e),
        },
{
    let head_layout = [
        Field::I16, Field::I16, Field::I16, Field::I16, Field::I16, Field::I16, Field::U8, Field::I16,
        Field::I16, Field::U8, Field::I16, Field::I16, Field::U8, Field::U16,
    ];
    assert(head_layout@ == research_head_fields());
    let h = read_values(data, pos, &head_layout)?;
    let ghost hv = values_view(h@);
    let mut required_techs: Vec<i16> = Vec::new();
    let mut i: usize = 0;
    while i < 4
        invariant
            i <= 4,
            h@.len() == 14,
            hv == values_view(h@),
            required_techs@.len() == i,
            forall|j: int| 0 <= j < i ==> #[trigger] required_techs@[j] == num(hv, j) as i16,
        decreases 4 - i,
    {
        required_techs.push(#[verifier::truncate] (num_at(&h, i) as i16));
        i = i + 1;
    }
    let mut resource_costs: Vec<ResearchCost> = Vec::new();
    let mut k: usize = 0;
    while k < 3
        invariant
            k <= 3,
            h@.len() == 14,
            hv == values_view(h@),
            resource_costs@.len() == k,
            forall|j: int| 0 <= j < k ==> #[trigger] resource_costs@[j] == (ResearchCost {
                type_id: num(hv, 4 + 3 * j) as i16,
                amount: num(hv, 5 + 3 * j) as i16,
                enabled: num(hv, 6 + 3 * j) != 0,
            }),
        decreases 3 - k,
    {
        resource_costs.push(ResearchCost {
            type_id: #[verifier::truncate] (num_at(&h, 4 + 3 * k) as i16),
            amount: #[verifier::truncate] (num_at(&h, 5 + 3 * k) as i16),
            enabled: num_at(&h, 6 + 3 * k) != 0,
        });
        k = k + 1;
    }
    let actual_required_techs = num_at(&h, 13);
    if actual_required_techs > 4 {
        return Err(EmpiresDbError::BadFile("more required techs than possible"));
    }
    assert(crate::layout::fits(research_head_fields()[13], hv[13]));
    required_techs.truncate(actual_required_techs as usize);

    let body_layout = [
        Field::I16, Field::U16, Field::U16, Field::I16, Field::I16, Field::I16, Field::I16, Field::I8,
        Field::I32, Field::I32, Field::I32, Field::U16,
    ];
    assert(body_layout@ == research_body_fields());
    let b = read_values(data, pos, &body_layout)?;
    assert(crate::layout::fits(research_body_fields()[11], values_view(b@)[11]));
    let name_length = num_at(&b, 11) as u64;
    let mut name = String::new();
    if name_length > 0 {
        name = match read_sized_str(data, pos, name_length) {
            Ok(s) => s,
            Err(e) => return Err(EmpiresDbError::ReadError(e)),
        };
    }
    Ok(Research {
        id: 0,
        required_techs,
        resource_costs,
        location: #[verifier::truncate] (num_at(&b, 0) as i16),
        language_dll_name: #[verifier::truncate] (num_at(&b, 1) as u16),
        language_dll_description: #[verifier::truncate] (num_at(&b, 2) as u16),
        time: #[verifier::truncate] (num_at(&b, 3) as i16),
        age_id: #[verifier::truncate] (num_at(&b, 4) as i16),
        type_id: #[verifier::truncate] (num_at(&b, 5) as i16),
        icon_id: #[verifier::truncate] (num_at(&b, 6) as i16),
        button_id: #[verifier::truncate] (num_at(&b, 7) as i8),
        language_dll_help: #[verifier::truncate] (num_at(&b, 8) as i32),
        language_dll_tech_tree: #[verifier::truncate] (num_at(&b, 9) as i32),
        name,
    })
}

/// `n` research records one after another from `p`.
pub open spec fn research_from(d: Seq<u8>, p: int, n: nat) -> Result<(Seq<ResearchValues>, int), EmpiresDbError>
    decreases n,
{
    if n == 0 {
        Ok((Seq::empty(), p))
    } else {
        match research_from(d, p, (n - 1) as nat) {
            Err(e) => Err(e),
            Ok((rs, q)) => match research_read(d, q) {
                Err(e) => Err(e),
                Ok(v) => Ok((rs.push(v), v.end)),
            },
        }
    }
}

/// The research section at `p`: a count, then that many records.
pub open spec fn research_section(d: Seq<u8>, p: int) -> Result<(Seq<ResearchValues>, int), EmpiresDbError> {
    if !available(d, p, 2) {
        Err(EmpiresDbError::ReadError(StreamError::UnexpectedEof))
    } else {
        research_from(d, p + 2, u16_at(d, p) as nat)
    }
}

proof fn lemma_research_error_stays(d: Seq<u8>, p: int, i: nat, n: nat)
    requires
        i <= n,
        research_from(d, p, i) is Err,
    ensures
        research_from(d, p, n) == research_from(d, p, i),
    decreases n - i,
{
    if i < n {
        lemma_research_error_stays(d, p, i + 1, n);
    }
}

/// Reads the research: a count, then that many records, each given its index.
pub fn read_research(data: &[u8], pos: &mut u64) -> (r: Result<Vec<Research>, EmpiresDbError>)
    ensures
        match research_section(data@, *old(pos) as int) {
            Ok((vs, e)) => r matches Ok(rs) && *final(pos) == e && rs@.len() == vs.len()
                && forall|i: int| 0 <= i < rs@.len() ==> research_matches(#[trigger] rs@[i], vs[i]) && rs@[i].id == i,
            Err(e) => r == Err::<Vec<Research>, EmpiresDbError>(e),
        },
{
    let ghost p0 = *pos as int;
    let research_count = match read_u16(data, pos) {
        Ok(v) => v,
        Err(e) => return Err(EmpiresDbError::ReadError(e)),
    };
    let mut research: Vec<Research> = Vec::new();
    let ghost mut vs: Seq<ResearchValues> = Seq::empty();
    let mut i: u16 = 0;
    while i < research_count
        invariant
            i <= research_count,
            p0 == *old(pos),
            available(data@, p0, 2),
            research_count == u16_at(data@, p0),
            research_from(data@, p0 + 2, i as nat) == Ok::<(Seq<ResearchValues>, int), EmpiresDbError>((vs, *pos as int)),
            vs.len() == i,
            research@.len() == i,
            forall|j: int| 0 <= j < i ==> research_matches(#[trigger] research@[j], vs[j]) && research@[j].id == j,
        decreases research_count - i,
    {
        let ghost q = *pos as int;
        match read_single_research(data, pos) {
            Ok(mut x) => {
                x.id = i;
                proof {
                    vs = vs.push(research_read(data@, q)->Ok_0);
                }
                research.push(x);
            },
            Err(e) => {
                proof {
                    lemma_research_error_stays(data@, p0 + 2, (i + 1) as nat, research_count as nat);
                }
                return Err(e);
            },
        }
        i = i + 1;
    }
    Ok(research)
}

} // verus!
