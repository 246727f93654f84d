//! Research in the later reader of the empires database: the same records,
//! with typed identifiers, and only the resource costs that apply.

use vstd::prelude::*;
use core::marker::PhantomData;
use crate::bytes::{available, read_u16, u16_at, StreamError};
use crate::dat::research::{read_single_research, research_read, ResearchValues};
use crate::dat::EmpiresDbError;
use crate::file_formats::dat::resource::{resource_of, ResourceCost, ResourceType};
use crate::identifier::{AgeId, LocalizationId, ResearchId, UnitId};
use crate::layout::{num, FieldValue};

verus! {

/// The cost of a research in one resource.
pub type ResearchCost = ResourceCost<i16, u8>;

/// A research: a technology, with what it requires and costs.
#[derive(Default, Debug)]
pub struct Research {
    pub id: ResearchId,
    pub required_techs: Vec<i16>,
    pub resource_costs: Vec<ResearchCost>,
    /// The unit at which the research is performed.
    pub location: Option<UnitId>,
    pub name_id: LocalizationId,
    pub description_id: LocalizationId,
    /// How long the research takes.
    pub time_seconds: i16,
    pub age_id: Option<AgeId>,
    pub type_id: i16,
    /// Frame of the button graphic in 50729.slp of interfac.drs.
    pub icon_id: i16,
    /// Button slot position.
    pub button_id: i8,
    pub help_id: Option<LocalizationId>,
    pub tech_tree_id: Option<LocalizationId>,
    pub name: String,
}

/// An identifier stored as a signed number: none for -1, otherwise its low
/// 32 bits.
pub open spec fn optional_id(v: int) -> Option<u32> {
    if v == -1 { None } else { Some(v as u32) }
}

/// The costs that apply among the first `k` costs of a research's head values.
pub open spec fn costs_applying(h: Seq<FieldValue>, k: int) -> Seq<ResearchCost>
    decreases k,
{
    if k <= 0 {
        Seq::empty()
    } else if num(h, 6 + 3 * (k - 1)) != 0 {
        costs_applying(h, k - 1).push(ResourceCost {
            resource_type: resource_of(num(h, 4 + 3 * (k - 1)) as i16),
            amount: num(h, 5 + 3 * (k - 1)) as i16,
            enabled: true,
            phantom: PhantomData,
        })
    } else {
        costs_applying(h, k - 1)
    }
}

/// The stored name and description IDs of a research are not -1 (they
/// must be given).
pub open spec fn ids_given(v: ResearchValues) -> bool {
    (num(v.body, 1) as u16) as i16 != -1 && (num(v.body, 2) as u16) as i16 != -1
}

/// A research as its stored values give it (without its index).
pub open spec fn research_of(r: Research, v: ResearchValues) -> bool {
    let h = v.head;
    let b = v.body;
    &&& r.required_techs@.len() == num(h, 13)
    &&& forall|i: int| 0 <= i < r.required_techs@.len() ==> #[trigger] r.required_techs@[i] == num(h, i) as i16
    &&& r.resource_costs@ == costs_applying(h, 3)
    &&& r.location == (match optional_id(num(b, 0) as i16 as int) { Some(x) => Some(UnitId(x)), None => None::<UnitId> })
    &&& r.name_id == LocalizationId(((num(b, 1) as u16) as i16) as u32)
    &&& r.description_id == LocalizationId(((num(b, 2) as u16) as i16) as u32)
    &&& r.time_seconds == num(b, 3) as i16
    &&& r.age_id == (match optional_id(num(b, 4) as i16 as int) { Some(x) => Some(AgeId(x)), None => None::<AgeId> })
    &&& r.type_id == num(b, 5) as i16 && r.icon_id == num(b, 6) as i16 && r.button_id == num(b, 7) as i8
    &&& r.help_id == (match optional_id(num(b, 8) as i32 as int) { Some(x) => Some(LocalizationId(x)), None => None::<LocalizationId> })
    &&& r.tech_tree_id == (match optional_id(num(b, 9) as i32 as int) { Some(x) => Some(LocalizationId(x)), None => None::<LocalizationId> })
    &&& r.name@ == v.name
}

/// `n` research records one after another from `p`; `None` where a record's
/// name or description ID is -1.
pub open spec fn research_list_from(d: Seq<u8>, p: int, n: nat) -> Option<Result<(Seq<ResearchValues>, int), EmpiresDbError>>
    decreases n,
{
    if n == 0 {
        Some(Ok((Seq::empty(), p)))
    } else {
        match research_list_from(d, p, (n - 1) as nat) {
            Some(Ok((rs, q))) => match research_read(d, q) {
                Err(e) => Some(Err(e)),
                Ok(v) => if ids_given(v) { Some(Ok((rs.push(v), v.end))) } else { None },
            },
            other => other,
        }
    }
}

/// The research section at `p`: a count, then that many records.
pub open spec fn research_list(d: Seq<u8>, p: int) -> Option<Result<(Seq<ResearchValues>, int), EmpiresDbError>> {
    if !available(d, p, 2) {
        Some(Err(EmpiresDbError::ReadError(StreamError::UnexpectedEof)))
    } else {
        research_list_from(d, p + 2, u16_at(d, p) as nat)
    }
}

proof fn lemma_list_stop_stays(d: Seq<u8>, p: int, i: nat, n: nat)
    requires
        i <= n,
        !(research_list_from(d, p, i) matches Some(Ok(_))),
    ensures
        research_list_from(d, p, n) == research_list_from(d, p, i),
    decreases n - i,
{
    if i < n {
        lemma_list_stop_stays(d, p, i + 1, n);
    }
}

/// An identifier from a stored signed number: none for -1.
fn optional_u32(v: i32) -> (r: Option<u32>)
    ensures
        r == optional_id(v as int),
{
    if v == -1 { None } else { Some(#[verifier::truncate] (v as u32)) }
}

/// Reads the research: a count, then that many records, each given its
/// index; `None` where a record's name or description ID is -1.
pub fn read_research_checked(data: &[u8], pos: &mut u64) -> (r: Option<Result<Vec<Research>, EmpiresDbError>>)
    ensures
        match research_list(data@, *old(pos) as int) {
            Some(Ok((vs, e))) => r matches Some(Ok(rs)) && *final(pos) == e && rs@.len() == vs.len()
                && forall|i: int| 0 <= i < rs@.len() ==> research_of(#[trigger] rs@[i], vs[i]) && rs@[i].id == ResearchId(i as u32),
            Some(Err(e)) => r matches Some(Err(x)) && x == e,
            None => r is None,
        },
{
    let ghost p0 = *pos as int;
    let research_count = match read_u16(data, pos) {
        Ok(v) => v,
        Err(e) => return Some(Err(EmpiresDbError::ReadError(e))),
    };
    let mut research: Vec<Research> = Vec::new();
    let ghost mut vs: Seq<ResearchValues> = Seq::empty();
    let mut i: u16 = 0;
    while i < research_count
        invariant
            i <= research_count,
            p0 == *old(pos),
            available(data@, p0, 2),
            research_count == u16_at(data@, p0),
            research_list_from(data@, p0 + 2, i as nat) == Some(Ok::<(Seq<ResearchValues>, int), EmpiresDbError>((vs, *pos as int))),
            vs.len() == i,
            research@.len() == i,
            forall|j: int| 0 <= j < i ==> research_of(#[trigger] research@[j], vs[j]) && research@[j].id == ResearchId(j as u32),
        decreases research_count - i,
    {
        let ghost q = *pos as int;
        let rec = match read_single_research(data, pos) {
            Ok(x) => x,
            Err(e) => {
                proof {
                    lemma_list_stop_stays(data@, p0 + 2, (i + 1) as nat, research_count as nat);
                }
                return Some(Err(e));
            },
        };
        let ghost v = research_read(data@, q)->Ok_0;
        let name_id = #[verifier::truncate] (rec.language_dll_name as i16);
        let description_id = #[verifier::truncate] (rec.language_dll_description as i16);
        if name_id == -1 || description_id == -1 {
            proof {
                lemma_list_stop_stays(data@, p0 + 2, (i + 1) as nat, research_count as nat);
            }
            return None;
        }
        let mut costs: Vec<ResearchCost> = Vec::new();
        let mut k: usize = 0;
        while k < rec.resource_costs.len()
            invariant
                k <= rec.resource_costs@.len(),
                rec.resource_costs@.len() == 3,
                forall|j: int| 0 <= j < 3 ==> #[trigger] rec.resource_costs@[j] == (crate::dat::research::ResearchCost {
                    type_id: num(v.head, 4 + 3 * j) as i16,
                    amount: num(v.head, 5 + 3 * j) as i16,
                    enabled: num(v.head, 6 + 3 * j) != 0,
                }),
                costs@ == costs_applying(v.head, k as int),
            decreases rec.resource_costs@.len() - k,
        {
            let c = rec.resource_costs[k];
            if c.enabled {
                costs.push(ResourceCost {
                    resource_type: ResourceType::from_i16(c.type_id),
                    amount: c.amount,
                    enabled: true,
                    phantom: PhantomData,
                });
            }
            k = k + 1;
        }
        let x = Research {
            id: ResearchId(i as u32),
            required_techs: rec.required_techs,
            resource_costs: costs,
            location: match optional_u32(rec.location as i32) {
                Some(v) => Some(UnitId(v)),
                None => None,
            },
            name_id: LocalizationId(#[verifier::truncate] (name_id as u32)),
            description_id: LocalizationId(#[verifier::truncate] (description_id as u32)),
            time_seconds: rec.time,
            age_id: match optional_u32(rec.age_id as i32) {
                Some(v) => Some(AgeId(v)),
                None => None,
            },
            type_id: rec.type_id,
            icon_id: rec.icon_id,
            button_id: rec.button_id,
            help_id: match optional_u32(rec.language_dll_help) {
                Some(v) => Some(LocalizationId(v)),
                None => None,
            },
            tech_tree_id: match optional_u32(rec.language_dll_tech_tree) {
                Some(v) => Some(LocalizationId(v)),
                None => None,
            },
            name: rec.name,
        };
        proof {
            vs = vs.push(v);
        }
        research.push(x);
        i = i + 1;
    }
    Some(Ok(research))
}

/// Reads the research as `read_research_checked` does; no record's name or
/// description ID may be -1.
pub fn read_research(data: &[u8], pos: &mut u64) -> (r: Result<Vec<Research>, EmpiresDbError>)
    requires
        research_list(data@, *old(pos) as int) is Some,
    ensures
        match research_list(data@, *old(pos) as int) {
            Some(Ok((vs, e))) => r matches Ok(rs) && *final(pos) == e && rs@.len() == vs.len()
                && forall|i: int| 0 <= i < rs@.len() ==> research_of(#[trigger] rs@[i], vs[i]) && rs@[i].id == ResearchId(i as u32),
            Some(Err(e)) => r matches Err(x) && x == e,
            None => false,
        },
{
    read_research_checked(data, pos).unwrap()
}

} // verus!
