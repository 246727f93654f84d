//! Resources and resource costs.

use vstd::prelude::*;
use core::marker::PhantomData;
use crate::bytes::{available, i16_at, read_i16, read_u32, read_u8, u32_at, StreamError};

verus! {

/// The kinds of resources.
#[derive(Debug, Clone, Copy, Ord, PartialOrd, Eq, PartialEq, Structural)]
pub enum ResourceType {
    Food,
    Wood,
    Stone,
    Gold,
    Unknown(i16),
}

/// The resource that a stored value names: 0 to 3 are food, wood, stone and
/// gold; any other value is kept as unknown.
pub open spec fn resource_of(val: i16) -> ResourceType {
    if val == 0 {
        ResourceType::Food
    } else if val == 1 {
        ResourceType::Wood
    } else if val == 2 {
        ResourceType::Stone
    } else if val == 3 {
        ResourceType::Gold
    } else {
        ResourceType::Unknown(val)
    }
}

impl ResourceType {
    pub fn from_i16(val: i16) -> (r: ResourceType)
        ensures
            r == resource_of(val),
    {
        match val {
            0 => ResourceType::Food,
            1 => ResourceType::Wood,
            2 => ResourceType::Stone,
            3 => ResourceType::Gold,
            _ => ResourceType::Unknown(val),
        }
    }
}

impl Default for ResourceType {
    fn default() -> (r: ResourceType)
        ensures
            r == ResourceType::Unknown(-1i16),
    {
        ResourceType::Unknown(-1)
    }
}

/// A cost in one resource: its kind, its amount and whether it applies. `T`
/// is the type of the amount as stored; `E` that of the stored flag.
#[derive(Debug)]
pub struct ResourceCost<T: Copy, E: Copy> {
    pub resource_type: ResourceType,
    pub amount: T,
    pub enabled: bool,
    pub phantom: PhantomData<E>,
}

/// Reading a resource cost from a stream.
pub trait ReadResourceCost {
    /// Reads the kind (16 bits), the amount and the flag of a cost at `pos`.
    fn read_resource_cost(&mut self, data: &[u8], pos: &mut u64) -> Result<(), StreamError>;
}

/// A cost stored as a 16-bit kind, a 16-bit amount and a one-byte flag.
impl ReadResourceCost for ResourceCost<i16, u8> {
    fn read_resource_cost(&mut self, data: &[u8], pos: &mut u64) -> (r: Result<(), StreamError>)
        ensures
            ({
                let p = *old(pos) as int;
                match r {
                    Ok(()) => available(data@, p, 5) && *final(pos) == p + 5
                        && final(self).resource_type == resource_of(i16_at(data@, p))
                        && final(self).amount == i16_at(data@, p + 2)
                        && final(self).enabled == (data@[p + 4] != 0),
                    Err(e) => !available(data@, p, 5) && e == StreamError::UnexpectedEof,
                }
            }),
    {
        let kind = read_i16(data, pos)?;
        let amount = read_i16(data, pos)?;
        let flag = read_u8(data, pos)?;
        self.resource_type = ResourceType::from_i16(kind);
        self.amount = amount;
        self.enabled = flag != 0;
        Ok(())
    }
}

/// A cost stored as a 16-bit kind, a 16-bit amount and a 16-bit flag.
impl ReadResourceCost for ResourceCost<i16, i16> {
    fn read_resource_cost(&mut self, data: &[u8], pos: &mut u64) -> (r: Result<(), StreamError>)
        ensures
            ({
                let p = *old(pos) as int;
                match r {
                    Ok(()) => available(data@, p, 6) && *final(pos) == p + 6
                        && final(self).resource_type == resource_of(i16_at(data@, p))
                        && final(self).amount == i16_at(data@, p + 2)
                        && final(self).enabled == (i16_at(data@, p + 4) != 0),
                    Err(e) => !available(data@, p, 6) && e == StreamError::UnexpectedEof,
                }
            }),
    {
        let kind = read_i16(data, pos)?;
        let amount = read_i16(data, pos)?;
        let flag = read_i16(data, pos)?;
        self.resource_type = ResourceType::from_i16(kind);
        self.amount = amount;
        self.enabled = flag != 0;
        Ok(())
    }
}

/// A cost stored as a 16-bit kind, a 32-bit float amount (kept as its raw
/// bits) and a one-byte flag.
impl ReadResourceCost for ResourceCost<u32, u8> {
    fn read_resource_cost(&mut self, data: &[u8], pos: &mut u64) -> (r: Result<(), StreamError>)
        ensures
            ({
                let p = *old(pos) as int;
                match r {
                    Ok(()) => available(data@, p, 7) && *final(pos) == p + 7
                        && final(self).resource_type == resource_of(i16_at(data@, p))
                        && final(self).amount == u32_at(data@, p + 2)
                        && final(self).enabled == (data@[p + 6] != 0),
                    Err(e) => !available(data@, p, 7) && e == StreamError::UnexpectedEof,
                }
            }),
    {
        let kind = read_i16(data, pos)?;
        let amount = read_u32(data, pos)?;
        let flag = read_u8(data, pos)?;
        self.resource_type = ResourceType::from_i16(kind);
        self.amount = amount;
        self.enabled = flag != 0;
        Ok(())
    }
}

/// Reads `count` costs stored as a 16-bit kind, a 16-bit amount and a
/// one-byte flag each, and keeps those that apply, in order.
pub fn read_resource_costs(data: &[u8], pos: &mut u64, count: usize) -> (r: Result<Vec<ResourceCost<i16, u8>>, StreamError>)
    ensures
        match r {
            Ok(cs) => (count == 0 || available(data@, *old(pos) as int, 5 * count)) && *final(pos) == *old(pos) + 5 * count
                && cs@ == costs_kept(data@, *old(pos) as int, count as int),
            Err(e) => count > 0 && !available(data@, *old(pos) as int, 5 * count) && e == StreamError::UnexpectedEof,
        },
{
    let ghost p0 = *pos as int;
    let mut result: Vec<ResourceCost<i16, u8>> = Vec::new();
    let mut k: usize = 0;
    while k < count
        invariant
            k <= count,
            *pos == p0 + 5 * k,
            p0 == *old(pos),
            k > 0 ==> available(data@, p0, 5 * k),
            result@ == costs_kept(data@, p0, k as int),
        decreases count - k,
    {
        let mut cost: ResourceCost<i16, u8> = ResourceCost {
            resource_type: ResourceType::Unknown(-1),
            amount: 0,
            enabled: false,
            phantom: PhantomData,
        };
        match cost.read_resource_cost(data, pos) {
            Ok(()) => {},
            Err(e) => {
                return Err(e);
            },
        }
        if cost.enabled {
            result.push(cost);
        }
        k = k + 1;
    }
    Ok(result)
}

/// The cost stored at `p`.
pub open spec fn cost_at(d: Seq<u8>, p: int) -> ResourceCost<i16, u8> {
    ResourceCost {
        resource_type: resource_of(i16_at(d, p)),
        amount: i16_at(d, p + 2),
        enabled: d[p + 4] != 0,
        phantom: PhantomData,
    }
}

/// The costs that apply among the first `k` stored from `p` on, in order.
pub open spec fn costs_kept(d: Seq<u8>, p: int, k: int) -> Seq<ResourceCost<i16, u8>>
    decreases k,
{
    if k <= 0 {
        Seq::empty()
    } else if cost_at(d, p + 5 * (k - 1)).enabled {
        costs_kept(d, p, k - 1).push(cost_at(d, p + 5 * (k - 1)))
    } else {
        costs_kept(d, p, k - 1)
    }
}

} // verus!
