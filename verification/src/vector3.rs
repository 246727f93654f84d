//! Three-dimensional vectors of fixed-point numbers.
//!
//! Arithmetic is component by component and follows `Fixed`: sums and
//! differences are refused where a component would overflow, products wrap,
//! and quotients are refused where a component division would fail.

use vstd::prelude::*;
use core::ops::{Add, Div, Mul, Sub};
use crate::fixed::{lemma_mul_exact, sqrt_defined, sqrt_value, Fixed};
use vstd::std_specs::ops::MulSpec;
use vstd::std_specs::ops::DivSpec;

verus! {

/// A vector of three fixed-point components.
#[derive(Clone, Copy, Debug, PartialEq, Eq, Structural)]
pub struct Vector3 {
    pub x: Fixed,
    pub y: Fixed,
    pub z: Fixed,
}

/// The scaled value of component `i` (0, 1 or 2 for x, y and z).
pub open spec fn coord(v: Vector3, i: int) -> i64 {
    if i == 0 {
        v.x.scaled
    } else if i == 1 {
        v.y.scaled
    } else {
        v.z.scaled
    }
}

/// The fixed-point product `a * b`: the scaled values multiplied, wrapped to
/// 64 bits, with the fraction bits dropped.
pub open spec fn fixed_mul(a: i64, b: i64) -> i64 {
    (a.wrapping_mul(b) / 16777216) as i64
}

/// Where the product of the scaled values fits in 64 bits, the fixed-point
/// product is that product divided by `2^24`, rounded down, and negating both
/// factors leaves it as it is.
pub proof fn lemma_fixed_mul_exact(a: i64, b: i64)
    requires
        i64::MIN <= a * b <= i64::MAX,
    ensures
        fixed_mul(a, b) == (a * b) / 16777216,
        a != i64::MIN && b != i64::MIN ==> fixed_mul(a, b) == fixed_mul((-a) as i64, (-b) as i64),
{
    lemma_mul_exact(Fixed { scaled: a }, Fixed { scaled: b });
}

/// Whether the fixed-point quotient `a / b` is defined: `b` is not zero and
/// the quotient does not overflow.
pub open spec fn fixed_div_ok(a: i64, b: i64) -> bool {
    (Fixed { scaled: a }).div_req(Fixed { scaled: b })
}

/// The fixed-point quotient `a / b`.
pub open spec fn fixed_div(a: i64, b: i64) -> i64 {
    (Fixed { scaled: a }).div_spec(Fixed { scaled: b }).scaled
}

impl Vector3 {
    pub fn new(x: Fixed, y: Fixed, z: Fixed) -> (r: Vector3)
        ensures
            r == (Vector3 { x, y, z }),
    {
        Vector3 { x, y, z }
    }

    /// Component `i`: x, y and z for 0, 1 and 2.
    pub fn get(&self, i: usize) -> (r: Fixed)
        requires
            i < 3,
        ensures
            r.scaled == coord(*self, i as int),
    {
        if i == 0 {
            self.x
        } else if i == 1 {
            self.y
        } else {
            self.z
        }
    }
}

impl Add for Vector3 {
    type Output = Vector3;

    fn add(self, rhs: Vector3) -> (r: Vector3) {
        Vector3::new(self.x + rhs.x, self.y + rhs.y, self.z + rhs.z)
    }
}

impl vstd::std_specs::ops::AddSpecImpl for Vector3 {
    open spec fn obeys_add_spec() -> bool {
        true
    }

    open spec fn add_req(self, rhs: Vector3) -> bool {
        &&& i64::MIN <= self.x.scaled + rhs.x.scaled <= i64::MAX
        &&& i64::MIN <= self.y.scaled + rhs.y.scaled <= i64::MAX
        &&& i64::MIN <= self.z.scaled + rhs.z.scaled <= i64::MAX
    }

    open spec fn add_spec(self, rhs: Vector3) -> Vector3 {
        Vector3 {
            x: Fixed { scaled: (self.x.scaled + rhs.x.scaled) as i64 },
            y: Fixed { scaled: (self.y.scaled + rhs.y.scaled) as i64 },
            z: Fixed { scaled: (self.z.scaled + rhs.z.scaled) as i64 },
        }
    }
}

impl Sub for Vector3 {
    type Output = Vector3;

    fn sub(self, rhs: Vector3) -> (r: Vector3) {
        Vector3::new(self.x - rhs.x, self.y - rhs.y, self.z - rhs.z)
    }
}

impl vstd::std_specs::ops::SubSpecImpl for Vector3 {
    open spec fn obeys_sub_spec() -> bool {
        true
    }

    open spec fn sub_req(self, rhs: Vector3) -> bool {
        &&& i64::MIN <= self.x.scaled - rhs.x.scaled <= i64::MAX
        &&& i64::MIN <= self.y.scaled - rhs.y.scaled <= i64::MAX
        &&& i64::MIN <= self.z.scaled - rhs.z.scaled <= i64::MAX
    }

    open spec fn sub_spec(self, rhs: Vector3) -> Vector3 {
        Vector3 {
            x: Fixed { scaled: (self.x.scaled - rhs.x.scaled) as i64 },
            y: Fixed { scaled: (self.y.scaled - rhs.y.scaled) as i64 },
            z: Fixed { scaled: (self.z.scaled - rhs.z.scaled) as i64 },
        }
    }
}

impl Mul<Fixed> for Vector3 {
    type Output = Vector3;

    fn mul(self, rhs: Fixed) -> (r: Vector3) {
        Vector3::new(self.x * rhs, self.y * rhs, self.z * rhs)
    }
}

impl vstd::std_specs::ops::MulSpecImpl<Fixed> for Vector3 {
    open spec fn obeys_mul_spec() -> bool {
        true
    }

    open spec fn mul_req(self, rhs: Fixed) -> bool {
        true
    }

    open spec fn mul_spec(self, rhs: Fixed) -> Vector3 {
        Vector3 {
            x: Fixed { scaled: fixed_mul(self.x.scaled, rhs.scaled) },
            y: Fixed { scaled: fixed_mul(self.y.scaled, rhs.scaled) },
            z: Fixed { scaled: fixed_mul(self.z.scaled, rhs.scaled) },
        }
    }
}

impl Div<Fixed> for Vector3 {
    type Output = Vector3;

    fn div(self, rhs: Fixed) -> (r: Vector3) {
        Vector3::new(self.x / rhs, self.y / rhs, self.z / rhs)
    }
}

impl vstd::std_specs::ops::DivSpecImpl<Fixed> for Vector3 {
    open spec fn obeys_div_spec() -> bool {
        true
    }

    open spec fn div_req(self, rhs: Fixed) -> bool {
        &&& fixed_div_ok(self.x.scaled, rhs.scaled)
        &&& fixed_div_ok(self.y.scaled, rhs.scaled)
        &&& fixed_div_ok(self.z.scaled, rhs.scaled)
    }

    open spec fn div_spec(self, rhs: Fixed) -> Vector3 {
        Vector3 {
            x: Fixed { scaled: fixed_div(self.x.scaled, rhs.scaled) },
            y: Fixed { scaled: fixed_div(self.y.scaled, rhs.scaled) },
            z: Fixed { scaled: fixed_div(self.z.scaled, rhs.scaled) },
        }
    }
}

/// The squared length `x * x + y * y + z * z` in fixed point, `None` where a
/// sum overflows.
pub open spec fn squared_length(v: Vector3) -> Option<i64> {
    let xx = fixed_mul(v.x.scaled, v.x.scaled);
    let yy = fixed_mul(v.y.scaled, v.y.scaled);
    let zz = fixed_mul(v.z.scaled, v.z.scaled);
    if i64::MIN <= xx + yy <= i64::MAX && i64::MIN <= xx + yy + zz <= i64::MAX {
        Some((xx + yy + zz) as i64)
    } else {
        None
    }
}

/// Whether the length of `v` can be taken: its squared length is defined and
/// `Fixed::sqrt` returns its square root.
pub open spec fn length_defined(v: Vector3) -> bool {
    squared_length(v) matches Some(s) && sqrt_defined(s)
}

/// The length of `v`: the fixed-point square root of its squared length.
pub open spec fn length_of(v: Vector3) -> i64 {
    sqrt_value(squared_length(v)->Some_0)
}

/// Lengths and normalization.
pub trait Norm: Sized {
    /// Whether the squared length can be computed without overflow.
    spec fn squared_defined(&self) -> bool;

    /// The squared length.
    spec fn squared(&self) -> Fixed;

    /// Whether the length can be taken.
    spec fn length_ok(&self) -> bool;

    /// The length.
    spec fn len_spec(&self) -> Fixed;

    /// Whether the vector can be divided by its length.
    spec fn normalize_ok(&self) -> bool;

    /// The vector divided by its length.
    spec fn normalized_spec(&self) -> Self;

    fn length_squared(&self) -> (r: Fixed)
        requires
            self.squared_defined(),
        ensures
            r == self.squared(),
    ;

    fn length(&self) -> (r: Fixed)
        requires
            self.length_ok(),
        ensures
            r == self.len_spec(),
    ;

    fn normalized(&self) -> (r: Self)
        requires
            self.normalize_ok(),
        ensures
            r == self.normalized_spec(),
    ;

    fn normalize(&mut self) -> (r: Fixed)
        requires
            old(self).normalize_ok(),
        ensures
            r == old(self).len_spec(),
            *final(self) == old(self).normalized_spec(),
    ;
}

impl Norm for Vector3 {
    open spec fn squared_defined(&self) -> bool {
        squared_length(*self) is Some
    }

    open spec fn squared(&self) -> Fixed {
        Fixed { scaled: squared_length(*self)->Some_0 }
    }

    open spec fn length_ok(&self) -> bool {
        length_defined(*self)
    }

    open spec fn len_spec(&self) -> Fixed {
        Fixed { scaled: length_of(*self) }
    }

    open spec fn normalize_ok(&self) -> bool {
        length_defined(*self) && (*self).div_req(Fixed { scaled: length_of(*self) })
    }

    open spec fn normalized_spec(&self) -> Vector3 {
        (*self).div_spec(Fixed { scaled: length_of(*self) })
    }

    #[inline]
    fn length_squared(&self) -> (r: Fixed) {
        self.x * self.x + self.y * self.y + self.z * self.z
    }

    #[inline]
    fn length(&self) -> (r: Fixed) {
        self.length_squared().sqrt()
    }

    fn normalized(&self) -> (r: Vector3) {
        let len = self.length();
        *self / len
    }

    fn normalize(&mut self) -> (r: Fixed) {
        let len = self.length();
        *self = *self / len;
        len
    }
}

} // verus!
