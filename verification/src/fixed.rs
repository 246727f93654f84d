//! Fixed-point numbers with 24 fractional bits, stored in an `i64`.
//!
//! The value of a `Fixed` is `scaled / 2^24`. Arithmetic follows the integer
//! operations on `scaled`: addition, subtraction and negation are exact (and
//! refused where they would overflow), multiplication wraps the 128-bit
//! product into 64 bits before dropping the fraction bits, and division shifts
//! the dividend left by 24 bits (dropping the high bits) before an integer
//! division that rounds toward zero.

use vstd::prelude::*;
use core::ops::{Add, Div, Mul, Neg, Rem, Sub};
use vstd::std_specs::ops::{DivSpec, MulSpec, RemSpec};

verus! {

/// Number of fractional bits.
pub const SCALE_BITS: i64 = 24;

/// `2^SCALE_BITS`: the scaled representation of one.
pub const SCALE: i64 = 16777216;

/// Mask of the integral bits (`0xFFFF_FFFF_FF00_0000`).
pub const INTEGER_MASK: i64 = -16777216;

/// Mask of the fractional bits.
pub const FRACTIONAL_MASK: i64 = 16777215;

/// The scaled representation of one half.
pub const ONE_HALF: i64 = 8388608;

/// The scaled representation of pi, truncated.
pub const FIXED_PI: i64 = 52707178;

/// The scaled representation of two pi, truncated.
pub const FIXED_TWO_PI: i64 = 105414357;

/// The square root iteration stops once a step moves by at most this much
/// (the scaled representation of 0.0001, truncated).
pub const SQRT_EPSILON: i64 = 1677;

/// Fixed-point number: `scaled / 2^24`.
#[derive(Eq, PartialEq, Structural, Copy, Clone, Default, Ord, PartialOrd, Debug)]
pub struct Fixed {
    pub scaled: i64,
}

/// `v` rounded down to a multiple of `SCALE`.
pub open spec fn floor_to_scale(v: int) -> int {
    v - v % (SCALE as int)
}

/// Integer division rounding toward zero, as `i64::checked_div` computes it.
pub open spec fn trunc_div(x: int, d: int) -> int {
    if x == 0 {
        0
    } else if x > 0 && d > 0 {
        x / d
    } else if x < 0 && d < 0 {
        (x * -1) / (d * -1)
    } else if x < 0 {
        ((x * -1) / d) * -1
    } else {
        (x / (d * -1)) * -1
    }
}

/// Remainder of the division rounding toward zero (it has the sign of `x`),
/// as `i64::checked_rem` computes it.
pub open spec fn trunc_rem(x: int, d: int) -> int {
    if x == 0 {
        0
    } else if x > 0 && d > 0 {
        x % d
    } else if x < 0 && d < 0 {
        ((x * -1) % (d * -1)) * -1
    } else if x < 0 {
        ((x * -1) % d) * -1
    } else {
        x % (d * -1)
    }
}

/// The quotient rounding toward zero fits in an `i64` unless it is the one
/// overflowing case `i64::MIN / -1`.
proof fn lemma_trunc_div_in_range(x: i64, d: i64)
    requires
        d != 0,
        !(x == i64::MIN && d == -1),
    ensures
        i64::MIN <= trunc_div(x as int, d as int) <= i64::MAX,
{
    let a: int = if x < 0 { -x } else { x as int };
    let b: int = if d < 0 { -d } else { d as int };
    assert(0 <= a / b <= a) by (nonlinear_arith)
        requires
            a >= 0,
            b >= 1,
    ;
    if b >= 2 {
        assert(a / b <= a / 2) by (nonlinear_arith)
            requires
                a >= 0,
                b >= 2,
        ;
    }
}

/// The fixed-point number for a signed integer, keeping the low 64 bits of
/// the scaled value.
pub open spec fn signed_fixed(v: int) -> Fixed {
    Fixed { scaled: (v * SCALE) as i64 }
}

/// The fixed-point number for an unsigned integer: the scaled value is kept
/// modulo `2^64` and read as two's complement.
pub open spec fn unsigned_fixed(v: int) -> Fixed {
    Fixed { scaled: ((v * SCALE) as u64) as i64 }
}

/// `k` is the integer square root of `x`.
pub open spec fn is_isqrt(x: int, k: int) -> bool {
    0 <= k && k * k <= x && x < (k + 1) * (k + 1)
}

/// The integer square root of a non-negative `x`.
pub open spec fn isqrt(x: int) -> int {
    choose|k: int| is_isqrt(x, k)
}

/// One step of the square root iteration on the scaled values: for the number
/// `x / 2^24` and the guess `r / 2^24`, the new guess is half of `r` plus the
/// quotient, each rounded down.
pub open spec fn sqrt_step(x: int, r: int) -> int {
    (r + (x * SCALE) / r) / 2
}

/// The scaled guess after `n` steps of the square root iteration, starting
/// from the number itself.
pub open spec fn sqrt_iterate(x: int, n: nat) -> int
    decreases n,
{
    if n == 0 {
        x
    } else {
        sqrt_step(x, sqrt_iterate(x, (n - 1) as nat))
    }
}

/// Step `n` of the square root iteration moved the guess by at most the epsilon.
pub open spec fn sqrt_settles_at(x: int, n: nat) -> bool {
    &&& n >= 1
    &&& -SQRT_EPSILON <= sqrt_iterate(x, n) - sqrt_iterate(x, (n - 1) as nat) <= SQRT_EPSILON
}

/// Step `n` is the first at which the square root iteration settles.
pub open spec fn sqrt_first_settle(x: int, n: nat) -> bool {
    &&& sqrt_settles_at(x, n)
    &&& forall|m: nat| 1 <= m < n ==> !#[trigger] sqrt_settles_at(x, m)
}

/// The scaled square root that `Fixed::sqrt` computes for the scaled value
/// `x`: one for one, else the guess at which the iteration first settles.
pub open spec fn sqrt_result(x: int) -> int {
    if x == SCALE {
        x
    } else {
        sqrt_iterate(x, choose|n: nat| sqrt_first_settle(x, n))
    }
}

/// One step of the square root iteration on the scaled value `x` as the
/// arithmetic of `Fixed` does it from the guess `r`: `x` shifted left by 24
/// bits (high bits dropped) divided by `r` rounding toward zero, added to
/// `r`, and the sum multiplied by one half (product wrapped, fraction
/// dropped). `None` where the division is by zero or overflows, or the sum
/// overflows.
pub open spec fn machine_step(x: i64, r: i64) -> Option<i64> {
    let w = x.wrapping_shl(24);
    if r == 0 || (w == i64::MIN && r == -1) {
        None
    } else {
        let q = trunc_div(w as int, r as int) as i64;
        if i64::MIN <= r + q <= i64::MAX {
            Some((ONE_HALF.wrapping_mul((r + q) as i64) / SCALE) as i64)
        } else {
            None
        }
    }
}

/// The guess after `n` machine steps from the number itself; `None` once a
/// step has failed.
pub open spec fn sqrt_machine_iterate(x: i64, n: nat) -> Option<i64>
    decreases n,
{
    if n == 0 {
        Some(x)
    } else {
        match sqrt_machine_iterate(x, (n - 1) as nat) {
            Some(r) => machine_step(x, r),
            None => None,
        }
    }
}

/// How far step `n` (from 1) moved the guess, as the absolute value of the
/// difference of two `Fixed`s; `None` where the step fails or the difference
/// or its absolute value overflows.
pub open spec fn sqrt_move(x: i64, n: nat) -> Option<int> {
    if n == 0 {
        None
    } else {
        match (sqrt_machine_iterate(x, (n - 1) as nat), sqrt_machine_iterate(x, n)) {
            (Some(a), Some(b)) => if i64::MIN < a - b <= i64::MAX {
                Some(if a - b < 0 { b - a } else { a - b })
            } else {
                None
            },
            _ => None,
        }
    }
}

/// The iteration stops after step `n`: steps 1 to `n` and their moves are
/// computed without failing, step `n` moves by at most the epsilon, and every
/// step before it moves by more.
pub open spec fn sqrt_stops_at(x: i64, n: nat) -> bool {
    &&& n >= 1
    &&& forall|m: nat| 1 <= m <= n ==> (#[trigger] sqrt_move(x, m)) is Some
    &&& sqrt_move(x, n)->0 <= SQRT_EPSILON
    &&& forall|m: nat| 1 <= m < n ==> (#[trigger] sqrt_move(x, m))->0 > SQRT_EPSILON
}

/// The numbers whose square root `Fixed::sqrt` returns: one, and the
/// non-negative numbers on which the iteration stops.
pub open spec fn sqrt_defined(x: i64) -> bool {
    x == SCALE || (x >= 0 && exists|n: nat| sqrt_stops_at(x, n))
}

/// The scaled square root that `Fixed::sqrt` returns for the scaled value `x`:
/// one for one, else the guess after the step at which the iteration stops.
pub open spec fn sqrt_value(x: i64) -> i64 {
    if x == SCALE {
        x
    } else {
        sqrt_machine_iterate(x, choose|n: nat| sqrt_stops_at(x, n))->0
    }
}

/// The iteration stops after one step only.
proof fn lemma_stops_unique(x: i64, a: nat, b: nat)
    requires
        sqrt_stops_at(x, a),
        sqrt_stops_at(x, b),
    ensures
        a == b,
{
    if a < b {
        assert(sqrt_move(x, a)->0 > SQRT_EPSILON);
    } else if b < a {
        assert(sqrt_move(x, b)->0 > SQRT_EPSILON);
    }
}

/// Below 32768 the machine steps are the steps of `sqrt_iterate`: the guesses
/// stay above zero and below 32768, and from the first step on at or above the
/// integer square root `k` of the shifted number.
proof fn lemma_machine_is_clean(x: i64, k: int, n: nat)
    requires
        0 < x < 0x80_0000_0000,
        is_isqrt(x * SCALE, k),
        k >= 1,
    ensures
        sqrt_machine_iterate(x, n) == Some(sqrt_iterate(x as int, n) as i64),
        0 < sqrt_iterate(x as int, n) < 0x80_0000_0000,
        n >= 1 ==> k <= sqrt_iterate(x as int, n),
    decreases n,
{
    if n > 0 {
        lemma_machine_is_clean(x, k, (n - 1) as nat);
        let r = sqrt_iterate(x as int, (n - 1) as nat);
        let xs = x * SCALE;
        assert(0 < x < 0x80_0000_0000 ==> x.wrapping_shl(24) == x * 16777216) by (bit_vector);
        let q = xs / r;
        assert(q >= 0) by (nonlinear_arith)
            requires
                xs >= 0,
                r > 0,
                q == xs / r,
        ;
        assert(trunc_div(xs, r) == q);
        assert(k < 0x1_0000_0000) by (nonlinear_arith)
            requires
                k * k <= xs,
                xs < 0x80_0000_0000 * 16777216,
                k >= 0,
        ;
        let sum = r + q;
        if n == 1 {
            assert(xs / r == SCALE) by (nonlinear_arith)
                requires
                    xs == r * SCALE,
                    r > 0,
            ;
            assert(0 < sum < 0x100_0000_0000);
        } else if r > k {
            lemma_step_decreases(xs, r, k);
            assert(sum / 2 < r);
            assert(0 < sum < 0x100_0000_0000);
        } else {
            lemma_step_at_isqrt(xs, k);
            assert(0 < sum < 0x100_0000_0000);
        }
        lemma_step_at_least_isqrt(xs, r, k);
        assert(0 < sum * 8388608 < 0x8000_0000_0000_0000) by (nonlinear_arith)
            requires
                0 < sum < 0x100_0000_0000,
        ;
        assert((8388608 * sum) / 16777216 == sum / 2) by (nonlinear_arith)
            requires
                sum > 0,
        ;
        assert(ONE_HALF.wrapping_mul(sum as i64) == 8388608 * sum);
        assert(sqrt_iterate(x as int, n) == sum / 2);
    }
}

/// How far a step moves the guess, below 32768: the move of `sqrt_iterate`.
proof fn lemma_move_is_clean(x: i64, k: int, n: nat)
    requires
        0 < x < 0x80_0000_0000,
        is_isqrt(x * SCALE, k),
        k >= 1,
        n >= 1,
    ensures
        sqrt_move(x, n) is Some,
        sqrt_move(x, n)->0 <= SQRT_EPSILON <==> sqrt_settles_at(x as int, n),
{
    lemma_machine_is_clean(x, k, n);
    lemma_machine_is_clean(x, k, (n - 1) as nat);
}

/// Below 32768 the square root iteration settles at some step after `n`:
/// above the integer square root each step moves the guess down, and at it a
/// step moves it by at most one.
proof fn lemma_eventually_settles(x: i64, k: int, n: nat)
    requires
        0 < x < 0x80_0000_0000,
        is_isqrt(x * SCALE, k),
        k >= 1,
        n >= 1,
    ensures
        exists|m: nat| m > n && sqrt_settles_at(x as int, m),
    decreases sqrt_iterate(x as int, n),
{
    lemma_machine_is_clean(x, k, n);
    lemma_machine_is_clean(x, k, n + 1);
    let r = sqrt_iterate(x as int, n);
    let xs = x * SCALE;
    if sqrt_settles_at(x as int, n + 1) {
        assert(sqrt_settles_at(x as int, (n + 1) as nat));
    } else {
        if r == k {
            lemma_step_at_isqrt(xs, k);
            assert(sqrt_iterate(x as int, n + 1) == sqrt_step(x as int, r));
            assert(false);
        }
        lemma_step_decreases(xs, r, k);
        assert(sqrt_iterate(x as int, n + 1) == sqrt_step(x as int, r));
        lemma_eventually_settles(x, k, n + 1);
    }
}

/// Where the iteration settles at step `n`, it first settles at some step.
proof fn lemma_first_settle_exists(x: int, n: nat)
    requires
        sqrt_settles_at(x, n),
    ensures
        exists|m: nat| sqrt_first_settle(x, m),
    decreases n,
{
    if exists|m: nat| 1 <= m < n && #[trigger] sqrt_settles_at(x, m) {
        let m = choose|m: nat| 1 <= m < n && #[trigger] sqrt_settles_at(x, m);
        lemma_first_settle_exists(x, m);
    } else {
        assert(sqrt_first_settle(x, n));
    }
}

/// Every number above zero and below 32768 has a square root, and it is the
/// guess at which Newton's iteration on the exact quotients first settles.
pub proof fn lemma_sqrt_defined_below(x: i64)
    requires
        0 < x < 0x80_0000_0000,
    ensures
        sqrt_defined(x),
        sqrt_value(x) == sqrt_result(x as int),
{
    if x != SCALE {
        let xs = x * SCALE;
        lemma_isqrt(xs);
        let k = isqrt(xs);
        assert(k >= 1) by (nonlinear_arith)
            requires
                xs < (k + 1) * (k + 1),
                xs >= 16777216,
                k >= 0,
        ;
        lemma_eventually_settles(x, k, 1);
        let s = choose|m: nat| m > 1 && sqrt_settles_at(x as int, m);
        lemma_first_settle_exists(x as int, s);
        let f = choose|m: nat| sqrt_first_settle(x as int, m);
        assert forall|m: nat| 1 <= m <= f implies (#[trigger] sqrt_move(x, m)) is Some by {
            lemma_move_is_clean(x, k, m);
        }
        assert forall|m: nat| 1 <= m < f implies (#[trigger] sqrt_move(x, m))->0 > SQRT_EPSILON by {
            lemma_move_is_clean(x, k, m);
            assert(!sqrt_settles_at(x as int, m));
        }
        lemma_move_is_clean(x, k, f);
        assert(sqrt_stops_at(x, f));
        let g = choose|m: nat| sqrt_stops_at(x, m);
        lemma_stops_unique(x, f, g);
        lemma_machine_is_clean(x, k, f);
    }
}

/// The square root that `Fixed::sqrt` returns for a number above zero and
/// below 32768 is within 0.0001 (plus one unit) above the exact square root,
/// rounded down: writing `k` for the integer square root of the scaled value
/// times `2^24`, it lies between `k` and `k + SQRT_EPSILON + 1`.
pub proof fn lemma_sqrt_near_root(x: i64, k: int)
    requires
        0 < x < 0x80_0000_0000,
        is_isqrt(x * SCALE, k),
    ensures
        k <= sqrt_value(x) <= k + SQRT_EPSILON + 1,
{
    lemma_sqrt_defined_below(x);
    let xs = x * SCALE;
    if x == SCALE {
        assert(is_isqrt(xs, SCALE as int)) by (nonlinear_arith)
            requires
                xs == 16777216 * 16777216,
        ;
        lemma_isqrt_unique(xs, k, SCALE as int);
    } else {
        assert(k >= 1) by (nonlinear_arith)
            requires
                xs < (k + 1) * (k + 1),
                xs >= 16777216,
                k >= 0,
        ;
        lemma_eventually_settles(x, k, 1);
        let s = choose|m: nat| m > 1 && sqrt_settles_at(x as int, m);
        lemma_first_settle_exists(x as int, s);
        let f = choose|m: nat| sqrt_first_settle(x as int, m);
        assert(sqrt_first_settle(x as int, f));
        lemma_machine_is_clean(x, k, f);
        lemma_machine_is_clean(x, k, (f - 1) as nat);
        let a = sqrt_iterate(x as int, (f - 1) as nat);
        let rf = sqrt_iterate(x as int, f);
        let b = xs / a;
        assert(rf == (a + b) / 2);
        assert(a * b <= xs) by (nonlinear_arith)
            requires
                a > 0,
                b == xs / a,
                xs >= 0,
        ;
        let m = if a <= b { a } else { b };
        assert(m * m <= a * b) by (nonlinear_arith)
            requires
                m == (if a <= b { a } else { b }),
                a > 0,
                b >= 0,
        ;
        assert(m <= k) by (nonlinear_arith)
            requires
                m * m <= xs,
                xs < (k + 1) * (k + 1),
                m >= 0,
                k >= 0,
        ;
        assert(rf == sqrt_result(x as int));
    }
}

/// The integer square root is unique.
proof fn lemma_isqrt_unique(x: int, a: int, b: int)
    requires
        is_isqrt(x, a),
        is_isqrt(x, b),
    ensures
        a == b,
{
    if a < b {
        assert((a + 1) * (a + 1) <= b * b) by (nonlinear_arith)
            requires
                0 <= a < b,
        ;
    } else if b < a {
        assert((b + 1) * (b + 1) <= a * a) by (nonlinear_arith)
            requires
                0 <= b < a,
        ;
    }
}

/// A 32-bit integer made a fixed-point number converts back to itself.
pub proof fn lemma_i32_round_trip(v: i32)
    ensures
        (((v * SCALE) as i64 / SCALE) as i32) == v,
{
    let p: int = v * 16777216;
    assert(p / 16777216 == v) by (nonlinear_arith)
        requires
            p == v * 16777216,
    ;
    assert(i64::MIN <= p <= i64::MAX) by (nonlinear_arith)
        requires
            p == v * 16777216,
            i32::MIN <= v <= i32::MAX,
    ;
}

/// Every non-negative integer has an integer square root.
pub proof fn lemma_isqrt(x: int)
    requires
        x >= 0,
    ensures
        is_isqrt(x, isqrt(x)),
    decreases x,
{
    if x == 0 {
        assert(is_isqrt(0, 0));
    } else {
        lemma_isqrt(x - 1);
        let k = isqrt(x - 1);
        if (k + 1) * (k + 1) <= x {
            assert((k + 1) * (k + 1) <= x < (k + 2) * (k + 2)) by (nonlinear_arith)
                requires
                    (k + 1) * (k + 1) <= x,
                    x - 1 < (k + 1) * (k + 1),
                    k >= 0,
            ;
            assert(is_isqrt(x, k + 1));
        } else {
            assert(is_isqrt(x, k));
        }
    }
}

/// A step from any positive guess lands at or above the integer square root.
proof fn lemma_step_at_least_isqrt(xs: int, r: int, k: int)
    requires
        r >= 1,
        k >= 0,
        k * k <= xs,
    ensures
        (r + xs / r) / 2 >= k,
{
    let q = xs / r;
    assert(xs < r * (q + 1)) by (nonlinear_arith)
        requires
            r >= 1,
            q == xs / r,
    ;
    if r + q + 1 <= 2 * k {
        assert(4 * (r * (q + 1)) <= (r + q + 1) * (r + q + 1)) by (nonlinear_arith);
        assert((r + q + 1) * (r + q + 1) <= (2 * k) * (2 * k)) by (nonlinear_arith)
            requires
                0 <= r + q + 1 <= 2 * k,
        ;
        assert(false) by (nonlinear_arith)
            requires
                xs < r * (q + 1),
                4 * (r * (q + 1)) <= (2 * k) * (2 * k),
                k * k <= xs,
        ;
    }
}

/// Above the integer square root, a step strictly decreases the guess.
proof fn lemma_step_decreases(xs: int, r: int, k: int)
    requires
        k >= 1,
        xs < (k + 1) * (k + 1),
        r > k,
    ensures
        (r + xs / r) / 2 < r,
        xs / r <= r + 2,
{
    assert(xs < r * r) by (nonlinear_arith)
        requires
            r >= k + 1,
            k >= 1,
            xs < (k + 1) * (k + 1),
    ;
    assert(xs / r < r) by (nonlinear_arith)
        requires
            r >= 1,
            xs < r * r,
    ;
}

/// At the integer square root, a step moves the guess up by at most one.
proof fn lemma_step_at_isqrt(xs: int, k: int)
    requires
        k >= 1,
        k * k <= xs,
        xs < (k + 1) * (k + 1),
    ensures
        k <= (k + xs / k) / 2 <= k + 1,
        xs / k <= k + 2,
{
    assert(xs / k <= k + 2) by (nonlinear_arith)
        requires
            k >= 1,
            xs < (k + 1) * (k + 1),
    ;
    assert(xs / k >= k) by (nonlinear_arith)
        requires
            k >= 1,
            k * k <= xs,
    ;
}

/// Integer types with an exact conversion to `Fixed`.
pub trait ToFixed {
    spec fn fixed_value(&self) -> Fixed;

    fn to_fixed(&self) -> (r: Fixed)
        ensures
            r == self.fixed_value(),
    ;
}

impl Fixed {
    pub fn new(scaled: i64) -> (r: Fixed)
        ensures
            r.scaled == scaled,
    {
        Fixed { scaled: scaled }
    }

    #[inline]
    pub fn pi() -> (r: Fixed)
        ensures
            r.scaled == FIXED_PI,
    {
        Fixed::new(FIXED_PI)
    }

    #[inline]
    pub fn two_pi() -> (r: Fixed)
        ensures
            r.scaled == FIXED_TWO_PI,
    {
        Fixed::new(FIXED_TWO_PI)
    }

    #[inline]
    pub fn abs(&self) -> (r: Fixed)
        requires
            self.scaled != i64::MIN,
        ensures
            r.scaled == (if self.scaled < 0 { -self.scaled } else { self.scaled as int }),
    {
        Fixed::new(if self.scaled < 0 { -self.scaled } else { self.scaled })
    }

    /// The fractional part, carrying the sign of the number: the fraction
    /// bits of the two's complement representation, negated for negative numbers.
    pub fn fraction(&self) -> (r: Fixed)
        ensures
            r.scaled == (if self.scaled < 0 {
                -((self.scaled as int) % (SCALE as int))
            } else {
                (self.scaled as int) % (SCALE as int)
            }),
    {
        let bits = self.scaled & FRACTIONAL_MASK;
        let s = self.scaled;
        assert((s & 16777215i64) == s % 16777216) by (bit_vector);
        let val = Fixed::new(bits);
        if self.scaled < 0 {
            Fixed::new(-val.scaled)
        } else {
            val
        }
    }

    /// Drops the fractional part of a non-negative number; a negative number is
    /// first moved up by one half and then rounded down.
    pub fn truncate(&self) -> (r: Fixed)
        ensures
            r.scaled == (if self.scaled < 0 {
                floor_to_scale(self.scaled + ONE_HALF)
            } else {
                floor_to_scale(self.scaled as int)
            }),
    {
        let s = self.scaled;
        if s < 0 {
            let t = s + ONE_HALF;
            assert((t & -16777216i64) == t - (t % 16777216)) by (bit_vector);
            Fixed::new(t & INTEGER_MASK)
        } else {
            assert((s & -16777216i64) == s - (s % 16777216)) by (bit_vector);
            Fixed::new(s & INTEGER_MASK)
        }
    }

    /// Rounds to the nearest integer, halves rounding up.
    #[inline]
    pub fn round(&self) -> (r: Fixed)
        requires
            self.scaled <= i64::MAX - ONE_HALF,
        ensures
            r.scaled == floor_to_scale(self.scaled + ONE_HALF),
    {
        let t = self.scaled + ONE_HALF;
        assert((t & -16777216i64) == t - (t % 16777216)) by (bit_vector);
        Fixed::new(t & INTEGER_MASK)
    }

    /// The integral part rounded down, kept modulo `2^32`.

    /// Square root by Newton's iteration: starting from the number itself, the
    /// guess is replaced by `half * (guess + self / guess)` until a step moves it
    /// by at most 0.0001; one is its own root. The steps use the arithmetic of
    /// `Fixed` (the division drops the bits that its shift moves out), as
    /// `sqrt_machine_iterate` describes.
    ///
    /// Defined on the numbers for which the iteration stops without a division
    /// by zero or an overflow (`sqrt_defined`): among them every number above
    /// zero and below 32768 (`lemma_sqrt_defined_below`). Negative numbers,
    /// zero, and the numbers on which the iteration never stops are refused.
    pub fn sqrt(&self) -> (r: Fixed)
        requires
            sqrt_defined(self.scaled),
        ensures
            r.scaled == sqrt_value(self.scaled),
    {
        if self.scaled == SCALE {
            return *self;
        }
        let ghost x = self.scaled;
        let ghost big_n = choose|n: nat| sqrt_stops_at(x, n);
        let epsilon = Fixed::new(SQRT_EPSILON);
        let half = Fixed::new(ONE_HALF);
        let mut last = *self;
        let mut root = *self;
        let ghost mut n: nat = 0;
        loop
            invariant
                x == self.scaled,
                x != SCALE,
                sqrt_stops_at(x, big_n),
                epsilon.scaled == SQRT_EPSILON,
                half.scaled == ONE_HALF,
                n < big_n,
                last == root,
                sqrt_machine_iterate(x, n) == Some(root.scaled),
                forall|m: nat| 1 <= m <= n ==> (#[trigger] sqrt_move(x, m))->0 > SQRT_EPSILON,
            decreases big_n - n,
        {
            assert(sqrt_move(x, n + 1) is Some);
            assert(sqrt_machine_iterate(x, (n + 1) as nat) is Some);
            let quotient = *self / root;
            let sum = root + quotient;
            root = half * sum;
            proof {
                n = n + 1;
            }
            assert(sqrt_machine_iterate(x, n) == Some(root.scaled));
            let moved = (last - root).abs();
            if moved.scaled <= epsilon.scaled {
                proof {
                    assert(sqrt_move(x, n) is Some);
                    assert(sqrt_stops_at(x, n));
                    lemma_stops_unique(x, n, big_n);
                    lemma_stops_unique(x, n, choose|m: nat| sqrt_stops_at(x, m));
                }
                return root;
            }
            last = root;
            proof {
                if n == big_n {
                    assert(sqrt_move(x, n)->0 <= SQRT_EPSILON);
                }
            }
        }
    }

    #[inline]
    pub fn to_i32(&self) -> (r: Option<i32>)
        ensures
            r == Some((self.scaled / SCALE) as i32),
    {
        let s = self.scaled;
        assert((s >> 24u32) == s / 16777216) by (bit_vector);
        Some(#[verifier::truncate] ((s >> 24u32) as i32))
    }

    /// The integral part rounded down.
    #[inline]
    pub fn to_i64(&self) -> (r: Option<i64>)
        ensures
            r == Some((self.scaled / SCALE) as i64),
    {
        let s = self.scaled;
        assert((s >> 24u32) == s / 16777216) by (bit_vector);
        Some(s >> 24u32)
    }

    /// The integral part rounded down, read as an unsigned number (modulo `2^64`).
    #[inline]
    pub fn to_u64(&self) -> (r: Option<u64>)
        ensures
            r == Some((self.scaled / SCALE) as u64),
    {
        let s = self.scaled;
        assert((s >> 24u32) == s / 16777216) by (bit_vector);
        Some(#[verifier::truncate] ((s >> 24u32) as u64))
    }

    #[inline]
    pub fn from_i32(val: i32) -> (r: Option<Fixed>)
        ensures
            r == Some(Fixed { scaled: (val * SCALE) as i64 }),
            r.unwrap().scaled == val * SCALE,
    {
        let v = val as i64;
        assert(-2147483648 <= v <= 2147483647 ==> (v << 24u32) == v * 16777216) by (bit_vector);
        Some(Fixed::new(v << 24u32))
    }

    /// The scaled value keeps the low 64 bits of `val * 2^24`.
    #[inline]
    pub fn from_i64(val: i64) -> (r: Option<Fixed>)
        ensures
            r == Some(signed_fixed(val as int)),
    {
        assert((val << 24u32) == (val * 16777216) as i64) by (bit_vector);
        Some(Fixed::new(val << 24u32))
    }

    /// The scaled value keeps the low 64 bits of `val * 2^24`, read as two's complement.
    #[inline]
    pub fn from_u64(val: u64) -> (r: Option<Fixed>)
        ensures
            r == Some(unsigned_fixed(val as int)),
    {
        assert((val << 24u32) == (val * 16777216) as u64) by (bit_vector);
        Some(Fixed::new(#[verifier::truncate] ((val << 24u32) as i64)))
    }

    #[inline]
    pub fn zero() -> (r: Fixed)
        ensures
            r.scaled == 0,
    {
        Fixed::new(0)
    }

    #[inline]
    pub fn is_zero(&self) -> (r: bool)
        ensures
            r == (self.scaled == 0),
    {
        self.scaled == 0
    }

    #[inline]
    pub fn one() -> (r: Fixed)
        ensures
            r.scaled == SCALE,
    {
        Fixed::new(SCALE)
    }

    #[inline]
    pub fn min_value() -> (r: Fixed)
        ensures
            r.scaled == i64::MIN,
    {
        Fixed::new(i64::MIN)
    }

    #[inline]
    pub fn max_value() -> (r: Fixed)
        ensures
            r.scaled == i64::MAX,
    {
        Fixed::new(i64::MAX)
    }
}

impl Add for Fixed {
    type Output = Fixed;

    #[inline]
    fn add(self, rhs: Fixed) -> (r: Fixed) {
        Fixed::new(self.scaled + rhs.scaled)
    }
}

impl vstd::std_specs::ops::AddSpecImpl for Fixed {
    open spec fn obeys_add_spec() -> bool {
        true
    }

    open spec fn add_req(self, rhs: Fixed) -> bool {
        i64::MIN <= self.scaled + rhs.scaled <= i64::MAX
    }

    open spec fn add_spec(self, rhs: Fixed) -> Fixed {
        Fixed { scaled: (self.scaled + rhs.scaled) as i64 }
    }
}

impl core::ops::AddAssign for Fixed {
    fn add_assign(&mut self, rhs: Fixed)
        requires
            i64::MIN <= old(self).scaled + rhs.scaled <= i64::MAX,
        ensures
            final(self).scaled == old(self).scaled + rhs.scaled,
    {
        self.scaled = self.scaled + rhs.scaled;
    }
}

impl Sub for Fixed {
    type Output = Fixed;

    #[inline]
    fn sub(self, rhs: Fixed) -> (r: Fixed) {
        Fixed::new(self.scaled - rhs.scaled)
    }
}

impl vstd::std_specs::ops::SubSpecImpl for Fixed {
    open spec fn obeys_sub_spec() -> bool {
        true
    }

    open spec fn sub_req(self, rhs: Fixed) -> bool {
        i64::MIN <= self.scaled - rhs.scaled <= i64::MAX
    }

    open spec fn sub_spec(self, rhs: Fixed) -> Fixed {
        Fixed { scaled: (self.scaled - rhs.scaled) as i64 }
    }
}

impl Mul for Fixed {
    type Output = Fixed;

    #[inline]
    fn mul(self, rhs: Fixed) -> (r: Fixed)
        ensures
            i64::MIN <= self.scaled * rhs.scaled <= i64::MAX ==> r.scaled == (self.scaled * rhs.scaled) / (SCALE as int),
    {
        proof {
            if i64::MIN <= self.scaled * rhs.scaled <= i64::MAX {
                lemma_wrapping_mul_exact(self.scaled, rhs.scaled);
            }
        }
        let p = self.scaled.wrapping_mul(rhs.scaled);
        assert((p >> 24u32) == p / 16777216) by (bit_vector);
        Fixed::new(p >> 24u32)
    }
}

impl vstd::std_specs::ops::MulSpecImpl for Fixed {
    open spec fn obeys_mul_spec() -> bool {
        true
    }

    open spec fn mul_req(self, rhs: Fixed) -> bool {
        true
    }

    /// The product of the scaled values, wrapped into 64 bits, with the
    /// fraction bits dropped (rounding down).
    open spec fn mul_spec(self, rhs: Fixed) -> Fixed {
        Fixed { scaled: (self.scaled.wrapping_mul(rhs.scaled) / SCALE) as i64 }
    }
}

/// A 64-bit product that does not overflow is kept as it is by the
/// wrapping multiplication.
proof fn lemma_wrapping_mul_exact(a: i64, b: i64)
    requires
        i64::MIN <= a * b <= i64::MAX,
    ensures
        a.wrapping_mul(b) == a * b,
{
    let p = a * b;
    if p >= 0 {
        assert(p % 0x1_0000_0000_0000_0000 == p) by (nonlinear_arith)
            requires
                0 <= p < 0x1_0000_0000_0000_0000,
        ;
    } else {
        assert(p % 0x1_0000_0000_0000_0000 == p + 0x1_0000_0000_0000_0000) by (nonlinear_arith)
            requires
                -0x8000_0000_0000_0000 <= p < 0,
        ;
    }
}

/// Multiplication of fixed-point numbers: where the product of the scaled
/// values fits in 64 bits, the scaled result is that product divided by
/// `2^24`, rounded down. So a product of two numbers of the same sign is not
/// negative, one of two numbers of opposite signs is not positive, and
/// negating both factors leaves the product as it is.
pub proof fn lemma_mul_exact(a: Fixed, b: Fixed)
    requires
        i64::MIN <= a.scaled * b.scaled <= i64::MAX,
    ensures
        a.mul_spec(b).scaled == (a.scaled * b.scaled) / (SCALE as int),
        (a.scaled >= 0) == (b.scaled >= 0) ==> a.mul_spec(b).scaled >= 0,
        (a.scaled >= 0) != (b.scaled >= 0) ==> a.mul_spec(b).scaled <= 0,
        a.scaled != i64::MIN && b.scaled != i64::MIN ==> a.mul_spec(b)
            == (Fixed { scaled: (-a.scaled) as i64 }).mul_spec(Fixed { scaled: (-b.scaled) as i64 }),
{
    lemma_wrapping_mul_exact(a.scaled, b.scaled);
    let p = a.scaled * b.scaled;
    let x = a.scaled as int;
    let y = b.scaled as int;
    assert((x >= 0) == (y >= 0) ==> p >= 0) by (nonlinear_arith)
        requires
            p == x * y,
    ;
    assert((x >= 0) != (y >= 0) ==> p <= 0) by (nonlinear_arith)
        requires
            p == x * y,
    ;
    assert(p >= 0 ==> p / 16777216 >= 0) by (nonlinear_arith);
    assert(p <= 0 ==> p / 16777216 <= 0) by (nonlinear_arith);
    assert(i64::MIN <= p / 16777216 <= i64::MAX) by (nonlinear_arith)
        requires
            i64::MIN <= p <= i64::MAX,
    ;
    if a.scaled != i64::MIN && b.scaled != i64::MIN {
        let na: i64 = (-a.scaled) as i64;
        let nb: i64 = (-b.scaled) as i64;
        assert(na * nb == p) by (nonlinear_arith)
            requires
                na == -a.scaled,
                nb == -b.scaled,
                p == a.scaled * b.scaled,
        ;
        lemma_wrapping_mul_exact(na, nb);
    }
}

/// Division of a non-negative number by a positive one leaves a remainder
/// below the divisor.
proof fn lemma_div_remainder(x: int, d: int)
    requires
        x >= 0,
        d > 0,
    ensures
        0 <= x - (x / d) * d < d,
{
    assert(0 <= x - (x / d) * d < d) by (nonlinear_arith)
        requires
            x >= 0,
            d > 0,
    ;
}

/// Division of fixed-point numbers, where the dividend is below 32768 in
/// size (so that its shift by 24 bits drops no bits) and the divisor is not
/// zero: the scaled result `q` is the quotient of `a.scaled * 2^24` by
/// `b.scaled` rounded toward zero, that is, the remainder
/// `a.scaled * 2^24 - q * b.scaled` is smaller in size than the divisor and
/// has the sign of the dividend. So the quotient of numbers of the same sign
/// is not negative, and negating the dividend negates the quotient.
pub proof fn lemma_div_exact(a: Fixed, b: Fixed)
    requires
        -0x80_0000_0000 < a.scaled < 0x80_0000_0000,
        b.scaled != 0,
    ensures
        a.div_req(b),
        ({
            let x = a.scaled * SCALE;
            let q = a.div_spec(b).scaled;
            let r = x - q * b.scaled;
            &&& (b.scaled > 0 ==> -b.scaled < r < b.scaled)
            &&& (b.scaled < 0 ==> b.scaled < r < -b.scaled)
            &&& (x >= 0 ==> r >= 0)
            &&& (x <= 0 ==> r <= 0)
            &&& ((a.scaled >= 0) == (b.scaled > 0) ==> q >= 0)
        }),
        a.div_spec(b).scaled == -(Fixed { scaled: (-a.scaled) as i64 }).div_spec(b).scaled,
{
    let s = a.scaled;
    assert(-0x80_0000_0000 < s < 0x80_0000_0000 ==> s.wrapping_shl(24) == s * 16777216) by (bit_vector);
    let ns: i64 = (-s) as i64;
    assert(-0x80_0000_0000 < ns < 0x80_0000_0000 ==> ns.wrapping_shl(24) == ns * 16777216) by (bit_vector);
    let x = s * 16777216;
    let d = b.scaled as int;
    if x > 0 && d > 0 {
        lemma_div_remainder(x, d);
    } else if x < 0 && d < 0 {
        lemma_div_remainder(-x, -d);
        assert((x * -1) / (d * -1) * d == -((-x) / (-d) * (-d))) by (nonlinear_arith);
    } else if x < 0 {
        lemma_div_remainder(-x, d);
        assert(((x * -1) / d) * -1 * d == -(((-x) / d) * d)) by (nonlinear_arith);
    } else if x > 0 {
        lemma_div_remainder(x, -d);
        assert((x / (d * -1)) * -1 * d == (x / (-d)) * (-d)) by (nonlinear_arith);
    }
    lemma_trunc_div_in_range(s.wrapping_shl(24), b.scaled);
    lemma_trunc_div_in_range(ns.wrapping_shl(24), b.scaled);
}

impl Div for Fixed {
    type Output = Fixed;

    #[inline]
    fn div(self, rhs: Fixed) -> (r: Fixed) {
        let shifted = self.scaled.wrapping_shl(24u32);
        proof {
            lemma_trunc_div_in_range(shifted, rhs.scaled);
        }
        Fixed::new(shifted.checked_div(rhs.scaled).unwrap())
    }
}

impl vstd::std_specs::ops::DivSpecImpl for Fixed {
    open spec fn obeys_div_spec() -> bool {
        true
    }

    /// Division by zero and the one overflowing quotient are refused.
    open spec fn div_req(self, rhs: Fixed) -> bool {
        rhs.scaled != 0 && !(self.scaled.wrapping_shl(24) == i64::MIN && rhs.scaled == -1)
    }

    /// The dividend's scaled value shifted left by 24 bits (low 64 bits kept),
    /// divided by the divisor's scaled value, rounding toward zero.
    open spec fn div_spec(self, rhs: Fixed) -> Fixed {
        Fixed { scaled: trunc_div(self.scaled.wrapping_shl(24) as int, rhs.scaled as int) as i64 }
    }
}

impl Rem for Fixed {
    type Output = Fixed;

    #[inline]
    fn rem(self, rhs: Fixed) -> (r: Fixed) {
        Fixed::new(self.scaled.checked_rem(rhs.scaled).unwrap())
    }
}

impl vstd::std_specs::ops::RemSpecImpl for Fixed {
    open spec fn obeys_rem_spec() -> bool {
        true
    }

    open spec fn rem_req(self, rhs: Fixed) -> bool {
        rhs.scaled != 0 && !(self.scaled == i64::MIN && rhs.scaled == -1)
    }

    /// The remainder of the scaled values, with the sign of the dividend.
    open spec fn rem_spec(self, rhs: Fixed) -> Fixed {
        Fixed { scaled: trunc_rem(self.scaled as int, rhs.scaled as int) as i64 }
    }
}

impl core::ops::SubAssign for Fixed {
    fn sub_assign(&mut self, rhs: Fixed)
        requires
            i64::MIN <= old(self).scaled - rhs.scaled <= i64::MAX,
        ensures
            final(self).scaled == old(self).scaled - rhs.scaled,
    {
        self.scaled = self.scaled - rhs.scaled;
    }
}

impl core::ops::MulAssign for Fixed {
    /// As `*`: the wrapped product of the scaled values, fraction bits dropped.
    fn mul_assign(&mut self, rhs: Fixed)
        ensures
            *final(self) == (*old(self)).mul_spec(rhs),
    {
        *self = *self * rhs;
    }
}

impl core::ops::DivAssign for Fixed {
    /// As `/`.
    fn div_assign(&mut self, rhs: Fixed)
        requires
            (*old(self)).div_req(rhs),
        ensures
            *final(self) == (*old(self)).div_spec(rhs),
    {
        *self = *self / rhs;
    }
}

impl core::ops::RemAssign for Fixed {
    /// As `%`.
    fn rem_assign(&mut self, rhs: Fixed)
        requires
            (*old(self)).rem_req(rhs),
        ensures
            *final(self) == (*old(self)).rem_spec(rhs),
    {
        *self = *self % rhs;
    }
}

impl Neg for Fixed {
    type Output = Fixed;

    #[inline]
    fn neg(self) -> (r: Fixed) {
        Fixed::new(-self.scaled)
    }
}

impl vstd::std_specs::ops::NegSpecImpl for Fixed {
    open spec fn obeys_neg_spec() -> bool {
        true
    }

    open spec fn neg_req(self) -> bool {
        self.scaled != i64::MIN
    }

    open spec fn neg_spec(self) -> Fixed {
        Fixed { scaled: (-self.scaled) as i64 }
    }
}

impl ToFixed for i8 {
    open spec fn fixed_value(&self) -> Fixed {
        signed_fixed(*self as int)
    }

    fn to_fixed(&self) -> (r: Fixed) {
        Fixed::from_i64(*self as i64).unwrap()
    }
}

impl From<i8> for Fixed {
    fn from(val: i8) -> (r: Fixed) {
        val.to_fixed()
    }
}

impl vstd::std_specs::convert::FromSpecImpl<i8> for Fixed {
    open spec fn obeys_from_spec() -> bool {
        true
    }

    open spec fn from_spec(val: i8) -> Fixed {
        signed_fixed(val as int)
    }
}

impl ToFixed for i16 {
    open spec fn fixed_value(&self) -> Fixed {
        signed_fixed(*self as int)
    }

    fn to_fixed(&self) -> (r: Fixed) {
        Fixed::from_i64(*self as i64).unwrap()
    }
}

impl From<i16> for Fixed {
    fn from(val: i16) -> (r: Fixed) {
        val.to_fixed()
    }
}

impl vstd::std_specs::convert::FromSpecImpl<i16> for Fixed {
    open spec fn obeys_from_spec() -> bool {
        true
    }

    open spec fn from_spec(val: i16) -> Fixed {
        signed_fixed(val as int)
    }
}

impl ToFixed for i32 {
    open spec fn fixed_value(&self) -> Fixed {
        signed_fixed(*self as int)
    }

    fn to_fixed(&self) -> (r: Fixed) {
        Fixed::from_i64(*self as i64).unwrap()
    }
}

impl From<i32> for Fixed {
    fn from(val: i32) -> (r: Fixed) {
        val.to_fixed()
    }
}

impl vstd::std_specs::convert::FromSpecImpl<i32> for Fixed {
    open spec fn obeys_from_spec() -> bool {
        true
    }

    open spec fn from_spec(val: i32) -> Fixed {
        signed_fixed(val as int)
    }
}

impl ToFixed for i64 {
    open spec fn fixed_value(&self) -> Fixed {
        signed_fixed(*self as int)
    }

    fn to_fixed(&self) -> (r: Fixed) {
        Fixed::from_i64(*self as i64).unwrap()
    }
}

impl From<i64> for Fixed {
    fn from(val: i64) -> (r: Fixed) {
        val.to_fixed()
    }
}

impl vstd::std_specs::convert::FromSpecImpl<i64> for Fixed {
    open spec fn obeys_from_spec() -> bool {
        true
    }

    open spec fn from_spec(val: i64) -> Fixed {
        signed_fixed(val as int)
    }
}

impl ToFixed for isize {
    open spec fn fixed_value(&self) -> Fixed {
        signed_fixed(*self as int)
    }

    fn to_fixed(&self) -> (r: Fixed) {
        Fixed::from_i64(*self as i64).unwrap()
    }
}

impl From<isize> for Fixed {
    fn from(val: isize) -> (r: Fixed) {
        val.to_fixed()
    }
}

impl vstd::std_specs::convert::FromSpecImpl<isize> for Fixed {
    open spec fn obeys_from_spec() -> bool {
        true
    }

    open spec fn from_spec(val: isize) -> Fixed {
        signed_fixed(val as int)
    }
}

impl ToFixed for u8 {
    open spec fn fixed_value(&self) -> Fixed {
        unsigned_fixed(*self as int)
    }

    fn to_fixed(&self) -> (r: Fixed) {
        Fixed::from_u64(*self as u64).unwrap()
    }
}

impl From<u8> for Fixed {
    fn from(val: u8) -> (r: Fixed) {
        val.to_fixed()
    }
}

impl vstd::std_specs::convert::FromSpecImpl<u8> for Fixed {
    open spec fn obeys_from_spec() -> bool {
        true
    }

    open spec fn from_spec(val: u8) -> Fixed {
        unsigned_fixed(val as int)
    }
}

impl ToFixed for u16 {
    open spec fn fixed_value(&self) -> Fixed {
        unsigned_fixed(*self as int)
    }

    fn to_fixed(&self) -> (r: Fixed) {
        Fixed::from_u64(*self as u64).unwrap()
    }
}

impl From<u16> for Fixed {
    fn from(val: u16) -> (r: Fixed) {
        val.to_fixed()
    }
}

impl vstd::std_specs::convert::FromSpecImpl<u16> for Fixed {
    open spec fn obeys_from_spec() -> bool {
        true
    }

    open spec fn from_spec(val: u16) -> Fixed {
        unsigned_fixed(val as int)
    }
}

impl ToFixed for u32 {
    open spec fn fixed_value(&self) -> Fixed {
        unsigned_fixed(*self as int)
    }

    fn to_fixed(&self) -> (r: Fixed) {
        Fixed::from_u64(*self as u64).unwrap()
    }
}

impl From<u32> for Fixed {
    fn from(val: u32) -> (r: Fixed) {
        val.to_fixed()
    }
}

impl vstd::std_specs::convert::FromSpecImpl<u32> for Fixed {
    open spec fn obeys_from_spec() -> bool {
        true
    }

    open spec fn from_spec(val: u32) -> Fixed {
        unsigned_fixed(val as int)
    }
}

impl ToFixed for u64 {
    open spec fn fixed_value(&self) -> Fixed {
        unsigned_fixed(*self as int)
    }

    fn to_fixed(&self) -> (r: Fixed) {
        Fixed::from_u64(*self as u64).unwrap()
    }
}

impl From<u64> for Fixed {
    fn from(val: u64) -> (r: Fixed) {
        val.to_fixed()
    }
}

impl vstd::std_specs::convert::FromSpecImpl<u64> for Fixed {
    open spec fn obeys_from_spec() -> bool {
        true
    }

    open spec fn from_spec(val: u64) -> Fixed {
        unsigned_fixed(val as int)
    }
}

impl ToFixed for usize {
    open spec fn fixed_value(&self) -> Fixed {
        unsigned_fixed(*self as int)
    }

    fn to_fixed(&self) -> (r: Fixed) {
        Fixed::from_u64(*self as u64).unwrap()
    }
}

impl From<usize> for Fixed {
    fn from(val: usize) -> (r: Fixed) {
        val.to_fixed()
    }
}

impl vstd::std_specs::convert::FromSpecImpl<usize> for Fixed {
    open spec fn obeys_from_spec() -> bool {
        true
    }

    open spec fn from_spec(val: usize) -> Fixed {
        unsigned_fixed(val as int)
    }
}

} // verus!
