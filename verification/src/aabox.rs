//! Axis-aligned boxes, and the test of a ray against one.

use vstd::prelude::*;
use crate::fixed::Fixed;
use crate::vector3::{coord, fixed_div, fixed_div_ok, fixed_mul, Vector3};

verus! {

/// An axis-aligned box, given by its least and greatest corners.
#[derive(Copy, Clone, Debug)]
pub struct AABox {
    pub min: Vector3,
    pub max: Vector3,
}

/// The smaller of two fixed-point numbers.
pub open spec fn fixed_min(a: Fixed, b: Fixed) -> Fixed {
    if a.scaled <= b.scaled { a } else { b }
}

/// The larger of two fixed-point numbers.
pub open spec fn fixed_max(a: Fixed, b: Fixed) -> Fixed {
    if a.scaled >= b.scaled { a } else { b }
}

/// Whether `p` lies in the box, faces included.
pub open spec fn box_contains(b: AABox, p: Vector3) -> bool {
    forall|i: int| 0 <= i < 3 ==> coord(b.min, i) <= #[trigger] coord(p, i) <= coord(b.max, i)
}

/// Whether the origin lies outside the box along axis `i`.
pub open spec fn outside(b: AABox, o: Vector3, i: int) -> bool {
    coord(o, i) < coord(b.min, i) || coord(o, i) > coord(b.max, i)
}

/// The face of the box along axis `i` that faces the origin.
pub open spec fn candidate_plane(b: AABox, o: Vector3, i: int) -> i64 {
    if coord(o, i) < coord(b.min, i) { coord(b.min, i) } else { coord(b.max, i) }
}

/// The ray parameter at which the ray meets the candidate face of axis `i`:
/// minus one when the origin is not outside along that axis or the ray does
/// not move along it; `None` where the computation overflows.
pub open spec fn plane_distance(b: AABox, o: Vector3, d: Vector3, i: int) -> Option<i64> {
    if outside(b, o, i) && coord(d, i) != 0 {
        let diff = candidate_plane(b, o, i) - coord(o, i);
        if i64::MIN <= diff <= i64::MAX && fixed_div_ok(diff as i64, coord(d, i)) {
            Some(fixed_div(diff as i64, coord(d, i)))
        } else {
            None
        }
    } else {
        Some(-16777216i64)
    }
}

/// The axis with the largest of the distances `t0`, `t1`, `t2`, the first one on ties.
pub open spec fn selected_plane(t0: i64, t1: i64, t2: i64) -> int {
    let s = if t0 < t1 { 1int } else { 0int };
    let ts = if s == 1 { t1 } else { t0 };
    if ts < t2 { 2 } else { s }
}

/// The coordinate along axis `i` of the point at parameter `t` on the ray;
/// `None` where the sum overflows.
pub open spec fn ray_point(o: Vector3, d: Vector3, t: i64, i: int) -> Option<i64> {
    let s = coord(o, i) + fixed_mul(t, coord(d, i));
    if i64::MIN <= s <= i64::MAX { Some(s as i64) } else { None }
}

/// Checks, for the axes from `i` on other than `sel`, that the point at
/// parameter `t` lies within the box: `Some(false)` at the first axis where
/// it does not.
pub open spec fn check_axes(b: AABox, o: Vector3, d: Vector3, sel: int, t: i64, i: int) -> Option<bool>
    decreases 3 - i,
{
    if i >= 3 {
        Some(true)
    } else if i == sel {
        check_axes(b, o, d, sel, t, i + 1)
    } else {
        match ray_point(o, d, t, i) {
            None => None,
            Some(c) => if c < coord(b.min, i) || c > coord(b.max, i) {
                Some(false)
            } else {
                check_axes(b, o, d, sel, t, i + 1)
            },
        }
    }
}

/// Whether the ray from `o` along `d` meets the box, by the slab test of
/// Graphics Gems in fixed point: an origin inside the box meets it; else the
/// face with the largest ray parameter is chosen, and the ray meets the box
/// when that parameter is not negative and the point there lies within the
/// box along the other axes. `None` where the fixed-point arithmetic overflows.
pub open spec fn ray_meets(b: AABox, o: Vector3, d: Vector3) -> Option<bool> {
    if !outside(b, o, 0) && !outside(b, o, 1) && !outside(b, o, 2) {
        Some(true)
    } else {
        match (plane_distance(b, o, d, 0), plane_distance(b, o, d, 1), plane_distance(b, o, d, 2)) {
            (Some(t0), Some(t1), Some(t2)) => {
                let sel = selected_plane(t0, t1, t2);
                let t = if sel == 0 { t0 } else if sel == 1 { t1 } else { t2 };
                if t < 0 {
                    Some(false)
                } else {
                    check_axes(b, o, d, sel, t, 0)
                }
            },
            _ => None,
        }
    }
}

/// The distance to the candidate face along axis `i`, as `plane_distance` gives it.
fn distance_to_plane(b: &AABox, o: &Vector3, d: &Vector3, i: usize) -> (r: Option<Fixed>)
    requires
        i < 3,
    ensures
        match plane_distance(*b, *o, *d, i as int) {
            Some(t) => r matches Some(f) && f.scaled == t,
            None => r is None,
        },
{
    let oi = o.get(i);
    let lo = b.min.get(i);
    let hi = b.max.get(i);
    let di = d.get(i);
    if (oi.scaled < lo.scaled || oi.scaled > hi.scaled) && di.scaled != 0 {
        let plane = if oi.scaled < lo.scaled { lo } else { hi };
        let diff = match plane.scaled.checked_sub(oi.scaled) {
            Some(v) => Fixed::new(v),
            None => return None,
        };
        let shifted = diff.scaled.wrapping_shl(24);
        if di.scaled == -1 && shifted == i64::MIN {
            return None;
        }
        Some(diff / di)
    } else {
        Some(Fixed::new(-16777216))
    }
}

impl AABox {
    /// The box with corners `first` and `second`, in either order.
    pub fn new(first: Vector3, second: Vector3) -> (r: AABox)
        ensures
            r.min == (Vector3 {
                x: fixed_min(first.x, second.x),
                y: fixed_min(first.y, second.y),
                z: fixed_min(first.z, second.z),
            }),
            r.max == (Vector3 {
                x: fixed_max(first.x, second.x),
                y: fixed_max(first.y, second.y),
                z: fixed_max(first.z, second.z),
            }),
    {
        let min = Vector3::new(
            if first.x.scaled <= second.x.scaled { first.x } else { second.x },
            if first.y.scaled <= second.y.scaled { first.y } else { second.y },
            if first.z.scaled <= second.z.scaled { first.z } else { second.z },
        );
        let max = Vector3::new(
            if first.x.scaled >= second.x.scaled { first.x } else { second.x },
            if first.y.scaled >= second.y.scaled { first.y } else { second.y },
            if first.z.scaled >= second.z.scaled { first.z } else { second.z },
        );
        AABox { min, max }
    }

    /// Whether `point` lies in the box, faces included.
    pub fn contains(&self, point: &Vector3) -> (r: bool)
        ensures
            r == box_contains(*self, *point),
    {
        let r = self.min.x.scaled <= point.x.scaled && self.min.y.scaled <= point.y.scaled
            && self.min.z.scaled <= point.z.scaled && self.max.x.scaled >= point.x.scaled
            && self.max.y.scaled >= point.y.scaled && self.max.z.scaled >= point.z.scaled;
        assert(r == box_contains(*self, *point)) by {
            if !r {
                assert(!(coord(self.min, 0) <= coord(*point, 0) <= coord(self.max, 0))
                    || !(coord(self.min, 1) <= coord(*point, 1) <= coord(self.max, 1))
                    || !(coord(self.min, 2) <= coord(*point, 2) <= coord(self.max, 2)));
            }
        }
        r
    }

    /// Whether the ray from `origin` along `direction` meets the box, as
    /// `ray_meets` describes; `None` where its fixed-point arithmetic overflows.
    pub fn intersects_ray_checked(&self, origin: &Vector3, direction: &Vector3) -> (r: Option<bool>)
        ensures
            r == ray_meets(*self, *origin, *direction),
    {
        let inside = !(origin.x.scaled < self.min.x.scaled || origin.x.scaled > self.max.x.scaled)
            && !(origin.y.scaled < self.min.y.scaled || origin.y.scaled > self.max.y.scaled)
            && !(origin.z.scaled < self.min.z.scaled || origin.z.scaled > self.max.z.scaled);
        if inside {
            return Some(true);
        }
        let t0 = distance_to_plane(self, origin, direction, 0);
        let t1 = distance_to_plane(self, origin, direction, 1);
        let t2 = distance_to_plane(self, origin, direction, 2);
        let (t0, t1, t2) = match (t0, t1, t2) {
            (Some(a), Some(b), Some(c)) => (a, b, c),
            _ => return None,
        };
        let mut sel: usize = 0;
        if t0.scaled < t1.scaled {
            sel = 1;
        }
        let ts = if sel == 1 { t1 } else { t0 };
        if ts.scaled < t2.scaled {
            sel = 2;
        }
        let t = if sel == 0 { t0 } else if sel == 1 { t1 } else { t2 };
        assert(sel == selected_plane(t0.scaled, t1.scaled, t2.scaled));
        if t.scaled < 0 {
            return Some(false);
        }
        let ghost target = check_axes(*self, *origin, *direction, sel as int, t.scaled, 0);
        let mut i: usize = 0;
        while i < 3
            invariant
                i <= 3,
                sel < 3,
                check_axes(*self, *origin, *direction, sel as int, t.scaled, i as int) == target,
                target == ray_meets(*self, *origin, *direction),
            decreases 3 - i,
        {
            if sel != i {
                let oi = origin.get(i);
                let di = direction.get(i);
                let step = t * di;
                let coord = match oi.scaled.checked_add(step.scaled) {
                    Some(v) => v,
                    None => return None,
                };
                if coord < self.min.get(i).scaled || coord > self.max.get(i).scaled {
                    return Some(false);
                }
            }
            i = i + 1;
        }
        Some(true)
    }

    /// Whether the ray from `origin` along `direction` meets the box, as
    /// `ray_meets` describes, where its fixed-point arithmetic does not overflow.
    pub fn intersects_ray(&self, origin: &Vector3, direction: &Vector3) -> (r: bool)
        requires
            ray_meets(*self, *origin, *direction) is Some,
        ensures
            ray_meets(*self, *origin, *direction) == Some(r),
    {
        self.intersects_ray_checked(origin, direction).unwrap()
    }
}

/// The box built from two corners contains both of them.
pub proof fn lemma_new_contains_corners(first: Vector3, second: Vector3, b: AABox)
    requires
        b.min == (Vector3 {
            x: fixed_min(first.x, second.x),
            y: fixed_min(first.y, second.y),
            z: fixed_min(first.z, second.z),
        }),
        b.max == (Vector3 {
            x: fixed_max(first.x, second.x),
            y: fixed_max(first.y, second.y),
            z: fixed_max(first.z, second.z),
        }),
    ensures
        box_contains(b, first),
        box_contains(b, second),
{
}

/// A ray whose origin lies in the box meets it, whatever its direction.
pub proof fn lemma_ray_from_inside_meets(b: AABox, o: Vector3, d: Vector3)
    requires
        box_contains(b, o),
    ensures
        ray_meets(b, o, d) == Some(true),
{
    assert(coord(b.min, 0) <= coord(o, 0) <= coord(b.max, 0));
    assert(coord(b.min, 1) <= coord(o, 1) <= coord(b.max, 1));
    assert(coord(b.min, 2) <= coord(o, 2) <= coord(b.max, 2));
}

/// Where the axis checks from `j` on all pass, the point at parameter `t`
/// lies within the box along every axis from `j` on other than `sel`.
proof fn lemma_axes_pass(b: AABox, o: Vector3, d: Vector3, sel: int, t: i64, j: int)
    requires
        0 <= j <= 3,
        check_axes(b, o, d, sel, t, j) == Some(true),
    ensures
        forall|i: int| j <= i < 3 && i != sel ==> ((#[trigger] ray_point(o, d, t, i)) matches Some(c)
            && coord(b.min, i) <= c <= coord(b.max, i)),
    decreases 3 - j,
{
    if j < 3 {
        lemma_axes_pass(b, o, d, sel, t, j + 1);
    }
}

/// Where the point at parameter `t` lies outside the box along axis `i`
/// (not `sel`), the axis checks from any `j <= i` on do not pass.
proof fn lemma_axes_fail(b: AABox, o: Vector3, d: Vector3, sel: int, t: i64, j: int, i: int)
    requires
        0 <= j <= i < 3,
        i != sel,
        ray_point(o, d, t, i) matches Some(c) && (c < coord(b.min, i) || c > coord(b.max, i)),
    ensures
        check_axes(b, o, d, sel, t, j) != Some(true),
    decreases i - j,
{
    if j < i {
        lemma_axes_fail(b, o, d, sel, t, j + 1, i);
    }
}

/// A ray whose origin lies outside the box meets it only by reaching it: the
/// ray meets the box at a parameter `t >= 0` that is where it crosses the
/// plane of a face facing its origin along some axis `k`, on which its
/// direction is not zero, and at that parameter its point lies within the box
/// along the two other axes. In particular a ray pointing away from the box
/// never meets it.
pub proof fn lemma_meeting_ray_reaches_box(b: AABox, o: Vector3, d: Vector3)
    requires
        !box_contains(b, o),
        ray_meets(b, o, d) == Some(true),
    ensures
        exists|t: i64, k: int| #![trigger ray_point(o, d, t, k)] {
            &&& 0 <= k < 3
            &&& t >= 0
            &&& outside(b, o, k)
            &&& coord(d, k) != 0
            &&& t == fixed_div((candidate_plane(b, o, k) - coord(o, k)) as i64, coord(d, k))
            &&& forall|i: int| 0 <= i < 3 && i != k ==> ((#[trigger] ray_point(o, d, t, i)) matches Some(c)
                && coord(b.min, i) <= c <= coord(b.max, i))
        },
{
    if !outside(b, o, 0) && !outside(b, o, 1) && !outside(b, o, 2) {
        assert(box_contains(b, o));
    }
    let t0 = plane_distance(b, o, d, 0)->0;
    let t1 = plane_distance(b, o, d, 1)->0;
    let t2 = plane_distance(b, o, d, 2)->0;
    let sel = selected_plane(t0, t1, t2);
    let t = if sel == 0 { t0 } else if sel == 1 { t1 } else { t2 };
    assert(t >= 0);
    assert(check_axes(b, o, d, sel, t, 0) == Some(true));
    lemma_axes_pass(b, o, d, sel, t, 0);
    assert(plane_distance(b, o, d, sel) == Some(t));
    assert(outside(b, o, sel) && coord(d, sel) != 0);
    assert(t == fixed_div((candidate_plane(b, o, sel) - coord(o, sel)) as i64, coord(d, sel)));
    assert(ray_point(o, d, t, sel) == ray_point(o, d, t, sel));
}

/// A ray whose origin lies outside the box along an axis on which it does not
/// move never meets the box.
pub proof fn lemma_parallel_ray_outside_misses(b: AABox, o: Vector3, d: Vector3, i: int)
    requires
        0 <= i < 3,
        outside(b, o, i),
        coord(d, i) == 0,
    ensures
        ray_meets(b, o, d) != Some(true),
{
    if let (Some(t0), Some(t1), Some(t2)) = (plane_distance(b, o, d, 0), plane_distance(b, o, d, 1), plane_distance(b, o, d, 2)) {
        let sel = selected_plane(t0, t1, t2);
        let t = if sel == 0 { t0 } else if sel == 1 { t1 } else { t2 };
        if t >= 0 {
            assert(plane_distance(b, o, d, i) == Some(-16777216i64));
            assert(sel != i);
            assert((t as i64).wrapping_mul(0i64) == 0) by (bit_vector);
            assert(fixed_mul(t, coord(d, i)) == 0);
            assert(ray_point(o, d, t, i) == Some(coord(o, i)));
            lemma_axes_fail(b, o, d, sel, t, 0, i);
        }
    }
}

} // verus!
