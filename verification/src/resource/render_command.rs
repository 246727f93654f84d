//! What the engine draws in a frame: commands ordered by layer and depth.

use vstd::prelude::*;
use crate::media::{Color, Point, Rect};
use crate::resource::shape_manager::ShapeKey;

verus! {

/// Where a command is drawn among the others: by layer, then by depth;
/// `debug` marks what only a debugging view shows.
#[derive(Copy, Clone, Debug, PartialEq, Eq, Structural)]
pub struct RenderOrder {
    pub layer: u16,
    pub depth: i32,
    pub debug: bool,
}

impl RenderOrder {
    pub fn new(layer: u16, depth: i32, debug: bool) -> (r: RenderOrder)
        ensures
            r == (RenderOrder { layer, depth, debug }),
    {
        RenderOrder { layer: layer, depth: depth, debug: debug }
    }
}

/// Whether `a` is drawn before `b`: a lower layer, or the same layer and a
/// lower depth.
pub open spec fn drawn_before(a: RenderOrder, b: RenderOrder) -> bool {
    a.layer < b.layer || (a.layer == b.layer && a.depth < b.depth)
}

/// Draws a frame of a shape.
#[derive(Copy, Clone, Debug)]
pub struct RenderShapeParams {
    pub shape_key: ShapeKey,
    pub frame_num: u16,
    pub position: Point,
    pub flip_horizontal: bool,
    pub flip_vertical: bool,
}

impl RenderShapeParams {
    pub fn new(shape_key: ShapeKey, frame_num: u16, position: Point, flip_horizontal: bool, flip_vertical: bool)
        -> (r: RenderShapeParams)
        ensures
            r.shape_key == shape_key,
            r.frame_num == frame_num,
            r.position == position,
            r.flip_horizontal == flip_horizontal,
            r.flip_vertical == flip_vertical,
    {
        RenderShapeParams {
            shape_key: shape_key,
            frame_num: frame_num,
            position: position,
            flip_horizontal: flip_horizontal,
            flip_vertical: flip_vertical,
        }
    }
}

/// Draws the outline of a rectangle.
#[derive(Copy, Clone, Debug)]
pub struct RenderRectParams {
    pub rect: Rect,
}

impl RenderRectParams {
    pub fn new(rect: Rect) -> (r: RenderRectParams)
        ensures
            r.rect == rect,
    {
        RenderRectParams { rect: rect }
    }
}

/// Draws a line between two points.
#[derive(Copy, Clone, Debug)]
pub struct RenderLineParams {
    pub color: Color,
    pub points: [Point; 2],
}

impl RenderLineParams {
    pub fn new(color: Color, point1: Point, point2: Point) -> (r: RenderLineParams)
        ensures
            r.color == color,
            r.points@ == seq![point1, point2],
    {
        let r = RenderLineParams { color: color, points: [point1, point2] };
        assert(r.points@ =~= seq![point1, point2]);
        r
    }
}

/// Something to draw, with its place in the drawing order.
#[derive(Copy, Clone, Debug)]
pub enum RenderCommand {
    RenderShape(RenderOrder, RenderShapeParams),
    RenderRect(RenderOrder, RenderRectParams),
    RenderLine(RenderOrder, RenderLineParams),
}

/// The place of a command in the drawing order.
pub open spec fn order_of(c: RenderCommand) -> RenderOrder {
    match c {
        RenderCommand::RenderShape(o, _) => o,
        RenderCommand::RenderRect(o, _) => o,
        RenderCommand::RenderLine(o, _) => o,
    }
}

impl RenderCommand {
    /// Draws a frame of a shape in the ordinary view.
    pub fn new_shape(
        layer: u16,
        depth: i32,
        shape_key: ShapeKey,
        frame_num: u16,
        position: Point,
        flip_horizontal: bool,
        flip_vertical: bool,
    ) -> (r: RenderCommand)
        ensures
            r matches RenderCommand::RenderShape(o, p) && o == (RenderOrder { layer, depth, debug: false })
                && p.shape_key == shape_key && p.frame_num == frame_num && p.position == position
                && p.flip_horizontal == flip_horizontal && p.flip_vertical == flip_vertical,
    {
        let order = RenderOrder::new(layer, depth, false);
        let params = RenderShapeParams::new(shape_key, frame_num, position, flip_horizontal, flip_vertical);
        RenderCommand::RenderShape(order, params)
    }

    /// Draws a line in the ordinary view.
    pub fn new_line(layer: u16, depth: i32, color: Color, point1: Point, point2: Point) -> (r: RenderCommand)
        ensures
            r matches RenderCommand::RenderLine(o, p) && o == (RenderOrder { layer, depth, debug: false })
                && p.color == color && p.points@ == seq![point1, point2],
    {
        let order = RenderOrder::new(layer, depth, false);
        let params = RenderLineParams::new(color, point1, point2);
        RenderCommand::RenderLine(order, params)
    }

    /// Draws a rectangle in the debugging view.
    pub fn new_debug_rect(layer: u16, depth: i32, rect: Rect) -> (r: RenderCommand)
        ensures
            r matches RenderCommand::RenderRect(o, p) && o == (RenderOrder { layer, depth, debug: true })
                && p.rect == rect,
    {
        let order = RenderOrder::new(layer, depth, true);
        let params = RenderRectParams::new(rect);
        RenderCommand::RenderRect(order, params)
    }

    /// Draws a line in the debugging view.
    pub fn new_debug_line(layer: u16, depth: i32, color: Color, point1: Point, point2: Point) -> (r: RenderCommand)
        ensures
            r matches RenderCommand::RenderLine(o, p) && o == (RenderOrder { layer, depth, debug: true })
                && p.color == color && p.points@ == seq![point1, point2],
    {
        let order = RenderOrder::new(layer, depth, true);
        let params = RenderLineParams::new(color, point1, point2);
        RenderCommand::RenderLine(order, params)
    }

    /// The place of the command in the drawing order.
    pub fn order(&self) -> (r: &RenderOrder)
        ensures
            *r == order_of(*self),
    {
        match self {
            RenderCommand::RenderShape(order, _) => order,
            RenderCommand::RenderRect(order, _) => order,
            RenderCommand::RenderLine(order, _) => order,
        }
    }
}

/// In `s`, with `p` giving where each element stood before, the element at
/// `a` may stand before the one at `b`: it is not drawn after it, and of two
/// drawn at the same place, the one that came first stays first.
pub open spec fn may_precede(s: Seq<RenderCommand>, p: Seq<int>, a: int, b: int) -> bool {
    &&& !drawn_before(order_of(s[b]), order_of(s[a]))
    &&& !drawn_before(order_of(s[a]), order_of(s[b])) ==> p[a] < p[b]
}

/// `out` is `inp` sorted into drawing order, keeping the order among the
/// commands drawn at the same place: `p[i]` is where `out[i]` stood in `inp`.
pub open spec fn stably_sorted(out: Seq<RenderCommand>, inp: Seq<RenderCommand>, p: Seq<int>) -> bool {
    &&& out.len() == inp.len()
    &&& p.len() == inp.len()
    &&& forall|i: int| 0 <= i < p.len() ==> 0 <= #[trigger] p[i] < inp.len()
    &&& forall|i: int, j: int| 0 <= i < j < p.len() ==> #[trigger] p[i] != #[trigger] p[j]
    &&& forall|i: int| 0 <= i < out.len() ==> #[trigger] out[i] == inp[p[i]]
    &&& forall|a: int, b: int| 0 <= a < b < out.len() ==> #[trigger] may_precede(out, p, a, b)
}

impl RenderCommand {
    /// Whether `a` is drawn before `b`.
    fn is_drawn_before(a: &RenderCommand, b: &RenderCommand) -> (r: bool)
        ensures
            r == drawn_before(order_of(*a), order_of(*b)),
    {
        let x = a.order();
        let y = b.order();
        x.layer < y.layer || (x.layer == y.layer && x.depth < y.depth)
    }

    /// Sorts the commands into drawing order (by layer, then depth); commands
    /// drawn at the same place keep their order.
    pub fn sort_by_order(commands: &mut Vec<RenderCommand>)
        ensures
            exists|p: Seq<int>| stably_sorted(final(commands)@, old(commands)@, p),
    {
        let ghost orig = commands@;
        let n = commands.len();
        let ghost mut p: Seq<int> = Seq::new(n as nat, |k: int| k);
        let mut i: usize = 0;
        while i < n
            invariant
                n == commands@.len(),
                n == orig.len(),
                i <= n,
                p.len() == n,
                forall|k: int| 0 <= k < n ==> #[trigger] commands@[k] == orig[p[k]],
                forall|k: int| i <= k < n ==> #[trigger] p[k] == k,
                forall|k: int| 0 <= k < i ==> 0 <= #[trigger] p[k] < i,
                forall|a: int, b: int| 0 <= a < b < i ==> #[trigger] p[a] != #[trigger] p[b],
                forall|a: int, b: int| 0 <= a < b < i ==> #[trigger] may_precede(commands@, p, a, b),
            decreases n - i,
        {
            let mut j: usize = i;
            while j > 0 && RenderCommand::is_drawn_before(&commands[j], &commands[j - 1])
                invariant
                    n == commands@.len(),
                    n == orig.len(),
                    i < n,
                    j <= i,
                    p.len() == n,
                    forall|k: int| 0 <= k < n ==> #[trigger] commands@[k] == orig[p[k]],
                    forall|k: int| i < k < n ==> #[trigger] p[k] == k,
                    p[j as int] == i,
                    forall|k: int| 0 <= k <= i && k != j ==> 0 <= #[trigger] p[k] < i,
                    forall|a: int, b: int| 0 <= a < b <= i && a != j && b != j ==> #[trigger] p[a] != #[trigger] p[b],
                    forall|a: int, b: int| 0 <= a < b <= i && a != j && b != j ==> #[trigger] may_precede(commands@, p, a, b),
                    forall|b: int| j < b <= i ==> drawn_before(order_of(commands@[j as int]), order_of(#[trigger] commands@[b])),
                decreases j,
            {
                let ghost cs = commands@;
                let ghost q = p;
                let x = commands[j];
                let y = commands[j - 1];
                commands.set(j - 1, x);
                commands.set(j, y);
                proof {
                    p = q.update(j - 1, q[j as int]).update(j as int, q[j - 1]);
                    let nj = j - 1;
                    assert forall|a: int, b: int| 0 <= a < b <= i && a != nj && b != nj
                        implies #[trigger] p[a] != #[trigger] p[b] by {
                        let a2 = if a == j { nj } else { a };
                        let b2 = if b == j { nj } else { b };
                        assert(q[a2] != q[b2]);
                    }
                    assert forall|a: int, b: int| 0 <= a < b <= i && a != nj && b != nj
                        implies #[trigger] may_precede(commands@, p, a, b) by {
                        let a2 = if a == j { nj } else { a };
                        let b2 = if b == j { nj } else { b };
                        assert(may_precede(cs, q, a2, b2));
                    }
                }
                j = j - 1;
            }
            proof {
                assert forall|a: int, b: int| 0 <= a < b <= i implies #[trigger] p[a] != #[trigger] p[b] by {
                    if a != j && b != j {
                    }
                }
                assert forall|a: int, b: int| 0 <= a < b <= i implies #[trigger] may_precede(commands@, p, a, b) by {
                    if b == j {
                        if a < j - 1 {
                            assert(may_precede(commands@, p, a, j - 1));
                        }
                    }
                }
            }
            i = i + 1;
        }
        assert(stably_sorted(commands@, orig, p));
    }
}

} // verus!
