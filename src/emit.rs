//! The primitives that draw one arrow, in the order a sink must receive them.

use crate::geometry::{barb, barb_scaled, shaft_fits, solve_head, sq_len};
use crate::surd::{is_nearest, nearest};
use vstd::prelude::*;

verus! {

/// How the head is drawn: two open strokes, or a filled triangle.
#[derive(Clone, Copy, Debug, PartialEq, Eq, Structural)]
pub enum HeadKind {
    Open,
    Filled,
}

/// One call on a drawing sink, in device pixels.
#[derive(Debug)]
pub enum DrawOp {
    /// A straight stroke from the first point to the second.
    Line((i64, i64), (i64, i64)),
    /// A filled polygon over the points, in order.
    Polygon(Vec<(i64, i64)>),
}

/// A device point widened to the coordinates of a `DrawOp`.
pub open spec fn wide(p: (i32, i32)) -> (i64, i64) {
    (p.0 as i64, p.1 as i64)
}

/// A barb point as the coordinates of a `DrawOp`.
pub open spec fn barb_point(tail: (i32, i32), tip: (i32, i32), head: i32, width: i32, left: bool) -> (i64, i64) {
    let b = barb(tail, tip, head as int, width as int, left);
    (b.0 as i64, b.1 as i64)
}

/// Each barb coordinate is the integer nearest to the exact one: such an
/// integer exists, and `barb` names it.
pub open spec fn solution_rounds_nearest(tail: (i32, i32), tip: (i32, i32), head: i32, width: i32) -> bool {
    let s = sq_len(tail, tip);
    let l = barb_scaled(tail, tip, head as int, width as int, true);
    let r = barb_scaled(tail, tip, head as int, width as int, false);
    &&& is_nearest(l.0.0, l.0.1, s, nearest(l.0.0, l.0.1, s))
    &&& is_nearest(l.1.0, l.1.1, s, nearest(l.1.0, l.1.1, s))
    &&& is_nearest(r.0.0, r.0.1, s, nearest(r.0.0, r.0.1, s))
    &&& is_nearest(r.1.0, r.1.1, s, nearest(r.1.0, r.1.1, s))
}

/// The draw calls for the arrow from `tail` to `tip`, head and width already
/// resolved to pixels: the shaft, then the head. An arrow of no length draws
/// nothing.
pub fn plan_arrow(kind: HeadKind, tail: (i32, i32), tip: (i32, i32), head: i32, width: i32) -> (ops: Vec<DrawOp>)
    requires
        shaft_fits(tail, tip),
    ensures
        tail == tip ==> ops@.len() == 0,
        tail != tip ==> solution_rounds_nearest(tail, tip, head, width),
        tail != tip && kind == HeadKind::Open ==> {
            &&& ops@.len() == 3
            &&& ops@[0] == DrawOp::Line(wide(tail), wide(tip))
            &&& ops@[1] == DrawOp::Line(wide(tip), barb_point(tail, tip, head, width, true))
            &&& ops@[2] == DrawOp::Line(wide(tip), barb_point(tail, tip, head, width, false))
        },
        tail != tip && kind == HeadKind::Filled ==> {
            &&& ops@.len() == 2
            &&& ops@[0] == DrawOp::Line(wide(tail), wide(tip))
            &&& ops@[1] matches DrawOp::Polygon(points)
            &&& points@ == seq![
                wide(tip),
                barb_point(tail, tip, head, width, true),
                barb_point(tail, tip, head, width, false),
                wide(tip),
            ]
        },
{
    let mut ops: Vec<DrawOp> = Vec::new();
    match solve_head(tail, tip, head, width) {
        None => {},
        Some(g) => {
            let tail_w: (i64, i64) = (g.tail.0 as i64, g.tail.1 as i64);
            let tip_w: (i64, i64) = (g.tip.0 as i64, g.tip.1 as i64);
            ops.push(DrawOp::Line(tail_w, tip_w));
            match kind {
                HeadKind::Open => {
                    ops.push(DrawOp::Line(tip_w, g.left));
                    ops.push(DrawOp::Line(tip_w, g.right));
                },
                HeadKind::Filled => {
                    let mut points: Vec<(i64, i64)> = Vec::new();
                    points.push(tip_w);
                    points.push(g.left);
                    points.push(g.right);
                    points.push(tip_w);
                    ops.push(DrawOp::Polygon(points));
                },
            }
        },
    }
    ops
}

} // verus!
