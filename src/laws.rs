//! Properties of the arrowhead that hold for every shaft.

use crate::geometry::{barb, barb_scaled, clamp_measure, sq_len};
use vstd::prelude::*;

verus! {

/// The component of a scaled barb offset `z` along the shaft `(dx, dy)`,
/// scaled once more by the shaft length: `z.x * dx + z.y * dy`.
pub open spec fn along(z: ((int, int), (int, int)), dx: int, dy: int) -> (int, int) {
    (z.0.0 * dx + z.1.0 * dy, z.0.1 * dx + z.1.1 * dy)
}

/// The component of a scaled barb offset `z` across the shaft `(dx, dy)`,
/// scaled once more by the shaft length: `z.x * dy - z.y * dx`.
pub open spec fn across(z: ((int, int), (int, int)), dx: int, dy: int) -> (int, int) {
    (z.0.0 * dy - z.1.0 * dx, z.0.1 * dy - z.1.1 * dx)
}

proof fn lemma_components(h: int, w: int, dx: int, dy: int)
    ensures
        (-2 * h * dx + w * dy) * dx + (-2 * h * dy - w * dx) * dy == -2 * h * (dx * dx + dy * dy),
        (-2 * h * dx + w * dy) * dy - (-2 * h * dy - w * dx) * dx == w * (dx * dx + dy * dy),
        (-2 * h * dx - w * dy) * dx + (-2 * h * dy + w * dx) * dy == -2 * h * (dx * dx + dy * dy),
        (-2 * h * dx - w * dy) * dy - (-2 * h * dy + w * dx) * dx == -w * (dx * dx + dy * dy),
{
    assert((-2 * h * dx + w * dy) * dx + (-2 * h * dy - w * dx) * dy == -2 * h * (dx * dx + dy * dy))
        by (nonlinear_arith);
    assert((-2 * h * dx + w * dy) * dy - (-2 * h * dy - w * dx) * dx == w * (dx * dx + dy * dy))
        by (nonlinear_arith);
    assert((-2 * h * dx - w * dy) * dx + (-2 * h * dy + w * dx) * dy == -2 * h * (dx * dx + dy * dy))
        by (nonlinear_arith);
    assert((-2 * h * dx - w * dy) * dy - (-2 * h * dy + w * dx) * dx == -w * (dx * dx + dy * dy))
        by (nonlinear_arith);
}

proof fn lemma_lin_parts(m: (int, int), c: int)
    ensures
        m.0 * (-2 * c) == -2 * m.0 * c,
        m.1 * (-2 * c) == -2 * m.1 * c,
        m.0 * (-c) == -(m.0 * c),
        m.1 * (-c) == -(m.1 * c),
{
    assert(m.0 * (-2 * c) == -2 * m.0 * c) by (nonlinear_arith);
    assert(m.1 * (-2 * c) == -2 * m.1 * c) by (nonlinear_arith);
    assert(m.0 * (-c) == -(m.0 * c)) by (nonlinear_arith);
    assert(m.1 * (-c) == -(m.1 * c)) by (nonlinear_arith);
}

/// The head is symmetric about the shaft. Before rounding, the two barb
/// offsets from the tip have the same component along the shaft, `-h` times
/// the shaft length pointing back toward the tail, and opposite components
/// across it, `w/2` on either side, where `h` and `w` are the head length and
/// width clamped to the shaft length. So the barbs are mirror images of each
/// other about the shaft, at the same distance from the tip, and each makes
/// the angle `atan2(w/2, h)` with the reversed shaft. (Scaled as in
/// `barb_scaled`, by twice the shaft length, and once more by it here.)
pub proof fn lemma_barbs_symmetric(tail: (i32, i32), tip: (i32, i32), head: int, width: int)
    requires
        tail != tip,
    ensures
        ({
            let dx = tip.0 - tail.0;
            let dy = tip.1 - tail.1;
            let s = sq_len(tail, tip);
            let h = clamp_measure(head, s);
            let w = clamp_measure(width, s);
            let l = barb_scaled(tail, tip, head, width, true);
            let r = barb_scaled(tail, tip, head, width, false);
            &&& along(l, dx, dy) == along(r, dx, dy)
            &&& along(l, dx, dy) == (-2 * h.0 * s, -2 * h.1 * s)
            &&& across(l, dx, dy) == (w.0 * s, w.1 * s)
            &&& across(r, dx, dy) == (-w.0 * s, -w.1 * s)
        }),
{
    let dx = tip.0 - tail.0;
    let dy = tip.1 - tail.1;
    let s = sq_len(tail, tip);
    let h = clamp_measure(head, s);
    let w = clamp_measure(width, s);
    lemma_components(h.0, w.0, dx, dy);
    lemma_components(h.1, w.1, dx, dy);
    lemma_lin_parts(h, dx);
    lemma_lin_parts(h, dy);
    lemma_lin_parts(w, dx);
    lemma_lin_parts(w, dy);
    assert(-2 * h.0 * s == -2 * h.0 * (dx * dx + dy * dy));
}

/// A head at least as long and as wide as the shaft is clamped to the shaft:
/// every such head gives the same barbs, and where the shaft length is a
/// whole number `n` of pixels they are the barbs of a head `n` long and `n`
/// wide. The head then reaches back to the tail: the midpoint of the two
/// exact barb points is the tail.
pub proof fn lemma_oversized_head_clamps(
    tail: (i32, i32),
    tip: (i32, i32),
    head1: int,
    width1: int,
    head2: int,
    width2: int,
)
    requires
        tail != tip,
        head1 >= 0 && head1 * head1 >= sq_len(tail, tip),
        width1 >= 0 && width1 * width1 >= sq_len(tail, tip),
        head2 >= 0 && head2 * head2 >= sq_len(tail, tip),
        width2 >= 0 && width2 * width2 >= sq_len(tail, tip),
    ensures
        barb(tail, tip, head1, width1, true) == barb(tail, tip, head2, width2, true),
        barb(tail, tip, head1, width1, false) == barb(tail, tip, head2, width2, false),
        forall|n: int|
            n >= 0 && n * n == sq_len(tail, tip) ==> {
                &&& barb(tail, tip, head1, width1, true) == #[trigger] barb(tail, tip, n, n, true)
                &&& barb(tail, tip, head1, width1, false) == barb(tail, tip, n, n, false)
            },
        ({
            let l = barb_scaled(tail, tip, head1, width1, true);
            let r = barb_scaled(tail, tip, head1, width1, false);
            &&& l.0.0 + r.0.0 == 0
            &&& l.0.1 + r.0.1 == -4 * (tip.0 - tail.0)
            &&& l.1.0 + r.1.0 == 0
            &&& l.1.1 + r.1.1 == -4 * (tip.1 - tail.1)
        }),
{
    let s = sq_len(tail, tip);
    assert(clamp_measure(head1, s) == clamp_measure(head2, s));
    assert(clamp_measure(width1, s) == clamp_measure(width2, s));
    assert forall|n: int| n >= 0 && n * n == sq_len(tail, tip) implies {
        &&& barb(tail, tip, head1, width1, true) == #[trigger] barb(tail, tip, n, n, true)
        &&& barb(tail, tip, head1, width1, false) == barb(tail, tip, n, n, false)
    } by {
        assert(clamp_measure(n, s) == clamp_measure(head1, s));
        assert(clamp_measure(n, s) == clamp_measure(width1, s));
    }
}

} // verus!
