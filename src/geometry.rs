//! The arrowhead: from the resolved tail and tip of a shaft and the resolved
//! head length and width, the two barb points.
//!
//! Head length and width are clamped to the shaft length `d = sqrt(s)`, where
//! `s` is the squared shaft length. A clamped measure is either a whole number
//! of pixels or `d` itself, so every barb offset, scaled by `2 * d`, is an exact
//! number `p + q * sqrt(s)` with integer `p` and `q`. Each barb coordinate is
//! that offset rounded once, to the nearest pixel.

use crate::surd::{is_nearest, nearest, round_half_ratio};
use vstd::prelude::*;

verus! {

/// A shaft whose coordinate differences fit in `i32`, as device arithmetic
/// on `i32` pixels needs.
pub open spec fn shaft_fits(tail: (i32, i32), tip: (i32, i32)) -> bool {
    i32::MIN <= tip.0 - tail.0 <= i32::MAX && i32::MIN <= tip.1 - tail.1 <= i32::MAX
}

/// The squared length of the shaft.
pub open spec fn sq_len(tail: (i32, i32), tip: (i32, i32)) -> int {
    let dx = tip.0 - tail.0;
    let dy = tip.1 - tail.1;
    dx * dx + dy * dy
}

/// `min(len, sqrt(s))` as `(p, q)`, meaning `p + q * sqrt(s)`.
pub open spec fn clamp_measure(len: int, s: int) -> (int, int) {
    if len >= 0 && len * len >= s {
        (0, 1)
    } else {
        (len, 0)
    }
}

/// `m1 * c1 + m2 * c2` for numbers `m1`, `m2` of the form `p + q * sqrt(s)`.
pub open spec fn lin(m1: (int, int), c1: int, m2: (int, int), c2: int) -> (int, int) {
    (m1.0 * c1 + m2.0 * c2, m1.1 * c1 + m2.1 * c2)
}

/// A barb's offset from the tip, scaled by `2 * d`. With `h`, `w` the clamped
/// measures and `(dx, dy)` the shaft, the left barb's offset is
/// `((-h * dx + w/2 * dy) / d, (-h * dy - w/2 * dx) / d)`; the right barb's
/// has the opposite sign on the `w/2` terms.
pub open spec fn barb_scaled(
    tail: (i32, i32),
    tip: (i32, i32),
    head: int,
    width: int,
    left: bool,
) -> ((int, int), (int, int)) {
    let dx = tip.0 - tail.0;
    let dy = tip.1 - tail.1;
    let s = sq_len(tail, tip);
    let h = clamp_measure(head, s);
    let w = clamp_measure(width, s);
    if left {
        (lin(h, -2 * dx, w, dy), lin(h, -2 * dy, w, -dx))
    } else {
        (lin(h, -2 * dx, w, -dy), lin(h, -2 * dy, w, dx))
    }
}

/// A barb point: the tip plus the barb's offset, each coordinate rounded to
/// the nearest pixel.
pub open spec fn barb(
    tail: (i32, i32),
    tip: (i32, i32),
    head: int,
    width: int,
    left: bool,
) -> (int, int) {
    let s = sq_len(tail, tip);
    let z = barb_scaled(tail, tip, head, width, left);
    (tip.0 + nearest(z.0.0, z.0.1, s), tip.1 + nearest(z.1.0, z.1.1, s))
}

/// The solved arrowhead of one shaft.
#[derive(Clone, Copy, Debug)]
pub struct HeadGeometry {
    pub tail: (i32, i32),
    pub tip: (i32, i32),
    pub left: (i64, i64),
    pub right: (i64, i64),
}

impl HeadGeometry {
    /// The geometry that `solve_head` gives for a shaft that is not a point.
    pub open spec fn is_solution_of(self, tail: (i32, i32), tip: (i32, i32), head: int, width: int) -> bool {
        &&& self.tail == tail
        &&& self.tip == tip
        &&& (self.left.0 as int, self.left.1 as int) == barb(tail, tip, head, width, true)
        &&& (self.right.0 as int, self.right.1 as int) == barb(tail, tip, head, width, false)
    }

    /// Each barb coordinate lies within half a pixel of the exact barb point.
    pub open spec fn within_half_pixel(self, head: int, width: int) -> bool {
        let s = sq_len(self.tail, self.tip);
        let l = barb_scaled(self.tail, self.tip, head, width, true);
        let r = barb_scaled(self.tail, self.tip, head, width, false);
        &&& is_nearest(l.0.0, l.0.1, s, self.left.0 - self.tip.0)
        &&& is_nearest(l.1.0, l.1.1, s, self.left.1 - self.tip.1)
        &&& is_nearest(r.0.0, r.0.1, s, self.right.0 - self.tip.0)
        &&& is_nearest(r.1.0, r.1.1, s, self.right.1 - self.tip.1)
    }
}

proof fn lemma_square_of_sum(x: int, y: int)
    ensures
        (x + y) * (x + y) == x * x + 2 * (x * y) + y * y,
{
    assert((x + y) * (x + y) == x * x + 2 * (x * y) + y * y) by (nonlinear_arith);
}

proof fn lemma_square_of_product(x: int, y: int)
    ensures
        (x * y) * (x * y) == (x * x) * (y * y),
{
    assert((x * y) * (x * y) == (x * x) * (y * y)) by (nonlinear_arith);
}

proof fn lemma_product_swap(a: int, b: int, e: int, f: int)
    ensures
        (a * e) * (b * f) == (a * f) * (b * e),
{
    assert((a * e) * (b * f) == (a * f) * (b * e)) by (nonlinear_arith);
}

proof fn lemma_product_of_sums(x: int, y: int, z: int, w: int)
    ensures
        (x + y) * (z + w) == x * z + x * w + y * z + y * w,
{
    assert((x + y) * (z + w) == x * z + x * w + y * z + y * w) by (nonlinear_arith);
}

/// `(a * e + b * f)^2 <= (a^2 + b^2) * (e^2 + f^2)`.
proof fn lemma_cauchy_schwarz(a: int, b: int, e: int, f: int)
    ensures
        (a * e + b * f) * (a * e + b * f) <= (a * a + b * b) * (e * e + f * f),
{
    lemma_square_of_sum(a * e, b * f);
    lemma_square_of_sum(a * f, -(b * e));
    assert((-(b * e)) * (-(b * e)) == (b * e) * (b * e)) by (nonlinear_arith);
    assert((a * f) * (-(b * e)) == -((a * f) * (b * e))) by (nonlinear_arith);
    lemma_square_of_product(a, e);
    lemma_square_of_product(b, f);
    lemma_square_of_product(a, f);
    lemma_square_of_product(b, e);
    lemma_product_swap(a, b, e, f);
    lemma_product_of_sums(a * a, b * b, e * e, f * f);
    let g = a * f - b * e;
    assert(g * g >= 0) by (nonlinear_arith);
}

/// One barb coordinate's offset from the tip: the integer nearest to
/// `(h * 2e + w * f) / (2 * sqrt(s))` with `h`, `w` clamped to `sqrt(s)`.
fn barb_offset(h: i32, hc: bool, e: i64, w: i32, wc: bool, f: i64, s: u128) -> (r: i64)
    requires
        s > 0,
        e * e + f * f == s,
        -0x8000_0000 <= e <= 0x8000_0000,
        -0x8000_0000 <= f <= 0x8000_0000,
        hc == (h >= 0 && h * h >= s),
        wc == (w >= 0 && w * w >= s),
    ensures
        ({
            let z = lin(clamp_measure(h as int, s as int), 2 * e, clamp_measure(w as int, s as int), f as int);
            &&& r == nearest(z.0, z.1, s as int)
            &&& is_nearest(z.0, z.1, s as int, r as int)
        }),
        -0x4_0000_0000 <= r <= 0x4_0000_0000,
{
    let u: i128 = if hc { 0 } else { h as i128 };
    let v: i128 = if wc { 0 } else { w as i128 };
    assert(-0x8000_0000_0000_0000 <= u * (2 * e) <= 0x8000_0000_0000_0000) by (nonlinear_arith)
        requires
            -0x8000_0000 <= u <= 0x8000_0000,
            -0x8000_0000 <= e <= 0x8000_0000,
    ;
    assert(-0x4000_0000_0000_0000 <= v * f <= 0x4000_0000_0000_0000) by (nonlinear_arith)
        requires
            -0x8000_0000 <= v <= 0x8000_0000,
            -0x8000_0000 <= f <= 0x8000_0000,
    ;
    let p: i128 = u * (2 * e as i128) + v * (f as i128);
    let q: i128 = (if hc { 2 * e as i128 } else { 0 }) + (if wc { f as i128 } else { 0 });
    proof {
        lemma_cauchy_schwarz(2 * u, v as int, e as int, f as int);
        assert(u * (2 * e) == (2 * u) * e) by (nonlinear_arith);
        assert((2 * u) * (2 * u) == 4 * u * u) by (nonlinear_arith);
        assert(p * p <= (4 * u * u + v * v) * s);
    }
    assert((4 * u * u + v * v) * s <= 0x4_0000_0000_0000_0000 * s) by (nonlinear_arith)
        requires
            -0x8000_0000 <= u <= 0x8000_0000,
            -0x8000_0000 <= v <= 0x8000_0000,
            s > 0,
    ;
    let r: i128 = round_half_ratio(p, q, s);
    proof {
        let hm = clamp_measure(h as int, s as int);
        let wm = clamp_measure(w as int, s as int);
        assert(hm.0 == u && hm.1 == (if hc { 1int } else { 0 }));
        assert(wm.0 == v && wm.1 == (if wc { 1int } else { 0 }));
        assert(hm.1 * (2 * e) == (if hc { 2 * e } else { 0 }));
        assert(wm.1 * f == (if wc { f as int } else { 0 }));
    }
    r as i64
}

/// Solves the arrowhead of the shaft from `tail` to `tip` for a head of
/// `head` pixels and a width of `width` pixels, both clamped to the shaft
/// length. A shaft that is a single point has no head: `None`.
pub fn solve_head(tail: (i32, i32), tip: (i32, i32), head: i32, width: i32) -> (r: Option<HeadGeometry>)
    requires
        shaft_fits(tail, tip),
    ensures
        r is None <==> tail == tip,
        r matches Some(g) ==> g.is_solution_of(tail, tip, head as int, width as int),
        r matches Some(g) ==> g.within_half_pixel(head as int, width as int),
{
    if tail.0 == tip.0 && tail.1 == tip.1 {
        return None;
    }
    let dx: i64 = tip.0 as i64 - tail.0 as i64;
    let dy: i64 = tip.1 as i64 - tail.1 as i64;
    assert(0 < dx * dx + dy * dy <= 0x8000_0000_0000_0000) by (nonlinear_arith)
        requires
            -0x8000_0000 <= dx <= 0x7fff_ffff,
            -0x8000_0000 <= dy <= 0x7fff_ffff,
            dx != 0 || dy != 0,
    ;
    assert(0 <= dx * dx <= 0x4000_0000_0000_0000) by (nonlinear_arith)
        requires
            -0x8000_0000 <= dx <= 0x7fff_ffff,
    ;
    assert(0 <= dy * dy <= 0x4000_0000_0000_0000) by (nonlinear_arith)
        requires
            -0x8000_0000 <= dy <= 0x7fff_ffff,
    ;
    assert(0 <= head * head <= 0x4000_0000_0000_0000) by (nonlinear_arith)
        requires
            i32::MIN <= head <= i32::MAX,
    ;
    assert(0 <= width * width <= 0x4000_0000_0000_0000) by (nonlinear_arith)
        requires
            i32::MIN <= width <= i32::MAX,
    ;
    let s: u128 = ((dx as i128) * (dx as i128) + (dy as i128) * (dy as i128)) as u128;
    let hc: bool = head >= 0 && (head as i128) * (head as i128) >= s as i128;
    let wc: bool = width >= 0 && (width as i128) * (width as i128) >= s as i128;
    assert((-dx) * (-dx) == dx * dx && (-dy) * (-dy) == dy * dy) by (nonlinear_arith);
    let lx = barb_offset(head, hc, -dx, width, wc, dy, s);
    let ly = barb_offset(head, hc, -dy, width, wc, -dx, s);
    let rx = barb_offset(head, hc, -dx, width, wc, -dy, s);
    let ry = barb_offset(head, hc, -dy, width, wc, dx, s);
    proof {
        assert(s == sq_len(tail, tip));
        let l = barb_scaled(tail, tip, head as int, width as int, true);
        let r = barb_scaled(tail, tip, head as int, width as int, false);
        assert(l.0 == lin(clamp_measure(head as int, s as int), 2 * (-dx), clamp_measure(width as int, s as int), dy as int));
        assert(l.1 == lin(clamp_measure(head as int, s as int), 2 * (-dy), clamp_measure(width as int, s as int), -dx));
        assert(r.0 == lin(clamp_measure(head as int, s as int), 2 * (-dx), clamp_measure(width as int, s as int), -dy));
        assert(r.1 == lin(clamp_measure(head as int, s as int), 2 * (-dy), clamp_measure(width as int, s as int), dx as int));
    }
    Some(
        HeadGeometry {
            tail,
            tip,
            left: (tip.0 as i64 + lx, tip.1 as i64 + ly),
            right: (tip.0 as i64 + rx, tip.1 as i64 + ry),
        },
    )
}

} // verus!
