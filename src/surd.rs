//! Exact arithmetic on numbers of the form `p + q * sqrt(s)`, enough to
//! round such a number divided by `2 * sqrt(s)` to the nearest integer.

use vstd::arithmetic::div_mod::{lemma_fundamental_div_mod, lemma_mod_pos_bound};
use vstd::prelude::*;

verus! {

/// `c * sqrt(s) <= b`, for `s >= 0`, stated without the square root.
pub open spec fn mul_sqrt_le(c: int, s: int, b: int) -> bool {
    if c <= 0 {
        b >= 0 || c * c * s >= b * b
    } else {
        b >= 0 && c * c * s <= b * b
    }
}

/// `r` is the integer nearest to `(p + q * sqrt(s)) / (2 * sqrt(s))`, that is
/// to `(q + p / sqrt(s)) / 2`, with halves rounded up.
pub open spec fn is_nearest(p: int, q: int, s: int, r: int) -> bool {
    mul_sqrt_le(2 * r - 1 - q, s, p) && !mul_sqrt_le(2 * r + 1 - q, s, p)
}

/// The integer nearest to `(q + p / sqrt(s)) / 2`.
pub open spec fn nearest(p: int, q: int, s: int) -> int {
    choose|r: int| is_nearest(p, q, s, r)
}

/// A smaller multiple of `sqrt(s)` stays below `b`.
pub proof fn lemma_mul_sqrt_le_mono(c1: int, c2: int, s: int, b: int)
    requires
        s > 0,
        c1 <= c2,
        mul_sqrt_le(c2, s, b),
    ensures
        mul_sqrt_le(c1, s, b),
{
    if c2 <= 0 {
        if b < 0 {
            assert(c1 * c1 * s >= c2 * c2 * s) by (nonlinear_arith)
                requires
                    c1 <= c2,
                    c2 <= 0,
                    s > 0,
            ;
        }
    } else if c1 > 0 {
        assert(c1 * c1 * s <= c2 * c2 * s) by (nonlinear_arith)
            requires
                0 < c1 <= c2,
                s > 0,
        ;
    }
}

/// At most one integer is nearest.
pub proof fn lemma_nearest_unique(p: int, q: int, s: int, r1: int, r2: int)
    requires
        s > 0,
        is_nearest(p, q, s, r1),
        is_nearest(p, q, s, r2),
    ensures
        r1 == r2,
{
    if r1 < r2 {
        lemma_mul_sqrt_le_mono(2 * r1 + 1 - q, 2 * r2 - 1 - q, s, p);
    } else if r2 < r1 {
        lemma_mul_sqrt_le_mono(2 * r2 + 1 - q, 2 * r1 - 1 - q, s, p);
    }
}

/// Any integer that is nearest is the one `nearest` names.
pub proof fn lemma_nearest_is(p: int, q: int, s: int, r: int)
    requires
        s > 0,
        is_nearest(p, q, s, r),
    ensures
        nearest(p, q, s) == r,
{
    let c = nearest(p, q, s);
    assert(is_nearest(p, q, s, c));
    lemma_nearest_unique(p, q, s, c, r);
}

/// The largest `k` with `k * k <= m`.
pub fn isqrt(m: u128) -> (k: u128)
    ensures
        k * k <= m,
        m < (k + 1) * (k + 1),
{
    let mut lo: u128 = 0;
    let mut hi: u128 = 0x1_0000_0000_0000_0000;
    assert(m < hi * hi) by (nonlinear_arith)
        requires
            m <= 0xffff_ffff_ffff_ffff_ffff_ffff_ffff_ffff,
            hi == 0x1_0000_0000_0000_0000,
    ;
    while hi - lo > 1
        invariant
            lo < hi <= 0x1_0000_0000_0000_0000,
            lo * lo <= m,
            m < hi * hi,
        decreases hi - lo,
    {
        let mid: u128 = lo + (hi - lo) / 2;
        assert(mid * mid <= 0xffff_ffff_ffff_ffff * 0xffff_ffff_ffff_ffff) by (nonlinear_arith)
            requires
                mid <= 0xffff_ffff_ffff_ffff,
        ;
        if mid * mid <= m {
            lo = mid;
        } else {
            hi = mid;
        }
    }
    lo
}

proof fn lemma_floor_sqrt_ratio(sq: int, s: int, m: int, k: int)
    requires
        sq >= 0,
        s > 0,
        m == sq / s,
        k >= 0,
        k * k <= m,
        m < (k + 1) * (k + 1),
    ensures
        k * k * s <= sq,
        sq < (k + 1) * (k + 1) * s,
{
    lemma_fundamental_div_mod(sq, s);
    lemma_mod_pos_bound(sq, s);
    assert(k * k * s <= m * s) by (nonlinear_arith)
        requires
            k * k <= m,
            s > 0,
    ;
    assert(m * s + s <= (k + 1) * (k + 1) * s) by (nonlinear_arith)
        requires
            m + 1 <= (k + 1) * (k + 1),
            s > 0,
    ;
    assert(m * s == s * m) by (nonlinear_arith);
}

/// `floor(p / sqrt(s))`, when `|p| / sqrt(s)` is at most `2^33`.
pub fn floor_div_sqrt(p: i128, s: u128) -> (k: i128)
    requires
        s > 0,
        -0x1_0000_0000_0000_0000 < p < 0x1_0000_0000_0000_0000,
        p * p <= 0x4_0000_0000_0000_0000 * s,
    ensures
        mul_sqrt_le(k as int, s as int, p as int),
        !mul_sqrt_le(k + 1, s as int, p as int),
        -0x2_0000_0001 <= k <= 0x2_0000_0000,
{
    let a: u128 = if p >= 0 {
        p as u128
    } else {
        (-p) as u128
    };
    assert(a * a == p * p) by (nonlinear_arith)
        requires
            a == p || a == -p,
    ;
    assert(a * a < 0x1_0000_0000_0000_0000 * 0x1_0000_0000_0000_0000) by (nonlinear_arith)
        requires
            0 <= a < 0x1_0000_0000_0000_0000,
    ;
    let sq: u128 = a * a;
    let m: u128 = sq / s;
    let k0: u128 = isqrt(m);
    proof {
        lemma_floor_sqrt_ratio(sq as int, s as int, m as int, k0 as int);
        assert(k0 * k0 * s <= 0x4_0000_0000_0000_0000 * s);
        assert(k0 <= 0x2_0000_0000) by (nonlinear_arith)
            requires
                k0 * k0 * s <= 0x4_0000_0000_0000_0000 * s,
                s > 0,
                k0 >= 0,
        ;
    }
    if p >= 0 {
        assert(sq == p * p);
        k0 as i128
    } else {
        assert(sq > 0) by (nonlinear_arith)
            requires
                sq == a * a,
                a > 0,
        ;
        assert(sq == p * p);
        if k0 * k0 * s == sq {
            assert(k0 > 0) by (nonlinear_arith)
                requires
                    k0 * k0 * s == sq,
                    sq > 0,
                    k0 >= 0,
            ;
            assert((k0 - 1) * (k0 - 1) * s < k0 * k0 * s) by (nonlinear_arith)
                requires
                    k0 > 0,
                    s > 0,
            ;
            let k: i128 = -(k0 as i128);
            assert(k * k * s == k0 * k0 * s) by (nonlinear_arith)
                requires
                    k == -k0,
            ;
            assert((k + 1) * (k + 1) * s == (k0 - 1) * (k0 - 1) * s) by (nonlinear_arith)
                requires
                    k == -k0,
            ;
            k
        } else {
            let k: i128 = -(k0 as i128) - 1;
            assert(k * k * s == (k0 + 1) * (k0 + 1) * s) by (nonlinear_arith)
                requires
                    k == -k0 - 1,
            ;
            assert((k + 1) * (k + 1) * s == k0 * k0 * s) by (nonlinear_arith)
                requires
                    k == -k0 - 1,
            ;
            k
        }
    }
}

/// The integer nearest to `(q + p / sqrt(s)) / 2`, halves rounded up.
pub fn round_half_ratio(p: i128, q: i128, s: u128) -> (r: i128)
    requires
        s > 0,
        -0x1_0000_0000_0000_0000 < p < 0x1_0000_0000_0000_0000,
        p * p <= 0x4_0000_0000_0000_0000 * s,
        -0x4_0000_0000 <= q <= 0x4_0000_0000,
    ensures
        is_nearest(p as int, q as int, s as int, r as int),
        r == nearest(p as int, q as int, s as int),
        -0x4_0000_0000 <= r <= 0x4_0000_0000,
{
    let k: i128 = floor_div_sqrt(p, s);
    let t: i128 = k + q + 1;
    let r: i128 = if t >= 0 {
        ((t as u128) / 2) as i128
    } else {
        -(((((-t) as u128) + 1) / 2) as i128)
    };
    assert(2 * r <= t <= 2 * r + 1);
    proof {
        lemma_mul_sqrt_le_mono(2 * r - 1 - q, k as int, s as int, p as int);
        if mul_sqrt_le(2 * r + 1 - q, s as int, p as int) {
            lemma_mul_sqrt_le_mono(k + 1, 2 * r + 1 - q, s as int, p as int);
        }
        lemma_nearest_is(p as int, q as int, s as int, r as int);
    }
    r
}

} // verus!
