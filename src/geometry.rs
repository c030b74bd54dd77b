//! Exact integer geometry: squared distances, circle tests, integer square
//! roots, fixed-point unit directions, bounded steps and rotations.

use vstd::prelude::*;
use vstd::arithmetic::div_mod::{
    lemma_div_by_multiple, lemma_div_is_ordered, lemma_div_is_ordered_by_denominator,
    lemma_div_pos_is_pos,
};
use vstd::arithmetic::mul::lemma_mul_inequality;
use crate::constants::{DIR_ONE, ROT_ONE};

verus! {

/// The playing field, `0..=width` by `0..=height`.
#[derive(Debug, Clone, Copy, PartialEq, Eq, Structural)]
pub struct Arena {
    pub width: i32,
    pub height: i32,
}

/// Smallest side of an arena: room for the boss's edge margin on both sides.
pub const ARENA_MIN_SIDE: i32 = 100000;
/// Largest side of an arena (a hundred thousand pixels).
pub const ARENA_MAX_SIDE: i32 = 100000000;

impl Arena {
    pub open spec fn wf(&self) -> bool {
        ARENA_MIN_SIDE <= self.width <= ARENA_MAX_SIDE && ARENA_MIN_SIDE <= self.height
            <= ARENA_MAX_SIDE
    }

    /// An arena of the given size, if both sides are within the supported
    /// range.
    pub fn new(width: i32, height: i32) -> (r: Option<Arena>)
        ensures
            r.is_some() <==> (ARENA_MIN_SIDE <= width <= ARENA_MAX_SIDE && ARENA_MIN_SIDE <= height
                <= ARENA_MAX_SIDE),
            r.is_some() ==> r.unwrap().wf() && r.unwrap().width == width && r.unwrap().height
                == height,
    {
        if ARENA_MIN_SIDE <= width && width <= ARENA_MAX_SIDE && ARENA_MIN_SIDE <= height && height
            <= ARENA_MAX_SIDE {
            Some(Arena { width, height })
        } else {
            None
        }
    }
}

pub open spec fn abs(x: int) -> int {
    if x < 0 { -x } else { x }
}

/// Squared Euclidean distance between two points.
pub open spec fn dist_sq(ax: int, ay: int, bx: int, by: int) -> int {
    (ax - bx) * (ax - bx) + (ay - by) * (ay - by)
}

/// The points are at most `r` apart (a closed disc).
pub open spec fn within_spec(ax: int, ay: int, bx: int, by: int, r: int) -> bool {
    dist_sq(ax, ay, bx, by) <= r * r
}

/// Integer division rounding toward zero.
pub open spec fn trunc_div(a: int, d: int) -> int {
    if a >= 0 {
        a / d
    } else {
        -((-a) / d)
    }
}

pub open spec fn is_sqrt_floor(n: int, r: int) -> bool {
    0 <= r && r * r <= n && n < (r + 1) * (r + 1)
}

/// The largest `r` with `r * r <= n`.
pub open spec fn sqrt_floor(n: int) -> int {
    choose|r: int| is_sqrt_floor(n, r)
}

/// The value `v` clamped into the range of `i32`.
pub open spec fn sat_i32(v: int) -> int {
    if v < i32::MIN {
        i32::MIN as int
    } else if v > i32::MAX {
        i32::MAX as int
    } else {
        v
    }
}

pub open spec fn clamp_spec(v: int, lo: int, hi: int) -> int {
    if v < lo {
        lo
    } else if v > hi {
        hi
    } else {
        v
    }
}

/// The unit vector, scaled by `DIR_ONE`, from `(fx, fy)` toward `(tx, ty)`.
pub open spec fn aim_spec(fx: int, fy: int, tx: int, ty: int) -> (int, int) {
    let d = sqrt_floor(dist_sq(tx, ty, fx, fy));
    (trunc_div((tx - fx) * DIR_ONE, d), trunc_div((ty - fy) * DIR_ONE, d))
}

/// Where a full step of length `step` from `(x, y)` toward `(tx, ty)`
/// lands, kept in the range of `i32`; a step longer than the distance left
/// passes the target. A point already on the target has no direction and
/// stays where it is.
pub open spec fn step_toward_spec(x: int, y: int, tx: int, ty: int, step: int) -> (int, int) {
    let d = sqrt_floor(dist_sq(tx, ty, x, y));
    if d == 0 {
        (x, y)
    } else {
        (sat_i32(x + trunc_div((tx - x) * step, d)), sat_i32(y + trunc_div((ty - y) * step, d)))
    }
}

/// The vector `(vx, vy)` rotated by the angle whose cosine and sine, scaled
/// by `ROT_ONE`, are `c` and `s`.
pub open spec fn rotate_spec(vx: int, vy: int, c: int, s: int) -> (int, int) {
    (trunc_div(vx * c - vy * s, ROT_ONE as int), trunc_div(vx * s + vy * c, ROT_ONE as int))
}

pub proof fn lemma_sqrt_floor_unique(n: int, r: int)
    requires
        is_sqrt_floor(n, r),
    ensures
        sqrt_floor(n) == r,
{
    let s = sqrt_floor(n);
    assert(is_sqrt_floor(n, s));
    if s < r {
        lemma_mul_inequality(s + 1, r, s + 1);
        lemma_mul_inequality(s + 1, r, r);
    } else if r < s {
        lemma_mul_inequality(r + 1, s, r + 1);
        lemma_mul_inequality(r + 1, s, s);
    }
}

pub proof fn lemma_trunc_div_bound(a: int, d: int, m: int)
    requires
        d > 0,
        m >= 0,
        -(m * d) <= a <= m * d,
    ensures
        -m <= trunc_div(a, d) <= m,
        a >= 0 ==> trunc_div(a, d) >= 0,
        a <= 0 ==> trunc_div(a, d) <= 0,
{
    lemma_div_by_multiple(m, d);
    if a >= 0 {
        lemma_div_is_ordered(a, m * d, d);
        lemma_div_pos_is_pos(a, d);
    } else {
        lemma_div_is_ordered(-a, m * d, d);
        lemma_div_pos_is_pos(-a, d);
    }
}

pub proof fn lemma_trunc_div_neg(a: int, d: int)
    requires
        d > 0,
    ensures
        trunc_div(-a, d) == -trunc_div(a, d),
{
    if a == 0 {
        assert(0int / d == 0) by (nonlinear_arith)
            requires
                d > 0,
        ;
    }
}

/// A coordinate is no further from the root than the root is long.
proof fn lemma_abs_le_sqrt(a: int, n: int, d: int)
    requires
        a * a <= n,
        is_sqrt_floor(n, d),
    ensures
        abs(a) <= d,
{
    if abs(a) > d {
        lemma_mul_inequality(d + 1, abs(a), d + 1);
        lemma_mul_inequality(d + 1, abs(a), abs(a));
        assert(abs(a) * abs(a) == a * a) by (nonlinear_arith);
    }
}

/// Squared distance between two points.
pub fn distance_sq(ax: i32, ay: i32, bx: i32, by: i32) -> (r: u128)
    ensures
        r as int == dist_sq(ax as int, ay as int, bx as int, by as int),
        r <= 0x2_0000_0000_0000_0000,
{
    let dx: i128 = ax as i128 - bx as i128;
    let dy: i128 = ay as i128 - by as i128;
    assert(0 <= dx * dx <= 0x1_0000_0000_0000_0000) by (nonlinear_arith)
        requires
            -0x1_0000_0000 <= dx <= 0x1_0000_0000,
    ;
    assert(0 <= dy * dy <= 0x1_0000_0000_0000_0000) by (nonlinear_arith)
        requires
            -0x1_0000_0000 <= dy <= 0x1_0000_0000,
    ;
    let s: i128 = dx * dx + dy * dy;
    s as u128
}

/// Whether two points are at most `radius` apart.
pub fn within(ax: i32, ay: i32, bx: i32, by: i32, radius: i64) -> (r: bool)
    requires
        0 <= radius <= 0x1_0000_0000,
    ensures
        r == within_spec(ax as int, ay as int, bx as int, by as int, radius as int),
{
    let n = distance_sq(ax, ay, bx, by);
    assert(0 <= radius * radius <= 0x1_0000_0000_0000_0000) by (nonlinear_arith)
        requires
            0 <= radius <= 0x1_0000_0000,
    ;
    let rr: u128 = radius as u128 * radius as u128;
    n <= rr
}

/// The integer square root, rounded down.
pub fn isqrt(n: u128) -> (r: u128)
    requires
        n < 0x4_0000_0000_0000_0000,
    ensures
        is_sqrt_floor(n as int, r as int),
        r as int == sqrt_floor(n as int),
        r <= 0x2_0000_0000,
{
    let mut lo: u128 = 0;
    let mut hi: u128 = 0x2_0000_0000;
    assert(hi * hi == 0x4_0000_0000_0000_0000);
    while lo + 1 < hi
        invariant
            lo < hi <= 0x2_0000_0000,
            lo * lo <= n,
            n < hi * hi,
        decreases hi - lo,
    {
        let mid: u128 = lo + (hi - lo) / 2;
        assert(mid * mid <= 0x4_0000_0000_0000_0000) by (nonlinear_arith)
            requires
                mid <= 0x2_0000_0000,
        ;
        if mid * mid <= n {
            lo = mid;
        } else {
            hi = mid;
        }
    }
    proof {
        lemma_sqrt_floor_unique(n as int, lo as int);
    }
    lo
}

/// `a / d` rounded toward zero.
pub fn div_trunc(a: i128, d: i128) -> (r: i128)
    requires
        d > 0,
        a > i128::MIN,
    ensures
        r == trunc_div(a as int, d as int),
{
    if a >= 0 {
        proof {
            lemma_div_is_ordered_by_denominator(a as int, 1, d as int);
        }
        ((a as u128) / (d as u128)) as i128
    } else {
        let na: i128 = -a;
        proof {
            lemma_div_is_ordered_by_denominator(na as int, 1, d as int);
        }
        let q: u128 = (na as u128) / (d as u128);
        -(q as i128)
    }
}

/// The value clamped into `lo..=hi`.
pub fn clamp(v: i32, lo: i32, hi: i32) -> (r: i32)
    requires
        lo <= hi,
    ensures
        r as int == clamp_spec(v as int, lo as int, hi as int),
{
    if v < lo {
        lo
    } else if v > hi {
        hi
    } else {
        v
    }
}

/// The value clamped into the range of `i32`.
pub fn saturate(v: i128) -> (r: i32)
    ensures
        r as int == sat_i32(v as int),
{
    if v < i32::MIN as i128 {
        i32::MIN
    } else if v > i32::MAX as i128 {
        i32::MAX
    } else {
        v as i32
    }
}

/// The unit direction from one point toward another, or `None` where the
/// points coincide.
pub fn aim(fx: i32, fy: i32, tx: i32, ty: i32) -> (r: Option<(i32, i32)>)
    ensures
        r.is_none() <==> (fx == tx && fy == ty),
        r.is_some() ==> (r.unwrap().0 as int, r.unwrap().1 as int) == aim_spec(
            fx as int,
            fy as int,
            tx as int,
            ty as int,
        ),
        r.is_some() ==> -DIR_ONE <= r.unwrap().0 <= DIR_ONE && -DIR_ONE <= r.unwrap().1 <= DIR_ONE,
{
    let n = distance_sq(tx, ty, fx, fy);
    if fx == tx && fy == ty {
        assert(n == 0) by (nonlinear_arith)
            requires
                n == (tx - fx) * (tx - fx) + (ty - fy) * (ty - fy),
                fx == tx && fy == ty,
        ;
    }
    if n == 0 {
        assert(fx == tx && fy == ty) by (nonlinear_arith)
            requires
                (tx - fx) * (tx - fx) + (ty - fy) * (ty - fy) == 0,
        ;
        return None;
    }
    let d = isqrt(n);
    let dx: i128 = tx as i128 - fx as i128;
    let dy: i128 = ty as i128 - fy as i128;
    proof {
        assert(d > 0) by (nonlinear_arith)
            requires
                n > 0,
                n < (d + 1) * (d + 1),
                d >= 0,
        ;
        assert(0 <= dy * dy) by (nonlinear_arith);
        assert(0 <= dx * dx) by (nonlinear_arith);
        lemma_abs_le_sqrt(dx as int, n as int, d as int);
        lemma_abs_le_sqrt(dy as int, n as int, d as int);
        assert(-(1000 * d) <= dx * 1000 <= 1000 * d);
        assert(-(1000 * d) <= dy * 1000 <= 1000 * d);
        lemma_trunc_div_bound(dx * 1000, d as int, 1000);
        lemma_trunc_div_bound(dy * 1000, d as int, 1000);
    }
    let qx = div_trunc(dx * 1000, d as i128);
    let qy = div_trunc(dy * 1000, d as i128);
    Some((qx as i32, qy as i32))
}

/// A full step of length `step` from `(x, y)` toward `(tx, ty)`, which may
/// pass the target.
pub fn step_toward(x: i32, y: i32, tx: i32, ty: i32, step: u64) -> (r: (i32, i32))
    ensures
        (r.0 as int, r.1 as int) == step_toward_spec(
            x as int,
            y as int,
            tx as int,
            ty as int,
            step as int,
        ),
{
    let n = distance_sq(tx, ty, x, y);
    let d = isqrt(n);
    if d == 0 {
        return (x, y);
    }
    let dx: i128 = tx as i128 - x as i128;
    let dy: i128 = ty as i128 - y as i128;
    proof {
        assert(0 <= dy * dy) by (nonlinear_arith);
        assert(0 <= dx * dx) by (nonlinear_arith);
        lemma_abs_le_sqrt(dx as int, n as int, d as int);
        lemma_abs_le_sqrt(dy as int, n as int, d as int);
        assert(-(step * d) <= dx * step <= step * d) by (nonlinear_arith)
            requires
                abs(dx as int) <= d,
                0 <= step,
        ;
        assert(-(step * d) <= dy * step <= step * d) by (nonlinear_arith)
            requires
                abs(dy as int) <= d,
                0 <= step,
        ;
        assert(abs(dx * step) <= 0x1_0000_0000 * 0x1_0000_0000_0000_0000) by (nonlinear_arith)
            requires
                abs(dx as int) <= 0x1_0000_0000,
                0 <= step < 0x1_0000_0000_0000_0000,
        ;
        assert(abs(dy * step) <= 0x1_0000_0000 * 0x1_0000_0000_0000_0000) by (nonlinear_arith)
            requires
                abs(dy as int) <= 0x1_0000_0000,
                0 <= step < 0x1_0000_0000_0000_0000,
        ;
        lemma_trunc_div_bound(dx * step, d as int, step as int);
        lemma_trunc_div_bound(dy * step, d as int, step as int);
    }
    let qx = div_trunc(dx * step as i128, d as i128);
    let qy = div_trunc(dy * step as i128, d as i128);
    (saturate(x as i128 + qx), saturate(y as i128 + qy))
}

/// The vector rotated by the angle with scaled cosine `c` and sine `s`.
pub fn rotate(vx: i32, vy: i32, c: i64, s: i64) -> (r: (i32, i32))
    requires
        abs(vx as int) + abs(vy as int) <= 0x1000_0000,
        0 <= c <= ROT_ONE,
        -ROT_ONE <= s <= ROT_ONE,
    ensures
        (r.0 as int, r.1 as int) == rotate_spec(vx as int, vy as int, c as int, s as int),
        abs(r.0 as int) <= abs(vx as int) + abs(vy as int),
        abs(r.1 as int) <= abs(vx as int) + abs(vy as int),
{
    let m: Ghost<int> = Ghost(abs(vx as int) + abs(vy as int));
    assert(abs(vx * c) <= 0x8000_0000 * 1000000 && abs(vy * s) <= 0x8000_0000 * 1000000
        && abs(vx * s) <= 0x8000_0000 * 1000000 && abs(vy * c) <= 0x8000_0000 * 1000000)
        by (nonlinear_arith)
        requires
            abs(vx as int) <= 0x8000_0000,
            abs(vy as int) <= 0x8000_0000,
            0 <= c <= 1000000,
            -1000000 <= s <= 1000000,
    ;
    let a: i128 = vx as i128 * c as i128 - vy as i128 * s as i128;
    let b: i128 = vx as i128 * s as i128 + vy as i128 * c as i128;
    proof {
        assert(-(m@ * 1000000) <= a <= m@ * 1000000) by (nonlinear_arith)
            requires
                a == vx * c - vy * s,
                m@ == abs(vx as int) + abs(vy as int),
                0 <= c <= 1000000,
                -1000000 <= s <= 1000000,
        ;
        assert(-(m@ * 1000000) <= b <= m@ * 1000000) by (nonlinear_arith)
            requires
                b == vx * s + vy * c,
                m@ == abs(vx as int) + abs(vy as int),
                0 <= c <= 1000000,
                -1000000 <= s <= 1000000,
        ;
        lemma_trunc_div_bound(a as int, 1000000, m@);
        lemma_trunc_div_bound(b as int, 1000000, m@);
    }
    let qa = div_trunc(a, ROT_ONE as i128);
    let qb = div_trunc(b, ROT_ONE as i128);
    (qa as i32, qb as i32)
}

} // verus!
