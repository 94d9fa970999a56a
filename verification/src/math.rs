//! Fixed-point scalars and the small verified arithmetic kernel that the
//! rasterizer is built on: floor division, barycentric interpolation of an
//! attribute, and an integer square root.

use vstd::prelude::*;

verus! {

use vstd::arithmetic::div_mod::{
    lemma_fundamental_div_mod, lemma_fundamental_div_mod_converse, lemma_div_is_ordered,
    lemma_div_multiples_vanish, lemma_div_nonincreasing, lemma_hoist_over_denominator,
    lemma_multiply_divide_lt,
};
use vstd::arithmetic::mul::lemma_mul_inequality;

/// Fixed-point scale: every coordinate is an integer count of 1/256 units,
/// so the stored value 256 stands for 1.0.
pub const FP: i64 = 256;

/// Largest magnitude accepted for a screen-space coordinate, a normal
/// component or a color channel that enters interpolation.
pub const ATTR_MAX: i64 = 0x1000_0000;

/// Depth held by a freshly reset depth buffer: farther than every
/// representable fragment depth, standing for "no fragment written yet".
pub const DEPTH_INFINITY: i64 = i64::MAX;

/// A 2D point or direction in fixed-point coordinates.
#[derive(Clone, Copy, Debug, PartialEq, Eq, Structural)]
pub struct Vec2 {
    pub x: i64,
    pub y: i64,
}

/// A 3D point or direction in fixed-point coordinates.
#[derive(Clone, Copy, Debug, PartialEq, Eq, Structural)]
pub struct Vec3 {
    pub x: i64,
    pub y: i64,
    pub z: i64,
}

impl Vec2 {
    pub fn new(x: i64, y: i64) -> (v: Vec2)
        ensures
            v == (Vec2 { x, y }),
    {
        Vec2 { x, y }
    }
}

impl Vec3 {
    pub fn new(x: i64, y: i64, z: i64) -> (v: Vec3)
        ensures
            v == (Vec3 { x, y, z }),
    {
        Vec3 { x, y, z }
    }
}

/// The componentwise difference a - b of two fixed-point vectors.
pub open spec fn vec3_sub(a: Vec3, b: Vec3) -> Vec3 {
    Vec3 { x: (a.x - b.x) as i64, y: (a.y - b.y) as i64, z: (a.z - b.z) as i64 }
}

/// Whether every component of `v` has magnitude at most `bound`.
pub open spec fn vec3_bounded(v: Vec3, bound: int) -> bool {
    -bound <= v.x <= bound && -bound <= v.y <= bound && -bound <= v.z <= bound
}

/// The least of three integers.
pub open spec fn min3(a: int, b: int, c: int) -> int {
    if a <= b && a <= c {
        a
    } else if b <= c {
        b
    } else {
        c
    }
}

/// The greatest of three integers.
pub open spec fn max3(a: int, b: int, c: int) -> int {
    if a >= b && a >= c {
        a
    } else if b >= c {
        b
    } else {
        c
    }
}

/// Quotient of `a` by a positive `b`, rounded toward negative infinity.
/// This is the Euclidean quotient that `/` denotes in specifications.
pub fn floor_div_i64(a: i64, b: i64) -> (q: i64)
    requires
        0 < b,
        -0x4000_0000_0000_0000 < a < 0x4000_0000_0000_0000,
    ensures
        q == a as int / b as int,
{
    if a >= 0 {
        let qu: u64 = (a as u64) / (b as u64);
        proof {
            lemma_div_nonincreasing(a as int, b as int);
        }
        qu as i64
    } else {
        let n: u64 = (-a) as u64;
        let bu: u64 = b as u64;
        let qn: u64 = (n + (bu - 1)) / bu;
        proof {
            let x: int = n + b - 1;
            let rn: int = x % (b as int);
            lemma_fundamental_div_mod(x, b as int);
            assert(x == (b as int) * (qn as int) + rn);
            // qn stays small enough for the negation below to fit in i64
            assert(x < (b as int) * (n as int + 1)) by (nonlinear_arith)
                requires
                    x == n + b - 1,
                    1 <= b,
                    1 <= n,
            ;
            lemma_multiply_divide_lt(x, b as int, n as int + 1);
            // a == (-qn) * b + (b - 1 - rn), with the remainder in [0, b)
            assert(a as int == (-(qn as int)) * (b as int) + ((b as int) - 1 - rn))
                by (nonlinear_arith)
                requires
                    x == (b as int) * (qn as int) + rn,
                    x == -(a as int) + b - 1,
            ;
            lemma_fundamental_div_mod_converse(
                a as int,
                b as int,
                -(qn as int),
                (b as int) - 1 - rn,
            );
        }
        -(qn as i64)
    }
}

/// The barycentric-weighted average of an attribute given at a triangle's
/// three corners, rounded toward negative infinity: the weights are
/// nonnegative and add up to `area`, so the result is a convex combination
/// and stays within the corners' hull.
pub fn interp_attr(w0: i64, w1: i64, w2: i64, area: i64, a0: i64, a1: i64, a2: i64) -> (r: i64)
    requires
        0 < area,
        0 <= w0 && 0 <= w1 && 0 <= w2,
        w0 + w1 + w2 == area,
        -ATTR_MAX <= a0 <= ATTR_MAX,
        -ATTR_MAX <= a1 <= ATTR_MAX,
        -ATTR_MAX <= a2 <= ATTR_MAX,
    ensures
        r == (w0 * a0 + w1 * a1 + w2 * a2) / (area as int),
        min3(a0 as int, a1 as int, a2 as int) <= r <= max3(a0 as int, a1 as int, a2 as int),
{
    let s0: i64 = a0 + ATTR_MAX;
    let s1: i64 = a1 + ATTR_MAX;
    let s2: i64 = a2 + ATTR_MAX;
    proof {
        assert((w0 as int) * (s0 as int) <= (area as int) * 0x2000_0000) by (nonlinear_arith)
            requires
                0 <= w0 <= area,
                0 <= s0 <= 0x2000_0000,
        ;
        assert((w1 as int) * (s1 as int) <= (area as int) * 0x2000_0000) by (nonlinear_arith)
            requires
                0 <= w1 <= area,
                0 <= s1 <= 0x2000_0000,
        ;
        assert((w2 as int) * (s2 as int) <= (area as int) * 0x2000_0000) by (nonlinear_arith)
            requires
                0 <= w2 <= area,
                0 <= s2 <= 0x2000_0000,
        ;
    }
    let t0: u128 = (w0 as u128) * (s0 as u128);
    let t1: u128 = (w1 as u128) * (s1 as u128);
    let t2: u128 = (w2 as u128) * (s2 as u128);
    let num: u128 = t0 + t1 + t2;
    let q: u128 = num / (area as u128);
    let ghost sum: int = w0 * a0 + w1 * a1 + w2 * a2;
    let ghost lo: int = min3(a0 as int, a1 as int, a2 as int);
    let ghost hi: int = max3(a0 as int, a1 as int, a2 as int);
    proof {
        assert(num as int == sum + ATTR_MAX * area) by (nonlinear_arith)
            requires
                num == w0 * s0 + w1 * s1 + w2 * s2,
                s0 == a0 + ATTR_MAX,
                s1 == a1 + ATTR_MAX,
                s2 == a2 + ATTR_MAX,
                sum == w0 * a0 + w1 * a1 + w2 * a2,
                w0 + w1 + w2 == area,
        ;
        lemma_hoist_over_denominator(sum, ATTR_MAX as int, area as nat);
        assert(q == sum / (area as int) + ATTR_MAX);
        // the convex combination stays within the hull of the corner values
        assert((area as int) * lo <= sum && sum <= (area as int) * hi) by (nonlinear_arith)
            requires
                sum == w0 * a0 + w1 * a1 + w2 * a2,
                w0 + w1 + w2 == area,
                0 <= w0 && 0 <= w1 && 0 <= w2,
                lo <= a0 <= hi,
                lo <= a1 <= hi,
                lo <= a2 <= hi,
        ;
        lemma_div_is_ordered((area as int) * lo, sum, area as int);
        lemma_div_is_ordered(sum, (area as int) * hi, area as int);
        lemma_div_multiples_vanish(lo, area as int);
        lemma_div_multiples_vanish(hi, area as int);
        assert(lo <= sum / (area as int) <= hi);
    }
    let r: i64 = (q as i64) - ATTR_MAX;
    r
}

/// Largest integer whose square does not exceed `n`.
pub fn isqrt_u64(n: u64) -> (r: u64)
    ensures
        r * r <= n < (r + 1) * (r + 1),
        r <= 0x1_0000_0000,
{
    let mut lo: u64 = 0;
    let mut hi: u64 = 0x1_0000_0000;
    proof {
        assert(n < 0x1_0000_0000 * 0x1_0000_0000);
    }
    while lo + 1 < hi
        invariant
            lo < hi <= 0x1_0000_0000,
            lo * lo <= n,
            n < hi * hi,
        decreases hi - lo,
    {
        let mid: u64 = lo + (hi - lo) / 2;
        proof {
            assert(mid * mid <= 0x1_0000_0000 * 0x1_0000_0000) by (nonlinear_arith)
                requires
                    0 <= mid <= 0x1_0000_0000,
            ;
        }
        let sq: u128 = (mid as u128) * (mid as u128);
        if sq <= n as u128 {
            lo = mid;
        } else {
            hi = mid;
        }
    }
    lo
}

/// Dot product of two bounded fixed-point vectors.
pub fn dot3(a: &Vec3, b: &Vec3) -> (d: i64)
    requires
        vec3_bounded(*a, 2 * ATTR_MAX as int),
        vec3_bounded(*b, 2 * ATTR_MAX as int),
    ensures
        d == dot_spec(*a, *b),
{
    proof {
        assert(-(0x2000_0000 * 0x2000_0000) <= a.x * b.x <= 0x2000_0000 * 0x2000_0000)
            by (nonlinear_arith)
            requires
                -0x2000_0000 <= a.x <= 0x2000_0000,
                -0x2000_0000 <= b.x <= 0x2000_0000,
        ;
        assert(-(0x2000_0000 * 0x2000_0000) <= a.y * b.y <= 0x2000_0000 * 0x2000_0000)
            by (nonlinear_arith)
            requires
                -0x2000_0000 <= a.y <= 0x2000_0000,
                -0x2000_0000 <= b.y <= 0x2000_0000,
        ;
        assert(-(0x2000_0000 * 0x2000_0000) <= a.z * b.z <= 0x2000_0000 * 0x2000_0000)
            by (nonlinear_arith)
            requires
                -0x2000_0000 <= a.z <= 0x2000_0000,
                -0x2000_0000 <= b.z <= 0x2000_0000,
        ;
    }
    a.x * b.x + a.y * b.y + a.z * b.z
}

/// What `dot3` computes: the sum of the componentwise products.
pub open spec fn dot_spec(a: Vec3, b: Vec3) -> int {
    a.x * b.x + a.y * b.y + a.z * b.z
}

/// Componentwise bounds give a bound on the dot product.
pub proof fn lemma_dot_bound(a: Vec3, b: Vec3, bound: int)
    requires
        0 <= bound,
        vec3_bounded(a, bound),
        vec3_bounded(b, bound),
    ensures
        -3 * (bound * bound) <= dot_spec(a, b) <= 3 * (bound * bound),
{
    assert(-(bound * bound) <= a.x * b.x <= bound * bound) by (nonlinear_arith)
        requires
            -bound <= a.x <= bound,
            -bound <= b.x <= bound,
            0 <= bound,
    ;
    assert(-(bound * bound) <= a.y * b.y <= bound * bound) by (nonlinear_arith)
        requires
            -bound <= a.y <= bound,
            -bound <= b.y <= bound,
            0 <= bound,
    ;
    assert(-(bound * bound) <= a.z * b.z <= bound * bound) by (nonlinear_arith)
        requires
            -bound <= a.z <= bound,
            -bound <= b.z <= bound,
            0 <= bound,
    ;
}

} // verus!
