//! Triangle setup and rasterization: the edge function, barycentric
//! weights, the point-in-triangle test, the pixel bounding box, and the
//! scan that turns one triangle into fragments.
//!
//! All geometry is exact integer arithmetic on fixed-point coordinates.
//! A pixel (px, py) sits at the fixed-point position (px*FP, py*FP). The
//! barycentric weight of a corner is an edge-function value; dividing it
//! by the triangle's signed area would give the usual weight in [0, 1],
//! so contracts state weights multiplied through by the area, which keeps
//! everything in integers.

use vstd::prelude::*;

verus! {

use crate::color::Color;
use crate::fragment::Fragment;
use crate::math::{floor_div_i64, interp_attr, max3, min3, vec3_bounded, Vec2, Vec3, ATTR_MAX, FP};
use crate::vertex::Vertex;
use vstd::arithmetic::div_mod::lemma_fundamental_div_mod;

/// The 2D edge function of the directed edge a -> b evaluated at c:
/// `(c.x-a.x)(b.y-a.y) - (c.y-a.y)(b.x-a.x)`. Its sign says on which side
/// of the edge c lies; for the triangle's own corners it is twice the
/// signed triangle area.
pub open spec fn edge_spec(ax: int, ay: int, bx: int, by: int, cx: int, cy: int) -> int {
    (cx - ax) * (by - ay) - (cy - ay) * (bx - ax)
}

/// Twice the signed area of the triangle (a, b, c), as the edge function
/// of (a, b) at c.
pub open spec fn area_spec(a: Vec3, b: Vec3, c: Vec3) -> int {
    edge_spec(a.x as int, a.y as int, b.x as int, b.y as int, c.x as int, c.y as int)
}

/// Unnormalized barycentric weight of corner a at the point (qx, qy).
pub open spec fn bary_w0(a: Vec3, b: Vec3, c: Vec3, qx: int, qy: int) -> int {
    edge_spec(b.x as int, b.y as int, c.x as int, c.y as int, qx, qy)
}

/// Unnormalized barycentric weight of corner b at the point (qx, qy).
pub open spec fn bary_w1(a: Vec3, b: Vec3, c: Vec3, qx: int, qy: int) -> int {
    edge_spec(c.x as int, c.y as int, a.x as int, a.y as int, qx, qy)
}

/// Unnormalized barycentric weight of corner c at the point (qx, qy).
pub open spec fn bary_w2(a: Vec3, b: Vec3, c: Vec3, qx: int, qy: int) -> int {
    edge_spec(a.x as int, a.y as int, b.x as int, b.y as int, qx, qy)
}

/// A weight normalized to the triangle's orientation, so that it is
/// nonnegative for points inside whichever winding the triangle has.
pub open spec fn signed_w(ar: int, w: int) -> int {
    if ar >= 0 {
        w
    } else {
        -w
    }
}

/// The magnitude of twice the signed area.
pub open spec fn abs_area(a: Vec3, b: Vec3, c: Vec3) -> int {
    signed_w(area_spec(a, b, c), area_spec(a, b, c))
}

/// Whether the point (qx, qy) lies inside (or on the border of) the
/// triangle (a, b, c): the triangle is not degenerate and all three
/// orientation-normalized weights are nonnegative — equivalently, all
/// three normalized barycentric coordinates lie in [0, 1].
pub open spec fn point_inside(a: Vec3, b: Vec3, c: Vec3, qx: int, qy: int) -> bool {
    let ar = area_spec(a, b, c);
    &&& ar != 0
    &&& signed_w(ar, bary_w0(a, b, c, qx, qy)) >= 0
    &&& signed_w(ar, bary_w1(a, b, c, qx, qy)) >= 0
    &&& signed_w(ar, bary_w2(a, b, c, qx, qy)) >= 0
}

/// Twice the signed area of the screen-space triangle of three shaded
/// vertices.
pub open spec fn tri_area(v0: Vertex, v1: Vertex, v2: Vertex) -> int {
    area_spec(v0.transformed_position, v1.transformed_position, v2.transformed_position)
}

/// Orientation-normalized weight of the k-th corner at pixel (px, py).
pub open spec fn pixel_w(v0: Vertex, v1: Vertex, v2: Vertex, px: int, py: int, k: int) -> int {
    let a = v0.transformed_position;
    let b = v1.transformed_position;
    let c = v2.transformed_position;
    let ar = area_spec(a, b, c);
    if k == 0 {
        signed_w(ar, bary_w0(a, b, c, px * FP, py * FP))
    } else if k == 1 {
        signed_w(ar, bary_w1(a, b, c, px * FP, py * FP))
    } else {
        signed_w(ar, bary_w2(a, b, c, px * FP, py * FP))
    }
}

/// Whether pixel (px, py) is accepted as inside the triangle.
pub open spec fn pixel_inside(v0: Vertex, v1: Vertex, v2: Vertex, px: int, py: int) -> bool {
    point_inside(
        v0.transformed_position,
        v1.transformed_position,
        v2.transformed_position,
        px * FP,
        py * FP,
    )
}

/// The barycentric-weighted combination, rounded toward negative
/// infinity, of an attribute with value a0, a1, a2 at the three corners,
/// evaluated at pixel (px, py).
pub open spec fn pixel_interp(
    v0: Vertex, v1: Vertex, v2: Vertex, px: int, py: int, a0: int, a1: int, a2: int,
) -> int {
    (pixel_w(v0, v1, v2, px, py, 0) * a0 + pixel_w(v0, v1, v2, px, py, 1) * a1 + pixel_w(
        v0,
        v1,
        v2,
        px,
        py,
        2,
    ) * a2) / abs_area(v0.transformed_position, v1.transformed_position, v2.transformed_position)
}

/// The interpolated depth of pixel (px, py): the barycentric-weighted sum
/// of the corners' screen-space z.
pub open spec fn pixel_depth(v0: Vertex, v1: Vertex, v2: Vertex, px: int, py: int) -> int {
    pixel_interp(
        v0,
        v1,
        v2,
        px,
        py,
        v0.transformed_position.z as int,
        v1.transformed_position.z as int,
        v2.transformed_position.z as int,
    )
}

/// The interpolated color of pixel (px, py), channel by channel.
pub open spec fn pixel_color(v0: Vertex, v1: Vertex, v2: Vertex, px: int, py: int) -> Color {
    Color {
        r: pixel_interp(v0, v1, v2, px, py, v0.color.r as int, v1.color.r as int, v2.color.r as int)
            as i64,
        g: pixel_interp(v0, v1, v2, px, py, v0.color.g as int, v1.color.g as int, v2.color.g as int)
            as i64,
        b: pixel_interp(v0, v1, v2, px, py, v0.color.b as int, v1.color.b as int, v2.color.b as int)
            as i64,
    }
}

/// The interpolated normal of pixel (px, py), component by component.
pub open spec fn pixel_normal(v0: Vertex, v1: Vertex, v2: Vertex, px: int, py: int) -> Vec3 {
    Vec3 {
        x: pixel_interp(
            v0,
            v1,
            v2,
            px,
            py,
            v0.transformed_normal.x as int,
            v1.transformed_normal.x as int,
            v2.transformed_normal.x as int,
        ) as i64,
        y: pixel_interp(
            v0,
            v1,
            v2,
            px,
            py,
            v0.transformed_normal.y as int,
            v1.transformed_normal.y as int,
            v2.transformed_normal.y as int,
        ) as i64,
        z: pixel_interp(
            v0,
            v1,
            v2,
            px,
            py,
            v0.transformed_normal.z as int,
            v1.transformed_normal.z as int,
            v2.transformed_normal.z as int,
        ) as i64,
    }
}

/// The fragment that rasterizing the triangle emits at pixel (px, py)
/// when the pixel is inside and wins the depth test.
pub open spec fn pixel_fragment(v0: Vertex, v1: Vertex, v2: Vertex, px: int, py: int) -> Fragment {
    Fragment {
        x: px as i64,
        y: py as i64,
        color: pixel_color(v0, v1, v2, px, py),
        depth: pixel_depth(v0, v1, v2, px, py) as i64,
        normal: pixel_normal(v0, v1, v2, px, py),
    }
}

/// All attributes of a shaded vertex that rasterization reads are within
/// the fixed-point range the arithmetic is proved for.
pub open spec fn vertex_in_range(v: Vertex) -> bool {
    &&& vec3_bounded(v.transformed_position, ATTR_MAX as int)
    &&& vec3_bounded(v.transformed_normal, ATTR_MAX as int)
    &&& -ATTR_MAX <= v.color.r <= ATTR_MAX
    &&& -ATTR_MAX <= v.color.g <= ATTR_MAX
    &&& -ATTR_MAX <= v.color.b <= ATTR_MAX
}

/// Whether the fragment list holds a fragment for pixel (px, py).
pub open spec fn frag_in(s: Seq<Fragment>, px: int, py: int) -> bool {
    exists |i: int| 0 <= i < s.len() && #[trigger] s[i].x == px && s[i].y == py
}

/// The three barycentric weights of any point add up to exactly the
/// triangle's signed area: the normalized weights add up to 1.
/// The three barycentric weights written in coordinates relative to the
/// query point: with d_v = v - q, the weight of a is the 2D cross product
/// of d_b and d_c, and so on cyclically.
proof fn lemma_weights_relative(a: Vec3, b: Vec3, c: Vec3, qx: int, qy: int)
    ensures
        bary_w0(a, b, c, qx, qy) == (c.x - qx) * (b.y - qy) - (b.x - qx) * (c.y - qy),
        bary_w1(a, b, c, qx, qy) == (a.x - qx) * (c.y - qy) - (c.x - qx) * (a.y - qy),
        bary_w2(a, b, c, qx, qy) == (b.x - qx) * (a.y - qy) - (a.x - qx) * (b.y - qy),
{
    let dxa = a.x - qx;
    let dya = a.y - qy;
    let dxb = b.x - qx;
    let dyb = b.y - qy;
    let dxc = c.x - qx;
    let dyc = c.y - qy;
    assert((qx - b.x) * (c.y - b.y) - (qy - b.y) * (c.x - b.x) == dxc * dyb - dxb * dyc)
        by (nonlinear_arith)
        requires
            dxb == b.x - qx,
            dyb == b.y - qy,
            dxc == c.x - qx,
            dyc == c.y - qy,
    ;
    assert((qx - c.x) * (a.y - c.y) - (qy - c.y) * (a.x - c.x) == dxa * dyc - dxc * dya)
        by (nonlinear_arith)
        requires
            dxa == a.x - qx,
            dya == a.y - qy,
            dxc == c.x - qx,
            dyc == c.y - qy,
    ;
    assert((qx - a.x) * (b.y - a.y) - (qy - a.y) * (b.x - a.x) == dxb * dya - dxa * dyb)
        by (nonlinear_arith)
        requires
            dxa == a.x - qx,
            dya == a.y - qy,
            dxb == b.x - qx,
            dyb == b.y - qy,
    ;
}

/// The three barycentric weights of any point add up to exactly the
/// triangle's signed area: the normalized weights add up to 1.
pub proof fn lemma_weights_sum_to_area(a: Vec3, b: Vec3, c: Vec3, qx: int, qy: int)
    ensures
        bary_w0(a, b, c, qx, qy) + bary_w1(a, b, c, qx, qy) + bary_w2(a, b, c, qx, qy)
            == area_spec(a, b, c),
{
    let dxa = a.x - qx;
    let dya = a.y - qy;
    let dxb = b.x - qx;
    let dyb = b.y - qy;
    let dxc = c.x - qx;
    let dyc = c.y - qy;
    lemma_weights_relative(a, b, c, qx, qy);
    assert((c.x - a.x) * (b.y - a.y) - (c.y - a.y) * (b.x - a.x) == (dxc * dyb - dxb * dyc) + (dxa
        * dyc - dxc * dya) + (dxb * dya - dxa * dyb)) by (nonlinear_arith)
        requires
            dxa == a.x - qx,
            dya == a.y - qy,
            dxb == b.x - qx,
            dyb == b.y - qy,
            dxc == c.x - qx,
            dyc == c.y - qy,
    ;
}

/// The weights balance the corners around the point: the weight-weighted
/// sum of the corners' offsets from the point is zero, in each axis.
proof fn lemma_weights_balance(a: Vec3, b: Vec3, c: Vec3, qx: int, qy: int)
    ensures
        bary_w0(a, b, c, qx, qy) * (a.x - qx) + bary_w1(a, b, c, qx, qy) * (b.x - qx) + bary_w2(
            a, b, c, qx, qy,
        ) * (c.x - qx) == 0,
        bary_w0(a, b, c, qx, qy) * (a.y - qy) + bary_w1(a, b, c, qx, qy) * (b.y - qy) + bary_w2(
            a, b, c, qx, qy,
        ) * (c.y - qy) == 0,
{
    let dxa = a.x - qx;
    let dya = a.y - qy;
    let dxb = b.x - qx;
    let dyb = b.y - qy;
    let dxc = c.x - qx;
    let dyc = c.y - qy;
    let w0 = bary_w0(a, b, c, qx, qy);
    let w1 = bary_w1(a, b, c, qx, qy);
    let w2 = bary_w2(a, b, c, qx, qy);
    lemma_weights_relative(a, b, c, qx, qy);
    assert(w0 * dxa == dxa * dxc * dyb - dxa * dxb * dyc) by (nonlinear_arith)
        requires
            w0 == dxc * dyb - dxb * dyc,
    ;
    assert(w1 * dxb == dxa * dxb * dyc - dxb * dxc * dya) by (nonlinear_arith)
        requires
            w1 == dxa * dyc - dxc * dya,
    ;
    assert(w2 * dxc == dxb * dxc * dya - dxa * dxc * dyb) by (nonlinear_arith)
        requires
            w2 == dxb * dya - dxa * dyb,
    ;
    assert(w0 * dya == dya * dxc * dyb - dya * dxb * dyc) by (nonlinear_arith)
        requires
            w0 == dxc * dyb - dxb * dyc,
    ;
    assert(w1 * dyb == dyb * dxa * dyc - dyb * dxc * dya) by (nonlinear_arith)
        requires
            w1 == dxa * dyc - dxc * dya,
    ;
    assert(w2 * dyc == dyc * dxb * dya - dyc * dxa * dyb) by (nonlinear_arith)
        requires
            w2 == dxb * dya - dxa * dyb,
    ;
    assert(dya * dxc * dyb - dyb * dxc * dya == 0) by (nonlinear_arith);
    assert(dya * dxb * dyc - dyc * dxb * dya == 0) by (nonlinear_arith);
    assert(dyb * dxa * dyc - dyc * dxa * dyb == 0) by (nonlinear_arith);
}

/// For every pixel accepted as inside a triangle, the three barycentric
/// weights each lie in [0, 1] — in exact integer form, every
/// orientation-normalized weight lies between 0 and the area's magnitude
/// — and they add up to exactly 1: their integer sum is the area itself.
pub proof fn lemma_inside_weights_in_unit_range(
    v0: Vertex, v1: Vertex, v2: Vertex, px: int, py: int,
)
    requires
        pixel_inside(v0, v1, v2, px, py),
    ensures
        abs_area(v0.transformed_position, v1.transformed_position, v2.transformed_position) > 0,
        0 <= pixel_w(v0, v1, v2, px, py, 0) <= abs_area(
            v0.transformed_position,
            v1.transformed_position,
            v2.transformed_position,
        ),
        0 <= pixel_w(v0, v1, v2, px, py, 1) <= abs_area(
            v0.transformed_position,
            v1.transformed_position,
            v2.transformed_position,
        ),
        0 <= pixel_w(v0, v1, v2, px, py, 2) <= abs_area(
            v0.transformed_position,
            v1.transformed_position,
            v2.transformed_position,
        ),
        pixel_w(v0, v1, v2, px, py, 0) + pixel_w(v0, v1, v2, px, py, 1) + pixel_w(
            v0,
            v1,
            v2,
            px,
            py,
            2,
        ) == abs_area(v0.transformed_position, v1.transformed_position, v2.transformed_position),
{
    lemma_weights_sum_to_area(
        v0.transformed_position,
        v1.transformed_position,
        v2.transformed_position,
        px * FP,
        py * FP,
    );
}

/// Every pixel inside a triangle lies within the triangle's pixel
/// bounding box: at or after the floor of the least corner coordinate
/// over FP, and at or before the ceiling of the greatest.
proof fn lemma_inside_pixel_bbox(v0: Vertex, v1: Vertex, v2: Vertex, px: int, py: int)
    requires
        pixel_inside(v0, v1, v2, px, py),
    ensures
        min3(
            v0.transformed_position.x as int,
            v1.transformed_position.x as int,
            v2.transformed_position.x as int,
        ) / (FP as int) <= px,
        px <= (max3(
            v0.transformed_position.x as int,
            v1.transformed_position.x as int,
            v2.transformed_position.x as int,
        ) + FP - 1) / (FP as int),
        min3(
            v0.transformed_position.y as int,
            v1.transformed_position.y as int,
            v2.transformed_position.y as int,
        ) / (FP as int) <= py,
        py <= (max3(
            v0.transformed_position.y as int,
            v1.transformed_position.y as int,
            v2.transformed_position.y as int,
        ) + FP - 1) / (FP as int),
{
    let a = v0.transformed_position;
    let b = v1.transformed_position;
    let c = v2.transformed_position;
    let qx = px * FP;
    let qy = py * FP;
    lemma_point_in_hull(a, b, c, qx, qy);
    lemma_pixel_of_coord(
        px,
        min3(a.x as int, b.x as int, c.x as int),
        max3(a.x as int, b.x as int, c.x as int),
    );
    lemma_pixel_of_coord(
        py,
        min3(a.y as int, b.y as int, c.y as int),
        max3(a.y as int, b.y as int, c.y as int),
    );
}

/// A point inside a triangle lies within the axis-aligned hull of the
/// three corners.
proof fn lemma_point_in_hull(a: Vec3, b: Vec3, c: Vec3, qx: int, qy: int)
    requires
        point_inside(a, b, c, qx, qy),
    ensures
        min3(a.x as int, b.x as int, c.x as int) <= qx <= max3(a.x as int, b.x as int, c.x as int),
        min3(a.y as int, b.y as int, c.y as int) <= qy <= max3(a.y as int, b.y as int, c.y as int),
{
    let ar = area_spec(a, b, c);
    let w0 = bary_w0(a, b, c, qx, qy);
    let w1 = bary_w1(a, b, c, qx, qy);
    let w2 = bary_w2(a, b, c, qx, qy);
    lemma_weights_sum_to_area(a, b, c, qx, qy);
    lemma_weights_balance(a, b, c, qx, qy);
    lemma_hull_axis(w0, w1, w2, ar, a.x - qx, b.x - qx, c.x - qx);
    lemma_hull_axis(w0, w1, w2, ar, a.y - qy, b.y - qy, c.y - qy);
}

/// If three weights of one sign add up to a nonzero total of that sign
/// and balance three offsets to zero, the offsets cannot all be strictly
/// positive nor all strictly negative: zero lies in their hull.
proof fn lemma_hull_axis(w0: int, w1: int, w2: int, ar: int, d0: int, d1: int, d2: int)
    requires
        ar != 0,
        signed_w(ar, w0) >= 0,
        signed_w(ar, w1) >= 0,
        signed_w(ar, w2) >= 0,
        w0 + w1 + w2 == ar,
        w0 * d0 + w1 * d1 + w2 * d2 == 0,
    ensures
        min3(d0, d1, d2) <= 0 <= max3(d0, d1, d2),
{
    let s0 = signed_w(ar, w0);
    let s1 = signed_w(ar, w1);
    let s2 = signed_w(ar, w2);
    let aa = signed_w(ar, ar);
    assert(s0 * d0 + s1 * d1 + s2 * d2 == 0 && s0 + s1 + s2 == aa > 0) by (nonlinear_arith)
        requires
            w0 * d0 + w1 * d1 + w2 * d2 == 0,
            w0 + w1 + w2 == ar,
            ar != 0,
            (s0 == w0 && s1 == w1 && s2 == w2 && aa == ar && ar >= 0) || (s0 == -w0 && s1 == -w1
                && s2 == -w2 && aa == -ar && ar < 0),
    ;
    if d0 > 0 && d1 > 0 && d2 > 0 {
        assert(false) by (nonlinear_arith)
            requires
                s0 >= 0,
                s1 >= 0,
                s2 >= 0,
                s0 + s1 + s2 > 0,
                d0 > 0,
                d1 > 0,
                d2 > 0,
                s0 * d0 + s1 * d1 + s2 * d2 == 0,
        ;
    }
    if d0 < 0 && d1 < 0 && d2 < 0 {
        assert(false) by (nonlinear_arith)
            requires
                s0 >= 0,
                s1 >= 0,
                s2 >= 0,
                s0 + s1 + s2 > 0,
                d0 < 0,
                d1 < 0,
                d2 < 0,
                s0 * d0 + s1 * d1 + s2 * d2 == 0,
        ;
    }
}

/// A pixel whose fixed-point coordinate lies between lo and hi lies
/// between the floor of lo/FP and the ceiling of hi/FP.
proof fn lemma_pixel_of_coord(p: int, lo: int, hi: int)
    requires
        lo <= p * FP <= hi,
    ensures
        lo / (FP as int) <= p,
        p <= (hi + FP - 1) / (FP as int),
{
    lemma_fundamental_div_mod(lo, FP as int);
    let ql = lo / (FP as int);
    assert(ql <= p) by (nonlinear_arith)
        requires
            (FP as int) * ql <= lo,
            lo <= p * FP,
            0 < FP,
    ;
    lemma_fundamental_div_mod(hi + FP - 1, FP as int);
    let qh = (hi + FP - 1) / (FP as int);
    assert(p <= qh) by (nonlinear_arith)
        requires
            (FP as int) * qh + ((hi + FP - 1) % (FP as int)) == hi + FP - 1,
            0 <= (hi + FP - 1) % (FP as int) < FP,
            p * FP <= hi,
            0 < FP,
    ;
}

/// An interpolated attribute of an inside pixel lies within the hull of
/// the three corner values: the barycentric combination is convex.
pub proof fn lemma_pixel_interp_in_hull(
    v0: Vertex, v1: Vertex, v2: Vertex, px: int, py: int, a0: int, a1: int, a2: int,
)
    requires
        pixel_inside(v0, v1, v2, px, py),
    ensures
        min3(a0, a1, a2) <= pixel_interp(v0, v1, v2, px, py, a0, a1, a2) <= max3(a0, a1, a2),
{
    let s0 = pixel_w(v0, v1, v2, px, py, 0);
    let s1 = pixel_w(v0, v1, v2, px, py, 1);
    let s2 = pixel_w(v0, v1, v2, px, py, 2);
    let aa = abs_area(v0.transformed_position, v1.transformed_position, v2.transformed_position);
    let sum = s0 * a0 + s1 * a1 + s2 * a2;
    let lo = min3(a0, a1, a2);
    let hi = max3(a0, a1, a2);
    lemma_inside_weights_in_unit_range(v0, v1, v2, px, py);
    assert(aa * lo <= sum && sum <= aa * hi) by (nonlinear_arith)
        requires
            sum == s0 * a0 + s1 * a1 + s2 * a2,
            s0 + s1 + s2 == aa,
            0 <= s0 && 0 <= s1 && 0 <= s2,
            lo <= a0 <= hi,
            lo <= a1 <= hi,
            lo <= a2 <= hi,
    ;
    vstd::arithmetic::div_mod::lemma_div_is_ordered(aa * lo, sum, aa);
    vstd::arithmetic::div_mod::lemma_div_is_ordered(sum, aa * hi, aa);
    vstd::arithmetic::div_mod::lemma_div_multiples_vanish(lo, aa);
    vstd::arithmetic::div_mod::lemma_div_multiples_vanish(hi, aa);
}

/// Color interpolation is a convex combination: each channel of an
/// inside pixel's interpolated color lies between the least and the
/// greatest value of that channel over the triangle's three corners.
pub proof fn lemma_pixel_color_in_hull(v0: Vertex, v1: Vertex, v2: Vertex, px: int, py: int)
    requires
        pixel_inside(v0, v1, v2, px, py),
        vertex_in_range(v0),
        vertex_in_range(v1),
        vertex_in_range(v2),
    ensures
        min3(v0.color.r as int, v1.color.r as int, v2.color.r as int) <= pixel_color(
            v0, v1, v2, px, py,
        ).r <= max3(v0.color.r as int, v1.color.r as int, v2.color.r as int),
        min3(v0.color.g as int, v1.color.g as int, v2.color.g as int) <= pixel_color(
            v0, v1, v2, px, py,
        ).g <= max3(v0.color.g as int, v1.color.g as int, v2.color.g as int),
        min3(v0.color.b as int, v1.color.b as int, v2.color.b as int) <= pixel_color(
            v0, v1, v2, px, py,
        ).b <= max3(v0.color.b as int, v1.color.b as int, v2.color.b as int),
{
    lemma_pixel_interp_in_hull(
        v0, v1, v2, px, py,
        v0.color.r as int, v1.color.r as int, v2.color.r as int,
    );
    lemma_pixel_interp_in_hull(
        v0, v1, v2, px, py,
        v0.color.g as int, v1.color.g as int, v2.color.g as int,
    );
    lemma_pixel_interp_in_hull(
        v0, v1, v2, px, py,
        v0.color.b as int, v1.color.b as int, v2.color.b as int,
    );
}

/// The interpolated depth of an inside pixel lies within the hull of the
/// corners' depths, so it stays within the fixed-point range.
pub proof fn lemma_pixel_depth_in_range(v0: Vertex, v1: Vertex, v2: Vertex, px: int, py: int)
    requires
        pixel_inside(v0, v1, v2, px, py),
        vertex_in_range(v0),
        vertex_in_range(v1),
        vertex_in_range(v2),
    ensures
        -ATTR_MAX <= pixel_depth(v0, v1, v2, px, py) <= ATTR_MAX,
{
    lemma_pixel_interp_in_hull(
        v0, v1, v2, px, py,
        v0.transformed_position.z as int,
        v1.transformed_position.z as int,
        v2.transformed_position.z as int,
    );
}

/// The edge function, evaluated exactly in 64-bit arithmetic.
pub fn edge_function(a: &Vec3, b: &Vec3, c: &Vec3) -> (e: i64)
    requires
        vec3_bounded(*a, 2 * ATTR_MAX as int),
        vec3_bounded(*b, 2 * ATTR_MAX as int),
        vec3_bounded(*c, 2 * ATTR_MAX as int),
    ensures
        e == area_spec(*a, *b, *c),
        -0x2000_0000_0000_0000 <= e <= 0x2000_0000_0000_0000,
{
    proof {
        assert(-0x1000_0000_0000_0000 <= (c.x - a.x) * (b.y - a.y) <= 0x1000_0000_0000_0000)
            by (nonlinear_arith)
            requires
                -0x4000_0000 <= c.x - a.x <= 0x4000_0000,
                -0x4000_0000 <= b.y - a.y <= 0x4000_0000,
        ;
        assert(-0x1000_0000_0000_0000 <= (c.y - a.y) * (b.x - a.x) <= 0x1000_0000_0000_0000)
            by (nonlinear_arith)
            requires
                -0x4000_0000 <= c.y - a.y <= 0x4000_0000,
                -0x4000_0000 <= b.x - a.x <= 0x4000_0000,
        ;
    }
    (c.x - a.x) * (b.y - a.y) - (c.y - a.y) * (b.x - a.x)
}

/// The three unnormalized barycentric weights of the point p with respect
/// to the triangle (a, b, c); they add up to the triangle's signed area.
pub fn barycentric(p: &Vec3, a: &Vec3, b: &Vec3, c: &Vec3) -> (w: (i64, i64, i64))
    requires
        vec3_bounded(*p, 2 * ATTR_MAX as int),
        vec3_bounded(*a, 2 * ATTR_MAX as int),
        vec3_bounded(*b, 2 * ATTR_MAX as int),
        vec3_bounded(*c, 2 * ATTR_MAX as int),
    ensures
        w.0 == bary_w0(*a, *b, *c, p.x as int, p.y as int),
        w.1 == bary_w1(*a, *b, *c, p.x as int, p.y as int),
        w.2 == bary_w2(*a, *b, *c, p.x as int, p.y as int),
        w.0 + w.1 + w.2 == area_spec(*a, *b, *c),
        -0x2000_0000_0000_0000 <= w.0 <= 0x2000_0000_0000_0000,
        -0x2000_0000_0000_0000 <= w.1 <= 0x2000_0000_0000_0000,
        -0x2000_0000_0000_0000 <= w.2 <= 0x2000_0000_0000_0000,
{
    let w0 = edge_function(b, c, p);
    let w1 = edge_function(c, a, p);
    let w2 = edge_function(a, b, p);
    proof {
        lemma_weights_sum_to_area(*a, *b, *c, p.x as int, p.y as int);
    }
    (w0, w1, w2)
}

/// Whether a 2D point lies inside (or on the border of) the triangle
/// (v0, v1, v2), by the sign pattern of the three edge functions.
pub fn point_in_triangle(p: &Vec2, v0: &Vec2, v1: &Vec2, v2: &Vec2) -> (inside: bool)
    requires
        -2 * ATTR_MAX <= p.x <= 2 * ATTR_MAX,
        -2 * ATTR_MAX <= p.y <= 2 * ATTR_MAX,
        -2 * ATTR_MAX <= v0.x <= 2 * ATTR_MAX,
        -2 * ATTR_MAX <= v0.y <= 2 * ATTR_MAX,
        -2 * ATTR_MAX <= v1.x <= 2 * ATTR_MAX,
        -2 * ATTR_MAX <= v1.y <= 2 * ATTR_MAX,
        -2 * ATTR_MAX <= v2.x <= 2 * ATTR_MAX,
        -2 * ATTR_MAX <= v2.y <= 2 * ATTR_MAX,
    ensures
        inside == point_inside(
            Vec3 { x: v0.x, y: v0.y, z: 0 },
            Vec3 { x: v1.x, y: v1.y, z: 0 },
            Vec3 { x: v2.x, y: v2.y, z: 0 },
            p.x as int,
            p.y as int,
        ),
{
    let a = Vec3 { x: v0.x, y: v0.y, z: 0 };
    let b = Vec3 { x: v1.x, y: v1.y, z: 0 };
    let c = Vec3 { x: v2.x, y: v2.y, z: 0 };
    let pp = Vec3 { x: p.x, y: p.y, z: 0 };
    let area = edge_function(&a, &b, &c);
    if area == 0 {
        return false;
    }
    let (w0, w1, w2) = barycentric(&pp, &a, &b, &c);
    if area > 0 {
        w0 >= 0 && w1 >= 0 && w2 >= 0
    } else {
        w0 <= 0 && w1 <= 0 && w2 <= 0
    }
}

/// The least of three coordinates.
pub fn min3_i64(a: i64, b: i64, c: i64) -> (m: i64)
    ensures
        m == min3(a as int, b as int, c as int),
{
    if a <= b && a <= c {
        a
    } else if b <= c {
        b
    } else {
        c
    }
}

/// The greatest of three coordinates.
pub fn max3_i64(a: i64, b: i64, c: i64) -> (m: i64)
    ensures
        m == max3(a as int, b as int, c as int),
{
    if a >= b && a >= c {
        a
    } else if b >= c {
        b
    } else {
        c
    }
}

/// The integer pixel bounding box of three fixed-point points: the floor
/// of the least and the ceiling of the greatest coordinate over FP,
/// independently in each axis, as (min_x, min_y, max_x, max_y).
pub fn calculate_bounding_box(v1: &Vec3, v2: &Vec3, v3: &Vec3) -> (bb: (i64, i64, i64, i64))
    requires
        vec3_bounded(*v1, ATTR_MAX as int),
        vec3_bounded(*v2, ATTR_MAX as int),
        vec3_bounded(*v3, ATTR_MAX as int),
    ensures
        bb.0 == min3(v1.x as int, v2.x as int, v3.x as int) / (FP as int),
        bb.1 == min3(v1.y as int, v2.y as int, v3.y as int) / (FP as int),
        bb.2 == (max3(v1.x as int, v2.x as int, v3.x as int) + FP - 1) / (FP as int),
        bb.3 == (max3(v1.y as int, v2.y as int, v3.y as int) + FP - 1) / (FP as int),
        -0x10_0000 <= bb.0 <= 0x10_0000,
        -0x10_0000 <= bb.1 <= 0x10_0000,
        -0x10_0000 <= bb.2 <= 0x10_0000,
        -0x10_0000 <= bb.3 <= 0x10_0000,
{
    let min_x = floor_div_i64(min3_i64(v1.x, v2.x, v3.x), FP);
    let min_y = floor_div_i64(min3_i64(v1.y, v2.y, v3.y), FP);
    let max_x = floor_div_i64(max3_i64(v1.x, v2.x, v3.x) + (FP - 1), FP);
    let max_y = floor_div_i64(max3_i64(v1.y, v2.y, v3.y) + (FP - 1), FP);
    proof {
        lemma_bb_range(min3(v1.x as int, v2.x as int, v3.x as int));
        lemma_bb_range(min3(v1.y as int, v2.y as int, v3.y as int));
        lemma_bb_range(max3(v1.x as int, v2.x as int, v3.x as int) + FP - 1);
        lemma_bb_range(max3(v1.y as int, v2.y as int, v3.y as int) + FP - 1);
    }
    (min_x, min_y, max_x, max_y)
}

/// A coordinate within the fixed-point range divides down to a pixel
/// index within the pixel range.
proof fn lemma_bb_range(x: int)
    requires
        -0x1000_0000 <= x <= 0x1000_0000 + 255,
    ensures
        -0x10_0000 <= x / (FP as int) <= 0x10_0000,
{
    lemma_fundamental_div_mod(x, FP as int);
    let q = x / (FP as int);
    assert(-0x10_0000 <= q <= 0x10_0000) by (nonlinear_arith)
        requires
            256 * q + (x % 256) == x,
            0 <= x % 256 < 256,
            -0x1000_0000 <= x <= 0x1000_0000 + 255,
    ;
}

/// Rasterizes one triangle without visibility resolution: emits exactly
/// one fragment, with barycentric-interpolated depth, color and normal,
/// for every pixel of the target that lies inside the triangle. A
/// degenerate (zero-area) triangle emits no fragments.
///
/// This is the one rasterization algorithm of the library: fragments
/// carry the interpolated vertex colors, and any lighting is applied
/// afterwards by the separate shading stage. Depth resolution against a
/// buffer is layered on top by the depth-tested rasterizer.
#[verifier::loop_isolation(false)]
pub fn triangle(v1: &Vertex, v2: &Vertex, v3: &Vertex, width: usize, height: usize) -> (frags: Vec<
    Fragment,
>)
    requires
        vertex_in_range(*v1),
        vertex_in_range(*v2),
        vertex_in_range(*v3),
        width <= 0x10_0000,
        height <= 0x10_0000,
    ensures
        tri_area(*v1, *v2, *v3) == 0 ==> frags@.len() == 0,
        forall |i: int| 0 <= i < frags@.len() ==> {
            &&& 0 <= (#[trigger] frags@[i]).x < width
            &&& 0 <= frags@[i].y < height
            &&& pixel_inside(*v1, *v2, *v3, frags@[i].x as int, frags@[i].y as int)
            &&& frags@[i] == pixel_fragment(*v1, *v2, *v3, frags@[i].x as int, frags@[i].y as int)
            &&& frags@[i].depth == pixel_depth(*v1, *v2, *v3, frags@[i].x as int, frags@[i].y as int)
        },
        forall |px: int, py: int|
            0 <= px < width && 0 <= py < height && #[trigger] pixel_inside(*v1, *v2, *v3, px, py)
                ==> frag_in(frags@, px, py),
        forall |i: int, j: int| 0 <= i < j < frags@.len()
            ==> !((#[trigger] frags@[i]).x == (#[trigger] frags@[j]).x && frags@[i].y
            == frags@[j].y),
{
    let a = v1.transformed_position;
    let b = v2.transformed_position;
    let c = v3.transformed_position;
    let mut frags: Vec<Fragment> = Vec::new();
    let area = edge_function(&a, &b, &c);
    if area == 0 {
        return frags;
    }
    let flip = area < 0;
    let aa: i64 = if flip {
        -area
    } else {
        area
    };
    let (min_px, min_py, max_px, max_py) = calculate_bounding_box(&a, &b, &c);
    let wlim: i64 = width as i64;
    let hlim: i64 = height as i64;
    let x_lo: i64 = if min_px < 0 {
        0
    } else {
        min_px
    };
    let y_lo: i64 = if min_py < 0 {
        0
    } else {
        min_py
    };
    let x_hi: i64 = if max_px >= wlim {
        wlim - 1
    } else {
        max_px
    };
    let y_hi: i64 = if max_py >= hlim {
        hlim - 1
    } else {
        max_py
    };
    if x_lo > x_hi || y_lo > y_hi {
        proof {
            assert forall |px: int, py: int|
                0 <= px < width && 0 <= py < height && #[trigger] pixel_inside(*v1, *v2, *v3, px, py)
                    implies frag_in(frags@, px, py) by {
                lemma_inside_pixel_bbox(*v1, *v2, *v3, px, py);
            }
        }
        return frags;
    }
    let mut py: i64 = y_lo;
    while py <= y_hi
        invariant
            y_lo <= py <= y_hi + 1,
            forall |i: int| 0 <= i < frags@.len() ==> {
                &&& x_lo <= (#[trigger] frags@[i]).x <= x_hi
                &&& y_lo <= frags@[i].y < py
                &&& pixel_inside(*v1, *v2, *v3, frags@[i].x as int, frags@[i].y as int)
                &&& frags@[i] == pixel_fragment(*v1, *v2, *v3, frags@[i].x as int, frags@[i].y as int)
                &&& frags@[i].depth == pixel_depth(*v1, *v2, *v3, frags@[i].x as int, frags@[i].y as int)
            },
            forall |qx: int, qy: int|
                x_lo <= qx <= x_hi && y_lo <= qy < py && #[trigger] pixel_inside(
                    *v1, *v2, *v3, qx, qy,
                ) ==> frag_in(frags@, qx, qy),
            forall |i: int, j: int| 0 <= i < j < frags@.len()
                ==> !((#[trigger] frags@[i]).x == (#[trigger] frags@[j]).x && frags@[i].y
                == frags@[j].y),
        decreases y_hi + 1 - py,
    {
        let mut px: i64 = x_lo;
        while px <= x_hi
            invariant
                x_lo <= px <= x_hi + 1,
                y_lo <= py <= y_hi,
                forall |i: int| 0 <= i < frags@.len() ==> {
                    &&& x_lo <= (#[trigger] frags@[i]).x <= x_hi
                    &&& y_lo <= frags@[i].y <= py
                    &&& (frags@[i].y < py || frags@[i].x < px)
                    &&& pixel_inside(*v1, *v2, *v3, frags@[i].x as int, frags@[i].y as int)
                    &&& frags@[i] == pixel_fragment(
                        *v1, *v2, *v3, frags@[i].x as int, frags@[i].y as int,
                    )
                    &&& frags@[i].depth == pixel_depth(
                        *v1, *v2, *v3, frags@[i].x as int, frags@[i].y as int,
                    )
                },
                forall |qx: int, qy: int|
                    x_lo <= qx <= x_hi && y_lo <= qy <= py && (qy < py || qx < px)
                        && #[trigger] pixel_inside(*v1, *v2, *v3, qx, qy)
                        ==> frag_in(frags@, qx, qy),
                forall |i: int, j: int| 0 <= i < j < frags@.len()
                    ==> !((#[trigger] frags@[i]).x == (#[trigger] frags@[j]).x && frags@[i].y
                    == frags@[j].y),
            decreases x_hi + 1 - px,
        {
            let p = Vec3 { x: px * FP, y: py * FP, z: 0 };
            let (w0, w1, w2) = barycentric(&p, &a, &b, &c);
            let (s0, s1, s2) = if flip {
                (-w0, -w1, -w2)
            } else {
                (w0, w1, w2)
            };
            if s0 >= 0 && s1 >= 0 && s2 >= 0 {
                let d = interp_attr(s0, s1, s2, aa, a.z, b.z, c.z);
                let cr = interp_attr(s0, s1, s2, aa, v1.color.r, v2.color.r, v3.color.r);
                let cg = interp_attr(s0, s1, s2, aa, v1.color.g, v2.color.g, v3.color.g);
                let cb = interp_attr(s0, s1, s2, aa, v1.color.b, v2.color.b, v3.color.b);
                let nx = interp_attr(
                    s0, s1, s2, aa,
                    v1.transformed_normal.x,
                    v2.transformed_normal.x,
                    v3.transformed_normal.x,
                );
                let ny = interp_attr(
                    s0, s1, s2, aa,
                    v1.transformed_normal.y,
                    v2.transformed_normal.y,
                    v3.transformed_normal.y,
                );
                let nz = interp_attr(
                    s0, s1, s2, aa,
                    v1.transformed_normal.z,
                    v2.transformed_normal.z,
                    v3.transformed_normal.z,
                );
                let f = Fragment {
                    x: px,
                    y: py,
                    color: Color { r: cr, g: cg, b: cb },
                    depth: d,
                    normal: Vec3 { x: nx, y: ny, z: nz },
                };
                proof {
                    assert(f == pixel_fragment(*v1, *v2, *v3, px as int, py as int));
                }
                let ghost frags0 = frags@;
                frags.push(f);
                proof {
                    assert forall |qx: int, qy: int|
                        x_lo <= qx <= x_hi && y_lo <= qy <= py && (qy < py || qx < px + 1)
                            && #[trigger] pixel_inside(*v1, *v2, *v3, qx, qy)
                            implies frag_in(frags@, qx, qy) by {
                        if qy == py && qx == px {
                            assert(frags@[frags0.len() as int].x == qx && frags@[frags0.len() as int].y == qy);
                        } else {
                            assert(frag_in(frags0, qx, qy));
                            let i = choose |i: int|
                                0 <= i < frags0.len() && #[trigger] frags0[i].x == qx
                                    && frags0[i].y == qy;
                            assert(frags@[i].x == qx && frags@[i].y == qy);
                        }
                    }
                }
            }
            px = px + 1;
        }
        py = py + 1;
    }
    proof {
        assert forall |px: int, py: int|
            0 <= px < width && 0 <= py < height && #[trigger] pixel_inside(*v1, *v2, *v3, px, py)
                implies frag_in(frags@, px, py) by {
            lemma_inside_pixel_bbox(*v1, *v2, *v3, px, py);
        }
    }
    frags
}

} // verus!
