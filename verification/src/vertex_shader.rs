//! The vertex stage: a pure function mapping a vertex through the frame's
//! transform matrix. The position goes through the affine 4x4 transform
//! (no perspective divide); the normal is carried through unmodified.

use vstd::prelude::*;

verus! {

use crate::math::{floor_div_i64, vec3_bounded, Vec3, ATTR_MAX, FP};
use crate::uniforms::{mat4_bounded, Mat4, Uniforms, MAT_MAX, POS_MAX};
use crate::vertex::Vertex;
use vstd::arithmetic::div_mod::lemma_div_is_ordered;

/// One row of the affine transform applied to a point: the dot product of
/// the row with (x, y, z, 1), scaled back down by the fixed-point unit.
pub open spec fn row_apply_spec(r0: int, r1: int, r2: int, r3: int, p: Vec3) -> int {
    (r0 * p.x + r1 * p.y + r2 * p.z + r3 * FP) / (FP as int)
}

/// The homogeneous transform of `p` by `m`, projected back to 3D by
/// dropping the homogeneous coordinate.
pub open spec fn transform_point_spec(m: Mat4, p: Vec3) -> Vec3 {
    Vec3 {
        x: row_apply_spec(m.m00 as int, m.m01 as int, m.m02 as int, m.m03 as int, p) as i64,
        y: row_apply_spec(m.m10 as int, m.m11 as int, m.m12 as int, m.m13 as int, p) as i64,
        z: row_apply_spec(m.m20 as int, m.m21 as int, m.m22 as int, m.m23 as int, p) as i64,
    }
}

/// What the vertex stage produces: the input vertex with its transformed
/// position recomputed and its normal carried through unmodified.
pub open spec fn vertex_shader_spec(v: Vertex, u: Uniforms) -> Vertex {
    Vertex {
        transformed_position: transform_point_spec(u.transform_matrix, v.position),
        transformed_normal: v.normal,
        ..v
    }
}

/// One transform row evaluated in executable fixed-point arithmetic.
fn row_apply(r0: i64, r1: i64, r2: i64, r3: i64, p: &Vec3) -> (t: i64)
    requires
        -MAT_MAX <= r0 <= MAT_MAX,
        -MAT_MAX <= r1 <= MAT_MAX,
        -MAT_MAX <= r2 <= MAT_MAX,
        -MAT_MAX <= r3 <= MAT_MAX,
        vec3_bounded(*p, POS_MAX as int),
    ensures
        t == row_apply_spec(r0 as int, r1 as int, r2 as int, r3 as int, *p),
        -ATTR_MAX <= t <= ATTR_MAX,
{
    proof {
        assert(-0x4_0000_0000 <= r0 * p.x <= 0x4_0000_0000) by (nonlinear_arith)
            requires
                -0x2_0000 <= r0 <= 0x2_0000,
                -0x2_0000 <= p.x <= 0x2_0000,
        ;
        assert(-0x4_0000_0000 <= r1 * p.y <= 0x4_0000_0000) by (nonlinear_arith)
            requires
                -0x2_0000 <= r1 <= 0x2_0000,
                -0x2_0000 <= p.y <= 0x2_0000,
        ;
        assert(-0x4_0000_0000 <= r2 * p.z <= 0x4_0000_0000) by (nonlinear_arith)
            requires
                -0x2_0000 <= r2 <= 0x2_0000,
                -0x2_0000 <= p.z <= 0x2_0000,
        ;
    }
    let sum: i64 = r0 * p.x + r1 * p.y + r2 * p.z + r3 * FP;
    let q = floor_div_i64(sum, FP);
    proof {
        lemma_div_is_ordered(sum as int, 0xC_1000_0000, FP as int);
        lemma_div_is_ordered(-0xC_1000_0000, sum as int, FP as int);
    }
    q
}

/// The vertex shader: transforms the position by the frame's matrix and
/// carries the normal through, leaving every object-space field as it was.
pub fn vertex_shader(vertex: &Vertex, uniforms: &Uniforms) -> (t: Vertex)
    requires
        mat4_bounded(uniforms.transform_matrix),
        vec3_bounded(vertex.position, POS_MAX as int),
    ensures
        t == vertex_shader_spec(*vertex, *uniforms),
        vec3_bounded(t.transformed_position, ATTR_MAX as int),
{
    let m = &uniforms.transform_matrix;
    let tx = row_apply(m.m00, m.m01, m.m02, m.m03, &vertex.position);
    let ty = row_apply(m.m10, m.m11, m.m12, m.m13, &vertex.position);
    let tz = row_apply(m.m20, m.m21, m.m22, m.m23, &vertex.position);
    let mut transformed = *vertex;
    transformed.set_transformed(Vec3 { x: tx, y: ty, z: tz }, vertex.normal);
    transformed
}

} // verus!
