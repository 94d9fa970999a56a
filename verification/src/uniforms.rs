//! The per-frame configuration snapshot: a 4x4 fixed-point transform
//! matrix. The caller owns it and the pipeline only ever reads it.

use vstd::prelude::*;

verus! {

use crate::math::FP;

/// Largest magnitude accepted for a matrix entry (512.0 in fixed point).
pub const MAT_MAX: i64 = 0x2_0000;

/// Largest magnitude accepted for an object-space position component fed
/// to the vertex stage (512.0 in fixed point): ample for screen-space
/// coordinates handed through an identity or translation transform.
pub const POS_MAX: i64 = 0x2_0000;

/// A 4x4 matrix of fixed-point entries, row by row: `mRC` is the entry in
/// row R, column C. Applied to points as an affine transform (no
/// perspective divide).
#[derive(Clone, Copy, Debug, PartialEq, Eq, Structural)]
pub struct Mat4 {
    pub m00: i64, pub m01: i64, pub m02: i64, pub m03: i64,
    pub m10: i64, pub m11: i64, pub m12: i64, pub m13: i64,
    pub m20: i64, pub m21: i64, pub m22: i64, pub m23: i64,
    pub m30: i64, pub m31: i64, pub m32: i64, pub m33: i64,
}

/// Whether every entry of `m` has magnitude at most `MAT_MAX`.
pub open spec fn mat4_bounded(m: Mat4) -> bool {
    &&& -MAT_MAX <= m.m00 <= MAT_MAX
    &&& -MAT_MAX <= m.m01 <= MAT_MAX
    &&& -MAT_MAX <= m.m02 <= MAT_MAX
    &&& -MAT_MAX <= m.m03 <= MAT_MAX
    &&& -MAT_MAX <= m.m10 <= MAT_MAX
    &&& -MAT_MAX <= m.m11 <= MAT_MAX
    &&& -MAT_MAX <= m.m12 <= MAT_MAX
    &&& -MAT_MAX <= m.m13 <= MAT_MAX
    &&& -MAT_MAX <= m.m20 <= MAT_MAX
    &&& -MAT_MAX <= m.m21 <= MAT_MAX
    &&& -MAT_MAX <= m.m22 <= MAT_MAX
    &&& -MAT_MAX <= m.m23 <= MAT_MAX
    &&& -MAT_MAX <= m.m30 <= MAT_MAX
    &&& -MAT_MAX <= m.m31 <= MAT_MAX
    &&& -MAT_MAX <= m.m32 <= MAT_MAX
    &&& -MAT_MAX <= m.m33 <= MAT_MAX
}

impl Mat4 {
    #[allow(clippy::too_many_arguments)]
    pub fn new(
        m00: i64, m01: i64, m02: i64, m03: i64,
        m10: i64, m11: i64, m12: i64, m13: i64,
        m20: i64, m21: i64, m22: i64, m23: i64,
        m30: i64, m31: i64, m32: i64, m33: i64,
    ) -> (m: Mat4)
        ensures
            m == (Mat4 {
                m00, m01, m02, m03,
                m10, m11, m12, m13,
                m20, m21, m22, m23,
                m30, m31, m32, m33,
            }),
    {
        Mat4 {
            m00, m01, m02, m03,
            m10, m11, m12, m13,
            m20, m21, m22, m23,
            m30, m31, m32, m33,
        }
    }

    /// The identity transform in fixed point.
    pub fn identity() -> (m: Mat4)
        ensures
            m == (Mat4 {
                m00: FP, m01: 0, m02: 0, m03: 0,
                m10: 0, m11: FP, m12: 0, m13: 0,
                m20: 0, m21: 0, m22: FP, m23: 0,
                m30: 0, m31: 0, m32: 0, m33: FP,
            }),
            mat4_bounded(m),
    {
        Mat4 {
            m00: FP, m01: 0, m02: 0, m03: 0,
            m10: 0, m11: FP, m12: 0, m13: 0,
            m20: 0, m21: 0, m22: FP, m23: 0,
            m30: 0, m31: 0, m32: 0, m33: FP,
        }
    }
}

/// The immutable per-frame snapshot handed to the vertex stage.
#[derive(Clone, Copy, Debug, PartialEq, Eq, Structural)]
pub struct Uniforms {
    pub transform_matrix: Mat4,
}

} // verus!
