//! A fragment: one candidate pixel write produced by rasterizing a
//! triangle, carrying the screen position, the interpolated depth and
//! color, and the interpolated normal for optional later shading.

use vstd::prelude::*;

verus! {

use crate::color::Color;
use crate::math::Vec3;

#[derive(Clone, Copy, Debug, PartialEq, Eq, Structural)]
pub struct Fragment {
    pub x: i64,
    pub y: i64,
    pub color: Color,
    pub depth: i64,
    pub normal: Vec3,
}

impl Fragment {
    pub fn new(x: i64, y: i64, color: Color, depth: i64, normal: Vec3) -> (f: Fragment)
        ensures
            f == (Fragment { x, y, color, depth, normal }),
    {
        Fragment { x, y, color, depth, normal }
    }
}

} // verus!
