//! An additive, scalable RGB value used for interpolation and lighting
//! modulation. Channels are plain integers on the 0..=255 convention and
//! are clamped only at the point of packing for a presentation buffer.

use vstd::prelude::*;

verus! {

use crate::math::{floor_div_i64, ATTR_MAX, FP};

#[derive(Clone, Copy, Debug, PartialEq, Eq, Structural)]
pub struct Color {
    pub r: i64,
    pub g: i64,
    pub b: i64,
}

/// A channel clamped to the displayable 0..=255 range.
pub open spec fn clamp_channel(x: int) -> int {
    if x < 0 {
        0
    } else if x > 255 {
        255
    } else {
        x
    }
}

impl Color {
    pub fn new(r: i64, g: i64, b: i64) -> (c: Color)
        ensures
            c == (Color { r, g, b }),
    {
        Color { r, g, b }
    }

    pub fn black() -> (c: Color)
        ensures
            c == (Color { r: 0, g: 0, b: 0 }),
    {
        Color { r: 0, g: 0, b: 0 }
    }

    /// Modulates every channel by a fixed-point intensity, rounding toward
    /// negative infinity. A zero intensity yields exactly black, and a
    /// nonnegative channel never becomes negative.
    pub fn scaled(&self, intensity: i64) -> (c: Color)
        requires
            0 <= intensity <= FP,
            -ATTR_MAX <= self.r <= ATTR_MAX,
            -ATTR_MAX <= self.g <= ATTR_MAX,
            -ATTR_MAX <= self.b <= ATTR_MAX,
        ensures
            c.r == self.r * intensity / (FP as int),
            c.g == self.g * intensity / (FP as int),
            c.b == self.b * intensity / (FP as int),
            intensity == 0 ==> c == (Color { r: 0, g: 0, b: 0 }),
    {
        proof {
            lemma_channel_product_bound(self.r as int, intensity as int);
            lemma_channel_product_bound(self.g as int, intensity as int);
            lemma_channel_product_bound(self.b as int, intensity as int);
        }
        let c = Color {
            r: floor_div_i64(self.r * intensity, FP),
            g: floor_div_i64(self.g * intensity, FP),
            b: floor_div_i64(self.b * intensity, FP),
        };
        proof {
            if intensity == 0 {
                assert(self.r * 0 == 0) by (nonlinear_arith);
                assert(self.g * 0 == 0) by (nonlinear_arith);
                assert(self.b * 0 == 0) by (nonlinear_arith);
            }
        }
        c
    }

    /// Packs the channels, clamped to 0..=255, as 0xRRGGBB.
    pub fn to_hex(&self) -> (h: u32)
        ensures
            h == clamp_channel(self.r as int) * 0x1_0000 + clamp_channel(self.g as int) * 0x100
                + clamp_channel(self.b as int),
    {
        let r: u32 = clamp_channel_exec(self.r);
        let g: u32 = clamp_channel_exec(self.g);
        let b: u32 = clamp_channel_exec(self.b);
        r * 0x1_0000 + g * 0x100 + b
    }
}

/// Executable form of `clamp_channel`.
pub fn clamp_channel_exec(x: i64) -> (c: u32)
    ensures
        c == clamp_channel(x as int),
{
    if x < 0 {
        0
    } else if x > 255 {
        255
    } else {
        x as u32
    }
}

/// A channel times an intensity in [0, FP] stays well inside `i64`.
proof fn lemma_channel_product_bound(ch: int, intensity: int)
    requires
        -ATTR_MAX <= ch <= ATTR_MAX,
        0 <= intensity <= FP,
    ensures
        -0x1000_0000_0000 <= ch * intensity <= 0x1000_0000_0000,
{
    assert(-0x1000_0000_0000 <= ch * intensity <= 0x1000_0000_0000) by (nonlinear_arith)
        requires
            -0x1000_0000 <= ch <= 0x1000_0000,
            0 <= intensity <= 0x100,
    ;
}

} // verus!
