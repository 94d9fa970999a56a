//! The fragment lighting stage: a single directional light with a
//! Lambertian term. The intensity is the fixed-point cosine between the
//! (interpolated) normal and the light direction, clamped to [0, FP];
//! light arriving from behind contributes exactly nothing.

use vstd::prelude::*;

verus! {

use crate::color::Color;
use crate::fragment::Fragment;
use crate::math::{dot3, dot_spec, isqrt_u64, lemma_dot_bound, vec3_bounded, Vec3, ATTR_MAX, FP};

/// Whether r is the integer square root of n, rounded down.
pub open spec fn is_isqrt(n: int, r: int) -> bool {
    0 <= r && r * r <= n < (r + 1) * (r + 1)
}

/// The fixed-point Lambertian intensity for a dot product d and the two
/// vector magnitudes mn and md: zero when the light comes from behind
/// (d <= 0) or a vector is degenerate, else the cosine d*FP/(mn*md)
/// clamped from above to FP (one, in fixed point).
pub open spec fn intensity_formula(d: int, mn: int, md: int) -> int {
    if d <= 0 || mn <= 0 || md <= 0 {
        0
    } else if d * FP / (mn * md) >= FP {
        FP as int
    } else {
        d * FP / (mn * md)
    }
}

/// Whether i is the lighting intensity of the normal n lit from the
/// direction l: the intensity formula applied to their dot product and
/// their two rounded-down magnitudes.
pub open spec fn is_lighting_intensity(n: Vec3, l: Vec3, i: int) -> bool {
    exists |mn: int, md: int|
        #![auto]
        is_isqrt(dot_spec(n, n), mn) && is_isqrt(dot_spec(l, l), md) && i == intensity_formula(
            dot_spec(n, l),
            mn,
            md,
        )
}

/// The Lambertian intensity of a normal against a light direction: in
/// [0, FP], exactly zero whenever the dot product is not positive.
pub fn lighting_intensity(normal: &Vec3, light_dir: &Vec3) -> (i: i64)
    requires
        vec3_bounded(*normal, 2 * ATTR_MAX as int),
        vec3_bounded(*light_dir, 2 * ATTR_MAX as int),
    ensures
        0 <= i <= FP,
        is_lighting_intensity(*normal, *light_dir, i as int),
        dot_spec(*normal, *light_dir) <= 0 ==> i == 0,
{
    let d = dot3(normal, light_dir);
    let nsq = dot3(normal, normal);
    let lsq = dot3(light_dir, light_dir);
    proof {
        lemma_dot_bound(*normal, *light_dir, 2 * ATTR_MAX as int);
        lemma_dot_bound(*normal, *normal, 2 * ATTR_MAX as int);
        lemma_dot_bound(*light_dir, *light_dir, 2 * ATTR_MAX as int);
        assert(nsq >= 0 && lsq >= 0) by (nonlinear_arith)
            requires
                nsq == normal.x * normal.x + normal.y * normal.y + normal.z * normal.z,
                lsq == light_dir.x * light_dir.x + light_dir.y * light_dir.y + light_dir.z
                    * light_dir.z,
        ;
    }
    let mn = isqrt_u64(nsq as u64);
    let md = isqrt_u64(lsq as u64);
    if d <= 0 || mn == 0 || md == 0 {
        proof {
            assert(is_isqrt(dot_spec(*normal, *normal), mn as int) && is_isqrt(
                dot_spec(*light_dir, *light_dir),
                md as int,
            ) && 0 == intensity_formula(dot_spec(*normal, *light_dir), mn as int, md as int));
        }
        0
    } else {
        proof {
            assert(1 <= mn * md <= 0x1_0000_0000 * 0x1_0000_0000) by (nonlinear_arith)
                requires
                    1 <= mn <= 0x1_0000_0000,
                    1 <= md <= 0x1_0000_0000,
            ;
        }
        let num: u128 = (d as u128) * (FP as u128);
        let den: u128 = (mn as u128) * (md as u128);
        let q: u128 = num / den;
        let i: i64 = if q >= FP as u128 {
            FP
        } else {
            q as i64
        };
        proof {
            assert(is_isqrt(dot_spec(*normal, *normal), mn as int) && is_isqrt(
                dot_spec(*light_dir, *light_dir),
                md as int,
            ) && (i as int) == intensity_formula(dot_spec(*normal, *light_dir), mn as int, md as int));
            vstd::arithmetic::div_mod::lemma_div_pos_is_pos(num as int, den as int);
        }
        i
    }
}

/// Re-shades a fragment with a single directional light: the base color
/// modulated, channel by channel, by the Lambertian intensity of the
/// fragment's interpolated normal against the light direction. A light
/// from behind (negative dot product) yields exactly black.
pub fn shade_fragment(fragment: &Fragment, light_dir: &Vec3) -> (c: Color)
    requires
        vec3_bounded(fragment.normal, 2 * ATTR_MAX as int),
        vec3_bounded(*light_dir, 2 * ATTR_MAX as int),
        -ATTR_MAX <= fragment.color.r <= ATTR_MAX,
        -ATTR_MAX <= fragment.color.g <= ATTR_MAX,
        -ATTR_MAX <= fragment.color.b <= ATTR_MAX,
    ensures
        exists |ii: int|
            #![auto]
            0 <= ii <= FP && is_lighting_intensity(fragment.normal, *light_dir, ii) && c.r
                == fragment.color.r * ii / (FP as int) && c.g == fragment.color.g * ii / (FP as int)
                && c.b == fragment.color.b * ii / (FP as int),
        dot_spec(fragment.normal, *light_dir) <= 0 ==> c == (Color { r: 0, g: 0, b: 0 }),
{
    let intensity = lighting_intensity(&fragment.normal, light_dir);
    fragment.color.scaled(intensity)
}

} // verus!
