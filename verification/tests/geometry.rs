//! Unit tests for the fixed-point arithmetic kernel and the triangle
//! geometry: edge functions, barycentric weights, bounding boxes and the
//! point-in-triangle test.

use modelo3d::color::Color;
use modelo3d::math::{floor_div_i64, interp_attr, isqrt_u64, Vec2, Vec3, FP};
use modelo3d::triangle::{barycentric, calculate_bounding_box, edge_function, point_in_triangle};

fn p(x: i64, y: i64) -> Vec3 {
    Vec3::new(x * FP, y * FP, 0)
}

#[test]
fn floor_div_rounds_toward_negative_infinity() {
    assert_eq!(floor_div_i64(7, 2), 3);
    assert_eq!(floor_div_i64(-7, 2), -4);
    assert_eq!(floor_div_i64(-8, 2), -4);
    assert_eq!(floor_div_i64(0, 256), 0);
    assert_eq!(floor_div_i64(-1, 256), -1);
    assert_eq!(floor_div_i64(255, 256), 0);
}

#[test]
fn isqrt_matches_exact_squares_and_rounds_down() {
    assert_eq!(isqrt_u64(0), 0);
    assert_eq!(isqrt_u64(1), 1);
    assert_eq!(isqrt_u64(10), 3);
    assert_eq!(isqrt_u64(16), 4);
    assert_eq!(isqrt_u64(65536), 256);
    assert_eq!(isqrt_u64(u64::MAX), (1u64 << 32) - 1);
}

#[test]
fn interp_attr_is_the_weighted_average() {
    // equal weights: the plain average
    assert_eq!(interp_attr(1, 1, 1, 3, 0, 3, 6), 3);
    // all weight on one corner reproduces that corner
    assert_eq!(interp_attr(5, 0, 0, 5, 42, 7, -9), 42);
    // the result stays in the hull of the inputs
    let r = interp_attr(1, 2, 3, 6, 10, 20, 90);
    assert!((10..=90).contains(&r));
}

#[test]
fn edge_function_signed_area() {
    // unit right triangle in pixel units, z ignored
    let a = p(0, 0);
    let b = p(1, 0);
    let c = p(0, 1);
    // (c.x-a.x)(b.y-a.y) - (c.y-a.y)(b.x-a.x) = 0*0 - FP*FP
    assert_eq!(edge_function(&a, &b, &c), -(FP * FP));
    // swapping two corners flips the sign
    assert_eq!(edge_function(&a, &c, &b), FP * FP);
    // collinear points give zero
    assert_eq!(edge_function(&p(0, 0), &p(1, 1), &p(2, 2)), 0);
}

#[test]
fn barycentric_weights_sum_to_area() {
    let a = p(0, 0);
    let b = p(10, 0);
    let c = p(0, 10);
    let area = edge_function(&a, &b, &c);
    let q = p(2, 3);
    let (w0, w1, w2) = barycentric(&q, &a, &b, &c);
    assert_eq!(w0 + w1 + w2, area);
    // at a corner, all the weight sits on that corner
    let (u0, u1, u2) = barycentric(&a, &a, &b, &c);
    assert_eq!(u0, area);
    assert_eq!(u1, 0);
    assert_eq!(u2, 0);
}

#[test]
fn point_in_triangle_accepts_interior_and_rejects_exterior() {
    let a = Vec2::new(0, 0);
    let b = Vec2::new(10 * FP, 0);
    let c = Vec2::new(0, 10 * FP);
    let inside = Vec2::new(2 * FP, 2 * FP);
    let outside = Vec2::new(9 * FP, 9 * FP);
    let on_corner = Vec2::new(0, 0);
    assert!(point_in_triangle(&inside, &a, &b, &c));
    assert!(!point_in_triangle(&outside, &a, &b, &c));
    assert!(point_in_triangle(&on_corner, &a, &b, &c));
    // either winding is tolerated
    assert!(point_in_triangle(&inside, &a, &c, &b));
    // a degenerate triangle contains nothing
    let d = Vec2::new(5 * FP, 5 * FP);
    assert!(!point_in_triangle(&inside, &a, &d, &a));
}

#[test]
fn bounding_box_floor_and_ceil() {
    // corners at pixel coordinates with a fractional offset
    let a = Vec3::new(FP + 10, 2 * FP + 1, 0);
    let b = Vec3::new(5 * FP, 7 * FP, 0);
    let c = Vec3::new(3 * FP, -FP - 1, 0);
    let (min_x, min_y, max_x, max_y) = calculate_bounding_box(&a, &b, &c);
    assert_eq!(min_x, 1);
    assert_eq!(min_y, -2);
    assert_eq!(max_x, 5);
    assert_eq!(max_y, 7);
}

#[test]
fn color_to_hex_packs_and_clamps() {
    assert_eq!(Color::new(255, 0, 0).to_hex(), 0xFF0000);
    assert_eq!(Color::new(0, 255, 0).to_hex(), 0x00FF00);
    assert_eq!(Color::new(300, -5, 128).to_hex(), 0xFF0080);
    assert_eq!(Color::black().to_hex(), 0x000000);
}

#[test]
fn color_scaled_modulates_channels() {
    let c = Color::new(200, 100, 50);
    let full = c.scaled(FP);
    assert_eq!((full.r, full.g, full.b), (200, 100, 50));
    let half = c.scaled(FP / 2);
    assert_eq!((half.r, half.g, half.b), (100, 50, 25));
    let off = c.scaled(0);
    assert_eq!((off.r, off.g, off.b), (0, 0, 0));
}
