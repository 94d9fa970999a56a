//! End-to-end scenarios: primitive assembly, the shaded triangle over an
//! 800x600 target, two depth-tested triangles back to back, lighting,
//! and a whole pipeline frame.

use modelo3d::color::Color;
use modelo3d::fragment::Fragment;
use modelo3d::lighting::{lighting_intensity, shade_fragment};
use modelo3d::math::{Vec2, Vec3, DEPTH_INFINITY, FP};
use modelo3d::obj::Obj;
use modelo3d::pipeline::{Pipeline, Triangle};
use modelo3d::rasterizer::draw_filled_triangle;
use modelo3d::triangle::triangle;
use modelo3d::uniforms::Mat4;
use modelo3d::vertex::Vertex;
use modelo3d::vertex_shader::vertex_shader;

/// A shaded vertex at pixel (px, py) with fixed-point depth z.
fn shaded(px: i64, py: i64, z: i64, color: Color) -> Vertex {
    let pos = Vec3::new(px * FP, py * FP, z);
    let mut v = Vertex::new_with_color(pos, color);
    v.set_transformed(pos, Vec3::new(0, 0, 0));
    v
}

#[test]
fn primitive_assembly_drops_the_trailing_vertices() {
    let pipeline = Pipeline::new(Mat4::identity(), Vec3::new(0, 0, 0));
    let vertices: Vec<Vertex> = (0..7)
        .map(|i| shaded(i, i, 0, Color::new(i, 0, 0)))
        .collect();
    let tris = pipeline.primitive_assembly(&vertices);
    assert_eq!(tris.len(), 2);
    assert_eq!(tris[0].v0, vertices[0]);
    assert_eq!(tris[0].v1, vertices[1]);
    assert_eq!(tris[0].v2, vertices[2]);
    assert_eq!(tris[1].v0, vertices[3]);
    assert_eq!(tris[1].v1, vertices[4]);
    assert_eq!(tris[1].v2, vertices[5]);
}

#[test]
fn degenerate_triangle_emits_no_fragments() {
    let a = shaded(0, 0, 0, Color::new(255, 0, 0));
    let b = shaded(5, 5, 0, Color::new(0, 255, 0));
    let c = shaded(10, 10, 0, Color::new(0, 0, 255));
    let frags = triangle(&a, &b, &c, 100, 100);
    assert!(frags.is_empty());

    let mut zbuf = vec![DEPTH_INFINITY; 100 * 100];
    let before = zbuf.clone();
    let frags2 = draw_filled_triangle(&a, &b, &c, &mut zbuf, 100, 100);
    assert!(frags2.is_empty());
    assert_eq!(zbuf, before);
}

#[test]
fn shaded_triangle_blends_at_the_centroid_and_stays_in_its_box() {
    let a = shaded(100, 100, 0, Color::new(255, 0, 0));
    let b = shaded(400, 100, 0, Color::new(0, 255, 0));
    let c = shaded(250, 500, 0, Color::new(0, 0, 255));
    let frags = triangle(&a, &b, &c, 800, 600);
    assert!(!frags.is_empty());
    let centroid: Vec<&Fragment> = frags.iter().filter(|f| f.x == 250 && f.y == 233).collect();
    assert_eq!(centroid.len(), 1);
    let blend = centroid[0].color;
    assert!(blend.r > 0 && blend.r < 255);
    assert!(blend.g > 0 && blend.g < 255);
    assert!(blend.b > 0 && blend.b < 255);
    for f in &frags {
        assert!((100..=400).contains(&f.x));
        assert!((100..=500).contains(&f.y));
    }
}

#[test]
fn nearer_triangle_wins_the_shared_pixels() {
    let red = Color::new(255, 0, 0);
    let green = Color::new(0, 255, 0);
    // the same footprint back to back: far at depth 2.0, near at depth 1.0
    let far = Triangle {
        v0: shaded(0, 0, 2 * FP, red),
        v1: shaded(20, 0, 2 * FP, red),
        v2: shaded(0, 20, 2 * FP, red),
    };
    let near = Triangle {
        v0: shaded(0, 0, FP, green),
        v1: shaded(20, 0, FP, green),
        v2: shaded(0, 20, FP, green),
    };
    let pipeline = Pipeline::new(Mat4::identity(), Vec3::new(0, 0, 0));
    let mut zbuf = vec![DEPTH_INFINITY; 32 * 32];
    let frags = pipeline.rasterize(&vec![far, near], &mut zbuf, 32, 32);
    // an interior pixel of both footprints
    let (px, py) = (4usize, 4usize);
    assert_eq!(zbuf[py * 32 + px], FP);
    let mut last_color = None;
    for f in &frags {
        if f.x == px as i64 && f.y == py as i64 {
            last_color = Some(f.color);
        }
    }
    assert_eq!(last_color, Some(green));
    // every fragment of the near triangle won against the far depth
    assert!(frags.iter().any(|f| f.depth == FP));
}

#[test]
fn light_from_behind_gives_zero_intensity_and_black() {
    let normal = Vec3::new(0, 0, FP);
    let away = Vec3::new(0, 0, -FP);
    assert_eq!(lighting_intensity(&normal, &away), 0);
    let f = Fragment::new(0, 0, Color::new(200, 150, 100), 0, normal);
    let shade = shade_fragment(&f, &away);
    assert_eq!(shade, Color::black());
}

#[test]
fn light_along_the_normal_keeps_the_base_color() {
    let normal = Vec3::new(0, 0, FP);
    let toward = Vec3::new(0, 0, FP);
    assert_eq!(lighting_intensity(&normal, &toward), FP);
    let f = Fragment::new(0, 0, Color::new(200, 150, 100), 0, normal);
    let shade = shade_fragment(&f, &toward);
    assert_eq!(shade, Color::new(200, 150, 100));
}

#[test]
fn flat_shading_faces_the_light() {
    let pipeline = Pipeline::new(Mat4::identity(), Vec3::new(0, 0, 100 * FP));
    let mut v = Vertex::new_with_color(Vec3::new(0, 0, 0), Color::new(200, 100, 50));
    v.normal = Vec3::new(0, 0, FP);
    let lit = pipeline.flat_shading(&v);
    assert_eq!(lit, Color::new(200, 100, 50));
    // normal facing away from the light: black
    v.normal = Vec3::new(0, 0, -FP);
    let dark = pipeline.flat_shading(&v);
    assert_eq!(dark, Color::black());
}

#[test]
fn vertex_shader_applies_the_affine_transform() {
    let v = Vertex::new_with_color(Vec3::new(2 * FP, 3 * FP, 4 * FP), Color::black());
    // identity keeps the position
    let id = modelo3d::uniforms::Uniforms { transform_matrix: Mat4::identity() };
    let t = vertex_shader(&v, &id);
    assert_eq!(t.transformed_position, v.position);
    assert_eq!(t.position, v.position);
    // a pure translation by (1, -2, 0) units
    let mut m = Mat4::identity();
    m.m03 = FP;
    m.m13 = -2 * FP;
    let shift = modelo3d::uniforms::Uniforms { transform_matrix: m };
    let s = vertex_shader(&v, &shift);
    assert_eq!(s.transformed_position, Vec3::new(3 * FP, FP, 4 * FP));
    // the normal is carried through unmodified
    assert_eq!(s.transformed_normal, v.normal);
}

#[test]
fn run_renders_a_frame_and_resets_the_depth_buffer() {
    let pipeline = Pipeline::new(Mat4::identity(), Vec3::new(0, 0, 0));
    let vertices = vec![
        shaded(1, 1, 0, Color::new(255, 0, 0)),
        shaded(20, 1, 0, Color::new(0, 255, 0)),
        shaded(1, 20, 0, Color::new(0, 0, 255)),
    ];
    let mut zbuf = vec![0i64; 64 * 64];
    let frags = pipeline.run(&vertices, &mut zbuf, 64, 64);
    assert!(!frags.is_empty());
    // covered pixels hold the interpolated depth, untouched ones infinity
    assert_eq!(zbuf[2 * 64 + 2], 0);
    assert_eq!(zbuf[63 * 64 + 63], DEPTH_INFINITY);
    for f in &frags {
        assert!(f.x < 64 && f.y < 64);
    }
}

#[test]
fn obj_expands_indices_with_defaults() {
    let mesh = Obj {
        vertices: vec![Vec3::new(0, 0, 0), Vec3::new(FP, 0, 0), Vec3::new(0, FP, 0)],
        normals: vec![],
        texcoords: vec![],
        indices: vec![0, 1, 2, 2, 1, 0],
    };
    let vs = mesh.to_vertices();
    assert_eq!(vs.len(), 6);
    assert_eq!(vs[0].position, Vec3::new(0, 0, 0));
    assert_eq!(vs[3].position, Vec3::new(0, FP, 0));
    assert_eq!(vs[0].normal, Vec3::new(0, 0, 0));
    assert_eq!(vs[0].tex_coords, Vec2::new(0, 0));
    assert_eq!(vs[0].color, Color::black());

    let with_normals = Obj {
        vertices: vec![Vec3::new(0, 0, 0), Vec3::new(FP, 0, 0)],
        normals: vec![Vec3::new(0, FP, 0), Vec3::new(0, 0, FP)],
        texcoords: vec![],
        indices: vec![1, 0],
    };
    let ws = with_normals.to_vertices();
    assert_eq!(ws[0].normal, Vec3::new(0, 0, FP));
    assert_eq!(ws[1].normal, Vec3::new(0, FP, 0));
}

#[test]
fn default_vertex_sits_at_the_origin_facing_up() {
    let v = Vertex::default();
    assert_eq!(v.position, Vec3::new(0, 0, 0));
    assert_eq!(v.normal, Vec3::new(0, FP, 0));
    assert_eq!(v.color, Color::black());
}

#[test]
fn run_blends_the_full_scale_triangle_within_its_box() {
    // the shaded-triangle scenario carried through the whole pipeline:
    // identity transform, an 800x600 target, pure red/green/blue corners
    let pipeline = Pipeline::new(Mat4::identity(), Vec3::new(0, 0, 0));
    let vertices = vec![
        Vertex::new_with_color(Vec3::new(100 * FP, 100 * FP, 0), Color::new(255, 0, 0)),
        Vertex::new_with_color(Vec3::new(400 * FP, 100 * FP, 0), Color::new(0, 255, 0)),
        Vertex::new_with_color(Vec3::new(250 * FP, 500 * FP, 0), Color::new(0, 0, 255)),
    ];
    let mut zbuf = vec![0i64; 800 * 600];
    let frags = pipeline.run(&vertices, &mut zbuf, 800, 600);
    let centroid: Vec<&Fragment> = frags.iter().filter(|f| f.x == 250 && f.y == 233).collect();
    assert_eq!(centroid.len(), 1);
    let blend = centroid[0].color;
    assert!(blend.r > 0 && blend.r < 255);
    assert!(blend.g > 0 && blend.g < 255);
    assert!(blend.b > 0 && blend.b < 255);
    for f in &frags {
        assert!((100..=400).contains(&f.x));
        assert!((100..=500).contains(&f.y));
    }
}
