//! A vertex: object-space position, normal, texture coordinate and color,
//! together with the transformed position and normal that the vertex
//! stage writes once per frame.

use vstd::prelude::*;

verus! {

use crate::color::Color;
use crate::math::{Vec2, Vec3, FP};

#[derive(Clone, Copy, Debug, PartialEq, Eq, Structural)]
pub struct Vertex {
    pub position: Vec3,
    pub normal: Vec3,
    pub tex_coords: Vec2,
    pub color: Color,
    pub transformed_position: Vec3,
    pub transformed_normal: Vec3,
}

impl Vertex {
    /// A vertex with the given position, normal and texture coordinates,
    /// a black color, and the transformed fields seeded from the inputs.
    pub fn new(position: Vec3, normal: Vec3, tex_coords: Vec2) -> (v: Vertex)
        ensures
            v == (Vertex {
                position,
                normal,
                tex_coords,
                color: Color { r: 0, g: 0, b: 0 },
                transformed_position: position,
                transformed_normal: normal,
            }),
    {
        Vertex {
            position,
            normal,
            tex_coords,
            color: Color::black(),
            transformed_position: position,
            transformed_normal: normal,
        }
    }

    /// A vertex with the given position and color and the documented
    /// defaults elsewhere: zero normal and texture coordinates.
    pub fn new_with_color(position: Vec3, color: Color) -> (v: Vertex)
        ensures
            v == (Vertex {
                position,
                normal: Vec3 { x: 0, y: 0, z: 0 },
                tex_coords: Vec2 { x: 0, y: 0 },
                color,
                transformed_position: Vec3 { x: 0, y: 0, z: 0 },
                transformed_normal: Vec3 { x: 0, y: 0, z: 0 },
            }),
    {
        Vertex {
            position,
            normal: Vec3 { x: 0, y: 0, z: 0 },
            tex_coords: Vec2 { x: 0, y: 0 },
            color,
            transformed_position: Vec3 { x: 0, y: 0, z: 0 },
            transformed_normal: Vec3 { x: 0, y: 0, z: 0 },
        }
    }

    /// Overwrites the transformed position and normal, leaving the
    /// object-space fields untouched.
    pub fn set_transformed(&mut self, position: Vec3, normal: Vec3)
        ensures
            *final(self) == (Vertex {
                transformed_position: position,
                transformed_normal: normal,
                ..*old(self)
            }),
    {
        self.transformed_position = position;
        self.transformed_normal = normal;
    }
}

impl Default for Vertex {
    /// The default vertex sits at the origin with a unit upward normal.
    fn default() -> (v: Self)
        ensures
            v == (Vertex {
                position: Vec3 { x: 0, y: 0, z: 0 },
                normal: Vec3 { x: 0, y: FP, z: 0 },
                tex_coords: Vec2 { x: 0, y: 0 },
                color: Color { r: 0, g: 0, b: 0 },
                transformed_position: Vec3 { x: 0, y: 0, z: 0 },
                transformed_normal: Vec3 { x: 0, y: FP, z: 0 },
            }),
    {
        Vertex {
            position: Vec3 { x: 0, y: 0, z: 0 },
            normal: Vec3 { x: 0, y: FP, z: 0 },
            tex_coords: Vec2 { x: 0, y: 0 },
            color: Color::black(),
            transformed_position: Vec3 { x: 0, y: 0, z: 0 },
            transformed_normal: Vec3 { x: 0, y: FP, z: 0 },
        }
    }
}

} // verus!
