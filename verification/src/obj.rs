//! A loaded mesh in flat form: positions, optional normals and texture
//! coordinates, and the index stream that expands them into the vertex
//! list the pipeline consumes. Reading the model file itself is the
//! loader collaborator's concern and happens outside this library.

use vstd::prelude::*;

verus! {

use crate::color::Color;
use crate::math::{Vec2, Vec3};
use crate::vertex::Vertex;

pub struct Obj {
    pub vertices: Vec<Vec3>,
    pub normals: Vec<Vec3>,
    pub texcoords: Vec<Vec2>,
    pub indices: Vec<u32>,
}

/// The vertex that index slot i of the mesh expands to: the indexed
/// position, the indexed normal and texture coordinates where the mesh
/// has them (zero, the documented default, where it has none), a black
/// color, and the transformed fields seeded from the inputs.
pub open spec fn expanded_vertex(o: Obj, i: int) -> Vertex {
    let vi = o.indices@[i] as int;
    let position = o.vertices@[vi];
    let normal = if o.normals@.len() > 0 {
        o.normals@[vi]
    } else {
        Vec3 { x: 0, y: 0, z: 0 }
    };
    let tex = if o.texcoords@.len() > 0 {
        o.texcoords@[vi]
    } else {
        Vec2 { x: 0, y: 0 }
    };
    Vertex {
        position,
        normal,
        tex_coords: tex,
        color: Color { r: 0, g: 0, b: 0 },
        transformed_position: position,
        transformed_normal: normal,
    }
}

impl Obj {
    /// Expands the index stream into the flat vertex list the pipeline
    /// consumes, filling the documented defaults for attributes the mesh
    /// does not carry. Every index must point into the data it indexes.
    #[verifier::loop_isolation(false)]
    pub fn to_vertices(&self) -> (vs: Vec<Vertex>)
        requires
            forall |i: int|
                0 <= i < self.indices@.len() ==> (#[trigger] self.indices@[i]) < self.vertices@.len(),
            self.normals@.len() > 0 ==> forall |i: int|
                0 <= i < self.indices@.len() ==> (#[trigger] self.indices@[i]) < self.normals@.len(),
            self.texcoords@.len() > 0 ==> forall |i: int|
                0 <= i < self.indices@.len() ==> (#[trigger] self.indices@[i])
                    < self.texcoords@.len(),
        ensures
            vs@.len() == self.indices@.len(),
            forall |i: int| 0 <= i < vs@.len() ==> #[trigger] vs@[i] == expanded_vertex(*self, i),
    {
        let mut vertex_array: Vec<Vertex> = Vec::new();
        let mut i: usize = 0;
        while i < self.indices.len()
            invariant
                i <= self.indices@.len(),
                vertex_array@.len() == i,
                forall |j: int|
                    0 <= j < i ==> #[trigger] vertex_array@[j] == expanded_vertex(*self, j),
            decreases self.indices@.len() - i,
        {
            let vi = self.indices[i] as usize;
            let position = self.vertices[vi];
            let normal = if self.normals.len() > 0 {
                self.normals[vi]
            } else {
                Vec3 { x: 0, y: 0, z: 0 }
            };
            let tex_coords = if self.texcoords.len() > 0 {
                self.texcoords[vi]
            } else {
                Vec2 { x: 0, y: 0 }
            };
            let vertex = Vertex::new(position, normal, tex_coords);
            vertex_array.push(vertex);
            i = i + 1;
        }
        vertex_array
    }
}

} // verus!
