//! A software rendering pipeline over fixed-point coordinates: vertex
//! transformation, triangle assembly, barycentric rasterization with a
//! depth buffer, and directional-light shading.

pub mod color;
pub mod fragment;
pub mod lighting;
pub mod math;
pub mod obj;
pub mod pipeline;
pub mod rasterizer;
pub mod triangle;
pub mod uniforms;
pub mod vertex;
pub mod vertex_shader;
