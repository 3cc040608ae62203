//! Mesh vertices, before and after the vertex transform.
use vstd::prelude::*;
use crate::color::Color;
use crate::linalg::{Vec2, Vec3};

verus! {

#[derive(Clone, Copy, Debug, PartialEq, Eq, Structural)]
pub struct Vertex {
    /// Model-space position.
    pub position: Vec3,
    /// Model-space normal.
    pub normal: Vec3,
    pub tex_coords: Vec2,
    pub color: Color,
    /// Screen-space position: pixels in `x` and `y`, normalized depth in `z`.
    pub transformed_position: Vec3,
    /// Normal after the inverse transpose of the model's linear part.
    pub transformed_normal: Vec3,
}

impl Vertex {
    pub open spec fn wf(self) -> bool {
        self.position.wf() && self.normal.wf() && self.transformed_position.wf() && self.transformed_normal.wf()
    }

    /// A black vertex whose derived fields start as copies of the model-space ones.
    pub fn new(position: Vec3, normal: Vec3, tex_coords: Vec2) -> (v: Vertex)
        ensures
            v == (Vertex {
                position,
                normal,
                tex_coords,
                color: Color { r: 0, g: 0, b: 0 },
                transformed_position: position,
                transformed_normal: normal,
            }),
    {
        Vertex {
            position,
            normal,
            tex_coords,
            color: Color { r: 0, g: 0, b: 0 },
            transformed_position: position,
            transformed_normal: normal,
        }
    }
}

} // verus!
