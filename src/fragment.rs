//! Fragments: the candidate pixel writes that rasterization produces.
use vstd::prelude::*;
use crate::linalg::Vec3;

verus! {

#[derive(Clone, Copy, Debug, PartialEq, Eq, Structural)]
pub struct Fragment {
    /// Pixel column.
    pub x: usize,
    /// Pixel row, counted from the top.
    pub y: usize,
    /// Interpolated normalized depth; smaller is nearer.
    pub depth: i64,
    /// Interpolated transformed normal.
    pub normal: Vec3,
    /// Lighting intensity in [0, ONE], from the normal against the `+z` axis.
    pub intensity: i64,
    /// Interpolated model-space position, a stable coordinate for shading.
    pub vertex_position: Vec3,
}

impl Fragment {
    pub fn new(x: usize, y: usize, depth: i64, normal: Vec3, intensity: i64, vertex_position: Vec3) -> (f: Fragment)
        ensures
            f == (Fragment { x, y, depth, normal, intensity, vertex_position }),
    {
        Fragment { x, y, depth, normal, intensity, vertex_position }
    }
}

} // verus!
