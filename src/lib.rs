//! A software rasterizer for procedurally shaded planets, in decimal fixed point.
//!
//! Every quantity is an integer count of `1 / ONE` units (see [`fixed`]).
//! A mesh goes through the vertex transform ([`transform`]), is culled as a
//! whole ([`culling`]), rasterized triangle by triangle ([`raster`],
//! [`pipeline`]), shaded ([`shaders`]) and composited into a depth-buffered
//! framebuffer ([`framebuffer`]). Each step's result is stated exactly by
//! spec functions; the noise field and the windowing live outside the library,
//! which takes noise samples and matrices as plain integers.
use vstd::prelude::*;

pub mod fixed;
pub mod color;
pub mod linalg;
pub mod culling;
pub mod framebuffer;
pub mod vertex;
pub mod transform;
pub mod fragment;
pub mod raster;
pub mod trig;
pub mod shaders;
pub mod pipeline;
pub mod spaceship;
pub mod camera;
pub mod obj;

verus! {

} // verus!
