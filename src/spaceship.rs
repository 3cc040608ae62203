//! The player's ship: position, heading and the input that moves it.
use vstd::prelude::*;
use crate::fixed::{SAT, COORD_MAX, clamp, smul, smul_spec, sadd, sadd_spec};
use crate::linalg::Vec3;
use crate::shaders::ShaderKind;
use crate::trig::{sin_fixed, cos_fixed, sin_spec, cos_spec};
use crate::vertex::Vertex;

verus! {

pub struct Spaceship {
    pub position: Vec3,
    /// Euler angles in fixed-point radians; the heading is the `y` angle.
    pub rotation: Vec3,
    pub scale: i64,
    pub vertices: Vec<Vertex>,
    pub shader: ShaderKind,
}

/// `p + d`, held to the coordinate range.
pub open spec fn step_spec(p: int, d: int) -> int {
    clamp(p + d, -COORD_MAX as int, COORD_MAX as int)
}

pub fn step(p: i64, d: i64) -> (r: i64)
    ensures
        r as int == step_spec(p as int, d as int),
        -COORD_MAX <= r <= COORD_MAX,
{
    let s: i128 = (p as i128) + (d as i128);
    if s < -(COORD_MAX as i128) {
        -COORD_MAX
    } else if s > COORD_MAX as i128 {
        COORD_MAX
    } else {
        s as i64
    }
}

/// The position moved `speed` along the heading `(sin y, 0, cos y)`.
pub open spec fn advance_spec(p: Vec3, heading: int, speed: int) -> Vec3 {
    Vec3 {
        x: step_spec(p.x as int, smul_spec(sin_spec(heading), speed)) as i64,
        y: p.y,
        z: step_spec(p.z as int, smul_spec(cos_spec(heading), speed)) as i64,
    }
}

pub fn advance(p: &Vec3, heading: i64, speed: i64) -> (r: Vec3)
    ensures
        r == advance_spec(*p, heading as int, speed as int),
{
    Vec3 { x: step(p.x, smul(sin_fixed(heading), speed)), y: p.y, z: step(p.z, smul(cos_fixed(heading), speed)) }
}

impl Spaceship {
    pub fn new(position: Vec3, rotation: Vec3, scale: i64, vertices: Vec<Vertex>, shader: ShaderKind) -> (s: Spaceship)
        ensures
            s.position == position,
            s.rotation == rotation,
            s.scale == scale,
            s.vertices@ == vertices@,
            s.shader == shader,
    {
        Spaceship { position, rotation, scale, vertices, shader }
    }

    /// Moves `speed` along the heading.
    pub fn move_forward(&mut self, speed: i64)
        requires
            -SAT <= speed <= SAT,
        ensures
            final(self).position == advance_spec(old(self).position, old(self).rotation.y as int, speed as int),
            final(self).rotation == old(self).rotation,
            final(self).scale == old(self).scale,
            final(self).vertices@ == old(self).vertices@,
            final(self).shader == old(self).shader,
    {
        self.position = advance(&self.position, self.rotation.y, speed);
    }

    /// Moves `speed` against the heading.
    pub fn move_backward(&mut self, speed: i64)
        requires
            -SAT <= speed <= SAT,
        ensures
            final(self).position == advance_spec(old(self).position, old(self).rotation.y as int, -speed),
            final(self).rotation == old(self).rotation,
            final(self).scale == old(self).scale,
            final(self).vertices@ == old(self).vertices@,
            final(self).shader == old(self).shader,
    {
        self.position = advance(&self.position, self.rotation.y, -speed);
    }

    /// Turns the heading by `-angle`.
    pub fn rotate_left(&mut self, angle: i64)
        requires
            -SAT <= angle <= SAT,
        ensures
            final(self).rotation == (Vec3 { y: sadd_spec(old(self).rotation.y as int, -angle) as i64, ..old(self).rotation }),
            final(self).position == old(self).position,
            final(self).scale == old(self).scale,
            final(self).vertices@ == old(self).vertices@,
            final(self).shader == old(self).shader,
    {
        self.rotation.y = sadd(self.rotation.y, -angle);
    }

    /// Turns the heading by `angle`.
    pub fn rotate_right(&mut self, angle: i64)
        ensures
            final(self).rotation == (Vec3 { y: sadd_spec(old(self).rotation.y as int, angle as int) as i64, ..old(self).rotation }),
            final(self).position == old(self).position,
            final(self).scale == old(self).scale,
            final(self).vertices@ == old(self).vertices@,
            final(self).shader == old(self).shader,
    {
        self.rotation.y = sadd(self.rotation.y, angle);
    }
}

} // verus!
