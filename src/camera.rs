//! The camera and the per-frame input that steers ship and camera together.
use vstd::prelude::*;
use crate::fixed::{ONE, SAT, fdiv, clamp, smul, smul_spec, sadd, sadd_spec, div_floor, isqrt, sqrt_floor};
use crate::linalg::Vec3;
use crate::spaceship::{Spaceship, step, step_spec, advance_spec};
use crate::trig::{sin_fixed, cos_fixed, sin_spec, cos_spec};

verus! {

pub struct Camera {
    pub eye: Vec3,
    pub center: Vec3,
    pub up: Vec3,
    pub has_changed: bool,
}

/// Distance behind the ship at which the chase camera sits.
pub const FOLLOW_DISTANCE: i64 = 20_000_000;
/// Height above the ship at which the chase camera sits.
pub const FOLLOW_HEIGHT: i64 = 10_000_000;

/// `v` rotated by `angle` about the `y` axis: `x cos + z sin`, `-x sin + z cos`.
pub open spec fn rotate_y_spec(v: Vec3, angle: int) -> Vec3 {
    Vec3 {
        x: sadd_spec(smul_spec(v.x as int, cos_spec(angle)), smul_spec(v.z as int, sin_spec(angle))) as i64,
        y: v.y,
        z: sadd_spec(smul_spec(-v.x, sin_spec(angle)), smul_spec(v.z as int, cos_spec(angle))) as i64,
    }
}

/// The eye turned by `angle` about the vertical line through `center`, held
/// to the coordinate range.
pub open spec fn orbit_spec(eye: Vec3, center: Vec3, angle: int) -> Vec3 {
    let rel = Vec3 { x: sadd_spec(eye.x as int, -center.x) as i64, y: sadd_spec(eye.y as int, -center.y) as i64, z: sadd_spec(eye.z as int, -center.z) as i64 };
    let r = rotate_y_spec(rel, angle);
    Vec3 {
        x: step_spec(r.x as int, center.x as int) as i64,
        y: step_spec(r.y as int, center.y as int) as i64,
        z: step_spec(r.z as int, center.z as int) as i64,
    }
}

/// Turns the camera position by `angle` about the vertical line through `center`.
pub fn rotate_camera_around(camera_position: &mut Vec3, center: Vec3, angle: i64)
    requires
        center.wf(),
        old(camera_position).wf(),
    ensures
        *final(camera_position) == orbit_spec(*old(camera_position), center, angle as int),
        final(camera_position).wf(),
{
    let p = *camera_position;
    let rel = Vec3 { x: sadd(p.x, -center.x), y: sadd(p.y, -center.y), z: sadd(p.z, -center.z) };
    let c = cos_fixed(angle);
    let s = sin_fixed(angle);
    let r = Vec3 { x: sadd(smul(rel.x, c), smul(rel.z, s)), y: rel.y, z: sadd(smul(-rel.x, s), smul(rel.z, c)) };
    *camera_position = Vec3 { x: step(r.x, center.x), y: step(r.y, center.y), z: step(r.z, center.z) };
}

/// Saturating componentwise `a - b`.
pub open spec fn sub_spec(a: Vec3, b: Vec3) -> Vec3 {
    Vec3 {
        x: sadd_spec(a.x as int, -b.x) as i64,
        y: sadd_spec(a.y as int, -b.y) as i64,
        z: sadd_spec(a.z as int, -b.z) as i64,
    }
}

pub open spec fn scaled_spec(v: Vec3, k: int) -> Vec3 {
    Vec3 { x: smul_spec(v.x as int, k) as i64, y: smul_spec(v.y as int, k) as i64, z: smul_spec(v.z as int, k) as i64 }
}

pub open spec fn add3_spec(a: Vec3, b: Vec3, c: Vec3) -> Vec3 {
    Vec3 {
        x: sadd_spec(sadd_spec(a.x as int, b.x as int), c.x as int) as i64,
        y: sadd_spec(sadd_spec(a.y as int, b.y as int), c.y as int) as i64,
        z: sadd_spec(sadd_spec(a.z as int, b.z as int), c.z as int) as i64,
    }
}

pub open spec fn cross_spec(a: Vec3, b: Vec3) -> Vec3 {
    Vec3 {
        x: sadd_spec(smul_spec(a.y as int, b.z as int), -smul_spec(a.z as int, b.y as int)) as i64,
        y: sadd_spec(smul_spec(a.z as int, b.x as int), -smul_spec(a.x as int, b.z as int)) as i64,
        z: sadd_spec(smul_spec(a.x as int, b.y as int), -smul_spec(a.y as int, b.x as int)) as i64,
    }
}

pub open spec fn dot_spec(a: Vec3, b: Vec3) -> int {
    sadd_spec(sadd_spec(smul_spec(a.x as int, b.x as int), smul_spec(a.y as int, b.y as int)), smul_spec(a.z as int, b.z as int))
}

/// The length of `v`, rounded down.
pub open spec fn length_spec(v: Vec3) -> int {
    sqrt_floor(v.x * v.x + v.y * v.y + v.z * v.z)
}

/// One component of `v / |v|`, held to [-1, 1]; zero for a zero vector.
pub open spec fn unit_component(c: int, len: int) -> int {
    if len == 0 {
        0
    } else {
        clamp(fdiv(c * ONE, len), -ONE as int, ONE as int)
    }
}

pub open spec fn normalize_spec(v: Vec3) -> Vec3 {
    Vec3 {
        x: unit_component(v.x as int, length_spec(v)) as i64,
        y: unit_component(v.y as int, length_spec(v)) as i64,
        z: unit_component(v.z as int, length_spec(v)) as i64,
    }
}

/// `v` rotated by `angle` about the unit axis `k` (Rodrigues' formula):
/// `v cos + (k x v) sin + k (k . v)(1 - cos)`.
pub open spec fn rotate_about_spec(v: Vec3, angle: int, k: Vec3) -> Vec3 {
    let c = cos_spec(angle);
    add3_spec(
        scaled_spec(v, c),
        scaled_spec(cross_spec(k, v), sin_spec(angle)),
        scaled_spec(k, smul_spec(dot_spec(k, v), ONE - c)),
    )
}

fn sub3(a: &Vec3, b: &Vec3) -> (r: Vec3)
    requires
        -SAT <= b.x && -SAT <= b.y && -SAT <= b.z,
    ensures
        r == sub_spec(*a, *b),
{
    Vec3 { x: sadd(a.x, -b.x), y: sadd(a.y, -b.y), z: sadd(a.z, -b.z) }
}

fn scaled(v: &Vec3, k: i64) -> (r: Vec3)
    ensures
        r == scaled_spec(*v, k as int),
{
    Vec3 { x: smul(v.x, k), y: smul(v.y, k), z: smul(v.z, k) }
}

fn add3(a: &Vec3, b: &Vec3, c: &Vec3) -> (r: Vec3)
    ensures
        r == add3_spec(*a, *b, *c),
{
    Vec3 { x: sadd(sadd(a.x, b.x), c.x), y: sadd(sadd(a.y, b.y), c.y), z: sadd(sadd(a.z, b.z), c.z) }
}

fn cross(a: &Vec3, b: &Vec3) -> (r: Vec3)
    ensures
        r == cross_spec(*a, *b),
{
    Vec3 {
        x: sadd(smul(a.y, b.z), -smul(a.z, b.y)),
        y: sadd(smul(a.z, b.x), -smul(a.x, b.z)),
        z: sadd(smul(a.x, b.y), -smul(a.y, b.x)),
    }
}

fn dot(a: &Vec3, b: &Vec3) -> (r: i64)
    ensures
        r as int == dot_spec(*a, *b),
{
    sadd(sadd(smul(a.x, b.x), smul(a.y, b.y)), smul(a.z, b.z))
}

fn length(v: &Vec3) -> (r: u64)
    requires
        -SAT <= v.x <= SAT,
        -SAT <= v.y <= SAT,
        -SAT <= v.z <= SAT,
    ensures
        r as int == length_spec(*v),
        (r as int) * (r as int) <= v.x * v.x + v.y * v.y + v.z * v.z,
{
    let (x, y, z) = (v.x as i128, v.y as i128, v.z as i128);
    assert(0 <= x * x <= SAT * SAT) by (nonlinear_arith)
        requires -SAT <= x <= SAT;
    assert(0 <= y * y <= SAT * SAT) by (nonlinear_arith)
        requires -SAT <= y <= SAT;
    assert(0 <= z * z <= SAT * SAT) by (nonlinear_arith)
        requires -SAT <= z <= SAT;
    isqrt((x * x + y * y + z * z) as u128)
}

fn unit(c: i64, len: u64) -> (r: i64)
    ensures
        r as int == unit_component(c as int, len as int),
{
    if len == 0 {
        return 0;
    }
    assert(-0x8000_0000_0000_0000 * ONE <= c * ONE <= 0x8000_0000_0000_0000 * ONE) by (nonlinear_arith)
        requires -0x8000_0000_0000_0000 <= c <= 0x7fff_ffff_ffff_ffff;
    let q = div_floor((c as i128) * (ONE as i128), len as i128);
    if q < -(ONE as i128) {
        -ONE
    } else if q > ONE as i128 {
        ONE
    } else {
        q as i64
    }
}

fn normalize(v: &Vec3) -> (r: Vec3)
    requires
        -SAT <= v.x <= SAT,
        -SAT <= v.y <= SAT,
        -SAT <= v.z <= SAT,
    ensures
        r == normalize_spec(*v),
{
    let len = length(v);
    Vec3 { x: unit(v.x, len), y: unit(v.y, len), z: unit(v.z, len) }
}

fn rotate_about(v: &Vec3, angle: i64, k: &Vec3) -> (r: Vec3)
    ensures
        r == rotate_about_spec(*v, angle as int, *k),
{
    let c = cos_fixed(angle);
    let a = scaled(v, c);
    let b = scaled(&cross(k, v), sin_fixed(angle));
    let d = scaled(k, smul(dot(k, v), ONE - c));
    add3(&a, &b, &d)
}

/// The look-at point after turning the view by `direction.x * 0.05` about
/// the vertical axis and `direction.y * 0.05` about the camera's right axis,
/// at the same distance from the eye.
pub open spec fn moved_center_spec(eye: Vec3, center: Vec3, up: Vec3, direction: Vec3) -> Vec3 {
    let radius_vector = sub_spec(center, eye);
    let radius = length_spec(radius_vector);
    let rotated = rotate_about_spec(radius_vector, smul_spec(direction.x as int, 50_000), Vec3 { x: 0, y: ONE, z: 0 });
    let right = normalize_spec(cross_spec(rotated, up));
    let turned = rotate_about_spec(rotated, smul_spec(direction.y as int, 50_000), right);
    let n = normalize_spec(turned);
    Vec3 {
        x: step_spec(eye.x as int, smul_spec(n.x as int, radius)) as i64,
        y: step_spec(eye.y as int, smul_spec(n.y as int, radius)) as i64,
        z: step_spec(eye.z as int, smul_spec(n.z as int, radius)) as i64,
    }
}

/// Turning by a zero angle leaves a vector as it is.
pub proof fn lemma_rotate_about_zero(v: Vec3, k: Vec3)
    requires
        -SAT <= v.x <= SAT,
        -SAT <= v.y <= SAT,
        -SAT <= v.z <= SAT,
    ensures
        rotate_about_spec(v, 0, k) == v,
        rotate_y_spec(v, 0) == v,
{
    crate::trig::lemma_trig_at_zero();
    crate::linalg::lemma_mul_one_div(v.x as int);
    crate::linalg::lemma_mul_one_div(v.y as int);
    crate::linalg::lemma_mul_one_div(v.z as int);
    assert(smul_spec(dot_spec(k, v), 0) == 0);
}

/// Orbiting by a zero angle leaves the eye where it is.
pub proof fn lemma_orbit_zero_angle(eye: Vec3, center: Vec3)
    requires
        eye.wf(),
        center.wf(),
    ensures
        orbit_spec(eye, center, 0) == eye,
{
    let rel = Vec3 {
        x: sadd_spec(eye.x as int, -center.x) as i64,
        y: sadd_spec(eye.y as int, -center.y) as i64,
        z: sadd_spec(eye.z as int, -center.z) as i64,
    };
    crate::trig::lemma_trig_at_zero();
    crate::linalg::lemma_mul_one_div(rel.x as int);
    crate::linalg::lemma_mul_one_div(rel.z as int);
    crate::linalg::lemma_mul_one_div(-rel.x);
    assert(rotate_y_spec(rel, 0) == rel);
}

/// A zero direction turns nothing: the look-at point is put back along the
/// same radius vector at the same length, so it moves only by the rounding of
/// that vector to a unit one.
pub proof fn lemma_move_center_zero(eye: Vec3, center: Vec3, up: Vec3)
    requires
        eye.wf(),
        center.wf(),
    ensures
        ({
            let rv = sub_spec(center, eye);
            let n = normalize_spec(rv);
            moved_center_spec(eye, center, up, Vec3 { x: 0, y: 0, z: 0 }) == (Vec3 {
                x: step_spec(eye.x as int, smul_spec(n.x as int, length_spec(rv))) as i64,
                y: step_spec(eye.y as int, smul_spec(n.y as int, length_spec(rv))) as i64,
                z: step_spec(eye.z as int, smul_spec(n.z as int, length_spec(rv))) as i64,
            })
        }),
{
    let rv = sub_spec(center, eye);
    assert(smul_spec(0, 50_000) == 0);
    lemma_rotate_about_zero(rv, Vec3 { x: 0, y: ONE, z: 0 });
    lemma_rotate_about_zero(rv, normalize_spec(cross_spec(rv, up)));
}

impl Camera {
    pub fn new(eye: Vec3, center: Vec3, up: Vec3) -> (c: Camera)
        ensures
            c == (Camera { eye, center, up, has_changed: true }),
    {
        Camera { eye, center, up, has_changed: true }
    }

    /// Places the camera behind and above the ship, looking at it.
    pub fn follow_spaceship(&mut self, spaceship: &Spaceship)
        ensures
            final(self).eye == (Vec3 {
                y: step_spec(spaceship.position.y as int, FOLLOW_HEIGHT as int) as i64,
                ..advance_spec(spaceship.position, spaceship.rotation.y as int, -FOLLOW_DISTANCE)
            }),
            final(self).center == spaceship.position,
            final(self).up == old(self).up,
            final(self).has_changed,
    {
        let back = crate::spaceship::advance(&spaceship.position, spaceship.rotation.y, -FOLLOW_DISTANCE);
        self.eye = Vec3 { y: step(spaceship.position.y, FOLLOW_HEIGHT), ..back };
        self.center = spaceship.position;
        self.has_changed = true;
    }
}

impl Camera {
    /// Turns the view direction while keeping the eye in place.
    pub fn move_center(&mut self, direction: Vec3)
        requires
            old(self).eye.wf(),
            old(self).center.wf(),
        ensures
            final(self).center == moved_center_spec(old(self).eye, old(self).center, old(self).up, direction),
            final(self).eye == old(self).eye,
            final(self).up == old(self).up,
            final(self).has_changed,
    {
        let radius_vector = sub3(&self.center, &self.eye);
        let radius = length(&radius_vector);
        proof {
            assert(radius <= 0x1_0000_0000_0000) by {
                let (x, y, z) = (radius_vector.x as int, radius_vector.y as int, radius_vector.z as int);
                assert(x * x + y * y + z * z <= 3 * 0x200_0000_0000 * 0x200_0000_0000) by (nonlinear_arith)
                    requires -0x200_0000_0000 <= x <= 0x200_0000_0000, -0x200_0000_0000 <= y <= 0x200_0000_0000,
                        -0x200_0000_0000 <= z <= 0x200_0000_0000;
                assert((radius as int) * (radius as int) <= 3 * 0x200_0000_0000 * 0x200_0000_0000);
                assert(radius <= 0x1_0000_0000_0000) by (nonlinear_arith)
                    requires (radius as int) * (radius as int) <= 3 * 0x200_0000_0000 * 0x200_0000_0000, radius >= 0;
            }
        }
        let rotated = rotate_about(&radius_vector, smul(direction.x, 50_000), &Vec3 { x: 0, y: ONE, z: 0 });
        let right = normalize(&cross(&rotated, &self.up));
        let turned = rotate_about(&rotated, smul(direction.y, 50_000), &right);
        let n = normalize(&turned);
        let r = radius as i64;
        self.center = Vec3 {
            x: step(self.eye.x, smul(n.x, r)),
            y: step(self.eye.y, smul(n.y, r)),
            z: step(self.eye.z, smul(n.z, r)),
        };
        self.has_changed = true;
    }
}

/// Points the camera at the ship.
pub fn update_camera(camera: &mut Camera, spaceship: &Spaceship)
    ensures
        final(camera).center == spaceship.position,
        final(camera).eye == old(camera).eye,
        final(camera).up == old(camera).up,
        final(camera).has_changed == old(camera).has_changed,
{
    camera.center = spaceship.position;
}

/// The discrete intents of one frame.
#[derive(Clone, Copy, Debug, PartialEq, Eq, Structural)]
pub struct Intents {
    pub forward: bool,
    pub backward: bool,
    pub left: bool,
    pub right: bool,
}

/// How far the ship moves per frame.
pub const MOVEMENT_SPEED: i64 = 500_000;
/// How far the ship and the camera turn per frame.
pub const ROTATION_SPEED: i64 = 600_000;

/// The heading after a frame's turns.
pub open spec fn heading_after(ry: int, i: Intents) -> int {
    let a = if i.left {
        sadd_spec(ry, -ROTATION_SPEED)
    } else {
        ry
    };
    if i.right {
        sadd_spec(a, ROTATION_SPEED as int)
    } else {
        a
    }
}

/// The camera eye after a frame's turns about the ship's position `p`.
pub open spec fn eye_after(eye: Vec3, p: Vec3, i: Intents) -> Vec3 {
    let e = if i.left {
        orbit_spec(eye, p, ROTATION_SPEED as int)
    } else {
        eye
    };
    if i.right {
        orbit_spec(e, p, -ROTATION_SPEED)
    } else {
        e
    }
}

/// The ship's position after a frame's moves, along the new heading.
pub open spec fn position_after(p: Vec3, heading: int, i: Intents) -> Vec3 {
    let q = if i.forward {
        advance_spec(p, heading, MOVEMENT_SPEED as int)
    } else {
        p
    };
    if i.backward {
        advance_spec(q, heading, -MOVEMENT_SPEED)
    } else {
        q
    }
}

/// One frame of steering: turning swings the ship and the camera about the
/// ship together, moving follows the new heading, and the camera then looks
/// at the ship.
pub fn handle_input(intents: &Intents, spaceship: &mut Spaceship, camera: &mut Camera)
    requires
        old(spaceship).position.wf(),
        old(camera).eye.wf(),
    ensures
        final(spaceship).rotation == (Vec3 {
            y: heading_after(old(spaceship).rotation.y as int, *intents) as i64,
            ..old(spaceship).rotation
        }),
        final(camera).eye == eye_after(old(camera).eye, old(spaceship).position, *intents),
        final(spaceship).position == position_after(
            old(spaceship).position,
            heading_after(old(spaceship).rotation.y as int, *intents),
            *intents,
        ),
        final(camera).center == final(spaceship).position,
        final(camera).up == old(camera).up,
        final(camera).has_changed == old(camera).has_changed,
        final(spaceship).scale == old(spaceship).scale,
        final(spaceship).shader == old(spaceship).shader,
        final(spaceship).vertices@ == old(spaceship).vertices@,
{
    if intents.left {
        spaceship.rotate_left(ROTATION_SPEED);
    }
    if intents.right {
        spaceship.rotate_right(ROTATION_SPEED);
    }
    if intents.left {
        rotate_camera_around(&mut camera.eye, spaceship.position, ROTATION_SPEED);
    }
    if intents.right {
        rotate_camera_around(&mut camera.eye, spaceship.position, -ROTATION_SPEED);
    }
    if intents.forward {
        spaceship.move_forward(MOVEMENT_SPEED);
    }
    if intents.backward {
        spaceship.move_backward(MOVEMENT_SPEED);
    }
    update_camera(camera, spaceship);
}

} // verus!
