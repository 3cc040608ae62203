//! Whole-object rejection against the view volume.
use vstd::prelude::*;
use crate::fixed::{ONE, fmul, fmul_spec, abs};
use crate::linalg::{Vec3, Vec4, Mat4, mat_vec_fits, mat_vec_spec};

verus! {

/// The slack added to the unit view volume: one and a half times the scale.
pub const MARGIN_FACTOR: i64 = 1_500_000;

/// Clip-space position of a world point, `projection * (view * p)`, when every
/// intermediate value stays in the coordinate range.
pub open spec fn clip_of(position: Vec3, view: Mat4, projection: Mat4) -> Option<Vec4> {
    let p = Vec4 { x: position.x, y: position.y, z: position.z, w: ONE };
    if mat_vec_fits(view, p) {
        let e = mat_vec_spec(view, p);
        if mat_vec_fits(projection, e) {
            Some(mat_vec_spec(projection, e))
        } else {
            None
        }
    } else {
        None
    }
}

pub open spec fn margin_of(scale: int) -> int {
    fmul_spec(scale, MARGIN_FACTOR as int)
}

/// `|c / w| <= 1 + margin`, compared without dividing.
pub open spec fn within(c: int, w: int, margin: int) -> bool {
    abs(c) * (ONE as int) <= (ONE + margin) * abs(w)
}

/// A clip-space point lies in the view volume widened by `margin`: its
/// normalized coordinates have magnitude at most `1 + margin`.
pub open spec fn in_volume(c: Vec4, margin: int) -> bool {
    c.w != 0 && within(c.x as int, c.w as int, margin) && within(c.y as int, c.w as int, margin) && within(
        c.z as int,
        c.w as int,
        margin,
    )
}

pub open spec fn visible_spec(position: Vec3, scale: int, view: Mat4, projection: Mat4) -> bool {
    match clip_of(position, view, projection) {
        Some(c) => in_volume(c, margin_of(scale)),
        None => false,
    }
}

fn within_exec(c: i64, w: i64, margin: i128) -> (r: bool)
    requires
        -0x1_0000_0000_0000_0000_0000 <= margin <= 0x1_0000_0000_0000_0000_0000,
        -0x100_0000_0000 <= c <= 0x100_0000_0000,
        -0x100_0000_0000 <= w <= 0x100_0000_0000,
    ensures
        r == within(c as int, w as int, margin as int),
{
    let ac: i128 = if c < 0 { -(c as i128) } else { c as i128 };
    let aw: i128 = if w < 0 { -(w as i128) } else { w as i128 };
    let t: i128 = (ONE as i128) + margin;
    assert(-0x200_0000_0000_0000_0000_0000_0000_0000 <= t * aw <= 0x200_0000_0000_0000_0000_0000_0000_0000)
        by (nonlinear_arith)
        requires -0x2_0000_0000_0000_0000_0000 <= t <= 0x2_0000_0000_0000_0000_0000, 0 <= aw <= 0x100_0000_0000;
    assert(ac * ONE <= 0x100_0000_0000 * ONE) by (nonlinear_arith) requires 0 <= ac <= 0x100_0000_0000;
    ac * (ONE as i128) <= t * aw
}

/// Whether an object at `position` with the given scale may show on screen.
///
/// The position goes through `view` and then `projection`; the object is kept
/// when each normalized coordinate has magnitude at most `1 + 1.5 * scale`.
/// A zero `w`, or a position that leaves the coordinate range, is rejected.
pub fn frustum_culling(position: &Vec3, scale: i64, view_matrix: &Mat4, projection_matrix: &Mat4) -> (r: bool)
    requires
        position.wf(),
        view_matrix.wf(),
        projection_matrix.wf(),
    ensures
        r == visible_spec(*position, scale as int, *view_matrix, *projection_matrix),
{
    let world = position.to_point();
    let eye = match view_matrix.mul_vec(&world) {
        Some(e) => e,
        None => return false,
    };
    let clip = match projection_matrix.mul_vec(&eye) {
        Some(c) => c,
        None => return false,
    };
    let margin: i128 = fmul(scale, MARGIN_FACTOR);
    proof {
        assert(-0x1_0000_0000_0000_0000_0000 <= margin <= 0x1_0000_0000_0000_0000_0000) by {
            let s = scale as int;
            assert(-0x8000_0000_0000_0000 * MARGIN_FACTOR <= s * MARGIN_FACTOR <= 0x8000_0000_0000_0000 * MARGIN_FACTOR)
                by (nonlinear_arith) requires -0x8000_0000_0000_0000 <= s < 0x8000_0000_0000_0000;
            crate::fixed::lemma_div_between(
                s * MARGIN_FACTOR,
                -0x1_0000_0000_0000_0000_0000,
                0x1_0000_0000_0000_0000_0000,
                ONE as int,
            );
        }
    }
    if clip.w == 0 {
        return false;
    }
    within_exec(clip.x, clip.w, margin) && within_exec(clip.y, clip.w, margin) && within_exec(clip.z, clip.w, margin)
}

/// A point whose clip-space `w` is zero is never reported visible.
pub proof fn lemma_zero_w_not_visible(position: Vec3, scale: int, view: Mat4, projection: Mat4)
    requires
        clip_of(position, view, projection) matches Some(c) && c.w == 0,
    ensures
        !visible_spec(position, scale, view, projection),
{
}

/// An object of scale zero that projects onto the centre of the screen
/// (clip-space `x` and `y` zero) at a depth inside the depth range is visible.
pub proof fn lemma_centered_point_visible(position: Vec3, view: Mat4, projection: Mat4)
    requires
        clip_of(position, view, projection) matches Some(c) && c.x == 0 && c.y == 0 && c.w != 0 && abs(
            c.z as int,
        ) <= abs(c.w as int),
    ensures
        visible_spec(position, 0, view, projection),
{
    assert(margin_of(0) == 0);
    let c = clip_of(position, view, projection).unwrap();
    assert(abs(c.z as int) * ONE <= ONE * abs(c.w as int)) by (nonlinear_arith)
        requires abs(c.z as int) <= abs(c.w as int);
}

/// An object whose normalized depth lies beyond `1 + 1.5 * scale` (past the
/// far plane or before the near one, with the margin) is culled.
pub proof fn lemma_beyond_depth_range_culled(position: Vec3, scale: int, view: Mat4, projection: Mat4)
    requires
        clip_of(position, view, projection) matches Some(c) && abs(c.z as int) * ONE > (ONE + margin_of(scale))
            * abs(c.w as int),
    ensures
        !visible_spec(position, scale, view, projection),
{
}

} // verus!
