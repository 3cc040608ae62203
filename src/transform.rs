//! The vertex transform stage: model, view, projection, perspective division
//! and viewport, and the normal's inverse-transpose transform.
use vstd::prelude::*;
use crate::fixed::{ONE, COORD_MAX, fdiv, fmul, fmul_spec, div_floor, in_coord_range};
use crate::linalg::{Vec3, Vec4, Mat4, entry, mat_vec_fits, mat_vec_spec, identity_spec, lemma_identity_mul_vec, lemma_mul_one_div};
use crate::vertex::Vertex;

verus! {

/// The read-only bundle of one draw call: the four matrices and the time.
#[derive(Clone, Copy, Debug)]
pub struct Uniforms {
    pub model_matrix: Mat4,
    pub view_matrix: Mat4,
    pub projection_matrix: Mat4,
    pub viewport_matrix: Mat4,
    /// Seconds since start, in fixed point.
    pub time: i64,
}

impl Uniforms {
    pub open spec fn wf(self) -> bool {
        self.model_matrix.wf() && self.view_matrix.wf() && self.projection_matrix.wf() && self.viewport_matrix.wf()
    }
}

/// Largest magnitude of a normal component for which the normal is
/// transformed; beyond it the normal is kept as it is.
pub const NORMAL_MAX: i64 = 16_777_216;

/// `m * v` where both the input and the product are representable.
pub open spec fn apply(m: Mat4, v: Option<Vec4>) -> Option<Vec4> {
    match v {
        Some(u) => if mat_vec_fits(m, u) {
            Some(mat_vec_spec(m, u))
        } else {
            None
        },
        None => None,
    }
}

/// Perspective division: `(x/w, y/w, z/w, 1)`, rounded down, when `w` is
/// nonzero and the quotients are representable.
pub open spec fn divide(c: Vec4) -> Option<Vec4> {
    let x = fdiv(c.x * ONE, c.w as int);
    let y = fdiv(c.y * ONE, c.w as int);
    let z = fdiv(c.z * ONE, c.w as int);
    if c.w != 0 && in_coord_range(x) && in_coord_range(y) && in_coord_range(z) {
        Some(Vec4 { x: x as i64, y: y as i64, z: z as i64, w: ONE })
    } else {
        None
    }
}

/// Clip-space position of a model-space point: `projection * view * model * p`.
pub open spec fn clip_spec(p: Vec3, u: Uniforms) -> Option<Vec4> {
    let h = Vec4 { x: p.x, y: p.y, z: p.z, w: ONE };
    apply(u.projection_matrix, apply(u.view_matrix, apply(u.model_matrix, Some(h))))
}

/// Screen-space position of a model-space point, or `None` where `w` is zero
/// or a value leaves the coordinate range.
pub open spec fn screen_spec(p: Vec3, u: Uniforms) -> Option<Vec3> {
    match clip_spec(p, u) {
        Some(c) => match apply(u.viewport_matrix, divide(c)) {
            Some(s) => Some(Vec3 { x: s.x, y: s.y, z: s.z }),
            None => None,
        },
        None => None,
    }
}

/// Entry `(i, j)` of the 3x3 cofactor matrix of the model's linear part.
pub open spec fn cof(m: Mat4, i: int, j: int) -> int {
    entry(m, (i + 1) % 3, (j + 1) % 3) * entry(m, (i + 2) % 3, (j + 2) % 3) - entry(m, (i + 1) % 3, (j + 2) % 3)
        * entry(m, (i + 2) % 3, (j + 1) % 3)
}

pub open spec fn det3(m: Mat4) -> int {
    entry(m, 0, 0) * cof(m, 0, 0) + entry(m, 0, 1) * cof(m, 0, 1) + entry(m, 0, 2) * cof(m, 0, 2)
}

pub open spec fn small(v: Vec3) -> bool {
    -NORMAL_MAX <= v.x <= NORMAL_MAX && -NORMAL_MAX <= v.y <= NORMAL_MAX && -NORMAL_MAX <= v.z <= NORMAL_MAX
}

/// Component `i` of `cof(m) * n / det(m)`, which is `(m3^T)^-1 * n` for the
/// linear part `m3`, rounded down.
pub open spec fn normal_component(m: Mat4, i: int, n: Vec3) -> int {
    fdiv(ONE * (cof(m, i, 0) * n.x + cof(m, i, 1) * n.y + cof(m, i, 2) * n.z), det3(m))
}

/// The transformed normal; the normal itself where the linear part is
/// singular, where a component of the normal exceeds `NORMAL_MAX`, or where
/// the result leaves the coordinate range.
pub open spec fn normal_spec(m: Mat4, n: Vec3) -> Vec3 {
    let x = normal_component(m, 0, n);
    let y = normal_component(m, 1, n);
    let z = normal_component(m, 2, n);
    if small(n) && det3(m) != 0 && in_coord_range(x) && in_coord_range(y) && in_coord_range(z) {
        Vec3 { x: x as i64, y: y as i64, z: z as i64 }
    } else {
        n
    }
}

fn apply_exec(m: &Mat4, v: Option<Vec4>) -> (r: Option<Vec4>)
    requires
        m.wf(),
        v.is_some() ==> v.unwrap().wf(),
    ensures
        r == apply(*m, v),
        r.is_some() ==> r.unwrap().wf(),
{
    match v {
        Some(u) => m.mul_vec(&u),
        None => None,
    }
}

fn divide_exec(c: &Vec4) -> (r: Option<Vec4>)
    requires
        c.wf(),
    ensures
        r == divide(*c),
        r.is_some() ==> r.unwrap().wf(),
{
    if c.w == 0 {
        return None;
    }
    let w = c.w as i128;
    assert(-COORD_MAX * ONE <= c.x * ONE <= COORD_MAX * ONE) by (nonlinear_arith)
        requires in_coord_range(c.x as int);
    assert(-COORD_MAX * ONE <= c.y * ONE <= COORD_MAX * ONE) by (nonlinear_arith)
        requires in_coord_range(c.y as int);
    assert(-COORD_MAX * ONE <= c.z * ONE <= COORD_MAX * ONE) by (nonlinear_arith)
        requires in_coord_range(c.z as int);
    let x = div_floor((c.x as i128) * (ONE as i128), w);
    let y = div_floor((c.y as i128) * (ONE as i128), w);
    let z = div_floor((c.z as i128) * (ONE as i128), w);
    let lim = COORD_MAX as i128;
    if -lim <= x && x <= lim && -lim <= y && y <= lim && -lim <= z && z <= lim {
        Some(Vec4 { x: x as i64, y: y as i64, z: z as i64, w: ONE })
    } else {
        None
    }
}

/// The screen-space position of `p` under `u`.
pub fn screen_position(p: &Vec3, u: &Uniforms) -> (r: Option<Vec3>)
    requires
        p.wf(),
        u.wf(),
    ensures
        r == screen_spec(*p, *u),
        r.is_some() ==> r.unwrap().wf(),
{
    let h = p.to_point();
    let world = apply_exec(&u.model_matrix, Some(h));
    let eye = apply_exec(&u.view_matrix, world);
    let clip = apply_exec(&u.projection_matrix, eye);
    match clip {
        Some(c) => {
            let ndc = divide_exec(&c);
            match apply_exec(&u.viewport_matrix, ndc) {
                Some(s) => Some(Vec3 { x: s.x, y: s.y, z: s.z }),
                None => None,
            }
        },
        None => None,
    }
}

fn linear_entry(m: &Mat4, i: usize, j: usize) -> (r: i128)
    requires
        i < 3,
        j < 3,
    ensures
        r == entry(*m, i as int, j as int),
{
    m.m[4 * i + j] as i128
}

fn cofactor(m: &Mat4, i: usize, j: usize) -> (r: i128)
    requires
        m.wf(),
        i < 3,
        j < 3,
    ensures
        r == cof(*m, i as int, j as int),
        -0x2_0000_0000_0000_0000_0000 <= r <= 0x2_0000_0000_0000_0000_0000,
{
    let i1 = (i + 1) % 3;
    let i2 = (i + 2) % 3;
    let j1 = (j + 1) % 3;
    let j2 = (j + 2) % 3;
    let a = linear_entry(m, i1, j1);
    let b = linear_entry(m, i2, j2);
    let c = linear_entry(m, i1, j2);
    let d = linear_entry(m, i2, j1);
    assert(in_coord_range(m.m@[4 * i1 + j1] as int));
    assert(in_coord_range(m.m@[4 * i2 + j2] as int));
    assert(in_coord_range(m.m@[4 * i1 + j2] as int));
    assert(in_coord_range(m.m@[4 * i2 + j1] as int));
    assert(-0x1_0000_0000_0000_0000_0000 <= a * b <= 0x1_0000_0000_0000_0000_0000) by (nonlinear_arith)
        requires -COORD_MAX <= a <= COORD_MAX, -COORD_MAX <= b <= COORD_MAX;
    assert(-0x1_0000_0000_0000_0000_0000 <= c * d <= 0x1_0000_0000_0000_0000_0000) by (nonlinear_arith)
        requires -COORD_MAX <= c <= COORD_MAX, -COORD_MAX <= d <= COORD_MAX;
    a * b - c * d
}

proof fn lemma_normal_product(a: int, c: int)
    requires
        -NORMAL_MAX <= a <= NORMAL_MAX,
        -0x2_0000_0000_0000_0000_0000 <= c <= 0x2_0000_0000_0000_0000_0000,
    ensures
        -0x200_0000_0000_0000_0000_0000_0000 <= a * c <= 0x200_0000_0000_0000_0000_0000_0000,
{
    assert(-0x200_0000_0000_0000_0000_0000_0000 <= a * c <= 0x200_0000_0000_0000_0000_0000_0000) by (nonlinear_arith)
        requires -NORMAL_MAX <= a <= NORMAL_MAX, -0x2_0000_0000_0000_0000_0000 <= c <= 0x2_0000_0000_0000_0000_0000;
}

proof fn lemma_entry_product(a: int, c: int)
    requires
        in_coord_range(a),
        -0x2_0000_0000_0000_0000_0000 <= c <= 0x2_0000_0000_0000_0000_0000,
    ensures
        -0x200_0000_0000_0000_0000_0000_0000_0000 <= a * c <= 0x200_0000_0000_0000_0000_0000_0000_0000,
{
    assert(-0x200_0000_0000_0000_0000_0000_0000_0000 <= a * c <= 0x200_0000_0000_0000_0000_0000_0000_0000)
        by (nonlinear_arith)
        requires -COORD_MAX <= a <= COORD_MAX, -0x2_0000_0000_0000_0000_0000 <= c <= 0x2_0000_0000_0000_0000_0000;
}

fn cofactor_row(m: &Mat4, i: usize, n: &Vec3) -> (r: i128)
    requires
        m.wf(),
        small(*n),
        i < 3,
    ensures
        r == ONE * (cof(*m, i as int, 0) * n.x + cof(*m, i as int, 1) * n.y + cof(*m, i as int, 2) * n.z),
{
    let c0 = cofactor(m, i, 0);
    let c1 = cofactor(m, i, 1);
    let c2 = cofactor(m, i, 2);
    proof {
        lemma_normal_product(n.x as int, c0 as int);
        lemma_normal_product(n.y as int, c1 as int);
        lemma_normal_product(n.z as int, c2 as int);
        assert(c0 * n.x == n.x * c0 && c1 * n.y == n.y * c1 && c2 * n.z == n.z * c2) by (nonlinear_arith);
    }
    let s: i128 = c0 * (n.x as i128) + c1 * (n.y as i128) + c2 * (n.z as i128);
    assert(-ONE * 0x600_0000_0000_0000_0000_0000_0000 <= ONE * s <= ONE * 0x600_0000_0000_0000_0000_0000_0000)
        by (nonlinear_arith)
        requires -0x600_0000_0000_0000_0000_0000_0000 <= s <= 0x600_0000_0000_0000_0000_0000_0000;
    (ONE as i128) * s
}

/// The normal transformed by the inverse transpose of the model's linear part.
pub fn transform_normal(m: &Mat4, n: &Vec3) -> (r: Vec3)
    requires
        m.wf(),
        n.wf(),
    ensures
        r == normal_spec(*m, *n),
        r.wf(),
{
    let fits = -NORMAL_MAX <= n.x && n.x <= NORMAL_MAX && -NORMAL_MAX <= n.y && n.y <= NORMAL_MAX && -NORMAL_MAX <= n.z
        && n.z <= NORMAL_MAX;
    if !fits {
        return *n;
    }
    let c0 = cofactor(m, 0, 0);
    let c1 = cofactor(m, 0, 1);
    let c2 = cofactor(m, 0, 2);
    let a0 = linear_entry(m, 0, 0);
    let a1 = linear_entry(m, 0, 1);
    let a2 = linear_entry(m, 0, 2);
    proof {
        assert(in_coord_range(m.m@[0] as int));
        assert(in_coord_range(m.m@[1] as int));
        assert(in_coord_range(m.m@[2] as int));
        lemma_entry_product(a0 as int, c0 as int);
        lemma_entry_product(a1 as int, c1 as int);
        lemma_entry_product(a2 as int, c2 as int);
    }
    let det: i128 = a0 * c0 + a1 * c1 + a2 * c2;
    if det == 0 {
        return *n;
    }
    let x = div_floor(cofactor_row(m, 0, n), det);
    let y = div_floor(cofactor_row(m, 1, n), det);
    let z = div_floor(cofactor_row(m, 2, n), det);
    let lim = COORD_MAX as i128;
    if -lim <= x && x <= lim && -lim <= y && y <= lim && -lim <= z && z <= lim {
        Vec3 { x: x as i64, y: y as i64, z: z as i64 }
    } else {
        *n
    }
}

/// The vertex after the transform stage, or `None` where it has no screen position.
pub open spec fn vertex_shader_spec(vertex: Vertex, uniforms: Uniforms) -> Option<Vertex> {
    match screen_spec(vertex.position, uniforms) {
        Some(s) => Some(
            Vertex {
                transformed_position: s,
                transformed_normal: normal_spec(uniforms.model_matrix, vertex.normal),
                ..vertex
            },
        ),
        None => None,
    }
}

/// The vertex transform stage. The result keeps the model-space fields and
/// carries the screen-space position and the transformed normal; it is `None`
/// where the clip-space `w` is zero or a value leaves the coordinate range.
pub fn vertex_shader(vertex: &Vertex, uniforms: &Uniforms) -> (r: Option<Vertex>)
    requires
        vertex.wf(),
        uniforms.wf(),
    ensures
        r == vertex_shader_spec(*vertex, *uniforms),
        r.is_some() ==> r.unwrap().wf(),
{
    match screen_position(&vertex.position, uniforms) {
        Some(s) => {
            let n = transform_normal(&uniforms.model_matrix, &vertex.normal);
            Some(Vertex { transformed_position: s, transformed_normal: n, ..*vertex })
        },
        None => None,
    }
}

/// With every matrix the identity, the transform gives back the position.
pub proof fn lemma_identity_round_trip(p: Vec3, u: Uniforms)
    requires
        p.wf(),
        identity_spec(u.model_matrix),
        identity_spec(u.view_matrix),
        identity_spec(u.projection_matrix),
        identity_spec(u.viewport_matrix),
    ensures
        screen_spec(p, u) == Some(p),
{
    let h = Vec4 { x: p.x, y: p.y, z: p.z, w: ONE };
    lemma_identity_mul_vec(u.model_matrix, h);
    lemma_identity_mul_vec(u.view_matrix, h);
    lemma_identity_mul_vec(u.projection_matrix, h);
    assert(clip_spec(p, u) == Some(h));
    lemma_mul_one_div(p.x as int);
    lemma_mul_one_div(p.y as int);
    lemma_mul_one_div(p.z as int);
    assert(divide(h) == Some(h));
    lemma_identity_mul_vec(u.viewport_matrix, h);
}

/// The viewport matrix of a `width` by `height` screen: `x` and `y` from
/// [-1, 1] to pixels, with `y` pointing down, and depth kept.
pub fn create_viewport_matrix(width: u32, height: u32) -> (m: Mat4)
    requires
        width <= 1_000_000,
        height <= 1_000_000,
    ensures
        m.wf(),
        m.m@ == seq![
            (width * 500_000) as i64, 0i64, 0i64, (width * 500_000) as i64,
            0i64, (-(height * 500_000)) as i64, 0i64, (height * 500_000) as i64,
            0i64, 0i64, ONE, 0i64,
            0i64, 0i64, 0i64, ONE,
        ],
{
    let hw: i64 = (width as i64) * 500_000;
    let hh: i64 = (height as i64) * 500_000;
    let nh: i64 = -hh;
    let m = Mat4 { m: [hw, 0, 0, hw, 0, nh, 0, hh, 0, 0, ONE, 0, 0, 0, 0, ONE] };
    assert(m.m@ =~= seq![hw, 0i64, 0i64, hw, 0i64, nh, 0i64, hh, 0i64, 0i64, ONE, 0i64, 0i64, 0i64, 0i64, ONE]);
    m
}

/// The model matrix `translation * rotation_y * scaling`, for a rotation about
/// the `y` axis given by its cosine and sine.
pub fn create_model_matrix(translation: &Vec3, scale: i64, cos_angle: i64, sin_angle: i64) -> (m: Mat4)
    requires
        translation.wf(),
        in_coord_range(scale as int),
        -ONE <= cos_angle <= ONE,
        -ONE <= sin_angle <= ONE,
    ensures
        m.wf(),
        m.m@ == seq![
            fmul_spec(scale as int, cos_angle as int) as i64, 0i64, fmul_spec(scale as int, sin_angle as int) as i64, translation.x,
            0i64, scale, 0i64, translation.y,
            (-fmul_spec(scale as int, sin_angle as int)) as i64, 0i64, fmul_spec(scale as int, cos_angle as int) as i64, translation.z,
            0i64, 0i64, 0i64, ONE,
        ],
{
    proof {
        let s = scale as int;
        assert(-COORD_MAX * ONE <= s * cos_angle <= COORD_MAX * ONE) by (nonlinear_arith)
            requires in_coord_range(s), -ONE <= cos_angle <= ONE;
        assert(-COORD_MAX * ONE <= s * sin_angle <= COORD_MAX * ONE) by (nonlinear_arith)
            requires in_coord_range(s), -ONE <= sin_angle <= ONE;
        crate::fixed::lemma_div_between(s * cos_angle, -COORD_MAX as int, COORD_MAX as int, ONE as int);
        crate::fixed::lemma_div_between(s * sin_angle, -COORD_MAX as int, COORD_MAX as int, ONE as int);
    }
    let sc = fmul(scale, cos_angle) as i64;
    let ss = fmul(scale, sin_angle) as i64;
    let ns: i64 = -ss;
    let m = Mat4 {
        m: [sc, 0, ss, translation.x, 0, scale, 0, translation.y, ns, 0, sc, translation.z, 0, 0, 0, ONE],
    };
    assert(m.m@ =~= seq![sc, 0i64, ss, translation.x, 0i64, scale, 0i64, translation.y, ns, 0i64, sc, translation.z, 0i64, 0i64, 0i64, ONE]);
    m
}

} // verus!
