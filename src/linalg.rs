//! Fixed-point vectors and 4x4 matrices.
use vstd::prelude::*;
use crate::fixed::{ONE, COORD_MAX, fdiv, div_floor, in_coord_range};

verus! {

#[derive(Clone, Copy, Debug, PartialEq, Eq, Structural)]
pub struct Vec3 {
    pub x: i64,
    pub y: i64,
    pub z: i64,
}

#[derive(Clone, Copy, Debug, PartialEq, Eq, Structural)]
pub struct Vec2 {
    pub x: i64,
    pub y: i64,
}

#[derive(Clone, Copy, Debug, PartialEq, Eq, Structural)]
pub struct Vec4 {
    pub x: i64,
    pub y: i64,
    pub z: i64,
    pub w: i64,
}

/// A 4x4 matrix of fixed-point entries, row by row.
#[derive(Clone, Copy, Debug)]
pub struct Mat4 {
    pub m: [i64; 16],
}

impl Vec3 {
    pub open spec fn wf(self) -> bool {
        in_coord_range(self.x as int) && in_coord_range(self.y as int) && in_coord_range(self.z as int)
    }

    pub fn new(x: i64, y: i64, z: i64) -> (v: Vec3)
        ensures
            v == (Vec3 { x, y, z }),
    {
        Vec3 { x, y, z }
    }

    /// The point in homogeneous coordinates, with `w` equal to one.
    pub fn to_point(&self) -> (v: Vec4)
        ensures
            v == (Vec4 { x: self.x, y: self.y, z: self.z, w: ONE }),
    {
        Vec4 { x: self.x, y: self.y, z: self.z, w: ONE }
    }
}

impl Vec4 {
    pub open spec fn wf(self) -> bool {
        in_coord_range(self.x as int) && in_coord_range(self.y as int) && in_coord_range(self.z as int)
            && in_coord_range(self.w as int)
    }
}

pub open spec fn entry(m: Mat4, i: int, j: int) -> int {
    m.m@[4 * i + j] as int
}

/// Row `i` of `m` dotted with `v`, before rescaling.
pub open spec fn row_dot(m: Mat4, i: int, v: Vec4) -> int {
    entry(m, i, 0) * (v.x as int) + entry(m, i, 1) * (v.y as int) + entry(m, i, 2) * (v.z as int)
        + entry(m, i, 3) * (v.w as int)
}

/// Component `i` of the product `m * v`, rounded down.
pub open spec fn mat_vec(m: Mat4, i: int, v: Vec4) -> int {
    fdiv(row_dot(m, i, v), ONE as int)
}

pub open spec fn mat_vec_fits(m: Mat4, v: Vec4) -> bool {
    in_coord_range(mat_vec(m, 0, v)) && in_coord_range(mat_vec(m, 1, v)) && in_coord_range(mat_vec(m, 2, v))
        && in_coord_range(mat_vec(m, 3, v))
}

pub open spec fn mat_vec_spec(m: Mat4, v: Vec4) -> Vec4 {
    Vec4 {
        x: mat_vec(m, 0, v) as i64,
        y: mat_vec(m, 1, v) as i64,
        z: mat_vec(m, 2, v) as i64,
        w: mat_vec(m, 3, v) as i64,
    }
}

pub open spec fn identity_spec(m: Mat4) -> bool {
    forall|i: int, j: int| 0 <= i < 4 && 0 <= j < 4 ==> #[trigger] entry(m, i, j) == if i == j {
        ONE as int
    } else {
        0
    }
}

proof fn lemma_product_bound(a: int, b: int)
    requires
        in_coord_range(a),
        in_coord_range(b),
    ensures
        -0x1_0000_0000_0000_0000_0000 <= a * b <= 0x1_0000_0000_0000_0000_0000,
{
    assert(-0x1_0000_0000_0000_0000_0000 <= a * b <= 0x1_0000_0000_0000_0000_0000) by (nonlinear_arith)
        requires -0x100_0000_0000 <= a <= 0x100_0000_0000, -0x100_0000_0000 <= b <= 0x100_0000_0000;
}

impl Mat4 {
    pub open spec fn wf(self) -> bool {
        forall|k: int| 0 <= k < 16 ==> in_coord_range(#[trigger] self.m@[k] as int)
    }

    pub fn new(m: [i64; 16]) -> (r: Mat4)
        ensures
            r.m@ == m@,
    {
        Mat4 { m }
    }

    pub fn identity() -> (r: Mat4)
        ensures
            identity_spec(r),
            r.wf(),
    {
        let r = Mat4 { m: [ONE, 0, 0, 0, 0, ONE, 0, 0, 0, 0, ONE, 0, 0, 0, 0, ONE] };
        assert(r.m@ =~= seq![ONE, 0, 0, 0, 0, ONE, 0, 0, 0, 0, ONE, 0, 0, 0, 0, ONE]);
        r
    }

    fn row_product(&self, i: usize, v: &Vec4) -> (r: i128)
        requires
            self.wf(),
            v.wf(),
            i < 4,
        ensures
            r as int == row_dot(*self, i as int, *v),
            -0x4_0000_0000_0000_0000_0000 <= r <= 0x4_0000_0000_0000_0000_0000,
    {
        let a0 = self.m[4 * i];
        let a1 = self.m[4 * i + 1];
        let a2 = self.m[4 * i + 2];
        let a3 = self.m[4 * i + 3];
        proof {
            assert(in_coord_range(self.m@[4 * i as int] as int));
            assert(in_coord_range(self.m@[4 * i as int + 1] as int));
            assert(in_coord_range(self.m@[4 * i as int + 2] as int));
            assert(in_coord_range(self.m@[4 * i as int + 3] as int));
            lemma_product_bound(a0 as int, v.x as int);
            lemma_product_bound(a1 as int, v.y as int);
            lemma_product_bound(a2 as int, v.z as int);
            lemma_product_bound(a3 as int, v.w as int);
        }
        (a0 as i128) * (v.x as i128) + (a1 as i128) * (v.y as i128) + (a2 as i128) * (v.z as i128)
            + (a3 as i128) * (v.w as i128)
    }

    /// The product `self * v`, or `None` where a component leaves the coordinate range.
    pub fn mul_vec(&self, v: &Vec4) -> (r: Option<Vec4>)
        requires
            self.wf(),
            v.wf(),
        ensures
            r == if mat_vec_fits(*self, *v) {
                Some(mat_vec_spec(*self, *v))
            } else {
                None::<Vec4>
            },
            r.is_some() ==> r.unwrap().wf(),
    {
        let x = div_floor(self.row_product(0, v), ONE as i128);
        let y = div_floor(self.row_product(1, v), ONE as i128);
        let z = div_floor(self.row_product(2, v), ONE as i128);
        let w = div_floor(self.row_product(3, v), ONE as i128);
        let lim = COORD_MAX as i128;
        if -lim <= x && x <= lim && -lim <= y && y <= lim && -lim <= z && z <= lim && -lim <= w && w <= lim {
            Some(Vec4 { x: x as i64, y: y as i64, z: z as i64, w: w as i64 })
        } else {
            None
        }
    }
}

/// Multiplying by an identity matrix gives back the vector.
pub proof fn lemma_identity_mul_vec(m: Mat4, v: Vec4)
    requires
        identity_spec(m),
        v.wf(),
    ensures
        mat_vec_fits(m, v),
        mat_vec_spec(m, v) == v,
{
    assert(entry(m, 0, 0) == ONE && entry(m, 0, 1) == 0 && entry(m, 0, 2) == 0 && entry(m, 0, 3) == 0);
    assert(entry(m, 1, 0) == 0 && entry(m, 1, 1) == ONE && entry(m, 1, 2) == 0 && entry(m, 1, 3) == 0);
    assert(entry(m, 2, 0) == 0 && entry(m, 2, 1) == 0 && entry(m, 2, 2) == ONE && entry(m, 2, 3) == 0);
    assert(entry(m, 3, 0) == 0 && entry(m, 3, 1) == 0 && entry(m, 3, 2) == 0 && entry(m, 3, 3) == ONE);
    lemma_mul_one_div(v.x as int);
    lemma_mul_one_div(v.y as int);
    lemma_mul_one_div(v.z as int);
    lemma_mul_one_div(v.w as int);
}

/// Scaling by one and dividing by one gives the value back.
pub proof fn lemma_mul_one_div(a: int)
    ensures
        fdiv(ONE * a, ONE as int) == a,
        fdiv(a * ONE, ONE as int) == a,
{
    vstd::arithmetic::div_mod::lemma_div_multiples_vanish(a, ONE as int);
    assert(ONE * a == a * ONE) by (nonlinear_arith);
}

} // verus!
