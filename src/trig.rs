//! Fixed-point sine, cosine and two-argument arctangent.
//!
//! Sine and cosine reduce the angle to within pi/4 of a quarter turn and use
//! the Taylor polynomials of degree seven and eight there; the arctangent is the approximation
//! `z * (pi/4 + 0.273 * (1 - |z|))` on [-1, 1], extended by quadrant.
use vstd::prelude::*;
use crate::fixed::{ONE, fdiv, clamp, abs, smul, smul_spec, sadd, sadd_spec, div_floor};
use vstd::arithmetic::div_mod::{lemma_fundamental_div_mod, lemma_fundamental_div_mod_converse_mod};

verus! {

pub const PI: i64 = 3_141_593;
pub const HALF_PI: i64 = 1_570_796;
pub const TWO_PI: i64 = 6_283_185;

pub const QUARTER_PI: i64 = 785_398;

/// The quarter turn nearest to the angle, from 0 to 4, once the angle is
/// taken modulo two pi.
pub open spec fn quadrant_spec(x: int) -> int {
    fdiv(x % (TWO_PI as int) + QUARTER_PI, HALF_PI as int)
}

/// What is left of the angle after that quarter turn, within about pi/4.
pub open spec fn offset_spec(x: int) -> int {
    x % (TWO_PI as int) - quadrant_spec(x) * HALF_PI
}

/// The degree-seven Taylor polynomial of the sine, held to [-1, 1].
pub open spec fn sin_poly(r: int) -> int {
    let r2 = smul_spec(r, r);
    let r3 = smul_spec(r2, r);
    let r4 = smul_spec(r2, r2);
    let r5 = smul_spec(r4, r);
    let r6 = smul_spec(r4, r2);
    let r7 = smul_spec(r6, r);
    clamp(r - fdiv(r3, 6) + fdiv(r5, 120) - fdiv(r7, 5040), -ONE as int, ONE as int)
}

/// The degree-eight Taylor polynomial of the cosine, held to [-1, 1].
pub open spec fn cos_poly(r: int) -> int {
    let r2 = smul_spec(r, r);
    let r4 = smul_spec(r2, r2);
    let r6 = smul_spec(r4, r2);
    let r8 = smul_spec(r4, r4);
    clamp(ONE - fdiv(r2, 2) + fdiv(r4, 24) - fdiv(r6, 720) + fdiv(r8, 40320), -ONE as int, ONE as int)
}

pub open spec fn sin_spec(x: int) -> int {
    let q = quadrant_spec(x);
    let r = offset_spec(x);
    if q == 1 {
        cos_poly(r)
    } else if q == 2 {
        -sin_poly(r)
    } else if q == 3 {
        -cos_poly(r)
    } else {
        sin_poly(r)
    }
}

pub open spec fn cos_spec(x: int) -> int {
    let q = quadrant_spec(x);
    let r = offset_spec(x);
    if q == 1 {
        -sin_poly(r)
    } else if q == 2 {
        -cos_poly(r)
    } else if q == 3 {
        sin_poly(r)
    } else {
        cos_poly(r)
    }
}

/// The sine of zero is zero and its cosine is one, exactly; so is the sine
/// of a quarter turn.
pub proof fn lemma_trig_at_zero()
    ensures
        sin_spec(0) == 0,
        cos_spec(0) == ONE,
        sin_spec(HALF_PI as int) == ONE,
        cos_spec(HALF_PI as int) == 0,
{
    assert(0int % (TWO_PI as int) == 0);
    assert(quadrant_spec(0) == 0);
    assert(offset_spec(0) == 0);
    assert((HALF_PI as int) % (TWO_PI as int) == HALF_PI);
    assert(quadrant_spec(HALF_PI as int) == 1);
    assert(offset_spec(HALF_PI as int) == 0);
}

/// Arctangent of `z` in [-1, 1]: `z * (pi/4 + 0.273 * (1 - |z|))`.
pub open spec fn atan_unit_spec(z: int) -> int {
    sadd_spec(smul_spec(z, 785_398), smul_spec(smul_spec(z, 273_000), ONE - abs(z)))
}

/// The angle of the point `(x, y)`, in (-pi, pi]; zero at the origin.
pub open spec fn atan2_spec(y: int, x: int) -> int {
    if x == 0 && y == 0 {
        0
    } else if abs(x) >= abs(y) {
        let a = atan_unit_spec(clamp(fdiv(y * ONE, x), -ONE as int, ONE as int));
        if x > 0 {
            a
        } else if y >= 0 {
            a + PI
        } else {
            a - PI
        }
    } else {
        let a = atan_unit_spec(clamp(fdiv(x * ONE, y), -ONE as int, ONE as int));
        if y > 0 {
            HALF_PI - a
        } else {
            -HALF_PI - a
        }
    }
}

fn reduce(x: i64) -> (r: (i64, i64))
    ensures
        r.0 as int == quadrant_spec(x as int),
        r.1 as int == offset_spec(x as int),
{
    let q: i128 = div_floor(x as i128, TWO_PI as i128);
    proof {
        lemma_fundamental_div_mod(x as int, TWO_PI as int);
        assert(q == (x as int) / (TWO_PI as int));
    }
    let t: i128 = (x as i128) - q * (TWO_PI as i128);
    proof {
        lemma_fundamental_div_mod_converse_mod(x as int, TWO_PI as int, q as int, (x as int) % (TWO_PI as int));
        assert(t == (x as int) % (TWO_PI as int));
    }
    let quad: i128 = div_floor(t + QUARTER_PI as i128, HALF_PI as i128);
    proof {
        crate::fixed::lemma_div_between(t + QUARTER_PI, 0, 5, HALF_PI as int);
    }
    let off: i128 = t - quad * (HALF_PI as i128);
    (quad as i64, off as i64)
}

fn div_small(a: i64, d: i64) -> (r: i64)
    requires
        d > 0,
    ensures
        r as int == fdiv(a as int, d as int),
{
    proof {
        crate::fixed::lemma_div_between(a as int, -0x8000_0000_0000_0000, 0x7fff_ffff_ffff_ffff, d as int);
    }
    div_floor(a as i128, d as i128) as i64
}

fn sin_poly_exec(r: i64) -> (v: i64)
    ensures
        v as int == sin_poly(r as int),
        -ONE <= v <= ONE,
{
    let r2 = smul(r, r);
    let r3 = smul(r2, r);
    let r4 = smul(r2, r2);
    let r5 = smul(r4, r);
    let r6 = smul(r4, r2);
    let r7 = smul(r6, r);
    let v: i128 = (r as i128) - (div_small(r3, 6) as i128) + (div_small(r5, 120) as i128) - (div_small(r7, 5040) as i128);
    if v < -(ONE as i128) {
        -ONE
    } else if v > ONE as i128 {
        ONE
    } else {
        v as i64
    }
}

fn cos_poly_exec(r: i64) -> (v: i64)
    ensures
        v as int == cos_poly(r as int),
        -ONE <= v <= ONE,
{
    let r2 = smul(r, r);
    let r4 = smul(r2, r2);
    let r6 = smul(r4, r2);
    let r8 = smul(r4, r4);
    let v: i128 = (ONE as i128) - (div_small(r2, 2) as i128) + (div_small(r4, 24) as i128) - (div_small(r6, 720) as i128)
        + (div_small(r8, 40320) as i128);
    if v < -(ONE as i128) {
        -ONE
    } else if v > ONE as i128 {
        ONE
    } else {
        v as i64
    }
}

/// Sine of a fixed-point angle in radians.
pub fn sin_fixed(x: i64) -> (r: i64)
    ensures
        r as int == sin_spec(x as int),
        -ONE <= r <= ONE,
{
    let (q, off) = reduce(x);
    if q == 1 {
        cos_poly_exec(off)
    } else if q == 2 {
        -sin_poly_exec(off)
    } else if q == 3 {
        -cos_poly_exec(off)
    } else {
        sin_poly_exec(off)
    }
}

/// Cosine of a fixed-point angle in radians.
pub fn cos_fixed(x: i64) -> (r: i64)
    ensures
        r as int == cos_spec(x as int),
        -ONE <= r <= ONE,
{
    let (q, off) = reduce(x);
    if q == 1 {
        -sin_poly_exec(off)
    } else if q == 2 {
        -cos_poly_exec(off)
    } else if q == 3 {
        sin_poly_exec(off)
    } else {
        cos_poly_exec(off)
    }
}

fn atan_unit(z: i64) -> (r: i64)
    requires
        -ONE <= z <= ONE,
    ensures
        r as int == atan_unit_spec(z as int),
        -2 * ONE <= r <= 2 * ONE,
{
    let az: i64 = if z < 0 { -z } else { z };
    let p = smul(z, 785_398);
    let m = smul(z, 273_000);
    let k: i64 = ONE - az;
    proof {
        assert(-785_398 * ONE <= z * 785_398 <= 785_398 * ONE) by (nonlinear_arith)
            requires -ONE <= z <= ONE;
        crate::fixed::lemma_div_between(z * 785_398, -785_398, 785_398, ONE as int);
        assert(-273_000 * ONE <= z * 273_000 <= 273_000 * ONE) by (nonlinear_arith)
            requires -ONE <= z <= ONE;
        crate::fixed::lemma_div_between(z * 273_000, -273_000, 273_000, ONE as int);
        assert(-273_000 * ONE <= m * k <= 273_000 * ONE) by (nonlinear_arith)
            requires -273_000 <= m <= 273_000, 0 <= k <= ONE;
        crate::fixed::lemma_div_between(m * k, -273_000, 273_000, ONE as int);
    }
    sadd(p, smul(m, k))
}

fn ratio(n: i64, d: i64) -> (r: i64)
    requires
        d != 0,
    ensures
        r as int == clamp(fdiv(n * ONE, d as int), -ONE as int, ONE as int),
{
    assert(-0x8000_0000_0000_0000 * ONE <= n * ONE <= 0x8000_0000_0000_0000 * ONE) by (nonlinear_arith)
        requires -0x8000_0000_0000_0000 <= n <= 0x7fff_ffff_ffff_ffff;
    let q = div_floor((n as i128) * (ONE as i128), d as i128);
    if q < -(ONE as i128) {
        -ONE
    } else if q > ONE as i128 {
        ONE
    } else {
        q as i64
    }
}

/// The angle of the point `(x, y)`, as `f32::atan2` gives it with `y` first.
pub fn atan2_fixed(y: i64, x: i64) -> (r: i64)
    ensures
        r as int == atan2_spec(y as int, x as int),
{
    if x == 0 && y == 0 {
        return 0;
    }
    let ax: i128 = if x < 0 { -(x as i128) } else { x as i128 };
    let ay: i128 = if y < 0 { -(y as i128) } else { y as i128 };
    if ax >= ay {
        let a = atan_unit(ratio(y, x));
        if x > 0 {
            a
        } else if y >= 0 {
            a + PI
        } else {
            a - PI
        }
    } else {
        let a = atan_unit(ratio(x, y));
        if y > 0 {
            HALF_PI - a
        } else {
            -HALF_PI - a
        }
    }
}

} // verus!
