//! Decimal fixed-point arithmetic: a value `v` stands for `v / ONE`.
use vstd::prelude::*;
use vstd::arithmetic::div_mod::{lemma_fundamental_div_mod, lemma_fundamental_div_mod_converse_div};

verus! {

/// The fixed-point representation of 1.0.
pub const ONE: i64 = 1_000_000;

/// Largest magnitude of a coordinate or matrix entry that the pipeline accepts.
pub const COORD_MAX: i64 = 1_099_511_627_776;

/// Floor of `a / b`, for `b != 0`.
pub open spec fn fdiv(a: int, b: int) -> int {
    if b > 0 {
        a / b
    } else {
        (-a) / (-b)
    }
}

/// Fixed-point product, rounded down.
pub open spec fn fmul_spec(a: int, b: int) -> int {
    fdiv(a * b, ONE as int)
}

pub open spec fn clamp(v: int, lo: int, hi: int) -> int {
    if v < lo {
        lo
    } else if v > hi {
        hi
    } else {
        v
    }
}

pub open spec fn abs(v: int) -> int {
    if v < 0 {
        -v
    } else {
        v
    }
}

/// A coordinate that the pipeline can carry without overflow.
pub open spec fn in_coord_range(v: int) -> bool {
    -COORD_MAX <= v <= COORD_MAX
}

/// A quotient rounded down lies between two bounds when the dividend does,
/// each scaled by the divisor.
pub proof fn lemma_div_between(d: int, lo: int, hi: int, k: int)
    requires
        k > 0,
        lo * k <= d <= hi * k,
    ensures
        lo <= d / k <= hi,
{
    lemma_fundamental_div_mod(d, k);
    let q = d / k;
    let r = d % k;
    assert(0 <= r < k);
    assert(lo <= q) by (nonlinear_arith)
        requires d == k * q + r, 0 <= r < k, lo * k <= d, k > 0;
    assert(q <= hi) by (nonlinear_arith)
        requires d == k * q + r, 0 <= r < k, d <= hi * k, k > 0;
}

/// Division rounded towards negative infinity.
pub fn div_floor(a: i128, b: i128) -> (r: i128)
    requires
        b != 0,
        a > i128::MIN,
        b > i128::MIN,
    ensures
        r as int == fdiv(a as int, b as int),
{
    let n: i128 = if b > 0 { a } else { -a };
    let d: i128 = if b > 0 { b } else { -b };
    assert(fdiv(a as int, b as int) == (n as int) / (d as int));
    if n >= 0 {
        ((n as u128) / (d as u128)) as i128
    } else {
        let m: u128 = (-n) as u128;
        let q: u128 = m / (d as u128);
        let rem: u128 = m % (d as u128);
        proof {
            lemma_fundamental_div_mod(m as int, d as int);
            assert(m as int == (d as int) * (q as int) + (rem as int));
            assert(q <= m) by (nonlinear_arith)
                requires m as int == (d as int) * (q as int) + (rem as int), d >= 1, rem >= 0, q >= 0;
        }
        if rem == 0 {
            proof {
                assert(n as int == (-(q as int)) * (d as int) + 0) by (nonlinear_arith)
                    requires m as int == (d as int) * (q as int) + (rem as int), rem == 0, n == -(m as int);
                lemma_fundamental_div_mod_converse_div(n as int, d as int, -(q as int), 0);
            }
            -(q as i128)
        } else {
            proof {
                assert(n as int == (-(q as int) - 1) * (d as int) + ((d as int) - (rem as int)))
                    by (nonlinear_arith)
                    requires m as int == (d as int) * (q as int) + (rem as int), n == -(m as int);
                lemma_fundamental_div_mod_converse_div(n as int, d as int, -(q as int) - 1, (d as int) - (rem as int));
            }
            -(q as i128) - 1
        }
    }
}

/// Fixed-point product of two values, rounded down, in a wide integer.
pub fn fmul(a: i64, b: i64) -> (r: i128)
    ensures
        r as int == fmul_spec(a as int, b as int),
{
    assert(-0x4000_0000_0000_0000_0000_0000_0000_0000 <= (a as int) * (b as int) <= 0x4000_0000_0000_0000_0000_0000_0000_0000)
        by (nonlinear_arith)
        requires -0x8000_0000_0000_0000 <= a < 0x8000_0000_0000_0000, -0x8000_0000_0000_0000 <= b < 0x8000_0000_0000_0000;
    div_floor((a as i128) * (b as i128), ONE as i128)
}

pub open spec fn is_sqrt_floor(r: int, n: int) -> bool {
    0 <= r && r * r <= n < (r + 1) * (r + 1)
}

/// The square root of `n`, rounded down.
pub open spec fn sqrt_floor(n: int) -> int {
    choose|r: int| is_sqrt_floor(r, n)
}

proof fn lemma_sqrt_unique(r: int, s: int, n: int)
    requires
        is_sqrt_floor(r, n),
        is_sqrt_floor(s, n),
    ensures
        r == s,
{
    if r < s {
        assert((r + 1) * (r + 1) <= s * s) by (nonlinear_arith)
            requires 0 <= r, r + 1 <= s;
    } else if s < r {
        assert((s + 1) * (s + 1) <= r * r) by (nonlinear_arith)
            requires 0 <= s, s + 1 <= r;
    }
}

/// Integer square root, rounded down.
pub fn isqrt(n: u128) -> (r: u64)
    ensures
        r as int == sqrt_floor(n as int),
        (r as int) * (r as int) <= n as int,
        n < ((r as int) + 1) * ((r as int) + 1),
{
    let mut lo: u128 = 0;
    let mut hi: u128 = 0x1_0000_0000_0000_0000;
    proof {
        assert(n < hi * hi) by (nonlinear_arith) requires hi == 0x1_0000_0000_0000_0000, n < 0x1_0000_0000_0000_0000_0000_0000_0000_0000;
    }
    while hi - lo > 1
        invariant
            lo < hi <= 0x1_0000_0000_0000_0000,
            lo * lo <= n,
            n < hi * hi,
        decreases hi - lo,
    {
        let mid: u128 = lo + (hi - lo) / 2;
        assert(mid * mid <= 0xFFFF_FFFF_FFFF_FFFF * 0xFFFF_FFFF_FFFF_FFFF) by (nonlinear_arith)
            requires mid <= 0xFFFF_FFFF_FFFF_FFFF;
        if mid * mid <= n {
            lo = mid;
        } else {
            hi = mid;
        }
    }
    proof {
        assert(is_sqrt_floor(lo as int, n as int));
        lemma_sqrt_unique(lo as int, sqrt_floor(n as int), n as int);
    }
    lo as u64
}

/// Bound of the saturating operations below.
pub const SAT: i64 = 0x4000_0000_0000_0000;

/// Fixed-point product, rounded down and held to [-SAT, SAT].
pub open spec fn smul_spec(a: int, b: int) -> int {
    clamp(fmul_spec(a, b), -SAT as int, SAT as int)
}

/// Sum held to [-SAT, SAT].
pub open spec fn sadd_spec(a: int, b: int) -> int {
    clamp(a + b, -SAT as int, SAT as int)
}

/// Saturating fixed-point product.
pub fn smul(a: i64, b: i64) -> (r: i64)
    ensures
        r as int == smul_spec(a as int, b as int),
{
    let p = fmul(a, b);
    if p < -(SAT as i128) {
        -SAT
    } else if p > SAT as i128 {
        SAT
    } else {
        p as i64
    }
}

/// Saturating sum.
pub fn sadd(a: i64, b: i64) -> (r: i64)
    ensures
        r as int == sadd_spec(a as int, b as int),
{
    let p: i128 = (a as i128) + (b as i128);
    if p < -(SAT as i128) {
        -SAT
    } else if p > SAT as i128 {
        SAT
    } else {
        p as i64
    }
}

/// `v` held to `[lo, hi]`.
pub fn clamp_exec(v: i64, lo: i64, hi: i64) -> (r: i64)
    requires
        lo <= hi,
    ensures
        r as int == clamp(v as int, lo as int, hi as int),
{
    if v < lo {
        lo
    } else if v > hi {
        hi
    } else {
        v
    }
}

} // verus!
