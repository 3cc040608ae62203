//! RGB colors with 8-bit channels.
use vstd::prelude::*;
use crate::fixed::{ONE, fdiv, fmul, fmul_spec, clamp, div_floor, lemma_div_between};

verus! {

#[derive(Clone, Copy, Debug, PartialEq, Eq, Structural)]
pub struct Color {
    pub r: u8,
    pub g: u8,
    pub b: u8,
}

/// One channel moved from `a` towards `b` by the fraction `t`, with `t` held to [0, 1].
pub open spec fn lerp_channel(a: int, b: int, t: int) -> int {
    a + fdiv((b - a) * clamp(t, 0, ONE as int), ONE as int)
}

/// One channel multiplied by the fixed-point factor `k`, held to [0, 255].
pub open spec fn scale_channel(c: int, k: int) -> int {
    clamp(fmul_spec(c, k), 0, 255)
}

pub open spec fn hex_of(c: Color) -> int {
    (c.r as int) * 65536 + (c.g as int) * 256 + (c.b as int)
}

pub open spec fn lerp_spec(a: Color, b: Color, t: int) -> Color {
    Color {
        r: lerp_channel(a.r as int, b.r as int, t) as u8,
        g: lerp_channel(a.g as int, b.g as int, t) as u8,
        b: lerp_channel(a.b as int, b.b as int, t) as u8,
    }
}

pub open spec fn scale_spec(c: Color, k: int) -> Color {
    Color {
        r: scale_channel(c.r as int, k) as u8,
        g: scale_channel(c.g as int, k) as u8,
        b: scale_channel(c.b as int, k) as u8,
    }
}

fn lerp_u8(a: u8, b: u8, t: i64) -> (r: u8)
    ensures
        r as int == lerp_channel(a as int, b as int, t as int),
{
    let tc: i64 = if t < 0 {
        0
    } else if t > ONE {
        ONE
    } else {
        t
    };
    let diff: i128 = (b as i128) - (a as i128);
    assert(-255 * ONE <= diff * tc <= 255 * ONE) by (nonlinear_arith)
        requires -255 <= diff <= 255, 0 <= tc <= ONE;
    let d: i128 = diff * (tc as i128);
    let q: i128 = div_floor(d, ONE as i128);
    proof {
        if diff >= 0 {
            assert(0 * ONE <= d <= diff * ONE) by (nonlinear_arith)
                requires d == diff * tc, 0 <= tc <= ONE, diff >= 0;
            lemma_div_between(d as int, 0, diff as int, ONE as int);
        } else {
            assert(diff * ONE <= d <= 0 * ONE) by (nonlinear_arith)
                requires d == diff * tc, 0 <= tc <= ONE, diff < 0;
            lemma_div_between(d as int, diff as int, 0, ONE as int);
        }
    }
    ((a as i128) + q) as u8
}

fn scale_u8(c: u8, k: i64) -> (r: u8)
    ensures
        r as int == scale_channel(c as int, k as int),
{
    let p: i128 = fmul(c as i64, k);
    if p < 0 {
        0
    } else if p > 255 {
        255
    } else {
        p as u8
    }
}

impl Color {
    pub fn new(r: u8, g: u8, b: u8) -> (c: Color)
        ensures
            c == (Color { r, g, b }),
    {
        Color { r, g, b }
    }

    pub fn black() -> (c: Color)
        ensures
            c == (Color { r: 0, g: 0, b: 0 }),
    {
        Color { r: 0, g: 0, b: 0 }
    }

    /// Unpacks a `0xRRGGBB` value; bits above the lowest 24 are ignored.
    pub fn from_hex(hex: u32) -> (c: Color)
        ensures
            c.r == (hex / 65536) % 256,
            c.g == (hex / 256) % 256,
            c.b == hex % 256,
    {
        Color { r: ((hex / 65536) % 256) as u8, g: ((hex / 256) % 256) as u8, b: (hex % 256) as u8 }
    }

    /// Packs the color as `0xRRGGBB`.
    pub fn to_hex(&self) -> (h: u32)
        ensures
            h as int == hex_of(*self),
    {
        (self.r as u32) * 65536 + (self.g as u32) * 256 + (self.b as u32)
    }

    /// Linear interpolation towards `other`, channel by channel; `t` is held to [0, 1].
    pub fn lerp(&self, other: &Color, t: i64) -> (c: Color)
        ensures
            c == lerp_spec(*self, *other, t as int),
    {
        Color {
            r: lerp_u8(self.r, other.r, t),
            g: lerp_u8(self.g, other.g, t),
            b: lerp_u8(self.b, other.b, t),
        }
    }

    /// Multiplies every channel by the fixed-point factor `k`, clamping to [0, 255].
    pub fn scale(&self, k: i64) -> (c: Color)
        ensures
            c == scale_spec(*self, k as int),
    {
        Color { r: scale_u8(self.r, k), g: scale_u8(self.g, k), b: scale_u8(self.b, k) }
    }
}

} // verus!
