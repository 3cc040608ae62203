//! The procedural planet shaders.
//!
//! A shader reads the fragment, the time and a list of coherent-noise
//! samples. Which points the noise field is sampled at is part of each
//! shader (`*_noise_points`); the caller samples the field there, in order,
//! and hands the values back. A sample is read as a value in [-1, 1]; a
//! missing one reads as zero.
use vstd::prelude::*;
use crate::fixed::{ONE, fdiv, clamp, abs, smul, smul_spec, sadd, sadd_spec, clamp_exec, lemma_div_between};
use crate::color::{Color, scale_spec, lerp_spec};
use crate::fragment::Fragment;
use crate::transform::Uniforms;
use crate::trig::{sin_fixed, cos_fixed, atan2_fixed, sin_spec, cos_spec, atan2_spec};

verus! {

/// A point at which a shader needs the noise field; `planar` asks for the
/// two-dimensional field at `(x, y)`.
#[derive(Clone, Copy, Debug, PartialEq, Eq, Structural)]
pub struct NoisePoint {
    pub x: i64,
    pub y: i64,
    pub z: i64,
    pub planar: bool,
}

pub open spec fn sample_spec(ns: Seq<i64>, k: int) -> int {
    if 0 <= k < ns.len() {
        clamp(ns[k] as int, -ONE as int, ONE as int)
    } else {
        0
    }
}

fn sample(ns: &Vec<i64>, k: usize) -> (r: i64)
    ensures
        r as int == sample_spec(ns@, k as int),
        -ONE <= r <= ONE,
{
    if k < ns.len() {
        clamp_exec(ns[k], -ONE, ONE)
    } else {
        0
    }
}

/// `sin(p * kp + t * kt) * amp + base`.
pub open spec fn sin_term_spec(p: int, kp: int, t: int, kt: int, amp: int, base: int) -> int {
    sadd_spec(smul_spec(sin_spec(sadd_spec(smul_spec(p, kp), smul_spec(t, kt))), amp), base)
}

/// `cos(p * kp + t * kt) * amp + base`.
pub open spec fn cos_term_spec(p: int, kp: int, t: int, kt: int, amp: int, base: int) -> int {
    sadd_spec(smul_spec(cos_spec(sadd_spec(smul_spec(p, kp), smul_spec(t, kt))), amp), base)
}

fn sin_term(p: i64, kp: i64, t: i64, kt: i64, amp: i64, base: i64) -> (r: i64)
    ensures
        r as int == sin_term_spec(p as int, kp as int, t as int, kt as int, amp as int, base as int),
{
    sadd(smul(sin_fixed(sadd(smul(p, kp), smul(t, kt))), amp), base)
}

fn cos_term(p: i64, kp: i64, t: i64, kt: i64, amp: i64, base: i64) -> (r: i64)
    ensures
        r as int == cos_term_spec(p as int, kp as int, t as int, kt as int, amp as int, base as int),
{
    sadd(smul(cos_fixed(sadd(smul(p, kp), smul(t, kt))), amp), base)
}

/// `c * (1 + k)`.
pub open spec fn boost_spec(c: Color, k: int) -> Color {
    scale_spec(c, sadd_spec(ONE as int, k))
}

fn boost(c: Color, k: i64) -> (r: Color)
    ensures
        r == boost_spec(c, k as int),
{
    c.scale(sadd(ONE, k))
}

/// The sample point `p * k` of a fragment's `(x, y, depth)` position.
pub open spec fn point_spec(f: Fragment, k: int) -> NoisePoint {
    NoisePoint {
        x: smul_spec(f.vertex_position.x as int, k) as i64,
        y: smul_spec(f.vertex_position.y as int, k) as i64,
        z: smul_spec(f.depth as int, k) as i64,
        planar: false,
    }
}

/// The sample point `(p + off) * k`.
pub open spec fn shifted_point_spec(f: Fragment, off: int, k: int) -> NoisePoint {
    NoisePoint {
        x: smul_spec(sadd_spec(f.vertex_position.x as int, off), k) as i64,
        y: smul_spec(sadd_spec(f.vertex_position.y as int, off), k) as i64,
        z: smul_spec(sadd_spec(f.depth as int, off), k) as i64,
        planar: false,
    }
}

/// The planar sample point `(x, y) * k` of the fragment's position.
pub open spec fn planar_point_spec(f: Fragment, k: int) -> NoisePoint {
    NoisePoint {
        x: smul_spec(f.vertex_position.x as int, k) as i64,
        y: smul_spec(f.vertex_position.y as int, k) as i64,
        z: 0,
        planar: true,
    }
}

fn point(f: &Fragment, k: i64) -> (r: NoisePoint)
    ensures
        r == point_spec(*f, k as int),
{
    NoisePoint { x: smul(f.vertex_position.x, k), y: smul(f.vertex_position.y, k), z: smul(f.depth, k), planar: false }
}

fn shifted_point(f: &Fragment, off: i64, k: i64) -> (r: NoisePoint)
    ensures
        r == shifted_point_spec(*f, off as int, k as int),
{
    NoisePoint {
        x: smul(sadd(f.vertex_position.x, off), k),
        y: smul(sadd(f.vertex_position.y, off), k),
        z: smul(sadd(f.depth, off), k),
        planar: false,
    }
}

fn planar_point(f: &Fragment, k: i64) -> (r: NoisePoint)
    ensures
        r == planar_point_spec(*f, k as int),
{
    NoisePoint { x: smul(f.vertex_position.x, k), y: smul(f.vertex_position.y, k), z: 0, planar: true }
}

// ---------------------------------------------------------------------------
// Banded gas shaders: ring, gas giant, gas giant 2.

/// The warm palette of the ring and the first gas giant.
pub open spec fn warm_palette(i: int) -> Color {
    if i == 0 {
        Color { r: 235, g: 91, b: 96 }
    } else if i == 1 {
        Color { r: 237, g: 112, b: 47 }
    } else if i == 2 {
        Color { r: 234, g: 116, b: 92 }
    } else if i == 3 {
        Color { r: 235, g: 91, b: 181 }
    } else {
        Color { r: 235, g: 165, b: 91 }
    }
}

/// The violet palette of the second gas giant.
pub open spec fn violet_palette(i: int) -> Color {
    if i == 0 {
        Color { r: 98, g: 68, b: 217 }
    } else if i == 1 {
        Color { r: 159, g: 133, b: 236 }
    } else if i == 2 {
        Color { r: 84, g: 64, b: 140 }
    } else if i == 3 {
        Color { r: 156, g: 100, b: 140 }
    } else if i == 4 {
        Color { r: 204, g: 177, b: 210 }
    } else {
        Color { r: 61, g: 42, b: 80 }
    }
}

fn warm_palette_exec(i: u64) -> (c: Color)
    ensures
        c == warm_palette(i as int),
{
    if i == 0 {
        Color { r: 235, g: 91, b: 96 }
    } else if i == 1 {
        Color { r: 237, g: 112, b: 47 }
    } else if i == 2 {
        Color { r: 234, g: 116, b: 92 }
    } else if i == 3 {
        Color { r: 235, g: 91, b: 181 }
    } else {
        Color { r: 235, g: 165, b: 91 }
    }
}

fn violet_palette_exec(i: u64) -> (c: Color)
    ensures
        c == violet_palette(i as int),
{
    if i == 0 {
        Color { r: 98, g: 68, b: 217 }
    } else if i == 1 {
        Color { r: 159, g: 133, b: 236 }
    } else if i == 2 {
        Color { r: 84, g: 64, b: 140 }
    } else if i == 3 {
        Color { r: 156, g: 100, b: 140 }
    } else if i == 4 {
        Color { r: 204, g: 177, b: 210 }
    } else {
        Color { r: 61, g: 42, b: 80 }
    }
}

/// The palette slot of a stripe value `s` in [-1, 1]: `(s + 1) / 2 * n`,
/// rounded down and wrapped modulo `n`.
pub open spec fn band_index(s: int, n: int) -> int {
    fdiv(smul_spec(sadd_spec(s, ONE as int), 500_000) * n, ONE as int) % n
}

fn band_index_exec(s: i64, n: u64) -> (r: u64)
    requires
        -ONE <= s <= ONE,
        1 <= n <= 6,
    ensures
        r as int == band_index(s as int, n as int),
        r < n,
{
    let t = smul(sadd(s, ONE), 500_000);
    proof {
        assert(0 <= (s + ONE) * 500_000 <= 2 * ONE * 500_000) by (nonlinear_arith)
            requires -ONE <= s <= ONE;
        lemma_div_between((s + ONE) * 500_000, 0, ONE as int, ONE as int);
        assert(0 <= t * n <= ONE * 6) by (nonlinear_arith)
            requires 0 <= t <= ONE, 1 <= n <= 6;
    }
    let q: u64 = (t as u64) * n / (ONE as u64);
    q % n
}

/// The banded color: palette slot from the stripe, brightened by a tenth of
/// the noise and scaled by the fragment's intensity.
pub open spec fn banded_spec(base: Color, nv: int, intensity: int) -> Color {
    scale_spec(base, smul_spec(sadd_spec(ONE as int, smul_spec(nv, 100_000)), intensity))
}

pub open spec fn ring_spec(f: Fragment, ns: Seq<i64>) -> Color {
    let nv = sample_spec(ns, 0);
    let angle = atan2_spec(f.vertex_position.x as int, f.vertex_position.y as int);
    let stripe = sin_spec(sadd_spec(smul_spec(angle, 8 * ONE), smul_spec(nv, 1_500_000)));
    banded_spec(warm_palette(band_index(stripe, 5)), nv, f.intensity as int)
}

pub open spec fn gas_giant_spec(f: Fragment, ns: Seq<i64>) -> Color {
    let nv = sample_spec(ns, 0);
    let stripe = sin_spec(sadd_spec(smul_spec(f.vertex_position.y as int, 8 * ONE), smul_spec(nv, 1_500_000)));
    banded_spec(warm_palette(band_index(stripe, 5)), nv, f.intensity as int)
}

pub open spec fn gas_giant2_spec(f: Fragment, ns: Seq<i64>) -> Color {
    let nv = sample_spec(ns, 0);
    let stripe = sin_spec(sadd_spec(smul_spec(f.vertex_position.x as int, 8 * ONE), smul_spec(nv, 1_500_000)));
    banded_spec(violet_palette(band_index(stripe, 6)), nv, f.intensity as int)
}

fn banded(base: Color, nv: i64, intensity: i64) -> (c: Color)
    ensures
        c == banded_spec(base, nv as int, intensity as int),
{
    base.scale(smul(sadd(ONE, smul(nv, 100_000)), intensity))
}

/// Orange and pink bands around the ring, by the angle about its centre.
pub fn ring_shader(fragment: &Fragment, uniforms: &Uniforms, noise: &Vec<i64>) -> (c: Color)
    ensures
        c == ring_spec(*fragment, noise@),
{
    let nv = sample(noise, 0);
    let angle = atan2_fixed(fragment.vertex_position.x, fragment.vertex_position.y);
    let stripe = sin_fixed(sadd(smul(angle, 8 * ONE), smul(nv, 1_500_000)));
    let idx = band_index_exec(stripe, 5);
    banded(warm_palette_exec(idx), nv, fragment.intensity)
}

/// Horizontal warm bands.
pub fn gas_giant_shader(fragment: &Fragment, uniforms: &Uniforms, noise: &Vec<i64>) -> (c: Color)
    ensures
        c == gas_giant_spec(*fragment, noise@),
{
    let nv = sample(noise, 0);
    let stripe = sin_fixed(sadd(smul(fragment.vertex_position.y, 8 * ONE), smul(nv, 1_500_000)));
    let idx = band_index_exec(stripe, 5);
    banded(warm_palette_exec(idx), nv, fragment.intensity)
}

/// Vertical violet bands.
pub fn gas_giant_shader2(fragment: &Fragment, uniforms: &Uniforms, noise: &Vec<i64>) -> (c: Color)
    ensures
        c == gas_giant2_spec(*fragment, noise@),
{
    let nv = sample(noise, 0);
    let stripe = sin_fixed(sadd(smul(fragment.vertex_position.x, 8 * ONE), smul(nv, 1_500_000)));
    let idx = band_index_exec(stripe, 6);
    banded(violet_palette_exec(idx), nv, fragment.intensity)
}

/// The ring's one planar sample, at the position itself.
pub fn ring_noise_points(fragment: &Fragment) -> (r: Vec<NoisePoint>)
    ensures
        r@ == seq![planar_point_spec(*fragment, ONE as int)],
{
    let mut r: Vec<NoisePoint> = Vec::new();
    r.push(planar_point(fragment, ONE));
    r
}

/// The gas giants' one planar sample, at five times the position.
pub fn gas_giant_noise_points(fragment: &Fragment) -> (r: Vec<NoisePoint>)
    ensures
        r@ == seq![planar_point_spec(*fragment, 5 * ONE)],
{
    let mut r: Vec<NoisePoint> = Vec::new();
    r.push(planar_point(fragment, 5 * ONE));
    r
}

// ---------------------------------------------------------------------------
// Surface shaders, sampled at the fragment's `(x, y, depth)` position.

fn abs_exec(v: i64) -> (r: i64)
    requires
        v > i64::MIN,
    ensures
        r as int == abs(v as int),
{
    if v < 0 {
        -v
    } else {
        v
    }
}

/// `|sin(x * k) * cos(y * k)| * depth`: the crater and ocean-floor pattern.
pub open spec fn pits_spec(x: int, y: int, k: int, depth: int) -> int {
    smul_spec(abs(smul_spec(sin_spec(smul_spec(x, k)), cos_spec(smul_spec(y, k)))), depth)
}

fn pits(x: i64, y: i64, k: i64, depth: i64) -> (r: i64)
    ensures
        r as int == pits_spec(x as int, y as int, k as int, depth as int),
{
    smul(abs_exec(smul(sin_fixed(smul(x, k)), cos_fixed(smul(y, k)))), depth)
}

/// `1 + |sin(t * 0.02)| * amp`: the slow pulse of lava and open water.
pub open spec fn pulse_spec(t: int, amp: int) -> int {
    sadd_spec(ONE as int, smul_spec(abs(sin_spec(smul_spec(t, 20_000))), amp))
}

fn pulse(t: i64, amp: i64) -> (r: i64)
    ensures
        r as int == pulse_spec(t as int, amp as int),
{
    sadd(ONE, smul(abs_exec(sin_fixed(smul(t, 20_000))), amp))
}

pub open spec fn rocky_spec(f: Fragment, t: int, ns: Seq<i64>) -> Color {
    let px = f.vertex_position.x as int;
    let py = f.vertex_position.y as int;
    let terrain = smul_spec(sample_spec(ns, 1), 600_000);
    let combined = clamp(sadd_spec(smul_spec(sample_spec(ns, 0), 700_000), smul_spec(terrain, 300_000)), 0, ONE as int);
    let crater = pits_spec(px, py, 300_000, 3 * ONE);
    let carved = clamp(sadd_spec(combined, -crater), 0, ONE as int);
    let surface = clamp(sadd_spec(carved, smul_spec(sample_spec(ns, 2), 350_000)), 0, ONE as int);
    let light = smul_spec(
        sin_term_spec(py, 600_000, t, 1_000, 200_000, 800_000),
        cos_term_spec(px, 250_000, t, 2_000, 150_000, ONE as int),
    );
    let base = if surface > 600_000 {
        lerp_spec(
            Color { r: 228, g: 179, b: 85 },
            Color { r: 195, g: 126, b: 50 },
            smul_spec(sadd_spec(surface, -600_000), 1_500_000),
        )
    } else {
        lerp_spec(Color { r: 92, g: 51, b: 22 }, Color { r: 195, g: 126, b: 50 }, smul_spec(surface, 1_800_000))
    };
    let lit = scale_spec(base, light);
    let worn = boost_spec(lit, sadd_spec(smul_spec(sample_spec(ns, 3), 300_000), smul_spec(sample_spec(ns, 4), 200_000)));
    let varied = boost_spec(worn, smul_spec(sample_spec(ns, 5), 150_000));
    scale_spec(varied, f.intensity as int)
}

/// Sandy mountains, valleys and deep craters.
pub fn rocky_planet_shader(fragment: &Fragment, uniforms: &Uniforms, noise: &Vec<i64>) -> (c: Color)
    ensures
        c == rocky_spec(*fragment, uniforms.time as int, noise@),
{
    let px = fragment.vertex_position.x;
    let py = fragment.vertex_position.y;
    let t = uniforms.time;
    let terrain = smul(sample(noise, 1), 600_000);
    let combined = clamp_exec(sadd(smul(sample(noise, 0), 700_000), smul(terrain, 300_000)), 0, ONE);
    let crater = pits(px, py, 300_000, 3 * ONE);
    let carved = clamp_exec(sadd(combined, -crater), 0, ONE);
    let surface = clamp_exec(sadd(carved, smul(sample(noise, 2), 350_000)), 0, ONE);
    let light = smul(sin_term(py, 600_000, t, 1_000, 200_000, 800_000), cos_term(px, 250_000, t, 2_000, 150_000, ONE));
    let base = if surface > 600_000 {
        Color::new(228, 179, 85).lerp(&Color::new(195, 126, 50), smul(sadd(surface, -600_000), 1_500_000))
    } else {
        Color::new(92, 51, 22).lerp(&Color::new(195, 126, 50), smul(surface, 1_800_000))
    };
    let lit = base.scale(light);
    let worn = boost(lit, sadd(smul(sample(noise, 3), 300_000), smul(sample(noise, 4), 200_000)));
    let varied = boost(worn, smul(sample(noise, 5), 150_000));
    varied.scale(fragment.intensity)
}

pub open spec fn volcanic_spec(f: Fragment, t: int, ns: Seq<i64>) -> Color {
    let px = f.vertex_position.x as int;
    let py = f.vertex_position.y as int;
    let is_lava = sample_spec(ns, 1) < -200_000;
    let combined = clamp(sadd_spec(sample_spec(ns, 0), smul_spec(sample_spec(ns, 2), 300_000)), 0, ONE as int);
    let base = if is_lava {
        scale_spec(Color { r: 230, g: 55, b: 15 }, pulse_spec(t, 500_000))
    } else if combined > 700_000 {
        lerp_spec(
            Color { r: 80, g: 30, b: 20 },
            Color { r: 100, g: 40, b: 35 },
            smul_spec(sadd_spec(combined, -700_000), 1_500_000),
        )
    } else {
        scale_spec(Color { r: 100, g: 40, b: 35 }, combined)
    };
    let light = smul_spec(
        sin_term_spec(py, 500_000, t, 2_000, 400_000, 600_000),
        cos_term_spec(px, 250_000, t, 2_000, 150_000, ONE as int),
    );
    let lit = scale_spec(base, light);
    let shaded = boost_spec(lit, sadd_spec(smul_spec(sample_spec(ns, 3), 200_000), smul_spec(sample_spec(ns, 4), 200_000)));
    scale_spec(shaded, f.intensity as int)
}

/// Dark rock and ash, with pulsing lava where the coarse noise is low.
pub fn volcanic_planet_shader(fragment: &Fragment, uniforms: &Uniforms, noise: &Vec<i64>) -> (c: Color)
    ensures
        c == volcanic_spec(*fragment, uniforms.time as int, noise@),
{
    let px = fragment.vertex_position.x;
    let py = fragment.vertex_position.y;
    let t = uniforms.time;
    let is_lava = sample(noise, 1) < -200_000;
    let combined = clamp_exec(sadd(sample(noise, 0), smul(sample(noise, 2), 300_000)), 0, ONE);
    let base = if is_lava {
        Color::new(230, 55, 15).scale(pulse(t, 500_000))
    } else if combined > 700_000 {
        Color::new(80, 30, 20).lerp(&Color::new(100, 40, 35), smul(sadd(combined, -700_000), 1_500_000))
    } else {
        Color::new(100, 40, 35).scale(combined)
    };
    let light = smul(sin_term(py, 500_000, t, 2_000, 400_000, 600_000), cos_term(px, 250_000, t, 2_000, 150_000, ONE));
    let lit = base.scale(light);
    let shaded = boost(lit, sadd(smul(sample(noise, 3), 200_000), smul(sample(noise, 4), 200_000)));
    shaded.scale(fragment.intensity)
}

pub open spec fn icy_spec(f: Fragment, t: int, ns: Seq<i64>) -> Color {
    let px = f.vertex_position.x as int;
    let py = f.vertex_position.y as int;
    let is_crack = sample_spec(ns, 1) < -100_000;
    let combined = clamp(sadd_spec(sample_spec(ns, 0), smul_spec(sample_spec(ns, 2), 200_000)), 0, ONE as int);
    let base = if is_crack {
        scale_spec(Color { r: 100, g: 180, b: 240 }, pulse_spec(t, 300_000))
    } else if combined > 600_000 {
        lerp_spec(
            Color { r: 150, g: 200, b: 255 },
            Color { r: 220, g: 240, b: 255 },
            smul_spec(sadd_spec(combined, -600_000), 1_500_000),
        )
    } else {
        scale_spec(Color { r: 220, g: 240, b: 255 }, sadd_spec(combined, 1_200_000))
    };
    let raw_light = smul_spec(
        sin_term_spec(py, 500_000, t, 1_000, 300_000, 700_000),
        cos_term_spec(px, 250_000, t, 2_000, 150_000, ONE as int),
    );
    let light = if raw_light < 500_000 {
        500_000
    } else {
        raw_light
    };
    let lit = scale_spec(base, light);
    let shaded = boost_spec(lit, sadd_spec(smul_spec(sample_spec(ns, 3), 200_000), smul_spec(sample_spec(ns, 4), 100_000)));
    scale_spec(shaded, f.intensity as int)
}

/// Ice and frost with dark cracks; the light never drops below one half.
pub fn icy_planet_shader(fragment: &Fragment, uniforms: &Uniforms, noise: &Vec<i64>) -> (c: Color)
    ensures
        c == icy_spec(*fragment, uniforms.time as int, noise@),
{
    let px = fragment.vertex_position.x;
    let py = fragment.vertex_position.y;
    let t = uniforms.time;
    let is_crack = sample(noise, 1) < -100_000;
    let combined = clamp_exec(sadd(sample(noise, 0), smul(sample(noise, 2), 200_000)), 0, ONE);
    let base = if is_crack {
        Color::new(100, 180, 240).scale(pulse(t, 300_000))
    } else if combined > 600_000 {
        Color::new(150, 200, 255).lerp(&Color::new(220, 240, 255), smul(sadd(combined, -600_000), 1_500_000))
    } else {
        Color::new(220, 240, 255).scale(sadd(combined, 1_200_000))
    };
    let raw_light = smul(sin_term(py, 500_000, t, 1_000, 300_000, 700_000), cos_term(px, 250_000, t, 2_000, 150_000, ONE));
    let light = if raw_light < 500_000 {
        500_000
    } else {
        raw_light
    };
    let lit = base.scale(light);
    let shaded = boost(lit, sadd(smul(sample(noise, 3), 200_000), smul(sample(noise, 4), 100_000)));
    shaded.scale(fragment.intensity)
}

pub open spec fn desert_spec(f: Fragment, t: int, ns: Seq<i64>) -> Color {
    let px = f.vertex_position.x as int;
    let py = f.vertex_position.y as int;
    let variation = smul_spec(sample_spec(ns, 1), 600_000);
    let combined = clamp(sadd_spec(smul_spec(sample_spec(ns, 0), 700_000), smul_spec(variation, 300_000)), 0, ONE as int);
    let dune = clamp(sadd_spec(combined, smul_spec(sample_spec(ns, 2), 200_000)), 2 * ONE, 5 * ONE);
    let light = smul_spec(
        sin_term_spec(py, 600_000, t, 1_000, 200_000, 800_000),
        cos_term_spec(px, 250_000, t, 2_000, 150_000, ONE as int),
    );
    let base = if dune > 800_000 {
        lerp_spec(Color { r: 106, g: 63, b: 54 }, Color { r: 200, g: 167, b: 150 }, smul_spec(sadd_spec(dune, -800_000), 5 * ONE))
    } else if dune > 600_000 {
        lerp_spec(Color { r: 200, g: 167, b: 150 }, Color { r: 244, g: 243, b: 238 }, smul_spec(sadd_spec(dune, -600_000), 5 * ONE))
    } else if dune > 400_000 {
        lerp_spec(Color { r: 244, g: 243, b: 238 }, Color { r: 248, g: 228, b: 190 }, smul_spec(sadd_spec(dune, -400_000), 5 * ONE))
    } else {
        lerp_spec(Color { r: 248, g: 228, b: 190 }, Color { r: 238, g: 169, b: 136 }, smul_spec(dune, 2_500_000))
    };
    let lit = scale_spec(base, light);
    let shadowed = boost_spec(lit, smul_spec(sample_spec(ns, 3), 200_000));
    let varied = boost_spec(shadowed, smul_spec(sample_spec(ns, 4), 150_000));
    scale_spec(varied, f.intensity as int)
}

/// Bands of dark, medium, light, pale and pink sand. The dune value is held
/// to [2, 5], so the first band is the one that shows.
pub fn desert_planet_shader(fragment: &Fragment, uniforms: &Uniforms, noise: &Vec<i64>) -> (c: Color)
    ensures
        c == desert_spec(*fragment, uniforms.time as int, noise@),
{
    let px = fragment.vertex_position.x;
    let py = fragment.vertex_position.y;
    let t = uniforms.time;
    let variation = smul(sample(noise, 1), 600_000);
    let combined = clamp_exec(sadd(smul(sample(noise, 0), 700_000), smul(variation, 300_000)), 0, ONE);
    let dune = clamp_exec(sadd(combined, smul(sample(noise, 2), 200_000)), 2 * ONE, 5 * ONE);
    let light = smul(sin_term(py, 600_000, t, 1_000, 200_000, 800_000), cos_term(px, 250_000, t, 2_000, 150_000, ONE));
    let base = if dune > 800_000 {
        Color::new(106, 63, 54).lerp(&Color::new(200, 167, 150), smul(sadd(dune, -800_000), 5 * ONE))
    } else if dune > 600_000 {
        Color::new(200, 167, 150).lerp(&Color::new(244, 243, 238), smul(sadd(dune, -600_000), 5 * ONE))
    } else if dune > 400_000 {
        Color::new(244, 243, 238).lerp(&Color::new(248, 228, 190), smul(sadd(dune, -400_000), 5 * ONE))
    } else {
        Color::new(248, 228, 190).lerp(&Color::new(238, 169, 136), smul(dune, 2_500_000))
    };
    let lit = base.scale(light);
    let shadowed = boost(lit, smul(sample(noise, 3), 200_000));
    let varied = boost(shadowed, smul(sample(noise, 4), 150_000));
    varied.scale(fragment.intensity)
}

pub open spec fn water_spec(f: Fragment, t: int, ns: Seq<i64>) -> Color {
    let px = f.vertex_position.x as int;
    let py = f.vertex_position.y as int;
    let variation = smul_spec(sample_spec(ns, 1), 500_000);
    let combined = clamp(sadd_spec(smul_spec(sample_spec(ns, 0), 600_000), smul_spec(variation, 400_000)), 0, ONE as int);
    let floor_effect = pits_spec(px, py, 400_000, 2 * ONE);
    let carved = clamp(sadd_spec(combined, -floor_effect), 0, ONE as int);
    let depth = clamp(sadd_spec(carved, smul_spec(sample_spec(ns, 2), 5_500_000)), 0, ONE as int);
    let light = smul_spec(
        sin_term_spec(py, 600_000, t, 1_000, 200_000, 800_000),
        cos_term_spec(px, 250_000, t, 2_000, 150_000, ONE as int),
    );
    let base = if depth > 500_000 {
        lerp_spec(Color { r: 85, g: 170, b: 255 }, Color { r: 10, g: 50, b: 120 }, smul_spec(sadd_spec(depth, -500_000), 2 * ONE))
    } else {
        lerp_spec(Color { r: 10, g: 50, b: 120 }, Color { r: 0, g: 25, b: 80 }, smul_spec(depth, 2 * ONE))
    };
    let lit = scale_spec(base, light);
    let shaded = boost_spec(lit, sadd_spec(smul_spec(sample_spec(ns, 3), 250_000), smul_spec(sample_spec(ns, 4), 150_000)));
    let varied = boost_spec(shaded, smul_spec(sample_spec(ns, 5), 100_000));
    scale_spec(varied, f.intensity as int)
}

/// Shallow and deep water over a dark ocean floor.
pub fn water_planet_shader(fragment: &Fragment, uniforms: &Uniforms, noise: &Vec<i64>) -> (c: Color)
    ensures
        c == water_spec(*fragment, uniforms.time as int, noise@),
{
    let px = fragment.vertex_position.x;
    let py = fragment.vertex_position.y;
    let t = uniforms.time;
    let variation = smul(sample(noise, 1), 500_000);
    let combined = clamp_exec(sadd(smul(sample(noise, 0), 600_000), smul(variation, 400_000)), 0, ONE);
    let floor_effect = pits(px, py, 400_000, 2 * ONE);
    let carved = clamp_exec(sadd(combined, -floor_effect), 0, ONE);
    let depth = clamp_exec(sadd(carved, smul(sample(noise, 2), 5_500_000)), 0, ONE);
    let light = smul(sin_term(py, 600_000, t, 1_000, 200_000, 800_000), cos_term(px, 250_000, t, 2_000, 150_000, ONE));
    let base = if depth > 500_000 {
        Color::new(85, 170, 255).lerp(&Color::new(10, 50, 120), smul(sadd(depth, -500_000), 2 * ONE))
    } else {
        Color::new(10, 50, 120).lerp(&Color::new(0, 25, 80), smul(depth, 2 * ONE))
    };
    let lit = base.scale(light);
    let shaded = boost(lit, sadd(smul(sample(noise, 3), 250_000), smul(sample(noise, 4), 150_000)));
    let varied = boost(shaded, smul(sample(noise, 5), 100_000));
    varied.scale(fragment.intensity)
}

pub open spec fn moon_tone(v: int) -> Color {
    if v < 200_000 {
        Color { r: 247, g: 225, b: 195 }
    } else if v < 400_000 {
        Color { r: 248, g: 228, b: 201 }
    } else if v < 600_000 {
        Color { r: 249, g: 231, b: 207 }
    } else if v < 800_000 {
        Color { r: 249, g: 234, b: 213 }
    } else {
        Color { r: 250, g: 237, b: 219 }
    }
}

fn moon_tone_exec(v: i64) -> (c: Color)
    ensures
        c == moon_tone(v as int),
{
    if v < 200_000 {
        Color::new(247, 225, 195)
    } else if v < 400_000 {
        Color::new(248, 228, 201)
    } else if v < 600_000 {
        Color::new(249, 231, 207)
    } else if v < 800_000 {
        Color::new(249, 234, 213)
    } else {
        Color::new(250, 237, 219)
    }
}

pub open spec fn moon_spec(f: Fragment, t: int, ns: Seq<i64>) -> Color {
    let px = f.vertex_position.x as int;
    let py = f.vertex_position.y as int;
    let is_crater = sample_spec(ns, 1) < -100_000;
    let combined = clamp(sadd_spec(sample_spec(ns, 0), smul_spec(sample_spec(ns, 2), 300_000)), ONE as int, 2 * ONE);
    let base = if is_crater {
        Color { r: 249, g: 231, b: 207 }
    } else {
        scale_spec(moon_tone(combined), combined)
    };
    let light = smul_spec(
        sin_term_spec(py, 300_000, t, 2_000, 500_000, 500_000),
        cos_term_spec(px, 100_000, t, 3_000, 200_000, 800_000),
    );
    let lit = scale_spec(base, light);
    let shaded = boost_spec(lit, sadd_spec(smul_spec(sample_spec(ns, 3), 100_000), smul_spec(sample_spec(ns, 4), 50_000)));
    scale_spec(shaded, f.intensity as int)
}

/// Pale cream tones, flat in the craters.
pub fn moon_shader(fragment: &Fragment, uniforms: &Uniforms, noise: &Vec<i64>) -> (c: Color)
    ensures
        c == moon_spec(*fragment, uniforms.time as int, noise@),
{
    let px = fragment.vertex_position.x;
    let py = fragment.vertex_position.y;
    let t = uniforms.time;
    let is_crater = sample(noise, 1) < -100_000;
    let combined = clamp_exec(sadd(sample(noise, 0), smul(sample(noise, 2), 300_000)), ONE, 2 * ONE);
    let base = if is_crater {
        Color::new(249, 231, 207)
    } else {
        moon_tone_exec(combined).scale(combined)
    };
    let light = smul(sin_term(py, 300_000, t, 2_000, 500_000, 500_000), cos_term(px, 100_000, t, 3_000, 200_000, 800_000));
    let lit = base.scale(light);
    let shaded = boost(lit, sadd(smul(sample(noise, 3), 100_000), smul(sample(noise, 4), 50_000)));
    shaded.scale(fragment.intensity)
}

/// Terrain, shifted terrain, fine texture, shadow, highlight and depth samples.
pub fn rocky_noise_points(fragment: &Fragment) -> (r: Vec<NoisePoint>)
    ensures
        r@ == seq![
            point_spec(*fragment, 800 * ONE),
            shifted_point_spec(*fragment, 1000 * ONE, 640 * ONE),
            point_spec(*fragment, 2000 * ONE),
            point_spec(*fragment, 3000 * ONE),
            point_spec(*fragment, 3500 * ONE),
            point_spec(*fragment, 4000 * ONE),
        ],
{
    let mut r: Vec<NoisePoint> = Vec::new();
    r.push(point(fragment, 800 * ONE));
    r.push(shifted_point(fragment, 1000 * ONE, 640 * ONE));
    r.push(point(fragment, 2000 * ONE));
    r.push(point(fragment, 3000 * ONE));
    r.push(point(fragment, 3500 * ONE));
    r.push(point(fragment, 4000 * ONE));
    proof {
        assert(r@ =~= seq![
            point_spec(*fragment, 800 * ONE),
            shifted_point_spec(*fragment, 1000 * ONE, 640 * ONE),
            point_spec(*fragment, 2000 * ONE),
            point_spec(*fragment, 3000 * ONE),
            point_spec(*fragment, 3500 * ONE),
            point_spec(*fragment, 4000 * ONE),
        ]);
    }
    r
}

/// Terrain, lava, fine detail, shadow and highlight samples.
pub fn volcanic_noise_points(fragment: &Fragment) -> (r: Vec<NoisePoint>)
    ensures
        r@ == seq![
            point_spec(*fragment, 700 * ONE),
            point_spec(*fragment, 150 * ONE),
            point_spec(*fragment, 3000 * ONE),
            point_spec(*fragment, 3500 * ONE),
            point_spec(*fragment, 4000 * ONE),
        ],
{
    let mut r: Vec<NoisePoint> = Vec::new();
    r.push(point(fragment, 700 * ONE));
    r.push(point(fragment, 150 * ONE));
    r.push(point(fragment, 3000 * ONE));
    r.push(point(fragment, 3500 * ONE));
    r.push(point(fragment, 4000 * ONE));
    proof {
        assert(r@ =~= seq![
            point_spec(*fragment, 700 * ONE),
            point_spec(*fragment, 150 * ONE),
            point_spec(*fragment, 3000 * ONE),
            point_spec(*fragment, 3500 * ONE),
            point_spec(*fragment, 4000 * ONE),
        ]);
    }
    r
}

/// Ice, crack, fine detail, shadow and highlight samples.
pub fn icy_noise_points(fragment: &Fragment) -> (r: Vec<NoisePoint>)
    ensures
        r@ == seq![
            point_spec(*fragment, 800 * ONE),
            point_spec(*fragment, 200 * ONE),
            point_spec(*fragment, 3000 * ONE),
            point_spec(*fragment, 3500 * ONE),
            point_spec(*fragment, 4000 * ONE),
        ],
{
    let mut r: Vec<NoisePoint> = Vec::new();
    r.push(point(fragment, 800 * ONE));
    r.push(point(fragment, 200 * ONE));
    r.push(point(fragment, 3000 * ONE));
    r.push(point(fragment, 3500 * ONE));
    r.push(point(fragment, 4000 * ONE));
    proof {
        assert(r@ =~= seq![
            point_spec(*fragment, 800 * ONE),
            point_spec(*fragment, 200 * ONE),
            point_spec(*fragment, 3000 * ONE),
            point_spec(*fragment, 3500 * ONE),
            point_spec(*fragment, 4000 * ONE),
        ]);
    }
    r
}

/// Dune, shifted dune, fine sand, shadow and depth samples.
pub fn desert_noise_points(fragment: &Fragment) -> (r: Vec<NoisePoint>)
    ensures
        r@ == seq![
            point_spec(*fragment, 500 * ONE),
            shifted_point_spec(*fragment, 300 * ONE, 250 * ONE),
            point_spec(*fragment, 2000 * ONE),
            point_spec(*fragment, 3000 * ONE),
            point_spec(*fragment, 4000 * ONE),
        ],
{
    let mut r: Vec<NoisePoint> = Vec::new();
    r.push(point(fragment, 500 * ONE));
    r.push(shifted_point(fragment, 300 * ONE, 250 * ONE));
    r.push(point(fragment, 2000 * ONE));
    r.push(point(fragment, 3000 * ONE));
    r.push(point(fragment, 4000 * ONE));
    proof {
        assert(r@ =~= seq![
            point_spec(*fragment, 500 * ONE),
            shifted_point_spec(*fragment, 300 * ONE, 250 * ONE),
            point_spec(*fragment, 2000 * ONE),
            point_spec(*fragment, 3000 * ONE),
            point_spec(*fragment, 4000 * ONE),
        ]);
    }
    r
}

/// Base, shifted depth, wave, shadow, highlight and extra depth samples.
pub fn water_noise_points(fragment: &Fragment) -> (r: Vec<NoisePoint>)
    ensures
        r@ == seq![
            point_spec(*fragment, 300 * ONE),
            shifted_point_spec(*fragment, 500 * ONE, 120 * ONE),
            point_spec(*fragment, 500 * ONE),
            point_spec(*fragment, 2500 * ONE),
            point_spec(*fragment, 3500 * ONE),
            point_spec(*fragment, 5000 * ONE),
        ],
{
    let mut r: Vec<NoisePoint> = Vec::new();
    r.push(point(fragment, 300 * ONE));
    r.push(shifted_point(fragment, 500 * ONE, 120 * ONE));
    r.push(point(fragment, 500 * ONE));
    r.push(point(fragment, 2500 * ONE));
    r.push(point(fragment, 3500 * ONE));
    r.push(point(fragment, 5000 * ONE));
    proof {
        assert(r@ =~= seq![
            point_spec(*fragment, 300 * ONE),
            shifted_point_spec(*fragment, 500 * ONE, 120 * ONE),
            point_spec(*fragment, 500 * ONE),
            point_spec(*fragment, 2500 * ONE),
            point_spec(*fragment, 3500 * ONE),
            point_spec(*fragment, 5000 * ONE),
        ]);
    }
    r
}

/// Base, crater, fine detail, shadow and highlight samples.
pub fn moon_noise_points(fragment: &Fragment) -> (r: Vec<NoisePoint>)
    ensures
        r@ == seq![
            point_spec(*fragment, 600 * ONE),
            point_spec(*fragment, 150 * ONE),
            point_spec(*fragment, 1200 * ONE),
            point_spec(*fragment, 2000 * ONE),
            point_spec(*fragment, 2500 * ONE),
        ],
{
    let mut r: Vec<NoisePoint> = Vec::new();
    r.push(point(fragment, 600 * ONE));
    r.push(point(fragment, 150 * ONE));
    r.push(point(fragment, 1200 * ONE));
    r.push(point(fragment, 2000 * ONE));
    r.push(point(fragment, 2500 * ONE));
    proof {
        assert(r@ =~= seq![
            point_spec(*fragment, 600 * ONE),
            point_spec(*fragment, 150 * ONE),
            point_spec(*fragment, 1200 * ONE),
            point_spec(*fragment, 2000 * ONE),
            point_spec(*fragment, 2500 * ONE),
        ]);
    }
    r
}

/// The closed set of surface shaders, bound to an object as plain data.
#[derive(Clone, Copy, Debug, PartialEq, Eq, Structural)]
pub enum ShaderKind {
    Ring,
    GasGiant,
    GasGiant2,
    Rocky,
    Volcanic,
    Icy,
    Desert,
    Water,
    Moon,
}

impl ShaderKind {
    pub open spec fn shade_spec(self, f: Fragment, t: int, ns: Seq<i64>) -> Color {
        match self {
            ShaderKind::Ring => ring_spec(f, ns),
            ShaderKind::GasGiant => gas_giant_spec(f, ns),
            ShaderKind::GasGiant2 => gas_giant2_spec(f, ns),
            ShaderKind::Rocky => rocky_spec(f, t, ns),
            ShaderKind::Volcanic => volcanic_spec(f, t, ns),
            ShaderKind::Icy => icy_spec(f, t, ns),
            ShaderKind::Desert => desert_spec(f, t, ns),
            ShaderKind::Water => water_spec(f, t, ns),
            ShaderKind::Moon => moon_spec(f, t, ns),
        }
    }

    pub open spec fn noise_points_spec(self, f: Fragment) -> Seq<NoisePoint> {
        match self {
            ShaderKind::Ring => seq![planar_point_spec(f, ONE as int)],
            ShaderKind::GasGiant | ShaderKind::GasGiant2 => seq![planar_point_spec(f, 5 * ONE)],
            ShaderKind::Rocky => seq![
                point_spec(f, 800 * ONE),
                shifted_point_spec(f, 1000 * ONE, 640 * ONE),
                point_spec(f, 2000 * ONE),
                point_spec(f, 3000 * ONE),
                point_spec(f, 3500 * ONE),
                point_spec(f, 4000 * ONE),
            ],
            ShaderKind::Volcanic => seq![
                point_spec(f, 700 * ONE),
                point_spec(f, 150 * ONE),
                point_spec(f, 3000 * ONE),
                point_spec(f, 3500 * ONE),
                point_spec(f, 4000 * ONE),
            ],
            ShaderKind::Icy => seq![
                point_spec(f, 800 * ONE),
                point_spec(f, 200 * ONE),
                point_spec(f, 3000 * ONE),
                point_spec(f, 3500 * ONE),
                point_spec(f, 4000 * ONE),
            ],
            ShaderKind::Desert => seq![
                point_spec(f, 500 * ONE),
                shifted_point_spec(f, 300 * ONE, 250 * ONE),
                point_spec(f, 2000 * ONE),
                point_spec(f, 3000 * ONE),
                point_spec(f, 4000 * ONE),
            ],
            ShaderKind::Water => seq![
                point_spec(f, 300 * ONE),
                shifted_point_spec(f, 500 * ONE, 120 * ONE),
                point_spec(f, 500 * ONE),
                point_spec(f, 2500 * ONE),
                point_spec(f, 3500 * ONE),
                point_spec(f, 5000 * ONE),
            ],
            ShaderKind::Moon => seq![
                point_spec(f, 600 * ONE),
                point_spec(f, 150 * ONE),
                point_spec(f, 1200 * ONE),
                point_spec(f, 2000 * ONE),
                point_spec(f, 2500 * ONE),
            ],
        }
    }

    /// The points at which this shader samples the noise field, in the order
    /// in which `shade` reads the samples.
    pub fn noise_points(&self, fragment: &Fragment) -> (r: Vec<NoisePoint>)
        ensures
            r@ == self.noise_points_spec(*fragment),
    {
        match self {
            ShaderKind::Ring => ring_noise_points(fragment),
            ShaderKind::GasGiant => gas_giant_noise_points(fragment),
            ShaderKind::GasGiant2 => gas_giant_noise_points(fragment),
            ShaderKind::Rocky => rocky_noise_points(fragment),
            ShaderKind::Volcanic => volcanic_noise_points(fragment),
            ShaderKind::Icy => icy_noise_points(fragment),
            ShaderKind::Desert => desert_noise_points(fragment),
            ShaderKind::Water => water_noise_points(fragment),
            ShaderKind::Moon => moon_noise_points(fragment),
        }
    }

    /// The color of a fragment. It depends on the fragment, the time and the
    /// samples alone, so equal inputs give equal colors.
    pub fn shade(&self, fragment: &Fragment, uniforms: &Uniforms, noise: &Vec<i64>) -> (c: Color)
        ensures
            c == self.shade_spec(*fragment, uniforms.time as int, noise@),
    {
        match self {
            ShaderKind::Ring => ring_shader(fragment, uniforms, noise),
            ShaderKind::GasGiant => gas_giant_shader(fragment, uniforms, noise),
            ShaderKind::GasGiant2 => gas_giant_shader2(fragment, uniforms, noise),
            ShaderKind::Rocky => rocky_planet_shader(fragment, uniforms, noise),
            ShaderKind::Volcanic => volcanic_planet_shader(fragment, uniforms, noise),
            ShaderKind::Icy => icy_planet_shader(fragment, uniforms, noise),
            ShaderKind::Desert => desert_planet_shader(fragment, uniforms, noise),
            ShaderKind::Water => water_planet_shader(fragment, uniforms, noise),
            ShaderKind::Moon => moon_shader(fragment, uniforms, noise),
        }
    }
}

/// Shading reads nothing but its arguments: two calls with equal fragments,
/// times and samples give the same color, whatever else differs between
/// the two draw calls.
pub proof fn lemma_shading_deterministic(
    kind: ShaderKind,
    f1: Fragment,
    u1: Uniforms,
    n1: Seq<i64>,
    f2: Fragment,
    u2: Uniforms,
    n2: Seq<i64>,
)
    requires
        f1 == f2,
        u1.time == u2.time,
        n1 == n2,
    ensures
        kind.shade_spec(f1, u1.time as int, n1) == kind.shade_spec(f2, u2.time as int, n2),
{
}

} // verus!
