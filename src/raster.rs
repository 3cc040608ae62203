//! Triangle rasterization by edge functions over the screen-space bounding box.
use vstd::prelude::*;
use crate::fixed::{ONE, COORD_MAX, fdiv, clamp, div_floor, in_coord_range, isqrt, sqrt_floor, lemma_div_between};
use crate::linalg::Vec3;
use crate::vertex::Vertex;
use crate::fragment::Fragment;
use vstd::arithmetic::div_mod::lemma_fundamental_div_mod;

verus! {

/// Largest screen side, in pixels, that the rasterizer accepts.
pub const MAX_SCREEN: usize = 1_000_000;

/// The fixed-point coordinate of the centre of pixel `p`.
pub open spec fn center(p: int) -> int {
    p * ONE + ONE / 2
}

/// Twice the signed area of `(a, b, (px, py))`, from the screen coordinates.
pub open spec fn edge(a: Vec3, b: Vec3, px: int, py: int) -> int {
    (b.x - a.x) * (py - a.y) - (b.y - a.y) * (px - a.x)
}

pub open spec fn area(a: Vec3, b: Vec3, c: Vec3) -> int {
    edge(a, b, c.x as int, c.y as int)
}

/// The tie rule for points exactly on the edge from `u` to `v`: of the two
/// directions of one edge, exactly one owns such points.
pub open spec fn top_left(u: Vec3, v: Vec3) -> bool {
    (v.y == u.y && v.x > u.x) || v.y < u.y
}

/// The point lies strictly on the inner side of the edge from `u` to `v`, or
/// on the edge itself when the tie rule gives it to this direction.
pub open spec fn owns(u: Vec3, v: Vec3, px: int, py: int) -> bool {
    let e = edge(u, v, px, py);
    e > 0 || (e == 0 && top_left(u, v))
}

/// Whether the centre of pixel `(px, py)` belongs to the triangle `a, b, c`
/// of positive area.
pub open spec fn covers(a: Vec3, b: Vec3, c: Vec3, px: int, py: int) -> bool {
    owns(b, c, center(px), center(py)) && owns(c, a, center(px), center(py)) && owns(a, b, center(px), center(py))
}

/// Barycentric interpolation of three values at the centre of `(px, py)`,
/// rounded down.
pub open spec fn interp(a: Vec3, b: Vec3, c: Vec3, px: int, py: int, x0: int, x1: int, x2: int) -> int {
    let (x, y) = (center(px), center(py));
    fdiv(edge(b, c, x, y) * x0 + edge(c, a, x, y) * x1 + edge(a, b, x, y) * x2, area(a, b, c))
}

pub open spec fn interp3(a: Vec3, b: Vec3, c: Vec3, px: int, py: int, u0: Vec3, u1: Vec3, u2: Vec3) -> Vec3 {
    Vec3 {
        x: interp(a, b, c, px, py, u0.x as int, u1.x as int, u2.x as int) as i64,
        y: interp(a, b, c, px, py, u0.y as int, u1.y as int, u2.y as int) as i64,
        z: interp(a, b, c, px, py, u0.z as int, u1.z as int, u2.z as int) as i64,
    }
}

/// The cosine between `n` and the `+z` light direction, held to [0, 1];
/// zero for a zero normal.
pub open spec fn intensity_of(n: Vec3) -> int {
    let len = sqrt_floor(n.x * n.x + n.y * n.y + n.z * n.z);
    if len == 0 {
        0
    } else {
        clamp(fdiv(n.z * ONE, len), 0, ONE as int)
    }
}

/// The fragment that the triangle `v1, v2, v3` gives at pixel `(px, py)`.
pub open spec fn fragment_at(v1: Vertex, v2: Vertex, v3: Vertex, px: int, py: int) -> Fragment {
    let (a, b, c) = (v1.transformed_position, v2.transformed_position, v3.transformed_position);
    let n = interp3(a, b, c, px, py, v1.transformed_normal, v2.transformed_normal, v3.transformed_normal);
    Fragment {
        x: px as usize,
        y: py as usize,
        depth: interp(a, b, c, px, py, a.z as int, b.z as int, c.z as int) as i64,
        normal: n,
        intensity: intensity_of(n) as i64,
        vertex_position: interp3(a, b, c, px, py, v1.position, v2.position, v3.position),
    }
}

pub open spec fn key(px: int, py: int, width: int) -> int {
    py * width + px
}

pub open spec fn has_pixel(fs: Seq<Fragment>, px: int, py: int) -> bool {
    exists|i: int| 0 <= i < fs.len() && fs[i].x == px && fs[i].y == py
}

/// What the rasterization of a positive-area triangle yields on a `width` by
/// `height` screen: exactly the covered pixels, each once, in row order, with
/// interpolated attributes.
pub open spec fn rasterized(fs: Seq<Fragment>, v1: Vertex, v2: Vertex, v3: Vertex, width: int, height: int) -> bool {
    &&& forall|i: int|
        0 <= i < fs.len() ==> {
            &&& #[trigger] fs[i].x < width
            &&& fs[i].y < height
            &&& covers(v1.transformed_position, v2.transformed_position, v3.transformed_position, fs[i].x as int, fs[i].y as int)
            &&& fs[i] == fragment_at(v1, v2, v3, fs[i].x as int, fs[i].y as int)
        }
    &&& forall|i: int, j: int|
        0 <= i < j < fs.len() ==> key(fs[i].x as int, fs[i].y as int, width) < key(
            fs[j].x as int,
            fs[j].y as int,
            width,
        )
    &&& forall|px: int, py: int|
        0 <= px < width && 0 <= py < height && #[trigger] covers(v1.transformed_position, v2.transformed_position, v3.transformed_position, px, py) ==> has_pixel(fs, px, py)
}

pub open spec fn min3(a: int, b: int, c: int) -> int {
    if a <= b && a <= c {
        a
    } else if b <= c {
        b
    } else {
        c
    }
}

pub open spec fn max3(a: int, b: int, c: int) -> int {
    if a >= b && a >= c {
        a
    } else if b >= c {
        b
    } else {
        c
    }
}

/// The three edge values at a point add up to the triangle's area.
pub proof fn lemma_edge_sum(a: Vec3, b: Vec3, c: Vec3, x: int, y: int)
    ensures
        edge(b, c, x, y) + edge(c, a, x, y) + edge(a, b, x, y) == area(a, b, c),
{
    lemma_barycentric_coord(a.x as int, a.y as int, b.x as int, b.y as int, c.x as int, c.y as int, x, y);
}

proof fn lemma_barycentric_coord(ax: int, ay: int, bx: int, by: int, cx: int, cy: int, x: int, y: int)
    ensures
        ((cx - bx) * (y - by) - (cy - by) * (x - bx)) * ax + ((ax - cx) * (y - cy) - (ay - cy) * (x - cx)) * bx + ((
        bx - ax) * (y - ay) - (by - ay) * (x - ax)) * cx == ((bx - ax) * (cy - ay) - (by - ay) * (cx - ax)) * x,
        ((cx - bx) * (y - by) - (cy - by) * (x - bx)) + ((ax - cx) * (y - cy) - (ay - cy) * (x - cx)) + ((bx - ax) * (
        y - ay) - (by - ay) * (x - ax)) == (bx - ax) * (cy - ay) - (by - ay) * (cx - ax),
{
    let e0 = (cx - bx) * (y - by) - (cy - by) * (x - bx);
    let e1 = (ax - cx) * (y - cy) - (ay - cy) * (x - cx);
    let e2 = (bx - ax) * (y - ay) - (by - ay) * (x - ax);
    let (p, q, r, s) = (bx - ax, by - ay, cx - ax, cy - ay);
    let (u, v) = (x - ax, y - ay);
    let ar = p * s - q * r;
    assert(e1 == s * u - r * v) by (nonlinear_arith)
        requires e1 == (ax - cx) * (y - cy) - (ay - cy) * (x - cx), s == cy - ay, u == x - ax, r == cx - ax, v == y - ay;
    assert(e2 == p * v - q * u);
    assert(e0 == (r - p) * (v - q) - (s - q) * (u - p)) by (nonlinear_arith)
        requires
            e0 == (cx - bx) * (y - by) - (cy - by) * (x - bx),
            p == bx - ax, q == by - ay, r == cx - ax, s == cy - ay, u == x - ax, v == y - ay;
    assert(e0 + e1 + e2 == ar) by (nonlinear_arith)
        requires
            e0 == (r - p) * (v - q) - (s - q) * (u - p),
            e1 == s * u - r * v,
            e2 == p * v - q * u,
            ar == p * s - q * r;
    assert(e1 * p + e2 * r == u * ar) by (nonlinear_arith)
        requires e1 == s * u - r * v, e2 == p * v - q * u, ar == p * s - q * r;
    assert(e1 * bx == e1 * ax + e1 * p) by (nonlinear_arith)
        requires bx == ax + p;
    assert(e2 * cx == e2 * ax + e2 * r) by (nonlinear_arith)
        requires cx == ax + r;
    assert((e0 + e1 + e2) * ax == e0 * ax + e1 * ax + e2 * ax) by (nonlinear_arith);
    assert(ar * x == ar * ax + ar * u) by (nonlinear_arith)
        requires x == ax + u;
    assert(u * ar == ar * u) by (nonlinear_arith);
}

/// The edge values are barycentric weights: they recombine the vertices into
/// the point, scaled by the area.
pub proof fn lemma_barycentric(a: Vec3, b: Vec3, c: Vec3, x: int, y: int)
    ensures
        edge(b, c, x, y) * a.x + edge(c, a, x, y) * b.x + edge(a, b, x, y) * c.x == area(a, b, c) * x,
        edge(b, c, x, y) * a.y + edge(c, a, x, y) * b.y + edge(a, b, x, y) * c.y == area(a, b, c) * y,
{
    lemma_barycentric_coord(a.x as int, a.y as int, b.x as int, b.y as int, c.x as int, c.y as int, x, y);
    let (ax, ay, bx, by, cx, cy) = (a.x as int, a.y as int, b.x as int, b.y as int, c.x as int, c.y as int);
    lemma_barycentric_coord(ay, ax, by, bx, cy, cx, y, x);
    let f0 = (cy - by) * (x - bx) - (cx - bx) * (y - by);
    let f1 = (ay - cy) * (x - cx) - (ax - cx) * (y - cy);
    let f2 = (by - ay) * (x - ax) - (bx - ax) * (y - ay);
    let fa = (by - ay) * (cx - ax) - (bx - ax) * (cy - ay);
    assert(f0 * ay + f1 * by + f2 * cy == fa * y);
    assert(f0 == -edge(b, c, x, y) && f1 == -edge(c, a, x, y) && f2 == -edge(a, b, x, y) && fa == -area(a, b, c));
    assert(edge(b, c, x, y) * ay + edge(c, a, x, y) * by + edge(a, b, x, y) * cy == area(a, b, c) * y)
        by (nonlinear_arith)
        requires
            f0 * ay + f1 * by + f2 * cy == fa * y,
            f0 == -edge(b, c, x, y), f1 == -edge(c, a, x, y), f2 == -edge(a, b, x, y), fa == -area(a, b, c);
}

proof fn lemma_weighted_between(e0: int, e1: int, e2: int, x0: int, x1: int, x2: int, lo: int, hi: int)
    requires
        e0 >= 0,
        e1 >= 0,
        e2 >= 0,
        lo <= x0 <= hi,
        lo <= x1 <= hi,
        lo <= x2 <= hi,
    ensures
        (e0 + e1 + e2) * lo <= e0 * x0 + e1 * x1 + e2 * x2 <= (e0 + e1 + e2) * hi,
{
    assert(e0 * lo <= e0 * x0 <= e0 * hi) by (nonlinear_arith)
        requires e0 >= 0, lo <= x0 <= hi;
    assert(e1 * lo <= e1 * x1 <= e1 * hi) by (nonlinear_arith)
        requires e1 >= 0, lo <= x1 <= hi;
    assert(e2 * lo <= e2 * x2 <= e2 * hi) by (nonlinear_arith)
        requires e2 >= 0, lo <= x2 <= hi;
    assert((e0 + e1 + e2) * lo == e0 * lo + e1 * lo + e2 * lo) by (nonlinear_arith);
    assert((e0 + e1 + e2) * hi == e0 * hi + e1 * hi + e2 * hi) by (nonlinear_arith);
}

/// A pixel centre at `p * ONE + ONE / 2` between `m` and `n` lies between the
/// pixels that hold `m` and `n`.
proof fn lemma_center_between(p: int, m: int, n: int)
    requires
        m <= center(p) <= n,
    ensures
        fdiv(m, ONE as int) <= p <= fdiv(n, ONE as int),
{
    lemma_fundamental_div_mod(m, ONE as int);
    lemma_fundamental_div_mod(n, ONE as int);
    let q = m / (ONE as int);
    let r = n / (ONE as int);
    assert(q <= p) by (nonlinear_arith)
        requires m == ONE * q + m % (ONE as int), 0 <= m % (ONE as int), p * ONE + ONE / 2 >= m;
    assert(p <= r) by (nonlinear_arith)
        requires n == ONE * r + n % (ONE as int), n % (ONE as int) < ONE, p * ONE + ONE / 2 <= n;
}

/// Every covered pixel lies in the bounding box of the triangle.
pub proof fn lemma_covered_in_box(a: Vec3, b: Vec3, c: Vec3, px: int, py: int)
    requires
        area(a, b, c) > 0,
        covers(a, b, c, px, py),
    ensures
        fdiv(min3(a.x as int, b.x as int, c.x as int), ONE as int) <= px <= fdiv(
            max3(a.x as int, b.x as int, c.x as int),
            ONE as int,
        ),
        fdiv(min3(a.y as int, b.y as int, c.y as int), ONE as int) <= py <= fdiv(
            max3(a.y as int, b.y as int, c.y as int),
            ONE as int,
        ),
{
    let (x, y) = (center(px), center(py));
    let (e0, e1, e2) = (edge(b, c, x, y), edge(c, a, x, y), edge(a, b, x, y));
    lemma_edge_sum(a, b, c, x, y);
    lemma_barycentric(a, b, c, x, y);
    let ar = area(a, b, c);
    let (mx, nx) = (min3(a.x as int, b.x as int, c.x as int), max3(a.x as int, b.x as int, c.x as int));
    let (my, ny) = (min3(a.y as int, b.y as int, c.y as int), max3(a.y as int, b.y as int, c.y as int));
    lemma_weighted_between(e0, e1, e2, a.x as int, b.x as int, c.x as int, mx, nx);
    lemma_weighted_between(e0, e1, e2, a.y as int, b.y as int, c.y as int, my, ny);
    assert(mx <= x <= nx) by (nonlinear_arith)
        requires ar * mx <= ar * x <= ar * nx, ar > 0;
    assert(my <= y <= ny) by (nonlinear_arith)
        requires ar * my <= ar * y <= ar * ny, ar > 0;
    lemma_center_between(px, mx, nx);
    lemma_center_between(py, my, ny);
}

/// The two directions of an edge share out the points on its line: each
/// point is owned by exactly one of them.
pub proof fn lemma_edge_owned_once(u: Vec3, v: Vec3, px: int, py: int)
    requires
        u.x != v.x || u.y != v.y,
    ensures
        owns(u, v, px, py) != owns(v, u, px, py),
{
    assert(edge(v, u, px, py) == -edge(u, v, px, py)) by (nonlinear_arith);
}

/// Two positive-area triangles on either side of a shared edge, `a, b, c` and
/// `b, a, d`, never cover the same pixel.
pub proof fn lemma_shared_edge_no_overlap(a: Vec3, b: Vec3, c: Vec3, d: Vec3, px: int, py: int)
    requires
        a.x != b.x || a.y != b.y,
    ensures
        !(covers(a, b, c, px, py) && covers(b, a, d, px, py)),
{
    lemma_edge_owned_once(a, b, center(px), center(py));
}

/// A pixel inside both triangles but for the shared edge, `a, b, c` and
/// `b, a, d`, is covered by exactly one of them: the shared edge leaves no gap.
pub proof fn lemma_shared_edge_exactly_once(a: Vec3, b: Vec3, c: Vec3, d: Vec3, px: int, py: int)
    requires
        a.x != b.x || a.y != b.y,
        owns(b, c, center(px), center(py)),
        owns(c, a, center(px), center(py)),
        owns(a, d, center(px), center(py)),
        owns(d, b, center(px), center(py)),
    ensures
        covers(a, b, c, px, py) != covers(b, a, d, px, py),
{
    lemma_edge_owned_once(a, b, center(px), center(py));
}

/// The pixel centre lies inside the quad that `a, b, c` and `b, a, d` make,
/// by the same edge rule along its four outer edges.
pub open spec fn quad_fill(a: Vec3, b: Vec3, c: Vec3, d: Vec3, px: int, py: int) -> bool {
    owns(b, c, center(px), center(py)) && owns(c, a, center(px), center(py)) && owns(a, d, center(px), center(py))
        && owns(d, b, center(px), center(py))
}

/// Rasterizing two triangles that share the edge from `va` to `vb` tiles
/// their quad: every on-screen pixel of its fill is in exactly one of the two
/// fragment lists.
pub proof fn lemma_shared_edge_tiles_quad(
    fs1: Seq<Fragment>,
    fs2: Seq<Fragment>,
    va: Vertex,
    vb: Vertex,
    vc: Vertex,
    vd: Vertex,
    width: int,
    height: int,
    px: int,
    py: int,
)
    requires
        va.transformed_position.x != vb.transformed_position.x || va.transformed_position.y
            != vb.transformed_position.y,
        rasterized(fs1, va, vb, vc, width, height),
        rasterized(fs2, vb, va, vd, width, height),
        0 <= px < width,
        0 <= py < height,
        quad_fill(
            va.transformed_position,
            vb.transformed_position,
            vc.transformed_position,
            vd.transformed_position,
            px,
            py,
        ),
    ensures
        has_pixel(fs1, px, py) != has_pixel(fs2, px, py),
{
    let (a, b, c, d) = (va.transformed_position, vb.transformed_position, vc.transformed_position, vd.transformed_position);
    lemma_shared_edge_exactly_once(a, b, c, d, px, py);
    if covers(a, b, c, px, py) {
        assert(has_pixel(fs1, px, py));
        if has_pixel(fs2, px, py) {
            let i = choose|i: int| 0 <= i < fs2.len() && fs2[i].x == px && fs2[i].y == py;
            assert(covers(b, a, d, fs2[i].x as int, fs2[i].y as int));
        }
    } else {
        assert(has_pixel(fs2, px, py));
        if has_pixel(fs1, px, py) {
            let i = choose|i: int| 0 <= i < fs1.len() && fs1[i].x == px && fs1[i].y == py;
            assert(covers(a, b, c, fs1[i].x as int, fs1[i].y as int));
        }
    }
}

fn edge_exec(a: &Vec3, b: &Vec3, x: i128, y: i128) -> (r: i128)
    requires
        a.wf(),
        b.wf(),
        in_coord_range(x as int),
        in_coord_range(y as int),
    ensures
        r == edge(*a, *b, x as int, y as int),
        -0x10_0000_0000_0000_0000_0000 <= r <= 0x10_0000_0000_0000_0000_0000,
{
    let dx: i128 = (b.x as i128) - (a.x as i128);
    let dy: i128 = (b.y as i128) - (a.y as i128);
    let qy: i128 = y - (a.y as i128);
    let qx: i128 = x - (a.x as i128);
    assert(-0x4_0000_0000_0000_0000_0000 <= dx * qy <= 0x4_0000_0000_0000_0000_0000) by (nonlinear_arith)
        requires -0x200_0000_0000 <= dx <= 0x200_0000_0000, -0x200_0000_0000 <= qy <= 0x200_0000_0000;
    assert(-0x4_0000_0000_0000_0000_0000 <= dy * qx <= 0x4_0000_0000_0000_0000_0000) by (nonlinear_arith)
        requires -0x200_0000_0000 <= dy <= 0x200_0000_0000, -0x200_0000_0000 <= qx <= 0x200_0000_0000;
    dx * qy - dy * qx
}

fn top_left_exec(u: &Vec3, v: &Vec3) -> (r: bool)
    ensures
        r == top_left(*u, *v),
{
    (v.y == u.y && v.x > u.x) || v.y < u.y
}

proof fn term_bound(e: int, x: int, ar: int)
    requires
        0 <= e <= ar,
        in_coord_range(x),
    ensures
        -e * COORD_MAX <= e * x <= e * COORD_MAX,
        e * COORD_MAX <= ar * COORD_MAX,
{
    assert(-e * COORD_MAX <= e * x <= e * COORD_MAX) by (nonlinear_arith)
        requires 0 <= e, -COORD_MAX <= x <= COORD_MAX;
    assert(e * COORD_MAX <= ar * COORD_MAX) by (nonlinear_arith)
        requires 0 <= e <= ar;
}

fn interp_exec(e0: i128, e1: i128, e2: i128, ar: i128, x0: i64, x1: i64, x2: i64) -> (r: i64)
    requires
        e0 >= 0,
        e1 >= 0,
        e2 >= 0,
        e0 + e1 + e2 == ar,
        0 < ar <= 0x10_0000_0000_0000_0000_0000,
        in_coord_range(x0 as int),
        in_coord_range(x1 as int),
        in_coord_range(x2 as int),
    ensures
        r == fdiv(e0 * x0 + e1 * x1 + e2 * x2, ar as int),
        in_coord_range(r as int),
{
    proof {
        let c = COORD_MAX as int;
        lemma_weighted_between(e0 as int, e1 as int, e2 as int, x0 as int, x1 as int, x2 as int, -c, c);
        assert(ar * c <= 0x10_0000_0000_0000_0000_0000 * c) by (nonlinear_arith)
            requires 0 < ar <= 0x10_0000_0000_0000_0000_0000, c > 0;
        term_bound(e0 as int, x0 as int, ar as int);
        term_bound(e1 as int, x1 as int, ar as int);
        term_bound(e2 as int, x2 as int, ar as int);
        assert(-(e0 + e1) * c <= e0 * x0 + e1 * x1 <= (e0 + e1) * c) by (nonlinear_arith)
            requires -e0 * c <= e0 * x0 <= e0 * c, -e1 * c <= e1 * x1 <= e1 * c;
        assert((e0 + e1) * c <= ar * c) by (nonlinear_arith)
            requires e0 >= 0, e1 >= 0, e2 >= 0, e0 + e1 + e2 == ar, c > 0;
        lemma_div_between(e0 * x0 + e1 * x1 + e2 * x2, -c, c, ar as int);
    }
    let s: i128 = e0 * (x0 as i128) + e1 * (x1 as i128) + e2 * (x2 as i128);
    div_floor(s, ar) as i64
}

fn intensity_exec(n: &Vec3) -> (r: i64)
    requires
        n.wf(),
    ensures
        r == intensity_of(*n),
        0 <= r <= ONE,
{
    let (x, y, z) = (n.x as i128, n.y as i128, n.z as i128);
    assert(0 <= x * x <= 0x100_0000_0000 * 0x100_0000_0000) by (nonlinear_arith)
        requires -0x100_0000_0000 <= x <= 0x100_0000_0000;
    assert(0 <= y * y <= 0x100_0000_0000 * 0x100_0000_0000) by (nonlinear_arith)
        requires -0x100_0000_0000 <= y <= 0x100_0000_0000;
    assert(0 <= z * z <= 0x100_0000_0000 * 0x100_0000_0000) by (nonlinear_arith)
        requires -0x100_0000_0000 <= z <= 0x100_0000_0000;
    let sq: i128 = x * x + y * y + z * z;
    let len = isqrt(sq as u128);
    if len == 0 {
        return 0;
    }
    assert(-0x100_0000_0000 * ONE <= z * ONE <= 0x100_0000_0000 * ONE) by (nonlinear_arith)
        requires -0x100_0000_0000 <= z <= 0x100_0000_0000;
    let q = div_floor(z * (ONE as i128), len as i128);
    if q < 0 {
        0
    } else if q > ONE as i128 {
        ONE
    } else {
        q as i64
    }
}

fn fragment_exec(v1: &Vertex, v2: &Vertex, v3: &Vertex, px: i64, py: i64, e0: i128, e1: i128, e2: i128, ar: i128) -> (f: Fragment)
    requires
        v1.wf(),
        v2.wf(),
        v3.wf(),
        0 <= px < MAX_SCREEN,
        0 <= py < MAX_SCREEN,
        ar == area(v1.transformed_position, v2.transformed_position, v3.transformed_position),
        0 < ar <= 0x10_0000_0000_0000_0000_0000,
        e0 == edge(v2.transformed_position, v3.transformed_position, center(px as int), center(py as int)),
        e1 == edge(v3.transformed_position, v1.transformed_position, center(px as int), center(py as int)),
        e2 == edge(v1.transformed_position, v2.transformed_position, center(px as int), center(py as int)),
        e0 >= 0,
        e1 >= 0,
        e2 >= 0,
    ensures
        f == fragment_at(*v1, *v2, *v3, px as int, py as int),
{
    proof {
        lemma_edge_sum(v1.transformed_position, v2.transformed_position, v3.transformed_position, center(px as int), center(py as int));
    }
    let a = &v1.transformed_position;
    let b = &v2.transformed_position;
    let c = &v3.transformed_position;
    let depth = interp_exec(e0, e1, e2, ar, a.z, b.z, c.z);
    let (n1, n2, n3) = (&v1.transformed_normal, &v2.transformed_normal, &v3.transformed_normal);
    let normal = Vec3 {
        x: interp_exec(e0, e1, e2, ar, n1.x, n2.x, n3.x),
        y: interp_exec(e0, e1, e2, ar, n1.y, n2.y, n3.y),
        z: interp_exec(e0, e1, e2, ar, n1.z, n2.z, n3.z),
    };
    let (p1, p2, p3) = (&v1.position, &v2.position, &v3.position);
    let vertex_position = Vec3 {
        x: interp_exec(e0, e1, e2, ar, p1.x, p2.x, p3.x),
        y: interp_exec(e0, e1, e2, ar, p1.y, p2.y, p3.y),
        z: interp_exec(e0, e1, e2, ar, p1.z, p2.z, p3.z),
    };
    let intensity = intensity_exec(&normal);
    Fragment { x: px as usize, y: py as usize, depth, normal, intensity, vertex_position }
}

pub open spec fn box_lo(m: int) -> int {
    if fdiv(m, ONE as int) < 0 {
        0
    } else {
        fdiv(m, ONE as int)
    }
}

pub open spec fn box_hi(n: int, size: int) -> int {
    if fdiv(n, ONE as int) > size - 1 {
        size - 1
    } else {
        fdiv(n, ONE as int)
    }
}

/// Pixel `(px, py)` comes before the scan position `(x, y)` in row order.
pub open spec fn scanned(px: int, py: int, x: int, y: int) -> bool {
    py < y || (py == y && px < x)
}

/// What the scan has produced when it reaches `(x, y)`.
pub open spec fn progress(
    fs: Seq<Fragment>,
    v1: Vertex,
    v2: Vertex,
    v3: Vertex,
    width: int,
    height: int,
    x: int,
    y: int,
) -> bool {
    &&& forall|i: int|
        0 <= i < fs.len() ==> {
            &&& #[trigger] fs[i].x < width
            &&& fs[i].y < height
            &&& covers(v1.transformed_position, v2.transformed_position, v3.transformed_position, fs[i].x as int, fs[i].y as int)
            &&& fs[i] == fragment_at(v1, v2, v3, fs[i].x as int, fs[i].y as int)
            &&& scanned(fs[i].x as int, fs[i].y as int, x, y)
        }
    &&& forall|i: int, j: int|
        0 <= i < j < fs.len() ==> key(fs[i].x as int, fs[i].y as int, width) < key(
            fs[j].x as int,
            fs[j].y as int,
            width,
        )
    &&& forall|px: int, py: int|
        0 <= px < width && 0 <= py < height && scanned(px, py, x, y) && #[trigger] covers(v1.transformed_position, v2.transformed_position, v3.transformed_position, px, py)
            ==> has_pixel(fs, px, py)
}

proof fn lemma_in_box(a: Vec3, b: Vec3, c: Vec3, px: int, py: int, width: int, height: int)
    requires
        area(a, b, c) > 0,
        covers(a, b, c, px, py),
        0 <= px < width,
        0 <= py < height,
    ensures
        box_lo(min3(a.x as int, b.x as int, c.x as int)) <= px <= box_hi(max3(a.x as int, b.x as int, c.x as int), width),
        box_lo(min3(a.y as int, b.y as int, c.y as int)) <= py <= box_hi(max3(a.y as int, b.y as int, c.y as int), height),
{
    lemma_covered_in_box(a, b, c, px, py);
}

proof fn lemma_scanned_key(px: int, py: int, x: int, y: int, width: int)
    requires
        scanned(px, py, x, y),
        0 <= px < width,
        0 <= x < width,
    ensures
        key(px, py, width) < key(x, y, width),
{
    if py < y {
        assert(py * width + px < y * width + x) by (nonlinear_arith)
            requires py < y, 0 <= px < width, 0 <= x;
    }
}

fn box_range(p0: i64, p1: i64, p2: i64, size: usize) -> (r: (i64, i64))
    requires
        in_coord_range(p0 as int),
        in_coord_range(p1 as int),
        in_coord_range(p2 as int),
        size <= MAX_SCREEN,
    ensures
        r.0 == box_lo(min3(p0 as int, p1 as int, p2 as int)),
        r.1 == box_hi(max3(p0 as int, p1 as int, p2 as int), size as int),
        0 <= r.0,
        r.1 < size,
{
    let m: i64 = if p0 <= p1 && p0 <= p2 {
        p0
    } else if p1 <= p2 {
        p1
    } else {
        p2
    };
    let n: i64 = if p0 >= p1 && p0 >= p2 {
        p0
    } else if p1 >= p2 {
        p1
    } else {
        p2
    };
    proof {
        lemma_div_between(m as int, -COORD_MAX as int, COORD_MAX as int, ONE as int);
        lemma_div_between(n as int, -COORD_MAX as int, COORD_MAX as int, ONE as int);
    }
    let lo = div_floor(m as i128, ONE as i128);
    let hi = div_floor(n as i128, ONE as i128);
    let lo2: i64 = if lo < 0 { 0 } else { lo as i64 };
    let hi2: i64 = if hi > (size as i128) - 1 { (size as i64) - 1 } else { hi as i64 };
    (lo2, hi2)
}

fn owns_exec(u: &Vec3, v: &Vec3, e: i128) -> (r: bool)
    ensures
        r == (e > 0 || (e == 0 && top_left(*u, *v))),
{
    e > 0 || (e == 0 && top_left_exec(u, v))
}

fn raster_positive(v1: &Vertex, v2: &Vertex, v3: &Vertex, width: usize, height: usize, ar: i128) -> (r: Vec<
    Fragment,
>)
    requires
        v1.wf(),
        v2.wf(),
        v3.wf(),
        width <= MAX_SCREEN,
        height <= MAX_SCREEN,
        ar == area(v1.transformed_position, v2.transformed_position, v3.transformed_position),
        0 < ar <= 0x10_0000_0000_0000_0000_0000,
    ensures
        rasterized(r@, *v1, *v2, *v3, width as int, height as int),
{
    let a = v1.transformed_position;
    let b = v2.transformed_position;
    let c = v3.transformed_position;
    let ghost (w, h) = (width as int, height as int);
    let mut frags: Vec<Fragment> = Vec::new();
    if width == 0 || height == 0 {
        return frags;
    }
    let (lo_x, hi_x) = box_range(a.x, b.x, c.x, width);
    let (lo_y, hi_y) = box_range(a.y, b.y, c.y, height);
    if lo_x > hi_x || lo_y > hi_y {
        proof {
            assert forall|px: int, py: int|
                0 <= px < w && 0 <= py < h && #[trigger] covers(a, b, c, px, py) implies has_pixel(frags@, px, py) by {
                lemma_in_box(a, b, c, px, py, w, h);
            }
        }
        return frags;
    }
    proof {
        assert forall|px: int, py: int|
            0 <= px < w && 0 <= py < h && scanned(px, py, lo_x as int, lo_y as int) && #[trigger] covers(
                a,
                b,
                c,
                px,
                py,
            ) implies has_pixel(frags@, px, py) by {
            lemma_in_box(a, b, c, px, py, w, h);
        }
    }
    let mut y: i64 = lo_y;
    while y <= hi_y
        invariant
            a == v1.transformed_position,
            b == v2.transformed_position,
            c == v3.transformed_position,
            v1.wf(),
            v2.wf(),
            v3.wf(),
            w == width,
            h == height,
            0 < width <= MAX_SCREEN,
            0 < height <= MAX_SCREEN,
            ar == area(a, b, c),
            0 < ar <= 0x10_0000_0000_0000_0000_0000,
            lo_x == box_lo(min3(a.x as int, b.x as int, c.x as int)),
            hi_x == box_hi(max3(a.x as int, b.x as int, c.x as int), w),
            lo_y == box_lo(min3(a.y as int, b.y as int, c.y as int)),
            hi_y == box_hi(max3(a.y as int, b.y as int, c.y as int), h),
            0 <= lo_x <= hi_x < width,
            0 <= lo_y <= hi_y < height,
            lo_y <= y <= hi_y + 1,
            progress(frags@, *v1, *v2, *v3, w, h, lo_x as int, y as int),
        decreases hi_y + 1 - y,
    {
        let mut x: i64 = lo_x;
        while x <= hi_x
            invariant
                a == v1.transformed_position,
                b == v2.transformed_position,
                c == v3.transformed_position,
                v1.wf(),
                v2.wf(),
                v3.wf(),
                w == width,
                h == height,
                0 < width <= MAX_SCREEN,
                0 < height <= MAX_SCREEN,
                ar == area(a, b, c),
                0 < ar <= 0x10_0000_0000_0000_0000_0000,
                lo_x == box_lo(min3(a.x as int, b.x as int, c.x as int)),
                hi_x == box_hi(max3(a.x as int, b.x as int, c.x as int), w),
                lo_y == box_lo(min3(a.y as int, b.y as int, c.y as int)),
                hi_y == box_hi(max3(a.y as int, b.y as int, c.y as int), h),
                0 <= lo_x <= hi_x < width,
                0 <= lo_y <= y <= hi_y < height,
                lo_x <= x <= hi_x + 1,
                progress(frags@, *v1, *v2, *v3, w, h, x as int, y as int),
            decreases hi_x + 1 - x,
        {
            assert(0 <= x * ONE <= MAX_SCREEN * ONE && 0 <= y * ONE <= MAX_SCREEN * ONE) by (nonlinear_arith)
                requires 0 <= x <= MAX_SCREEN, 0 <= y <= MAX_SCREEN;
            let px: i128 = (x as i128) * (ONE as i128) + (ONE as i128) / 2;
            let py: i128 = (y as i128) * (ONE as i128) + (ONE as i128) / 2;
            assert(px == center(x as int) && py == center(y as int));
            let e0 = edge_exec(&b, &c, px, py);
            let e1 = edge_exec(&c, &a, px, py);
            let e2 = edge_exec(&a, &b, px, py);
            let inside = owns_exec(&b, &c, e0) && owns_exec(&c, &a, e1) && owns_exec(&a, &b, e2);
            assert(inside == covers(a, b, c, x as int, y as int));
            if inside {
                let f = fragment_exec(v1, v2, v3, x, y, e0, e1, e2, ar);
                let ghost old_frags = frags@;
                frags.push(f);
                proof {
                    let fs = frags@;
                    assert(fs[old_frags.len() as int] == f);
                    assert forall|i: int| 0 <= i < old_frags.len() implies key(
                        fs[i].x as int,
                        fs[i].y as int,
                        w,
                    ) < key(x as int, y as int, w) by {
                        assert(fs[i] == old_frags[i]);
                        lemma_scanned_key(fs[i].x as int, fs[i].y as int, x as int, y as int, w);
                    }
                    assert forall|px2: int, py2: int|
                        0 <= px2 < w && 0 <= py2 < h && scanned(px2, py2, x + 1, y as int) && #[trigger] covers(
                            a,
                            b,
                            c,
                            px2,
                            py2,
                        ) implies has_pixel(fs, px2, py2) by {
                        if scanned(px2, py2, x as int, y as int) {
                            assert(has_pixel(old_frags, px2, py2));
                            let i = choose|i: int|
                                0 <= i < old_frags.len() && old_frags[i].x == px2 && old_frags[i].y == py2;
                            assert(fs[i] == old_frags[i]);
                        } else {
                            assert(fs[old_frags.len() as int].x == px2);
                        }
                    }
                }
            }
            x = x + 1;
        }
        proof {
            assert forall|px2: int, py2: int|
                0 <= px2 < w && 0 <= py2 < h && scanned(px2, py2, lo_x as int, y + 1) && #[trigger] covers(
                    a,
                    b,
                    c,
                    px2,
                    py2,
                ) implies has_pixel(frags@, px2, py2) by {
                lemma_in_box(a, b, c, px2, py2, w, h);
                assert(scanned(px2, py2, x as int, y as int));
            }
        }
        y = y + 1;
    }
    proof {
        assert forall|px2: int, py2: int|
            0 <= px2 < w && 0 <= py2 < h && #[trigger] covers(a, b, c, px2, py2) implies has_pixel(
                frags@,
                px2,
                py2,
            ) by {
            lemma_in_box(a, b, c, px2, py2, w, h);
            assert(scanned(px2, py2, lo_x as int, y as int));
        }
    }
    frags
}

/// The fragments of one triangle: none at zero area, else its rasterization
/// with the vertices ordered so that the area is positive.
pub open spec fn triangle_result(fs: Seq<Fragment>, v1: Vertex, v2: Vertex, v3: Vertex, width: int, height: int) -> bool {
    let ar = area(v1.transformed_position, v2.transformed_position, v3.transformed_position);
    &&& ar == 0 ==> fs.len() == 0
    &&& ar > 0 ==> rasterized(fs, v1, v2, v3, width, height)
    &&& ar < 0 ==> rasterized(fs, v1, v3, v2, width, height)
}

/// Rasterizes one triangle of screen-space vertices on a `width` by `height`
/// screen. A triangle of zero area yields nothing; otherwise the result is
/// every on-screen pixel whose centre the triangle covers, each once, in row
/// order, taken with the vertices ordered so that the area is positive.
pub fn triangle(v1: &Vertex, v2: &Vertex, v3: &Vertex, width: usize, height: usize) -> (r: Vec<Fragment>)
    requires
        v1.wf(),
        v2.wf(),
        v3.wf(),
        width <= MAX_SCREEN,
        height <= MAX_SCREEN,
    ensures
        triangle_result(r@, *v1, *v2, *v3, width as int, height as int),
{
    let a = v1.transformed_position;
    let b = v2.transformed_position;
    let c = v3.transformed_position;
    let ar = edge_exec(&a, &b, c.x as i128, c.y as i128);
    if ar > 0 {
        raster_positive(v1, v2, v3, width, height, ar)
    } else if ar < 0 {
        proof {
            assert(area(a, c, b) == -area(a, b, c)) by (nonlinear_arith);
        }
        raster_positive(v1, v3, v2, width, height, -ar)
    } else {
        Vec::new()
    }
}

/// Two triangles that share the edge from `va` to `vb`, on either side of it,
/// rasterize to fragment lists with no pixel in common.
pub proof fn lemma_shared_edge_fragments_disjoint(
    fs1: Seq<Fragment>,
    fs2: Seq<Fragment>,
    va: Vertex,
    vb: Vertex,
    vc: Vertex,
    vd: Vertex,
    width: int,
    height: int,
)
    requires
        va.transformed_position.x != vb.transformed_position.x || va.transformed_position.y
            != vb.transformed_position.y,
        rasterized(fs1, va, vb, vc, width, height),
        rasterized(fs2, vb, va, vd, width, height),
    ensures
        forall|i: int, j: int|
            0 <= i < fs1.len() && 0 <= j < fs2.len() ==> !(#[trigger] fs1[i].x == #[trigger] fs2[j].x && fs1[i].y
                == fs2[j].y),
{
    let (a, b, c, d) = (va.transformed_position, vb.transformed_position, vc.transformed_position, vd.transformed_position);
    assert forall|i: int, j: int| 0 <= i < fs1.len() && 0 <= j < fs2.len() implies !(#[trigger] fs1[i].x
        == #[trigger] fs2[j].x && fs1[i].y == fs2[j].y) by {
        lemma_shared_edge_no_overlap(a, b, c, d, fs1[i].x as int, fs1[i].y as int);
    }
}

/// Groups a vertex stream into triangles of three consecutive vertices; a
/// trailing group of fewer than three is dropped.
pub fn assemble_triangles(vertices: &Vec<Vertex>) -> (r: Vec<(Vertex, Vertex, Vertex)>)
    ensures
        r@.len() == vertices@.len() / 3,
        forall|i: int|
            0 <= i < r@.len() ==> #[trigger] r@[i] == (vertices@[3 * i], vertices@[3 * i + 1], vertices@[3 * i + 2]),
{
    let mut r: Vec<(Vertex, Vertex, Vertex)> = Vec::new();
    let len: usize = vertices.len();
    let n: usize = len / 3;
    let mut i: usize = 0;
    while i < n
        invariant
            i <= n,
            len == vertices@.len(),
            n == vertices@.len() / 3,
            r@.len() == i,
            forall|k: int|
                0 <= k < i ==> #[trigger] r@[k] == (vertices@[3 * k], vertices@[3 * k + 1], vertices@[3 * k + 2]),
        decreases n - i,
    {
        proof {
            lemma_fundamental_div_mod(len as int, 3);
            assert(3 * i + 2 < len) by (nonlinear_arith)
                requires i < n, n == len / 3, len == 3 * (len / 3) + len % 3, 0 <= len % 3;
        }
        let t = (vertices[3 * i], vertices[3 * i + 1], vertices[3 * i + 2]);
        r.push(t);
        i = i + 1;
    }
    r
}

} // verus!
