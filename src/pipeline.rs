//! One object's way through the pipeline, and compositing into the framebuffer.
use vstd::prelude::*;
use crate::color::{Color, hex_of};
use crate::fragment::Fragment;
use crate::framebuffer::{Framebuffer, colors_after, depths_after};
use crate::raster::{MAX_SCREEN, triangle, triangle_result};
use crate::transform::{Uniforms, vertex_shader, vertex_shader_spec};
use crate::vertex::Vertex;

verus! {

/// What triangle `i` of a vertex stream yields: the rasterization of its three
/// transformed vertices, or nothing where one of them has no screen position.
pub open spec fn object_triangle(fs: Seq<Fragment>, vs: Seq<Vertex>, i: int, u: Uniforms, width: int, height: int) -> bool {
    match (
        vertex_shader_spec(vs[3 * i], u),
        vertex_shader_spec(vs[3 * i + 1], u),
        vertex_shader_spec(vs[3 * i + 2], u),
    ) {
        (Some(a), Some(b), Some(c)) => triangle_result(fs, a, b, c, width, height),
        _ => fs.len() == 0,
    }
}

/// Transforms and rasterizes a mesh, three vertices at a time; a trailing
/// group of fewer than three is dropped. Entry `i` of the result holds the
/// fragments of triangle `i`.
pub fn rasterize_object(vertices: &Vec<Vertex>, uniforms: &Uniforms, width: usize, height: usize) -> (r: Vec<
    Vec<Fragment>,
>)
    requires
        forall|k: int| 0 <= k < vertices@.len() ==> (#[trigger] vertices@[k]).wf(),
        uniforms.wf(),
        width <= MAX_SCREEN,
        height <= MAX_SCREEN,
    ensures
        r@.len() == vertices@.len() / 3,
        forall|i: int|
            0 <= i < r@.len() ==> object_triangle(#[trigger] r@[i]@, vertices@, i, *uniforms, width as int, height as int),
{
    let mut r: Vec<Vec<Fragment>> = Vec::new();
    let len: usize = vertices.len();
    let n: usize = len / 3;
    let mut i: usize = 0;
    while i < n
        invariant
            i <= n,
            len == vertices@.len(),
            n == len / 3,
            forall|k: int| 0 <= k < vertices@.len() ==> (#[trigger] vertices@[k]).wf(),
            uniforms.wf(),
            width <= MAX_SCREEN,
            height <= MAX_SCREEN,
            r@.len() == i,
            forall|j: int|
                0 <= j < i ==> object_triangle(#[trigger] r@[j]@, vertices@, j, *uniforms, width as int, height as int),
        decreases n - i,
    {
        proof {
            vstd::arithmetic::div_mod::lemma_fundamental_div_mod(len as int, 3);
            assert(3 * i + 2 < len) by (nonlinear_arith)
                requires i < n, n == len / 3, len == 3 * (len / 3) + len % 3, 0 <= len % 3;
        }
        let a = vertex_shader(&vertices[3 * i], uniforms);
        let b = vertex_shader(&vertices[3 * i + 1], uniforms);
        let c = vertex_shader(&vertices[3 * i + 2], uniforms);
        let fs = match (a, b, c) {
            (Some(a), Some(b), Some(c)) => triangle(&a, &b, &c, width, height),
            _ => Vec::new(),
        };
        r.push(fs);
        i = i + 1;
    }
    r
}

/// The colors and depths after writing fragment `k` for each `k < n` in
/// order, fragment `k` with color `cols[k]`.
pub open spec fn composite(
    cs: Seq<u32>,
    ds: Seq<i64>,
    width: int,
    height: int,
    fs: Seq<Fragment>,
    cols: Seq<Color>,
    n: nat,
) -> (Seq<u32>, Seq<i64>)
    decreases n,
{
    if n == 0 {
        (cs, ds)
    } else {
        let prev = composite(cs, ds, width, height, fs, cols, (n - 1) as nat);
        let f = fs[n - 1];
        (
            colors_after(prev.0, prev.1, width, height, f.x as int, f.y as int, f.depth, hex_of(cols[n - 1]) as u32),
            depths_after(prev.1, width, height, f.x as int, f.y as int, f.depth),
        )
    }
}

/// Depth-tested writes of the fragments, in order, each with its color.
pub fn draw_fragments(fb: &mut Framebuffer, fragments: &Vec<Fragment>, colors: &Vec<Color>)
    requires
        old(fb).wf(),
        fragments@.len() == colors@.len(),
    ensures
        final(fb).wf(),
        final(fb).width_spec() == old(fb).width_spec(),
        final(fb).height_spec() == old(fb).height_spec(),
        final(fb).background() == old(fb).background(),
        (final(fb).colors(), final(fb).depths()) == composite(
            old(fb).colors(),
            old(fb).depths(),
            old(fb).width_spec(),
            old(fb).height_spec(),
            fragments@,
            colors@,
            fragments@.len(),
        ),
{
    let mut i: usize = 0;
    while i < fragments.len()
        invariant
            i <= fragments@.len(),
            fragments@.len() == colors@.len(),
            fb.wf(),
            fb.width_spec() == old(fb).width_spec(),
            fb.height_spec() == old(fb).height_spec(),
            fb.background() == old(fb).background(),
            (fb.colors(), fb.depths()) == composite(
                old(fb).colors(),
                old(fb).depths(),
                old(fb).width_spec(),
                old(fb).height_spec(),
                fragments@,
                colors@,
                i as nat,
            ),
        decreases fragments@.len() - i,
    {
        let f = fragments[i];
        let hex = colors[i].to_hex();
        fb.test_and_write(f.x, f.y, f.depth, hex);
        i = i + 1;
    }
}

} // verus!
