//! The depth-buffered color buffer that fragments are composited into.
use vstd::prelude::*;

verus! {

/// The depth that every pixel holds after a clear: farther than any fragment.
pub const FAR_DEPTH: i64 = 0x7fff_ffff_ffff_ffff;

/// Whether a fragment at `(x, y)` with depth `d` lands in the buffer and is
/// nearer than what the pixel holds.
pub open spec fn passes(depths: Seq<i64>, width: int, height: int, x: int, y: int, d: int) -> bool {
    0 <= x < width && 0 <= y < height && d < depths[y * width + x]
}

/// The colors after a depth-tested write of `c` at `(x, y)`.
pub open spec fn colors_after(
    colors: Seq<u32>,
    depths: Seq<i64>,
    width: int,
    height: int,
    x: int,
    y: int,
    d: i64,
    c: u32,
) -> Seq<u32> {
    if passes(depths, width, height, x, y, d as int) {
        colors.update(y * width + x, c)
    } else {
        colors
    }
}

/// The depths after a depth-tested write of depth `d` at `(x, y)`.
pub open spec fn depths_after(depths: Seq<i64>, width: int, height: int, x: int, y: int, d: i64) -> Seq<i64> {
    if passes(depths, width, height, x, y, d as int) {
        depths.update(y * width + x, d)
    } else {
        depths
    }
}

pub struct Framebuffer {
    width: usize,
    height: usize,
    buffer: Vec<u32>,
    zbuffer: Vec<i64>,
    background_color: u32,
    current_color: u32,
}

impl Framebuffer {
    pub closed spec fn width_spec(&self) -> int {
        self.width as int
    }

    pub closed spec fn height_spec(&self) -> int {
        self.height as int
    }

    /// The packed `0xRRGGBB` colors, row by row.
    pub closed spec fn colors(&self) -> Seq<u32> {
        self.buffer@
    }

    pub closed spec fn depths(&self) -> Seq<i64> {
        self.zbuffer@
    }

    pub closed spec fn background(&self) -> u32 {
        self.background_color
    }

    pub closed spec fn current(&self) -> u32 {
        self.current_color
    }

    pub open spec fn wf(&self) -> bool {
        &&& self.colors().len() == self.width_spec() * self.height_spec()
        &&& self.depths().len() == self.width_spec() * self.height_spec()
        &&& self.width_spec() * self.height_spec() <= usize::MAX
    }

    /// Every pixel holds `color` at the far depth.
    pub open spec fn is_cleared_to(&self, color: u32) -> bool {
        &&& forall|i: int| 0 <= i < self.colors().len() ==> #[trigger] self.colors()[i] == color
        &&& forall|i: int| 0 <= i < self.depths().len() ==> #[trigger] self.depths()[i] == FAR_DEPTH
    }

    /// A cleared buffer of `width * height` black pixels.
    pub fn new(width: usize, height: usize) -> (fb: Framebuffer)
        requires
            width * height <= usize::MAX,
        ensures
            fb.wf(),
            fb.width_spec() == width,
            fb.height_spec() == height,
            fb.background() == 0,
            fb.current() == 0xffffff,
            fb.is_cleared_to(0),
    {
        let n: usize = width * height;
        let mut buffer: Vec<u32> = Vec::new();
        let mut zbuffer: Vec<i64> = Vec::new();
        let mut i: usize = 0;
        while i < n
            invariant
                i <= n,
                buffer@.len() == i,
                zbuffer@.len() == i,
                forall|k: int| 0 <= k < i ==> #[trigger] buffer@[k] == 0,
                forall|k: int| 0 <= k < i ==> #[trigger] zbuffer@[k] == FAR_DEPTH,
            decreases n - i,
        {
            buffer.push(0);
            zbuffer.push(FAR_DEPTH);
            i = i + 1;
        }
        Framebuffer { width, height, buffer, zbuffer, background_color: 0, current_color: 0xffffff }
    }

    pub fn width(&self) -> (w: usize)
        ensures
            w == self.width_spec(),
    {
        self.width
    }

    pub fn height(&self) -> (h: usize)
        ensures
            h == self.height_spec(),
    {
        self.height
    }

    /// The packed colors, row by row, ready to hand to a presentation sink.
    pub fn buffer(&self) -> (b: &Vec<u32>)
        ensures
            b@ == self.colors(),
    {
        &self.buffer
    }

    /// Resets every pixel to the background color and the far depth.
    pub fn clear(&mut self)
        requires
            old(self).wf(),
        ensures
            final(self).wf(),
            final(self).width_spec() == old(self).width_spec(),
            final(self).height_spec() == old(self).height_spec(),
            final(self).background() == old(self).background(),
            final(self).current() == old(self).current(),
            final(self).is_cleared_to(old(self).background()),
    {
        let n: usize = self.buffer.len();
        let mut i: usize = 0;
        while i < n
            invariant
                i <= n,
                n == self.buffer@.len(),
                self.wf(),
                self.width == old(self).width,
                self.height == old(self).height,
                self.background_color == old(self).background_color,
                self.current_color == old(self).current_color,
                forall|k: int| 0 <= k < i ==> #[trigger] self.buffer@[k] == self.background_color,
                forall|k: int| 0 <= k < i ==> #[trigger] self.zbuffer@[k] == FAR_DEPTH,
            decreases n - i,
        {
            let bg = self.background_color;
            self.buffer.set(i, bg);
            self.zbuffer.set(i, FAR_DEPTH);
            i = i + 1;
        }
    }

    pub fn set_background_color(&mut self, color: u32)
        ensures
            final(self).background() == color,
            final(self).current() == old(self).current(),
            final(self).colors() == old(self).colors(),
            final(self).depths() == old(self).depths(),
            final(self).width_spec() == old(self).width_spec(),
            final(self).height_spec() == old(self).height_spec(),
    {
        self.background_color = color;
    }

    pub fn set_current_color(&mut self, color: u32)
        ensures
            final(self).current() == color,
            final(self).background() == old(self).background(),
            final(self).colors() == old(self).colors(),
            final(self).depths() == old(self).depths(),
            final(self).width_spec() == old(self).width_spec(),
            final(self).height_spec() == old(self).height_spec(),
    {
        self.current_color = color;
    }

    /// Depth-tested write of `color`: outside the buffer, or not nearer than
    /// what the pixel holds, nothing changes.
    pub fn test_and_write(&mut self, x: usize, y: usize, depth: i64, color: u32)
        requires
            old(self).wf(),
        ensures
            final(self).wf(),
            final(self).colors() == colors_after(
                old(self).colors(),
                old(self).depths(),
                old(self).width_spec(),
                old(self).height_spec(),
                x as int,
                y as int,
                depth,
                color,
            ),
            final(self).depths() == depths_after(
                old(self).depths(),
                old(self).width_spec(),
                old(self).height_spec(),
                x as int,
                y as int,
                depth,
            ),
            final(self).width_spec() == old(self).width_spec(),
            final(self).height_spec() == old(self).height_spec(),
            final(self).background() == old(self).background(),
            final(self).current() == old(self).current(),
    {
        if x < self.width && y < self.height {
            proof {
                let (w, h) = (self.width as int, self.height as int);
                assert(y * w + x < w * h) by (nonlinear_arith)
                    requires 0 <= x < w, 0 <= y < h;
            }
            let idx: usize = y * self.width + x;
            if depth < self.zbuffer[idx] {
                self.buffer.set(idx, color);
                self.zbuffer.set(idx, depth);
            }
        }
    }

    /// Depth-tested write of the current color.
    pub fn point(&mut self, x: usize, y: usize, depth: i64)
        requires
            old(self).wf(),
        ensures
            final(self).wf(),
            final(self).colors() == colors_after(
                old(self).colors(),
                old(self).depths(),
                old(self).width_spec(),
                old(self).height_spec(),
                x as int,
                y as int,
                depth,
                old(self).current(),
            ),
            final(self).depths() == depths_after(
                old(self).depths(),
                old(self).width_spec(),
                old(self).height_spec(),
                x as int,
                y as int,
                depth,
            ),
            final(self).width_spec() == old(self).width_spec(),
            final(self).height_spec() == old(self).height_spec(),
            final(self).background() == old(self).background(),
            final(self).current() == old(self).current(),
    {
        let c = self.current_color;
        self.test_and_write(x, y, depth, c);
    }

    /// The color at `(x, y)`, or `None` outside the buffer.
    pub fn color_at(&self, x: usize, y: usize) -> (c: Option<u32>)
        requires
            self.wf(),
        ensures
            c == if x < self.width_spec() && y < self.height_spec() {
                Some(self.colors()[y * self.width_spec() + x])
            } else {
                None::<u32>
            },
    {
        if x < self.width && y < self.height {
            proof {
                let (w, h) = (self.width as int, self.height as int);
                assert(y * w + x < w * h) by (nonlinear_arith)
                    requires 0 <= x < w, 0 <= y < h;
            }
            Some(self.buffer[y * self.width + x])
        } else {
            None
        }
    }

    /// The depth at `(x, y)`, or `None` outside the buffer.
    pub fn depth_at(&self, x: usize, y: usize) -> (d: Option<i64>)
        requires
            self.wf(),
        ensures
            d == if x < self.width_spec() && y < self.height_spec() {
                Some(self.depths()[y * self.width_spec() + x])
            } else {
                None::<i64>
            },
    {
        if x < self.width && y < self.height {
            proof {
                let (w, h) = (self.width as int, self.height as int);
                assert(y * w + x < w * h) by (nonlinear_arith)
                    requires 0 <= x < w, 0 <= y < h;
            }
            Some(self.zbuffer[y * self.width + x])
        } else {
            None
        }
    }
}

/// Two fragments at one pixel, with depths `d1 < d2`, each nearer than what the
/// pixel held: whichever order they are written in, the pixel ends with the
/// color of the nearer one and its depth.
pub proof fn lemma_nearer_fragment_wins(
    colors: Seq<u32>,
    depths: Seq<i64>,
    width: int,
    height: int,
    x: int,
    y: int,
    d1: i64,
    c1: u32,
    d2: i64,
    c2: u32,
)
    requires
        0 <= x < width,
        0 <= y < height,
        colors.len() == width * height,
        depths.len() == width * height,
        d1 < d2,
        d1 < depths[y * width + x],
    ensures
        ({
            let cs = colors_after(colors, depths, width, height, x, y, d1, c1);
            let ds = depths_after(depths, width, height, x, y, d1);
            &&& colors_after(cs, ds, width, height, x, y, d2, c2)[y * width + x] == c1
            &&& depths_after(ds, width, height, x, y, d2)[y * width + x] == d1
        }),
        ({
            let cs = colors_after(colors, depths, width, height, x, y, d2, c2);
            let ds = depths_after(depths, width, height, x, y, d2);
            &&& colors_after(cs, ds, width, height, x, y, d1, c1)[y * width + x] == c1
            &&& depths_after(ds, width, height, x, y, d1)[y * width + x] == d1
        }),
{
    assert(0 <= y * width + x < width * height) by (nonlinear_arith)
        requires 0 <= x < width, 0 <= y < height;
}

} // verus!
