//! A pixel surface over a linear, BGR-ordered, 4-bytes-per-pixel
//! framebuffer of the kind the boot firmware's graphics output hands over:
//! a resolution, a row stride in pixels (which may exceed the visible
//! width), and the flat byte buffer itself.

use vstd::prelude::*;
use vstd::arithmetic::div_mod::{lemma_fundamental_div_mod, lemma_fundamental_div_mod_converse};
use crate::graphics::color::{Color, RGB};
use crate::graphics::display::Display;
use crate::graphics::font::Glyph;
use crate::graphics::font::psf::PSFGlyph;

verus! {

/// The byte offset of pixel `(x, y)` in a framebuffer with the given row
/// stride: four bytes per pixel, rows `stride` pixels apart.
pub open spec fn spec_pixel_index(stride: int, x: int, y: int) -> int {
    4 * (stride * y + x)
}

/// Byte `k` of a pixel holding `c`: blue, green, red, then a padding byte.
pub open spec fn rgb_byte(c: RGB, k: int) -> u8 {
    if k == 0 {
        c.spec_b()
    } else if k == 1 {
        c.spec_g()
    } else if k == 2 {
        c.spec_r()
    } else {
        0
    }
}

/// The column a byte offset falls in.
pub open spec fn spec_px(stride: int, j: int) -> int {
    (j / 4) % stride
}

/// The row a byte offset falls in.
pub open spec fn spec_py(stride: int, j: int) -> int {
    (j / 4) / stride
}

/// The buffer after pixel `(x, y)` is written with `c`.
pub open spec fn spec_write_pixel(buf: Seq<u8>, stride: int, c: RGB, x: int, y: int) -> Seq<u8> {
    Seq::new(
        buf.len(),
        |j: int|
            if spec_pixel_index(stride, x, y) <= j < spec_pixel_index(stride, x, y) + 4 {
                rgb_byte(c, j - spec_pixel_index(stride, x, y))
            } else {
                buf[j]
            },
    )
}

/// The buffer after every pixel within `w × h` is set to `c`; bytes in the
/// stride padding keep their old values.
pub open spec fn spec_cleared(buf: Seq<u8>, stride: int, w: int, h: int, c: RGB) -> Seq<u8> {
    Seq::new(
        buf.len(),
        |j: int|
            if stride > 0 && spec_px(stride, j) < w && spec_py(stride, j) < h {
                rgb_byte(c, j % 4)
            } else {
                buf[j]
            },
    )
}

/// Whether drawing glyph `g` at `(x, y)` writes the byte at offset `j`:
/// the byte's pixel lies on the surface, within the glyph's own width and
/// the capped height `vcap`, and the glyph bit there is set.
pub open spec fn spec_draw_cond(
    stride: int,
    w: int,
    h: int,
    x: int,
    y: int,
    g: PSFGlyph,
    vcap: int,
    j: int,
) -> bool {
    let px = spec_px(stride, j);
    let py = spec_py(stride, j);
    &&& stride > 0
    &&& px < w
    &&& py < h
    &&& x <= px < x + g.spec_width()
    &&& y <= py < y + vcap
    &&& g.pixel(px - x, py - y)
}

/// The buffer after glyph `g` is blitted at `(x, y)` in color `c`, its
/// height capped at `vcap` rows.
pub open spec fn spec_draw_glyph(
    buf: Seq<u8>,
    stride: int,
    w: int,
    h: int,
    c: RGB,
    x: int,
    y: int,
    g: PSFGlyph,
    vcap: int,
) -> Seq<u8> {
    Seq::new(
        buf.len(),
        |j: int|
            if spec_draw_cond(stride, w, h, x, y, g, vcap, j) {
                rgb_byte(c, j % 4)
            } else {
                buf[j]
            },
    )
}

/// A byte offset inside pixel `(x, y)`'s cell has that cell's coordinates.
proof fn lemma_index_coords(stride: int, x: int, y: int, j: int)
    requires
        stride > 0,
        0 <= x < stride,
        0 <= y,
        spec_pixel_index(stride, x, y) <= j < spec_pixel_index(stride, x, y) + 4,
    ensures
        spec_px(stride, j) == x,
        spec_py(stride, j) == y,
        j % 4 == j - spec_pixel_index(stride, x, y),
{
    let p = stride * y + x;
    lemma_fundamental_div_mod_converse(j, 4, p, j - 4 * p);
    assert(stride * y == y * stride) by (nonlinear_arith);
    lemma_fundamental_div_mod_converse(p, stride, y, x);
}

/// Every byte offset lies inside the cell of its own pixel coordinates.
proof fn lemma_coords_index(stride: int, j: int)
    requires
        stride > 0,
        0 <= j,
    ensures
        spec_pixel_index(stride, spec_px(stride, j), spec_py(stride, j)) <= j
            < spec_pixel_index(stride, spec_px(stride, j), spec_py(stride, j)) + 4,
        0 <= spec_px(stride, j) < stride,
        0 <= spec_py(stride, j),
{
    lemma_fundamental_div_mod(j, 4);
    lemma_fundamental_div_mod(j / 4, stride);
}

/// A pixel surface borrowed from the boot firmware's graphics output: the
/// display's geometry together with the linear pixel buffer it addresses.
pub struct GopDisplay {
    fb: Vec<u8>,
    width: usize,
    height: usize,
    stride: usize,
}

impl GopDisplay {
    pub closed spec fn spec_stride(&self) -> int {
        self.stride as int
    }

    pub closed spec fn spec_buf(&self) -> Seq<u8> {
        self.fb@
    }

    /// Geometry well-formedness: rows are at least as long as the visible
    /// width, and the buffer holds exactly `4 * stride * height` bytes.
    #[verifier::type_invariant]
    pub closed spec fn wf(&self) -> bool {
        &&& self.width <= self.stride
        &&& self.fb@.len() == 4 * self.stride * self.height
    }

    /// Builds a surface of the given geometry over a zeroed buffer.
    /// `None` when the geometry is inconsistent (a visible width wider
    /// than the stride) or the buffer size is not addressable.
    pub fn new(width: usize, height: usize, stride: usize) -> (r: Option<GopDisplay>)
        ensures
            match r {
                Some(d) => {
                    &&& width <= stride
                    &&& 4 * stride * height <= usize::MAX
                    &&& d.spec_width() == width
                    &&& d.spec_height() == height
                    &&& d.spec_stride() == stride
                    &&& d.spec_buf().len() == 4 * stride * height
                    &&& forall|j: int| 0 <= j < d.spec_buf().len() ==> d.spec_buf()[j] == 0u8
                },
                None => width > stride || 4 * stride * height > usize::MAX,
            },
    {
        if width > stride {
            return None;
        }
        let bytes = match stride.checked_mul(height) {
            Some(p) => match p.checked_mul(4) {
                Some(n) => n,
                None => {
                    proof {
                        assert(4 * stride * height == (stride * height) * 4) by (nonlinear_arith);
                    }
                    return None;
                },
            },
            None => {
                proof {
                    assert(4 * stride * height >= stride * height) by (nonlinear_arith)
                        requires
                            stride * height > usize::MAX,
                    ;
                }
                return None;
            },
        };
        proof {
            assert(bytes == 4 * stride * height) by (nonlinear_arith)
                requires
                    bytes == (stride * height) * 4,
            ;
        }
        Some(GopDisplay { fb: vec![0u8; bytes], width, height, stride })
    }

    /// The geometry facts a renderer needs: the visible width fits in the
    /// stride, and the buffer holds four bytes per stride slot and row.
    pub proof fn lemma_geometry(&self)
        requires
            self.wf(),
        ensures
            self.spec_width() <= self.spec_stride(),
            self.spec_buf().len() == 4 * self.spec_stride() * self.spec_height(),
            self.spec_buf().len() <= usize::MAX,
            0 <= self.spec_width() <= usize::MAX,
            0 <= self.spec_height() <= usize::MAX,
            0 <= self.spec_stride() <= usize::MAX,
    {
        broadcast use vstd::std_specs::vec::axiom_spec_len;

        assert(vstd::std_specs::vec::spec_vec_len(&self.fb) == self.fb@.len());
    }

    /// The raw bytes of the surface, for handing back to a display driver.
    pub fn data(&self) -> (r: &Vec<u8>)
        ensures
            r@ == self.spec_buf(),
    {
        &self.fb
    }

    /// The four stored bytes of the pixel at `(x, y)`.
    pub fn get_pixel(&self, x: usize, y: usize) -> (r: [u8; 4])
        requires
            x < self.spec_width(),
            y < self.spec_height(),
        ensures
            forall|k: int|
                0 <= k < 4 ==> r@[k] == self.spec_buf()[spec_pixel_index(
                    self.spec_stride(),
                    x as int,
                    y as int,
                ) + k],
    {
        proof {
            use_type_invariant(self);
        }
        let idx = self.pixel_index(x, y);
        [self.fb[idx], self.fb[idx + 1], self.fb[idx + 2], self.fb[idx + 3]]
    }

    /// Converts a color to a BGR-formatted byte array.
    fn make_pixel(&self, color: RGB) -> (r: [u8; 4])
        ensures
            forall|k: int| 0 <= k < 4 ==> r@[k] == rgb_byte(color, k),
    {
        [color.b(), color.g(), color.r(), 0]
    }

    /// The byte offset of the pixel at `(x, y)`.
    fn pixel_index(&self, x: usize, y: usize) -> (r: usize)
        requires
            x < self.spec_stride(),
            y < self.spec_height(),
        ensures
            r == spec_pixel_index(self.spec_stride(), x as int, y as int),
            r + 4 <= self.spec_buf().len(),
    {
        proof {
            use_type_invariant(self);
            assert(stride_mul_bound(self.stride as int, self.height as int, x as int, y as int))
                by (nonlinear_arith)
                requires
                    x < self.stride,
                    y < self.height,
            ;
        }
        let n = self.fb.len();
        4 * (self.stride * y + x)
    }
}

/// `stride * y + x` stays strictly below `stride * height` for in-range
/// coordinates, so four times it stays below the buffer length.
spec fn stride_mul_bound(stride: int, height: int, x: int, y: int) -> bool {
    4 * (stride * y + x) + 4 <= 4 * stride * height
}

impl Display for GopDisplay {
    closed spec fn spec_width(&self) -> int {
        self.width as int
    }

    closed spec fn spec_height(&self) -> int {
        self.height as int
    }

    fn resolution(&self) -> (usize, usize) {
        (self.width, self.height)
    }

    fn width(&self) -> usize {
        self.width
    }

    fn height(&self) -> usize {
        self.height
    }

    fn set_pixel(&mut self, color: RGB, x: usize, y: usize)
        ensures
            final(self).spec_stride() == old(self).spec_stride(),
            final(self).spec_buf() == spec_write_pixel(
                old(self).spec_buf(),
                old(self).spec_stride(),
                color,
                x as int,
                y as int,
            ),
    {
        self.write_pixel(color, x, y);
    }

    fn set_pixel_ignore_oob(&mut self, color: RGB, x: usize, y: usize)
        ensures
            final(self).spec_stride() == old(self).spec_stride(),
            final(self).spec_buf() == if x < old(self).spec_width() && y < old(
                self,
            ).spec_height() {
                spec_write_pixel(
                    old(self).spec_buf(),
                    old(self).spec_stride(),
                    color,
                    x as int,
                    y as int,
                )
            } else {
                old(self).spec_buf()
            },
    {
        self.write_pixel_clipped(color, x, y);
    }

    fn clear(&mut self, color: RGB)
        ensures
            final(self).spec_stride() == old(self).spec_stride(),
            final(self).spec_buf() == spec_cleared(
                old(self).spec_buf(),
                old(self).spec_stride(),
                old(self).spec_width(),
                old(self).spec_height(),
                color,
            ),
    {
        self.fill(color);
    }
}

impl GopDisplay {
    /// Writes one pixel. The caller is responsible for the coordinates
    /// lying within the surface; the byte-exact effect is pinned here.
    pub fn write_pixel(&mut self, color: RGB, x: usize, y: usize)
        requires
            x < old(self).spec_width(),
            y < old(self).spec_height(),
        ensures
            final(self).spec_width() == old(self).spec_width(),
            final(self).spec_height() == old(self).spec_height(),
            final(self).spec_stride() == old(self).spec_stride(),
            final(self).spec_buf() == spec_write_pixel(
                old(self).spec_buf(),
                old(self).spec_stride(),
                color,
                x as int,
                y as int,
            ),
    {
        proof {
            use_type_invariant(&*self);
            assert(x < self.spec_stride());
        }
        let px = self.make_pixel(color);
        let idx = self.pixel_index(x, y);
        self.fb[idx] = px[0];
        self.fb[idx + 1] = px[1];
        self.fb[idx + 2] = px[2];
        self.fb[idx + 3] = px[3];
        proof {
            assert(self.fb@ =~= spec_write_pixel(
                old(self).spec_buf(),
                old(self).spec_stride(),
                color,
                x as int,
                y as int,
            ));
        }
    }

    /// Writes one pixel, silently doing nothing when the coordinates lie
    /// outside the surface.
    pub fn write_pixel_clipped(&mut self, color: RGB, x: usize, y: usize)
        ensures
            final(self).spec_width() == old(self).spec_width(),
            final(self).spec_height() == old(self).spec_height(),
            final(self).spec_stride() == old(self).spec_stride(),
            final(self).spec_buf() == if x < old(self).spec_width() && y < old(
                self,
            ).spec_height() {
                spec_write_pixel(
                    old(self).spec_buf(),
                    old(self).spec_stride(),
                    color,
                    x as int,
                    y as int,
                )
            } else {
                old(self).spec_buf()
            },
    {
        if x >= self.width || y >= self.height {
            return ;
        }
        self.write_pixel(color, x, y);
    }

    /// Sets every pixel within the resolution to `color`; bytes in the
    /// stride padding are left as they were.
    pub fn fill(&mut self, color: RGB)
        ensures
            final(self).spec_width() == old(self).spec_width(),
            final(self).spec_height() == old(self).spec_height(),
            final(self).spec_stride() == old(self).spec_stride(),
            final(self).spec_buf() == spec_cleared(
                old(self).spec_buf(),
                old(self).spec_stride(),
                old(self).spec_width(),
                old(self).spec_height(),
                color,
            ),
    {
        proof {
            use_type_invariant(&*self);
        }
        let ghost buf0 = self.fb@;
        let ghost stride = self.spec_stride();
        let ghost w = self.spec_width();
        let ghost h = self.spec_height();
        let width = self.width;
        let height = self.height;
        let mut x: usize = 0;
        proof {
            assert(self.fb@ =~= spec_cleared_upto(buf0, stride, w, h, color, 0, 0));
        }
        while x < width
            invariant
                x <= width,
                width as int == w,
                height as int == h,
                self.spec_width() == w,
                self.spec_height() == h,
                self.spec_stride() == stride,
                w <= stride,
                self.spec_buf().len() == buf0.len(),
                self.spec_buf() == spec_cleared_upto(buf0, stride, w, h, color, x as int, 0),
            decreases width - x,
        {
            let mut y: usize = 0;
            while y < height
                invariant
                    x < width,
                    y <= height,
                    width as int == w,
                    height as int == h,
                    self.spec_width() == w,
                    self.spec_height() == h,
                    self.spec_stride() == stride,
                    w <= stride,
                    self.spec_buf().len() == buf0.len(),
                    self.spec_buf() == spec_cleared_upto(
                        buf0,
                        stride,
                        w,
                        h,
                        color,
                        x as int,
                        y as int,
                    ),
                decreases height - y,
            {
                let ghost before = self.spec_buf();
                self.write_pixel(color, x, y);
                proof {
                    lemma_step_cleared(buf0, before, stride, w, h, color, x as int, y as int);
                }
                y += 1;
            }
            proof {
                assert(spec_cleared_upto(buf0, stride, w, h, color, x as int, h) =~= spec_cleared_upto(
                    buf0,
                    stride,
                    w,
                    h,
                    color,
                    x as int + 1,
                    0,
                ));
            }
            x += 1;
        }
        proof {
            assert(spec_cleared_upto(buf0, stride, w, h, color, w, 0) =~= spec_cleared(
                buf0,
                stride,
                w,
                h,
                color,
            ));
        }
    }
}

/// The smaller of two values.
pub open spec fn spec_min(a: int, b: int) -> int {
    if a < b {
        a
    } else {
        b
    }
}

impl GopDisplay {
    /// Blits `glyph`'s set bits starting at `(x, y)`. Pixels within the
    /// bounding box use the bounded writer — the caller left room for the
    /// box, and this is the hot path — while set pixels in the glyph's
    /// padding-derived overflow columns use the clipped writer: those may
    /// silently vanish off an edge but must never write out of bounds.
    pub fn draw_glyph(
        &mut self,
        bounding_box: (usize, usize),
        x: usize,
        y: usize,
        color: RGB,
        glyph: &PSFGlyph,
    )
        requires
            x + spec_min(glyph.spec_width(), bounding_box.0 as int) <= old(self).spec_width(),
            y + spec_min(glyph.spec_height(), bounding_box.1 as int) <= old(self).spec_height(),
            x + glyph.spec_width() <= usize::MAX,
            y + glyph.spec_height() <= usize::MAX,
        ensures
            final(self).spec_width() == old(self).spec_width(),
            final(self).spec_height() == old(self).spec_height(),
            final(self).spec_stride() == old(self).spec_stride(),
            final(self).spec_buf() == spec_draw_glyph(
                old(self).spec_buf(),
                old(self).spec_stride(),
                old(self).spec_width(),
                old(self).spec_height(),
                color,
                x as int,
                y as int,
                *glyph,
                spec_min(glyph.spec_height(), bounding_box.1 as int),
            ),
    {
        proof {
            use_type_invariant(&*self);
        }
        let ghost b0 = self.spec_buf();
        let ghost stride = self.spec_stride();
        let ghost w = self.spec_width();
        let ghost h = self.spec_height();
        let gw = glyph.width();
        let gh = glyph.height();
        let vcap = if gh < bounding_box.1 {
            gh
        } else {
            bounding_box.1
        };
        let ghost g = *glyph;
        let mut gx: usize = 0;
        proof {
            assert(self.spec_buf() =~= spec_draw_partial(
                b0,
                stride,
                w,
                h,
                color,
                x as int,
                y as int,
                g,
                vcap as int,
                0,
                0,
            ));
        }
        while gx < gw
            invariant
                gx <= gw,
                g == *glyph,
                gw == g.spec_width(),
                gh == g.spec_height(),
                vcap as int == spec_min(g.spec_height(), bounding_box.1 as int),
                x + spec_min(g.spec_width(), bounding_box.0 as int) <= w,
                y + vcap <= h,
                x + gw <= usize::MAX,
                y + gh <= usize::MAX,
                w <= stride,
                self.spec_width() == w,
                self.spec_height() == h,
                self.spec_stride() == stride,
                self.spec_buf().len() == b0.len(),
                self.spec_buf() == spec_draw_partial(
                    b0,
                    stride,
                    w,
                    h,
                    color,
                    x as int,
                    y as int,
                    g,
                    vcap as int,
                    gx as int,
                    0,
                ),
            decreases gw - gx,
        {
            let mut gy: usize = 0;
            while gy < vcap
                invariant
                    gx < gw,
                    gy <= vcap,
                    g == *glyph,
                    gw == g.spec_width(),
                    gh == g.spec_height(),
                    vcap as int == spec_min(g.spec_height(), bounding_box.1 as int),
                    x + spec_min(g.spec_width(), bounding_box.0 as int) <= w,
                    y + vcap <= h,
                    x + gw <= usize::MAX,
                    y + gh <= usize::MAX,
                    w <= stride,
                    self.spec_width() == w,
                    self.spec_height() == h,
                    self.spec_stride() == stride,
                    self.spec_buf().len() == b0.len(),
                    self.spec_buf() == spec_draw_partial(
                        b0,
                        stride,
                        w,
                        h,
                        color,
                        x as int,
                        y as int,
                        g,
                        vcap as int,
                        gx as int,
                        gy as int,
                    ),
                decreases vcap - gy,
            {
                let ghost before = self.spec_buf();
                if glyph.get(gx, gy) {
                    if gx < bounding_box.0 {
                        self.write_pixel(color, x + gx, y + gy);
                    } else {
                        self.write_pixel_clipped(color, x + gx, y + gy);
                    }
                }
                proof {
                    lemma_step_draw(
                        b0,
                        before,
                        stride,
                        w,
                        h,
                        color,
                        x as int,
                        y as int,
                        g,
                        vcap as int,
                        gx as int,
                        gy as int,
                    );
                }
                gy += 1;
            }
            proof {
                assert(spec_draw_partial(
                    b0,
                    stride,
                    w,
                    h,
                    color,
                    x as int,
                    y as int,
                    g,
                    vcap as int,
                    gx as int,
                    vcap as int,
                ) =~= spec_draw_partial(
                    b0,
                    stride,
                    w,
                    h,
                    color,
                    x as int,
                    y as int,
                    g,
                    vcap as int,
                    gx as int + 1,
                    0,
                ));
            }
            gx += 1;
        }
        proof {
            assert(spec_draw_partial(
                b0,
                stride,
                w,
                h,
                color,
                x as int,
                y as int,
                g,
                vcap as int,
                gw as int,
                0,
            ) =~= spec_draw_glyph(b0, stride, w, h, color, x as int, y as int, g, vcap as int));
        }
    }
}

/// The buffer in the middle of a glyph blit: glyph columns before `gx`,
/// and in column `gx` the rows before `gy`, are already drawn.
pub open spec fn spec_draw_partial(
    buf: Seq<u8>,
    stride: int,
    w: int,
    h: int,
    c: RGB,
    x: int,
    y: int,
    g: PSFGlyph,
    vcap: int,
    gx: int,
    gy: int,
) -> Seq<u8> {
    Seq::new(
        buf.len(),
        |j: int|
            if spec_draw_cond(stride, w, h, x, y, g, vcap, j) && (spec_px(stride, j) - x < gx || (
            spec_px(stride, j) - x == gx && spec_py(stride, j) - y < gy)) {
                rgb_byte(c, j % 4)
            } else {
                buf[j]
            },
    )
}

/// Processing glyph cell `(gx, gy)` advances a partial blit by one row:
/// when the cell's bit is set and its pixel lies on the surface the pixel
/// is written, otherwise nothing changes.
proof fn lemma_step_draw(
    b0: Seq<u8>,
    before: Seq<u8>,
    stride: int,
    w: int,
    h: int,
    c: RGB,
    x: int,
    y: int,
    g: PSFGlyph,
    vcap: int,
    gx: int,
    gy: int,
)
    requires
        stride >= 0,
        w <= stride,
        0 <= x,
        0 <= y,
        0 <= gx < g.spec_width(),
        0 <= gy < vcap,
        vcap <= g.spec_height(),
        before.len() == b0.len(),
        before == spec_draw_partial(b0, stride, w, h, c, x, y, g, vcap, gx, gy),
    ensures
        (if g.pixel(gx, gy) && x + gx < w && y + gy < h {
            spec_write_pixel(before, stride, c, x + gx, y + gy)
        } else {
            before
        }) == spec_draw_partial(b0, stride, w, h, c, x, y, g, vcap, gx, gy + 1),
{
    let lhs = if g.pixel(gx, gy) && x + gx < w && y + gy < h {
        spec_write_pixel(before, stride, c, x + gx, y + gy)
    } else {
        before
    };
    let rhs = spec_draw_partial(b0, stride, w, h, c, x, y, g, vcap, gx, gy + 1);
    assert forall|j: int| 0 <= j < b0.len() implies lhs[j] == rhs[j] by {
        if stride > 0 {
            if g.pixel(gx, gy) && x + gx < w && y + gy < h && spec_pixel_index(
                stride,
                x + gx,
                y + gy,
            ) <= j < spec_pixel_index(stride, x + gx, y + gy) + 4 {
                lemma_index_coords(stride, x + gx, y + gy, j);
            } else {
                lemma_coords_index(stride, j);
            }
        }
    }
    assert(lhs =~= rhs);
}

/// The buffer in the middle of a clear: every pixel in a column before `x`,
/// and in column `x` before row `y`, is already `c`.
pub open spec fn spec_cleared_upto(
    buf: Seq<u8>,
    stride: int,
    w: int,
    h: int,
    c: RGB,
    x: int,
    y: int,
) -> Seq<u8> {
    Seq::new(
        buf.len(),
        |j: int|
            if stride > 0 && spec_px(stride, j) < w && spec_py(stride, j) < h && (spec_px(
                stride,
                j,
            ) < x || (spec_px(stride, j) == x && spec_py(stride, j) < y)) {
                rgb_byte(c, j % 4)
            } else {
                buf[j]
            },
    )
}

/// Writing pixel `(x, y)` advances a partial clear by one row.
proof fn lemma_step_cleared(
    buf0: Seq<u8>,
    before: Seq<u8>,
    stride: int,
    w: int,
    h: int,
    c: RGB,
    x: int,
    y: int,
)
    requires
        0 <= x < w,
        0 <= y < h,
        w <= stride,
        before.len() == buf0.len(),
        before == spec_cleared_upto(buf0, stride, w, h, c, x, y),
    ensures
        spec_write_pixel(before, stride, c, x, y) == spec_cleared_upto(
            buf0,
            stride,
            w,
            h,
            c,
            x,
            y + 1,
        ),
{
    let lhs = spec_write_pixel(before, stride, c, x, y);
    let rhs = spec_cleared_upto(buf0, stride, w, h, c, x, y + 1);
    assert forall|j: int| 0 <= j < buf0.len() implies lhs[j] == rhs[j] by {
        let base = spec_pixel_index(stride, x, y);
        if base <= j < base + 4 {
            lemma_index_coords(stride, x, y, j);
        } else {
            lemma_coords_index(stride, j);
        }
    }
    assert(lhs =~= rhs);
}

} // verus!
