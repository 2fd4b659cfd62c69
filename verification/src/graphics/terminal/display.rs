//! A terminal that renders its character grid onto a pixel surface
//! through a PSF font, cell by cell.

use vstd::prelude::*;
use vstd::arithmetic::div_mod::{
    lemma_fundamental_div_mod, lemma_fundamental_div_mod_converse, lemma_mod_pos_bound,
};
use crate::graphics::color::{Color, RGB};
use crate::graphics::display::Display;
use crate::graphics::display::gop::{spec_cleared, spec_draw_glyph, spec_min, GopDisplay};
use crate::graphics::font::{Font, Glyph};
use crate::graphics::font::psf::{lemma_div_ceil8_bounds, PSF};
use crate::graphics::terminal::{MissingGlyph, Terminal};
use crate::graphics::terminal::frame::TerminalFrame;

verus! {

/// The surface is too small for even one glyph of the font, or the font's
/// bounding box is degenerate: the character grid would be empty.
#[derive(Clone, Copy, Debug, PartialEq, Eq, Structural)]
pub struct GridTooSmall;

/// The first codepoint, scanning cells column by column from cell index
/// `k` onward, that is neither NUL nor mapped by the font; `None` when
/// every remaining cell can be rendered. Cell `k` is `(k / H, k % H)`.
pub open spec fn spec_first_missing(frame: TerminalFrame, font: PSF, k: int) -> Option<char>
    decreases frame.spec_width() * frame.spec_height() - k,
{
    if k < 0 || k >= frame.spec_width() * frame.spec_height() {
        None
    } else {
        let c = frame.spec_cell(k / frame.spec_height(), k % frame.spec_height());
        if c != '\u{0}' && font.spec_lookup(c) is None {
            Some(c)
        } else {
            spec_first_missing(frame, font, k + 1)
        }
    }
}

/// The surface bytes after the first `k` cells, in column-by-column scan
/// order, are drawn over `base`: an empty or unmapped cell draws nothing,
/// and any other cell blits its glyph at the cell's pixel origin.
pub open spec fn spec_render_upto(
    frame: TerminalFrame,
    font: PSF,
    fg: RGB,
    base: Seq<u8>,
    stride: int,
    dw: int,
    dh: int,
    k: int,
) -> Seq<u8>
    decreases k,
{
    if k <= 0 {
        base
    } else {
        let x = (k - 1) / frame.spec_height();
        let y = (k - 1) % frame.spec_height();
        let c = frame.spec_cell(x, y);
        let prev = spec_render_upto(frame, font, fg, base, stride, dw, dh, k - 1);
        if c == '\u{0}' {
            prev
        } else {
            match font.spec_lookup(c) {
                Some(g) => spec_draw_glyph(
                    prev,
                    stride,
                    dw,
                    dh,
                    fg,
                    x * font.spec_width(),
                    y * font.spec_height(),
                    g,
                    spec_min(g.spec_height(), font.spec_height()),
                ),
                None => prev,
            }
        }
    }
}

/// The surface bytes after a full render: the surface cleared to `bg`,
/// then every grid cell drawn in `fg`.
pub open spec fn spec_rendered(
    frame: TerminalFrame,
    font: PSF,
    fg: RGB,
    bg: RGB,
    buf0: Seq<u8>,
    stride: int,
    dw: int,
    dh: int,
) -> Seq<u8> {
    spec_render_upto(
        frame,
        font,
        fg,
        spec_cleared(buf0, stride, dw, dh, bg),
        stride,
        dw,
        dh,
        frame.spec_width() * frame.spec_height(),
    )
}

/// A character grid bound to the pixel surface it renders onto and the
/// font it renders with, plus the background and foreground colors.
pub struct DisplayTerminal<'f> {
    display: GopDisplay,
    font: &'f PSF,
    frame: TerminalFrame,
    bg: RGB,
    fg: RGB,
}

impl<'f> DisplayTerminal<'f> {
    pub closed spec fn spec_display(&self) -> GopDisplay {
        self.display
    }

    pub closed spec fn spec_font(&self) -> PSF {
        *self.font
    }

    pub closed spec fn spec_bg(&self) -> RGB {
        self.bg
    }

    pub closed spec fn spec_fg(&self) -> RGB {
        self.fg
    }

    /// The grid is at least one cell each way, the font's bounding box is
    /// nondegenerate, and the grid in pixels fits on the surface.
    /// Construction establishes this and every operation preserves it.
    pub closed spec fn wf(&self) -> bool {
        &&& self.frame.wf()
        &&& self.frame.spec_width() >= 1
        &&& self.frame.spec_height() >= 1
        &&& self.font.spec_width() >= 1
        &&& self.font.spec_height() >= 1
        &&& self.frame.spec_width() * self.font.spec_width() <= self.display.spec_width()
        &&& self.frame.spec_height() * self.font.spec_height() <= self.display.spec_height()
    }

    /// Builds a terminal over `display` and `font`, with the grid
    /// resolution computed as the surface resolution divided by the font's
    /// bounding box, truncating: trailing partial pixels are unused
    /// margin. Fails fast when that grid would not be at least 1×1.
    pub fn new<C1: Color, C2: Color>(display: GopDisplay, font: &'f PSF, bg: C1, fg: C2) -> (r:
        Result<DisplayTerminal<'f>, GridTooSmall>)
        ensures
            match r {
                Ok(t) => {
                    &&& t.wf()
                    &&& font.spec_width() >= 1
                    &&& font.spec_height() >= 1
                    &&& display.spec_width() >= font.spec_width()
                    &&& display.spec_height() >= font.spec_height()
                    &&& t.spec_display() == display
                    &&& t.spec_font() == *font
                    &&& t.spec_bg().spec_rgb() == bg.spec_rgb()
                    &&& t.spec_fg().spec_rgb() == fg.spec_rgb()
                    &&& t.spec_frame().spec_width() == display.spec_width()
                        / font.spec_width()
                    &&& t.spec_frame().spec_height() == display.spec_height()
                        / font.spec_height()
                    &&& forall|i: int|
                        0 <= i < t.spec_frame().spec_cells().len() ==> t.spec_frame().spec_cells()[i]
                            == '\u{0}'
                    &&& t.spec_frame().spec_cells().len() == t.spec_frame().spec_width()
                        * t.spec_frame().spec_height()
                },
                Err(e) => font.spec_width() == 0 || font.spec_height() == 0
                    || display.spec_width() < font.spec_width() || display.spec_height()
                    < font.spec_height(),
            },
    {
        let (dp_width, dp_height) = display.resolution();
        let (ft_width, ft_height) = font.bounding_box();
        if ft_width == 0 || ft_height == 0 {
            return Err(GridTooSmall);
        }
        let ch_width = dp_width / ft_width;
        let ch_height = dp_height / ft_height;
        if ch_width == 0 || ch_height == 0 {
            proof {
                if dp_width >= ft_width {
                    vstd::arithmetic::div_mod::lemma_div_non_zero(
                        dp_width as int,
                        ft_width as int,
                    );
                }
                if dp_height >= ft_height {
                    vstd::arithmetic::div_mod::lemma_div_non_zero(
                        dp_height as int,
                        ft_height as int,
                    );
                }
            }
            return Err(GridTooSmall);
        }
        proof {
            use_type_invariant(&display);
            display.lemma_geometry();
            if dp_width < ft_width {
                vstd::arithmetic::div_mod::lemma_basic_div(dp_width as int, ft_width as int);
            }
            if dp_height < ft_height {
                vstd::arithmetic::div_mod::lemma_basic_div(dp_height as int, ft_height as int);
            }
            lemma_grid_fits(
                dp_width as int,
                ft_width as int,
                display.spec_stride(),
                dp_height as int,
                ft_height as int,
            );
        }
        let frame = TerminalFrame::new((ch_width, ch_height));
        Ok(DisplayTerminal { display, font, frame, bg: bg.into_rgb(), fg: fg.into_rgb() })
    }
}

/// The truncating grid fits: each grid dimension times the font dimension
/// is at most the surface dimension, and the cell count is addressable.
proof fn lemma_grid_fits(dw: int, fw: int, stride: int, dh: int, fh: int)
    requires
        fw >= 1,
        fh >= 1,
        0 <= dw <= stride,
        0 <= dh,
        4 * stride * dh <= usize::MAX,
    ensures
        (dw / fw) * fw <= dw,
        (dh / fh) * fh <= dh,
        (dw / fw) * (dh / fh) <= usize::MAX,
{
    lemma_fundamental_div_mod(dw, fw);
    lemma_mod_pos_bound(dw, fw);
    lemma_fundamental_div_mod(dh, fh);
    lemma_mod_pos_bound(dh, fh);
    let cw = dw / fw;
    let ch = dh / fh;
    assert(cw * fw == fw * cw) by (nonlinear_arith);
    assert(ch * fh == fh * ch) by (nonlinear_arith);
    assert(cw <= cw * fw) by (nonlinear_arith)
        requires
            cw >= 0,
            fw >= 1,
    ;
    assert(ch <= ch * fh) by (nonlinear_arith)
        requires
            ch >= 0,
            fh >= 1,
    ;
    assert(cw * ch <= dw * dh) by (nonlinear_arith)
        requires
            0 <= cw <= dw,
            0 <= ch <= dh,
    ;
    assert(dw * dh <= stride * dh) by (nonlinear_arith)
        requires
            0 <= dw <= stride,
            0 <= dh,
    ;
    assert(stride * dh <= 4 * stride * dh) by (nonlinear_arith)
        requires
            0 <= stride,
            0 <= dh,
    ;
}

impl<'f> DisplayTerminal<'f> {
    /// Renders the grid: clears the surface to the background color, then
    /// blits the glyph of every non-NUL cell at the cell's pixel origin in
    /// the foreground color. When some cell holds a codepoint the font
    /// does not map, the first such codepoint (in scan order) is reported
    /// and the surface is left untouched: the grid is checked in full
    /// before the first pixel is written.
    pub fn render(&mut self) -> (r: Result<(), MissingGlyph>)
        requires
            old(self).wf(),
        ensures
            final(self).wf(),
            final(self).spec_frame() == old(self).spec_frame(),
            final(self).spec_font() == old(self).spec_font(),
            final(self).spec_bg() == old(self).spec_bg(),
            final(self).spec_fg() == old(self).spec_fg(),
            final(self).spec_display().spec_width() == old(self).spec_display().spec_width(),
            final(self).spec_display().spec_height() == old(self).spec_display().spec_height(),
            final(self).spec_display().spec_stride() == old(self).spec_display().spec_stride(),
            match r {
                Ok(()) => {
                    &&& spec_first_missing(old(self).spec_frame(), old(self).spec_font(), 0)
                        is None
                    &&& final(self).spec_display().spec_buf() == spec_rendered(
                        old(self).spec_frame(),
                        old(self).spec_font(),
                        old(self).spec_fg(),
                        old(self).spec_bg(),
                        old(self).spec_display().spec_buf(),
                        old(self).spec_display().spec_stride(),
                        old(self).spec_display().spec_width(),
                        old(self).spec_display().spec_height(),
                    )
                },
                Err(m) => {
                    &&& spec_first_missing(old(self).spec_frame(), old(self).spec_font(), 0)
                        == Some(m.0)
                    &&& final(self).spec_display() == old(self).spec_display()
                },
            },
    {
        let ghost frame0 = self.spec_frame();
        let ghost font0 = self.spec_font();
        let (fw, fh) = self.font.bounding_box();
        let w = self.frame.width();
        let h = self.frame.height();
        let ghost wi = w as int;
        let ghost hi = h as int;

        // First pass: prove every non-empty cell renderable before any
        // pixel is touched, so a missing glyph leaves the surface as it
        // was.
        let mut x: usize = 0;
        while x < w
            invariant
                x <= w,
                *self == *old(self),
                old(self).wf(),
                wi == frame0.spec_width(),
                hi == frame0.spec_height(),
                hi >= 1,
                frame0 == self.spec_frame(),
                font0 == self.spec_font(),
                w == wi,
                h == hi,
                spec_first_missing(frame0, font0, 0) == spec_first_missing(
                    frame0,
                    font0,
                    x as int * hi,
                ),
            decreases w - x,
        {
            let mut y: usize = 0;
            while y < h
                invariant
                    x < w,
                    y <= h,
                    *self == *old(self),
                    old(self).wf(),
                    wi == frame0.spec_width(),
                    hi == frame0.spec_height(),
                    hi >= 1,
                    frame0 == self.spec_frame(),
                    font0 == self.spec_font(),
                    w == wi,
                    h == hi,
                    spec_first_missing(frame0, font0, 0) == spec_first_missing(
                        frame0,
                        font0,
                        x as int * hi + y as int,
                    ),
                decreases h - y,
            {
                let ghost k = x as int * hi + y as int;
                proof {
                    lemma_fundamental_div_mod_converse(k, hi, x as int, y as int);
                    assert(k < wi * hi) by (nonlinear_arith)
                        requires
                            k == x as int * hi + y as int,
                            x as int <= wi - 1,
                            y as int <= hi - 1,
                            hi >= 1,
                    ;
                }
                let c = self.frame.get(x, y);
                if c != '\u{0}' {
                    if self.font.lookup(c).is_none() {
                        proof {
                            assert(spec_first_missing(frame0, font0, k) == Some(c));
                        }
                        return Err(MissingGlyph(c));
                    }
                }
                proof {
                    assert(spec_first_missing(frame0, font0, k) == spec_first_missing(
                        frame0,
                        font0,
                        k + 1,
                    ));
                }
                y += 1;
            }
            proof {
                assert((x as int + 1) * hi == x as int * hi + hi) by (nonlinear_arith);
            }
            x += 1;
        }
        proof {
            assert(spec_first_missing(frame0, font0, wi * hi) is None);
        }

        // Second pass: clear to the background, then draw every cell.
        let ghost buf0 = self.display.spec_buf();
        let ghost stride = self.display.spec_stride();
        let ghost dw = self.display.spec_width();
        let ghost dh = self.display.spec_height();
        proof {
            use_type_invariant(&self.display);
            self.display.lemma_geometry();
        }
        let bg = self.bg;
        let fg = self.fg;
        self.display.fill(bg);
        let ghost base = spec_cleared(buf0, stride, dw, dh, bg);
        let mut x: usize = 0;
        while x < w
            invariant
                x <= w,
                wi == frame0.spec_width(),
                hi == frame0.spec_height(),
                wi >= 1,
                hi >= 1,
                fw as int == font0.spec_width(),
                fh as int == font0.spec_height(),
                fw >= 1,
                fh >= 1,
                w == wi,
                h == hi,
                frame0 == self.spec_frame(),
                font0 == self.spec_font(),
                bg == self.spec_bg(),
                fg == self.spec_fg(),
                self.spec_frame() == old(self).spec_frame(),
                self.spec_font() == old(self).spec_font(),
                self.spec_bg() == old(self).spec_bg(),
                self.spec_fg() == old(self).spec_fg(),
                self.wf(),
                wi * fw <= dw,
                hi * fh <= dh,
                dw <= stride,
                0 <= dw <= usize::MAX,
                0 <= dh <= usize::MAX,
                buf0.len() == 4 * stride * dh,
                buf0.len() <= usize::MAX,
                self.spec_display().spec_width() == dw,
                self.spec_display().spec_height() == dh,
                self.spec_display().spec_stride() == stride,
                old(self).spec_display().spec_width() == dw,
                old(self).spec_display().spec_height() == dh,
                old(self).spec_display().spec_stride() == stride,
                old(self).spec_display().spec_buf() == buf0,
                spec_first_missing(frame0, font0, 0) is None,
                spec_first_missing(frame0, font0, x as int * hi) is None,
                self.spec_display().spec_buf() == spec_render_upto(
                    frame0,
                    font0,
                    fg,
                    base,
                    stride,
                    dw,
                    dh,
                    x as int * hi,
                ),
            decreases w - x,
        {
            let mut y: usize = 0;
            while y < h
                invariant
                    x < w,
                    y <= h,
                    wi == frame0.spec_width(),
                    hi == frame0.spec_height(),
                    wi >= 1,
                    hi >= 1,
                    fw as int == font0.spec_width(),
                    fh as int == font0.spec_height(),
                    fw >= 1,
                    fh >= 1,
                    w == wi,
                    h == hi,
                    frame0 == self.spec_frame(),
                    font0 == self.spec_font(),
                    bg == self.spec_bg(),
                    fg == self.spec_fg(),
                    self.spec_frame() == old(self).spec_frame(),
                    self.spec_font() == old(self).spec_font(),
                    self.spec_bg() == old(self).spec_bg(),
                    self.spec_fg() == old(self).spec_fg(),
                    self.wf(),
                    wi * fw <= dw,
                    hi * fh <= dh,
                    dw <= stride,
                    0 <= dw <= usize::MAX,
                    0 <= dh <= usize::MAX,
                    buf0.len() == 4 * stride * dh,
                    buf0.len() <= usize::MAX,
                    self.spec_display().spec_width() == dw,
                    self.spec_display().spec_height() == dh,
                    self.spec_display().spec_stride() == stride,
                    old(self).spec_display().spec_width() == dw,
                    old(self).spec_display().spec_height() == dh,
                    old(self).spec_display().spec_stride() == stride,
                    old(self).spec_display().spec_buf() == buf0,
                    spec_first_missing(frame0, font0, 0) is None,
                    spec_first_missing(frame0, font0, x as int * hi + y as int) is None,
                    self.spec_display().spec_buf() == spec_render_upto(
                        frame0,
                        font0,
                        fg,
                        base,
                        stride,
                        dw,
                        dh,
                        x as int * hi + y as int,
                    ),
                decreases h - y,
            {
                let ghost k = x as int * hi + y as int;
                proof {
                    lemma_fundamental_div_mod_converse(k, hi, x as int, y as int);
                    assert(k < wi * hi) by (nonlinear_arith)
                        requires
                            k == x as int * hi + y as int,
                            x as int <= wi - 1,
                            y as int <= hi - 1,
                            hi >= 1,
                    ;
                    assert(x as int * fw + fw <= wi * fw) by (nonlinear_arith)
                        requires
                            x as int + 1 <= wi,
                            fw >= 0,
                    ;
                    assert(y as int * fh + fh <= hi * fh) by (nonlinear_arith)
                        requires
                            y as int + 1 <= hi,
                            fh >= 0,
                    ;
                }
                let c = self.frame.get(x, y);
                if c != '\u{0}' {
                    match self.font.lookup(c) {
                        Some(glyph) => {
                            proof {
                                use_type_invariant(self.font);
                                self.font.lemma_lookup_glyph(c);
                                lemma_div_ceil8_bounds(font0.spec_width());
                                assert(hi * fh >= 1) by (nonlinear_arith)
                                    requires
                                        hi >= 1,
                                        fh >= 1,
                                ;
                                assert(4 * stride <= 4 * stride * dh) by (nonlinear_arith)
                                    requires
                                        stride >= 0,
                                        dh >= 1,
                                ;
                            }
                            let px = x * fw;
                            let py = y * fh;
                            let ghost before = self.spec_display().spec_buf();
                            self.display.draw_glyph((fw, fh), px, py, fg, glyph);
                            proof {
                                assert(self.spec_display().spec_buf() == spec_render_upto(
                                    frame0,
                                    font0,
                                    fg,
                                    base,
                                    stride,
                                    dw,
                                    dh,
                                    k + 1,
                                ));
                            }
                        },
                        None => {
                            proof {
                                assert(spec_first_missing(frame0, font0, k) == Some(c));
                                assert(false);
                            }
                            return Err(MissingGlyph(c));
                        },
                    }
                } else {
                    proof {
                        assert(spec_render_upto(frame0, font0, fg, base, stride, dw, dh, k + 1)
                            == spec_render_upto(frame0, font0, fg, base, stride, dw, dh, k));
                    }
                }
                proof {
                    assert(spec_first_missing(frame0, font0, k) == spec_first_missing(
                        frame0,
                        font0,
                        k + 1,
                    ));
                }
                y += 1;
            }
            proof {
                assert((x as int + 1) * hi == x as int * hi + hi) by (nonlinear_arith);
            }
            x += 1;
        }
        Ok(())
    }
}

impl<'f> DisplayTerminal<'f> {
    /// What validity gives a caller: a nondegenerate grid and font, and a
    /// grid that fits the surface in pixels.
    pub proof fn lemma_wf(&self)
        requires
            self.wf(),
        ensures
            self.spec_frame().wf(),
            self.spec_frame().spec_width() >= 1,
            self.spec_frame().spec_height() >= 1,
            self.spec_font().spec_width() >= 1,
            self.spec_font().spec_height() >= 1,
            self.spec_frame().spec_width() * self.spec_font().spec_width()
                <= self.spec_display().spec_width(),
            self.spec_frame().spec_height() * self.spec_font().spec_height()
                <= self.spec_display().spec_height(),
    {
    }

    /// The pixel surface, for reading back what a render produced.
    pub fn display(&self) -> (r: &GopDisplay)
        ensures
            *r == self.spec_display(),
    {
        &self.display
    }

    /// Writes `c` into grid cell `(x, y)`; everything else — surface,
    /// font, colors — stays as it was.
    pub fn set(&mut self, x: usize, y: usize, c: char)
        requires
            old(self).wf(),
            x < old(self).spec_frame().spec_width(),
            y < old(self).spec_frame().spec_height(),
        ensures
            final(self).wf(),
            final(self).spec_frame().spec_width() == old(self).spec_frame().spec_width(),
            final(self).spec_frame().spec_height() == old(self).spec_frame().spec_height(),
            final(self).spec_frame().spec_cells() == old(self).spec_frame().spec_cells().update(
                y * old(self).spec_frame().spec_width() + x,
                c,
            ),
            final(self).spec_font() == old(self).spec_font(),
            final(self).spec_bg() == old(self).spec_bg(),
            final(self).spec_fg() == old(self).spec_fg(),
            final(self).spec_display() == old(self).spec_display(),
    {
        self.frame.set(x, y, c);
    }
}

impl<'f> Terminal for DisplayTerminal<'f> {
    open spec fn inv(&self) -> bool {
        self.wf()
    }

    closed spec fn spec_frame(&self) -> TerminalFrame {
        self.frame
    }

    fn get_frame<'a>(&'a self) -> &'a TerminalFrame {
        &self.frame
    }

    fn set(&mut self, x: usize, y: usize, c: char) {
        self.frame.set(x, y, c);
    }

    fn clear(&mut self) {
        self.frame.clear();
    }

    fn refresh(&mut self) -> (r: Result<(), MissingGlyph>)
        ensures
            final(self).spec_font() == old(self).spec_font(),
            final(self).spec_bg() == old(self).spec_bg(),
            final(self).spec_fg() == old(self).spec_fg(),
            final(self).spec_display().spec_width() == old(self).spec_display().spec_width(),
            final(self).spec_display().spec_height() == old(self).spec_display().spec_height(),
            final(self).spec_display().spec_stride() == old(self).spec_display().spec_stride(),
            match r {
                Ok(()) => {
                    &&& spec_first_missing(old(self).spec_frame(), old(self).spec_font(), 0)
                        is None
                    &&& final(self).spec_display().spec_buf() == spec_rendered(
                        old(self).spec_frame(),
                        old(self).spec_font(),
                        old(self).spec_fg(),
                        old(self).spec_bg(),
                        old(self).spec_display().spec_buf(),
                        old(self).spec_display().spec_stride(),
                        old(self).spec_display().spec_width(),
                        old(self).spec_display().spec_height(),
                    )
                },
                Err(m) => {
                    &&& spec_first_missing(old(self).spec_frame(), old(self).spec_font(), 0)
                        == Some(m.0)
                    &&& final(self).spec_display() == old(self).spec_display()
                },
            },
    {
        self.render()
    }
}

} // verus!
