//! A virtual text display that renders itself onto a graphic display,
//! delegating to the character-grid terminal of the graphics core.

use vstd::prelude::*;
use crate::driver::text_display::TextDisplay;
use crate::graphics::color::Color;
use crate::graphics::display::gop::GopDisplay;
use crate::graphics::display::Display;
use crate::graphics::font::Font;
use crate::graphics::font::psf::PSF;
use crate::graphics::terminal::{MissingGlyph, Terminal};
use crate::graphics::terminal::display::{
    spec_first_missing, spec_rendered, DisplayTerminal, GridTooSmall,
};

verus! {

/// A text display over a pixel surface and a font.
pub struct GraphicTextDisplay<'f> {
    term: DisplayTerminal<'f>,
}

impl<'f> GraphicTextDisplay<'f> {
    /// The character-grid terminal this display delegates to.
    pub closed spec fn spec_term(&self) -> DisplayTerminal<'f> {
        self.term
    }

    pub open spec fn wf(&self) -> bool {
        self.spec_term().wf()
    }

    /// Builds a text display whose grid is the surface resolution divided
    /// by the font's bounding box; fails fast when that grid would not be
    /// at least 1×1.
    pub fn new<C1: Color, C2: Color>(display: GopDisplay, font: &'f PSF, bg: C1, fg: C2) -> (r:
        Result<GraphicTextDisplay<'f>, GridTooSmall>)
        ensures
            match r {
                Ok(t) => {
                    &&& t.wf()
                    &&& t.spec_term().spec_display() == display
                    &&& t.spec_term().spec_font() == *font
                    &&& t.spec_term().spec_bg().spec_rgb() == bg.spec_rgb()
                    &&& t.spec_term().spec_fg().spec_rgb() == fg.spec_rgb()
                    &&& t.spec_term().spec_frame().spec_width() == display.spec_width()
                        / font.spec_width()
                    &&& t.spec_term().spec_frame().spec_height() == display.spec_height()
                        / font.spec_height()
                    &&& forall|i: int|
                        0 <= i < t.spec_term().spec_frame().spec_cells().len()
                            ==> t.spec_term().spec_frame().spec_cells()[i] == '\u{0}'
                },
                Err(e) => font.spec_width() == 0 || font.spec_height() == 0
                    || display.spec_width() < font.spec_width() || display.spec_height()
                    < font.spec_height(),
            },
    {
        match DisplayTerminal::new(display, font, bg, fg) {
            Ok(term) => Ok(GraphicTextDisplay { term }),
            Err(e) => Err(e),
        }
    }

    /// Hands back the character-grid terminal this display delegates to.
    pub fn into_terminal(self) -> (r: DisplayTerminal<'f>)
        ensures
            r == self.spec_term(),
    {
        self.term
    }
}

impl<'f> TextDisplay for GraphicTextDisplay<'f> {
    open spec fn inv(&self) -> bool {
        self.wf()
    }

    open spec fn spec_grid_width(&self) -> int {
        self.spec_term().spec_frame().spec_width()
    }

    open spec fn spec_grid_height(&self) -> int {
        self.spec_term().spec_frame().spec_height()
    }

    open spec fn spec_grid(&self) -> Seq<char> {
        self.spec_term().spec_frame().spec_cells()
    }

    fn resolution(&self) -> (usize, usize) {
        self.term.get_frame().resolution()
    }

    fn get(&self, x: usize, y: usize) -> char {
        proof {
            self.term.lemma_wf();
        }
        self.term.get_frame().get(x, y)
    }

    fn set(&mut self, x: usize, y: usize, c: char) {
        self.term.set(x, y, c);
    }

    fn clear(&mut self) {
        self.term.clear();
    }

    fn refresh(&mut self) -> (r: Result<(), MissingGlyph>)
        ensures
            final(self).spec_term().spec_font() == old(self).spec_term().spec_font(),
            final(self).spec_term().spec_bg() == old(self).spec_term().spec_bg(),
            final(self).spec_term().spec_fg() == old(self).spec_term().spec_fg(),
            final(self).spec_term().spec_display().spec_width() == old(
                self,
            ).spec_term().spec_display().spec_width(),
            final(self).spec_term().spec_display().spec_height() == old(
                self,
            ).spec_term().spec_display().spec_height(),
            final(self).spec_term().spec_display().spec_stride() == old(
                self,
            ).spec_term().spec_display().spec_stride(),
            match r {
                Ok(()) => {
                    &&& spec_first_missing(
                        old(self).spec_term().spec_frame(),
                        old(self).spec_term().spec_font(),
                        0,
                    ) is None
                    &&& final(self).spec_term().spec_display().spec_buf() == spec_rendered(
                        old(self).spec_term().spec_frame(),
                        old(self).spec_term().spec_font(),
                        old(self).spec_term().spec_fg(),
                        old(self).spec_term().spec_bg(),
                        old(self).spec_term().spec_display().spec_buf(),
                        old(self).spec_term().spec_display().spec_stride(),
                        old(self).spec_term().spec_display().spec_width(),
                        old(self).spec_term().spec_display().spec_height(),
                    )
                },
                Err(m) => {
                    &&& spec_first_missing(
                        old(self).spec_term().spec_frame(),
                        old(self).spec_term().spec_font(),
                        0,
                    ) == Some(m.0)
                    &&& final(self).spec_term().spec_display() == old(
                        self,
                    ).spec_term().spec_display()
                },
            },
    {
        self.term.render()
    }
}

} // verus!
