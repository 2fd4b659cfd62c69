//! A buffered virtual TTY implemented over a textual display, delegating
//! to the teletype of the graphics core.

use vstd::prelude::*;
use crate::driver::text_display::graphic::GraphicTextDisplay;
use crate::driver::tty::Tty;
use crate::graphics::display::Display;
use crate::graphics::terminal::Terminal;
use crate::graphics::terminal::MissingGlyph;
use crate::graphics::terminal::display::{spec_first_missing, spec_rendered};
use crate::graphics::tty::terminal::{spec_paint, spec_wrap, TerminalTty};

verus! {

/// A buffered teletype over a textual display.
pub struct TextDisplayTty<'f> {
    inner: TerminalTty<'f>,
}

impl<'f> TextDisplayTty<'f> {
    pub closed spec fn spec_tty(&self) -> TerminalTty<'f> {
        self.inner
    }

    pub open spec fn wf(&self) -> bool {
        self.spec_tty().wf()
    }

    /// Builds a teletype over `term` with a history of one empty line.
    pub fn new(term: GraphicTextDisplay<'f>) -> (r: TextDisplayTty<'f>)
        requires
            term.wf(),
        ensures
            r.wf(),
            r.spec_tty().spec_term() == term.spec_term(),
            r.spec_tty().spec_history() == seq![Seq::<char>::empty()],
    {
        TextDisplayTty { inner: TerminalTty::new(term.into_terminal()) }
    }

    /// The teletype this device delegates to, for inspecting its state.
    pub fn tty(&self) -> (r: &TerminalTty<'f>)
        ensures
            *r == self.spec_tty(),
    {
        &self.inner
    }
}

impl<'f> Tty for TextDisplayTty<'f> {
    open spec fn inv(&self) -> bool {
        self.wf()
    }

    open spec fn spec_history(&self) -> Seq<Seq<char>> {
        self.spec_tty().spec_history()
    }

    fn putc(&mut self, c: char)
        ensures
            final(self).spec_tty().spec_term() == old(self).spec_tty().spec_term(),
    {
        self.inner.putc(c);
    }

    fn puts(&mut self, s: &str)
        ensures
            final(self).spec_tty().spec_term() == old(self).spec_tty().spec_term(),
    {
        self.inner.puts(s);
    }

    fn clear(&mut self)
        ensures
            final(self).spec_tty().spec_term() == old(self).spec_tty().spec_term(),
    {
        self.inner.clear();
    }

    fn flush(&mut self) -> (r: Result<(), MissingGlyph>)
        ensures
            final(self).spec_tty().spec_term().spec_font() == old(
                self,
            ).spec_tty().spec_term().spec_font(),
            final(self).spec_tty().spec_term().spec_bg() == old(
                self,
            ).spec_tty().spec_term().spec_bg(),
            final(self).spec_tty().spec_term().spec_fg() == old(
                self,
            ).spec_tty().spec_term().spec_fg(),
            final(self).spec_tty().spec_term().spec_display().spec_width() == old(
                self,
            ).spec_tty().spec_term().spec_display().spec_width(),
            final(self).spec_tty().spec_term().spec_display().spec_height() == old(
                self,
            ).spec_tty().spec_term().spec_display().spec_height(),
            final(self).spec_tty().spec_term().spec_display().spec_stride() == old(
                self,
            ).spec_tty().spec_term().spec_display().spec_stride(),
            ({
                let term0 = old(self).spec_tty().spec_term();
                let frame0 = term0.spec_frame();
                let w = frame0.spec_width();
                let h = frame0.spec_height();
                let phys = spec_wrap(old(self).spec_tty().spec_history(), w);
                let frame1 = final(self).spec_tty().spec_term().spec_frame();
                &&& frame1.spec_width() == w
                &&& frame1.spec_height() == h
                &&& frame1.spec_cells() == spec_paint(frame0.spec_cells(), phys, w, h)
                &&& match r {
                    Ok(()) => {
                        &&& spec_first_missing(frame1, term0.spec_font(), 0) is None
                        &&& final(self).spec_tty().spec_term().spec_display().spec_buf()
                            == spec_rendered(
                            frame1,
                            term0.spec_font(),
                            term0.spec_fg(),
                            term0.spec_bg(),
                            term0.spec_display().spec_buf(),
                            term0.spec_display().spec_stride(),
                            term0.spec_display().spec_width(),
                            term0.spec_display().spec_height(),
                        )
                    },
                    Err(m) => {
                        &&& spec_first_missing(frame1, term0.spec_font(), 0) == Some(m.0)
                        &&& final(self).spec_tty().spec_term().spec_display()
                            == term0.spec_display()
                    },
                }
            }),
    {
        self.inner.flush_screen()
    }
}

} // verus!
