//! The driver-facing pixel surface capability: everything a [`Display`]
//! offers, plus an explicit step that presents what was drawn.

use vstd::prelude::*;
use crate::graphics::display::Display;
use crate::graphics::display::gop::GopDisplay;

verus! {

/// A pixel surface whose writes may be buffered until `refresh`.
pub trait GraphicDisplay: Display {
    /// Display everything that was drawn to the surface.
    fn refresh(&mut self)
        ensures
            final(self).spec_width() == old(self).spec_width(),
            final(self).spec_height() == old(self).spec_height(),
    ;
}

impl GraphicDisplay for GopDisplay {
    /// A linear framebuffer is displayed directly: every write is already
    /// visible, so presenting it changes nothing.
    fn refresh(&mut self) {
    }
}

} // verus!
