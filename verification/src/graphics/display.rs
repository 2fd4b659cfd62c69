//! The capability interface for a pixel surface: a rectangular grid of
//! addressable pixels with bounded and clipped writes and a whole-surface
//! clear. One conforming implementation exists: the linear framebuffer
//! surface in [`gop`].

pub mod gop;

use vstd::prelude::*;
use crate::graphics::color::RGB;

verus! {

/// A rectangular pixel surface.
///
/// The write primitives come in two tiers on purpose: `set_pixel` demands
/// in-bounds coordinates from its caller — glyph blitting is a hot path
/// whose bounds checks are hoisted to callers that can prove them — while
/// `set_pixel_ignore_oob` silently drops an out-of-bounds write.
pub trait Display {
    /// Pixel width of the surface.
    spec fn spec_width(&self) -> int;

    /// Pixel height of the surface.
    spec fn spec_height(&self) -> int;

    fn resolution(&self) -> (r: (usize, usize))
        ensures
            r.0 as int == self.spec_width(),
            r.1 as int == self.spec_height(),
    ;

    fn width(&self) -> (r: usize)
        ensures
            r as int == self.spec_width(),
    ;

    fn height(&self) -> (r: usize)
        ensures
            r as int == self.spec_height(),
    ;

    /// Writes one pixel. The caller is responsible for the coordinates
    /// lying within the surface.
    fn set_pixel(&mut self, color: RGB, x: usize, y: usize)
        requires
            x < old(self).spec_width(),
            y < old(self).spec_height(),
        ensures
            final(self).spec_width() == old(self).spec_width(),
            final(self).spec_height() == old(self).spec_height(),
    ;

    /// Writes one pixel, silently doing nothing when the coordinates lie
    /// outside the surface.
    fn set_pixel_ignore_oob(&mut self, color: RGB, x: usize, y: usize)
        ensures
            final(self).spec_width() == old(self).spec_width(),
            final(self).spec_height() == old(self).spec_height(),
    ;

    /// Sets the entire surface to one color, clearing everything
    /// previously drawn.
    fn clear(&mut self, color: RGB)
        ensures
            final(self).spec_width() == old(self).spec_width(),
            final(self).spec_height() == old(self).spec_height(),
    ;
}

} // verus!
