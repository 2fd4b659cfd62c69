//! The character-grid terminal: a frame of codepoints overlaid on a pixel
//! surface, rendered cell by cell through a font.

pub mod display;
pub mod frame;

use vstd::prelude::*;
use crate::graphics::terminal::frame::TerminalFrame;

verus! {

/// A grid cell referenced a codepoint the font does not map. Rather than
/// aborting mid-render, a refresh reports the first such codepoint and
/// leaves the surface untouched.
#[derive(Clone, Copy, Debug, PartialEq, Eq, Structural)]
pub struct MissingGlyph(pub char);

/// A capability interface over a character grid that can render itself.
pub trait Terminal {
    /// The implementation's validity condition: constructors establish it
    /// and every operation preserves it.
    spec fn inv(&self) -> bool;

    /// The grid as it currently stands.
    spec fn spec_frame(&self) -> TerminalFrame;

    fn get_frame<'a>(&'a self) -> (r: &'a TerminalFrame)
        ensures
            *r == self.spec_frame(),
    ;

    /// Writes `c` into grid cell `(x, y)`.
    fn set(&mut self, x: usize, y: usize, c: char)
        requires
            old(self).inv(),
            x < old(self).spec_frame().spec_width(),
            y < old(self).spec_frame().spec_height(),
        ensures
            final(self).inv(),
            final(self).spec_frame().spec_width() == old(self).spec_frame().spec_width(),
            final(self).spec_frame().spec_height() == old(self).spec_frame().spec_height(),
            final(self).spec_frame().spec_cells() == old(self).spec_frame().spec_cells().update(
                y * old(self).spec_frame().spec_width() + x,
                c,
            ),
    ;

    /// Empties every grid cell. Does not itself repaint the surface.
    fn clear(&mut self)
        requires
            old(self).inv(),
        ensures
            final(self).inv(),
            final(self).spec_frame().spec_width() == old(self).spec_frame().spec_width(),
            final(self).spec_frame().spec_height() == old(self).spec_frame().spec_height(),
            final(self).spec_frame().spec_cells().len() == old(self).spec_frame().spec_cells().len(),
            forall|i: int|
                0 <= i < final(self).spec_frame().spec_cells().len()
                    ==> final(self).spec_frame().spec_cells()[i] == '\u{0}',
    ;

    /// Renders the grid onto the underlying surface. The grid itself is
    /// left as it was, whether or not the render goes through.
    fn refresh(&mut self) -> (r: Result<(), MissingGlyph>)
        requires
            old(self).inv(),
        ensures
            final(self).inv(),
            final(self).spec_frame() == old(self).spec_frame(),
    ;
}

} // verus!
