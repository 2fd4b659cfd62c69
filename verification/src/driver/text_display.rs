//! A text-mode display: an array of characters that can be set in any
//! order, and a refresh that makes the changes visible.

pub mod graphic;

use vstd::prelude::*;
use crate::graphics::terminal::MissingGlyph;
use crate::graphics::terminal::frame::TerminalFrame;

verus! {

/// A frame of a text display: a 2D array of characters set cell by cell.
/// The frame does not know how to display itself; that is what the
/// [`TextDisplay`] capability is for.
pub struct TextDisplayFrame {
    inner: TerminalFrame,
}

impl TextDisplayFrame {
    pub closed spec fn spec_width(&self) -> int {
        self.inner.spec_width()
    }

    pub closed spec fn spec_height(&self) -> int {
        self.inner.spec_height()
    }

    /// The cells, row-major: cell `(x, y)` sits at `y * width + x`.
    pub closed spec fn spec_cells(&self) -> Seq<char> {
        self.inner.spec_cells()
    }

    /// The character in cell `(x, y)`.
    pub open spec fn spec_cell(&self, x: int, y: int) -> char {
        self.spec_cells()[y * self.spec_width() + x]
    }

    /// The backing storage holds exactly one character per cell.
    pub closed spec fn wf(&self) -> bool {
        self.inner.wf()
    }

    /// Builds a frame of the given resolution with every cell empty.
    pub fn new(resolution: (usize, usize)) -> (r: TextDisplayFrame)
        requires
            resolution.0 * resolution.1 <= usize::MAX,
        ensures
            r.wf(),
            r.spec_width() == resolution.0,
            r.spec_height() == resolution.1,
            r.spec_cells().len() == resolution.0 * resolution.1,
            forall|i: int| 0 <= i < r.spec_cells().len() ==> r.spec_cells()[i] == '\u{0}',
    {
        TextDisplayFrame { inner: TerminalFrame::new(resolution) }
    }

    pub fn resolution(&self) -> (r: (usize, usize))
        ensures
            r.0 as int == self.spec_width(),
            r.1 as int == self.spec_height(),
    {
        self.inner.resolution()
    }

    pub fn width(&self) -> (r: usize)
        ensures
            r as int == self.spec_width(),
    {
        self.inner.width()
    }

    pub fn height(&self) -> (r: usize)
        ensures
            r as int == self.spec_height(),
    {
        self.inner.height()
    }

    /// Set all characters in this frame to null.
    pub fn clear(&mut self)
        requires
            old(self).wf(),
        ensures
            final(self).wf(),
            final(self).spec_width() == old(self).spec_width(),
            final(self).spec_height() == old(self).spec_height(),
            final(self).spec_cells().len() == old(self).spec_cells().len(),
            forall|i: int|
                0 <= i < final(self).spec_cells().len() ==> final(self).spec_cells()[i]
                    == '\u{0}',
    {
        self.inner.clear();
    }

    /// The character in cell `(x, y)`.
    pub fn get(&self, x: usize, y: usize) -> (r: char)
        requires
            self.wf(),
            x < self.spec_width(),
            y < self.spec_height(),
        ensures
            r == self.spec_cell(x as int, y as int),
    {
        self.inner.get(x, y)
    }

    /// Writes `c` into cell `(x, y)`.
    pub fn set(&mut self, x: usize, y: usize, c: char)
        requires
            old(self).wf(),
            x < old(self).spec_width(),
            y < old(self).spec_height(),
        ensures
            final(self).wf(),
            final(self).spec_width() == old(self).spec_width(),
            final(self).spec_height() == old(self).spec_height(),
            final(self).spec_cells() == old(self).spec_cells().update(
                y * old(self).spec_width() + x,
                c,
            ),
    {
        self.inner.set(x, y, c);
    }
}

/// A text-mode display: a character grid that can render itself.
pub trait TextDisplay {
    /// The implementation's validity condition.
    spec fn inv(&self) -> bool;

    /// The grid's resolution in character cells.
    spec fn spec_grid_width(&self) -> int;

    /// The grid's resolution in character cells.
    spec fn spec_grid_height(&self) -> int;

    /// The grid's cells, row-major.
    spec fn spec_grid(&self) -> Seq<char>;

    fn resolution(&self) -> (r: (usize, usize))
        requires
            self.inv(),
        ensures
            r.0 as int == self.spec_grid_width(),
            r.1 as int == self.spec_grid_height(),
    ;

    /// The character in grid cell `(x, y)`.
    fn get(&self, x: usize, y: usize) -> (r: char)
        requires
            self.inv(),
            x < self.spec_grid_width(),
            y < self.spec_grid_height(),
        ensures
            r == self.spec_grid()[y * self.spec_grid_width() + x],
    ;

    /// Writes `c` into grid cell `(x, y)`.
    fn set(&mut self, x: usize, y: usize, c: char)
        requires
            old(self).inv(),
            x < old(self).spec_grid_width(),
            y < old(self).spec_grid_height(),
        ensures
            final(self).inv(),
            final(self).spec_grid_width() == old(self).spec_grid_width(),
            final(self).spec_grid_height() == old(self).spec_grid_height(),
            final(self).spec_grid() == old(self).spec_grid().update(
                y * old(self).spec_grid_width() + x,
                c,
            ),
    ;

    /// Empties every grid cell without repainting.
    fn clear(&mut self)
        requires
            old(self).inv(),
        ensures
            final(self).inv(),
            final(self).spec_grid_width() == old(self).spec_grid_width(),
            final(self).spec_grid_height() == old(self).spec_grid_height(),
            final(self).spec_grid().len() == old(self).spec_grid().len(),
            forall|i: int|
                0 <= i < final(self).spec_grid().len() ==> final(self).spec_grid()[i] == '\u{0}',
    ;

    /// Display all changes made to the frame.
    fn refresh(&mut self) -> (r: Result<(), MissingGlyph>)
        requires
            old(self).inv(),
        ensures
            final(self).inv(),
            final(self).spec_grid() == old(self).spec_grid(),
            final(self).spec_grid_width() == old(self).spec_grid_width(),
            final(self).spec_grid_height() == old(self).spec_grid_height(),
    ;
}

} // verus!
