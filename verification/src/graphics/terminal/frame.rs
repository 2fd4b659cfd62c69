//! A fixed-size 2D grid of codepoints, NUL marking an empty cell. The
//! frame knows nothing about rendering itself; that is the terminal's job.

use vstd::prelude::*;

verus! {

/// A character grid with a fixed resolution in cells, stored row-major.
pub struct TerminalFrame {
    resolution: (usize, usize),
    buf: Vec<char>,
}

impl TerminalFrame {
    pub closed spec fn spec_width(&self) -> int {
        self.resolution.0 as int
    }

    pub closed spec fn spec_height(&self) -> int {
        self.resolution.1 as int
    }

    /// The cells, row-major: cell `(x, y)` sits at `y * width + x`.
    pub closed spec fn spec_cells(&self) -> Seq<char> {
        self.buf@
    }

    /// The character in cell `(x, y)`.
    pub open spec fn spec_cell(&self, x: int, y: int) -> char {
        self.spec_cells()[y * self.spec_width() + x]
    }

    /// The backing storage holds exactly one character per cell.
    /// Construction establishes this and every operation preserves it.
    pub closed spec fn wf(&self) -> bool {
        self.buf@.len() == self.resolution.0 * self.resolution.1
    }

    /// The backing storage length equals the cell count.
    pub proof fn lemma_cells_len(&self)
        requires
            self.wf(),
        ensures
            self.spec_cells().len() == self.spec_width() * self.spec_height(),
    {
    }

    /// Builds a frame of the given resolution with every cell empty.
    pub fn new(resolution: (usize, usize)) -> (r: TerminalFrame)
        requires
            resolution.0 * resolution.1 <= usize::MAX,
        ensures
            r.wf(),
            r.spec_width() == resolution.0,
            r.spec_height() == resolution.1,
            r.spec_cells().len() == resolution.0 * resolution.1,
            forall|i: int| 0 <= i < r.spec_cells().len() ==> r.spec_cells()[i] == '\u{0}',
    {
        let (width, height) = resolution;
        proof {
            assert(width * height >= 0) by (nonlinear_arith);
        }
        let buf_length = width * height;
        let buf: Vec<char> = vec!['\u{0}'; buf_length];
        TerminalFrame { resolution, buf }
    }

    pub fn resolution(&self) -> (r: (usize, usize))
        ensures
            r.0 as int == self.spec_width(),
            r.1 as int == self.spec_height(),
    {
        self.resolution
    }

    pub fn width(&self) -> (r: usize)
        ensures
            r as int == self.spec_width(),
    {
        self.resolution.0
    }

    pub fn height(&self) -> (r: usize)
        ensures
            r as int == self.spec_height(),
    {
        self.resolution.1
    }

    /// Sets all cells in this frame to NUL.
    pub fn clear(&mut self)
        requires
            old(self).wf(),
        ensures
            final(self).wf(),
            final(self).spec_width() == old(self).spec_width(),
            final(self).spec_height() == old(self).spec_height(),
            final(self).spec_cells().len() == old(self).spec_cells().len(),
            forall|i: int|
                0 <= i < final(self).spec_cells().len() ==> final(self).spec_cells()[i]
                    == '\u{0}',
    {
        let n = self.buf.len();
        let mut i: usize = 0;
        while i < n
            invariant
                i <= n,
                self.buf@.len() == n,
                old(self).wf(),
                self.resolution == old(self).resolution,
                self.buf@.len() == old(self).buf@.len(),
                forall|k: int| 0 <= k < i ==> self.buf@[k] == '\u{0}',
            decreases n - i,
        {
            self.buf[i] = '\u{0}';
            i += 1;
        }
    }

    /// The storage index of cell `(x, y)`.
    fn index(&self, x: usize, y: usize) -> (r: usize)
        requires
            self.wf(),
            x < self.spec_width(),
            y < self.spec_height(),
        ensures
            r == y * self.spec_width() + x,
            r < self.spec_cells().len(),
    {
        let n = self.buf.len();
        proof {
            assert(self.resolution.0 * y == y * self.resolution.0) by (nonlinear_arith);
            assert(y * self.resolution.0 + x < self.resolution.0 * self.resolution.1)
                by (nonlinear_arith)
                requires
                    x < self.resolution.0,
                    y < self.resolution.1,
            ;
        }
        self.width() * y + x
    }

    /// The character in cell `(x, y)`.
    pub fn get(&self, x: usize, y: usize) -> (r: char)
        requires
            self.wf(),
            x < self.spec_width(),
            y < self.spec_height(),
        ensures
            r == self.spec_cell(x as int, y as int),
    {
        self.buf[self.index(x, y)]
    }

    /// Writes `c` into cell `(x, y)`.
    pub fn set(&mut self, x: usize, y: usize, c: char)
        requires
            old(self).wf(),
            x < old(self).spec_width(),
            y < old(self).spec_height(),
        ensures
            final(self).wf(),
            final(self).spec_width() == old(self).spec_width(),
            final(self).spec_height() == old(self).spec_height(),
            final(self).spec_cells() == old(self).spec_cells().update(
                y * old(self).spec_width() + x,
                c,
            ),
    {
        let i = self.index(x, y);
        self.buf[i] = c;
    }
}

} // verus!
