//! Capability interfaces for fonts and glyphs. One conforming
//! implementation exists: the PSF-backed font store in [`psf`].

pub mod psf;

use vstd::prelude::*;

verus! {

/// A font: a bounding box shared by every glyph, and a lookup from a
/// Unicode codepoint to the glyph that renders it.
pub trait Font {
    type Glyph: Glyph;

    /// Pixel width of the bounding box every glyph of this font is laid out in.
    spec fn spec_width(&self) -> int;

    /// Pixel height of the bounding box every glyph of this font is laid out in.
    spec fn spec_height(&self) -> int;

    /// The glyph this font associates with `c`, if any.
    spec fn spec_lookup(&self, c: char) -> Option<Self::Glyph>;

    /// The size, in pixels, of the bounding box of each glyph in this font.
    fn bounding_box(&self) -> (r: (usize, usize))
        ensures
            r.0 as int == self.spec_width(),
            r.1 as int == self.spec_height(),
    ;

    /// The glyph for codepoint `c`, or `None` when the font does not map it.
    fn lookup<'a>(&'a self, c: char) -> (r: Option<&'a Self::Glyph>)
        ensures
            match r {
                Some(g) => self.spec_lookup(c) == Some(*g),
                None => self.spec_lookup(c) is None,
            },
    ;
}

/// A single character's bitmap: a per-pixel boolean query within the
/// glyph's own storage width and height.
pub trait Glyph {
    /// The width, in pixels, of this specific glyph's storage. It may exceed
    /// the font's bounding box when row padding carries overflow pixels.
    spec fn spec_width(&self) -> int;

    /// The height, in pixels, of this specific glyph.
    spec fn spec_height(&self) -> int;

    /// Whether the pixel at `(x, y)` of this glyph is set.
    spec fn spec_pixel(&self, x: int, y: int) -> bool;

    fn width(&self) -> (r: usize)
        ensures
            r as int == self.spec_width(),
    ;

    fn height(&self) -> (r: usize)
        ensures
            r as int == self.spec_height(),
    ;

    /// Check whether an individual pixel of this glyph is set. `x` and `y`
    /// must lie within the width and height of this glyph.
    fn get(&self, x: usize, y: usize) -> (r: bool)
        requires
            0 <= x < self.spec_width(),
            0 <= y < self.spec_height(),
        ensures
            r == self.spec_pixel(x as int, y as int),
    ;
}

} // verus!
