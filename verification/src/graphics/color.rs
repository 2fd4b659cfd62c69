//! Color values as red/green/blue triples, and the capability interface
//! that lets a caller hand any color-like value to the graphics stack.

use vstd::prelude::*;

verus! {

/// An RGB color with one byte per channel.
#[derive(Copy, Clone)]
pub struct RGB {
    r: u8,
    g: u8,
    b: u8,
}

impl RGB {
    pub closed spec fn spec_r(&self) -> u8 {
        self.r
    }

    pub closed spec fn spec_g(&self) -> u8 {
        self.g
    }

    pub closed spec fn spec_b(&self) -> u8 {
        self.b
    }

    /// Builds a color from its three channels.
    pub fn new(r: u8, g: u8, b: u8) -> (c: RGB)
        ensures
            c.spec_r() == r,
            c.spec_g() == g,
            c.spec_b() == b,
    {
        RGB { r, g, b }
    }
}

/// Anything that can present itself as an RGB triple.
pub trait Color: Copy {
    /// The triple `(r, g, b)` this value stands for.
    spec fn spec_rgb(&self) -> (u8, u8, u8);

    fn r(&self) -> (r: u8)
        ensures
            r == self.spec_rgb().0,
    ;

    fn g(&self) -> (g: u8)
        ensures
            g == self.spec_rgb().1,
    ;

    fn b(&self) -> (b: u8)
        ensures
            b == self.spec_rgb().2,
    ;

    fn into_rgb(&self) -> (c: RGB)
        ensures
            c.spec_r() == self.spec_rgb().0,
            c.spec_g() == self.spec_rgb().1,
            c.spec_b() == self.spec_rgb().2,
    ;
}

impl Color for RGB {
    open spec fn spec_rgb(&self) -> (u8, u8, u8) {
        (self.spec_r(), self.spec_g(), self.spec_b())
    }

    fn r(&self) -> u8 {
        proof {
            assert(self.spec_rgb().0 == self.r);
        }
        self.r
    }

    fn g(&self) -> u8 {
        proof {
            assert(self.spec_rgb().1 == self.g);
        }
        self.g
    }

    fn b(&self) -> u8 {
        proof {
            assert(self.spec_rgb().2 == self.b);
        }
        self.b
    }

    fn into_rgb(&self) -> RGB {
        proof {
            assert(self.spec_rgb() == (self.spec_r(), self.spec_g(), self.spec_b()));
        }
        RGB { r: self.r, g: self.g, b: self.b }
    }
}

} // verus!
