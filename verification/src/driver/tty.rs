//! The driver-facing teletype capability: a device that takes text output
//! and not much else. Output may be buffered, so `flush` it.

pub mod text_display;

use vstd::prelude::*;
use crate::graphics::terminal::MissingGlyph;
use crate::graphics::tty::{spec_putc, spec_puts};

verus! {

/// A teletypewriter, or really, because those do not exist anymore, a
/// device that behaves like one: buffered text output with a flush.
pub trait Tty {
    /// The implementation's validity condition.
    spec fn inv(&self) -> bool;

    /// The buffered logical line history.
    spec fn spec_history(&self) -> Seq<Seq<char>>;

    /// Print a single character to the TTY.
    fn putc(&mut self, c: char)
        requires
            old(self).inv(),
        ensures
            final(self).inv(),
            final(self).spec_history() == spec_putc(old(self).spec_history(), c),
    ;

    /// Print an entire string to the TTY.
    fn puts(&mut self, s: &str)
        requires
            old(self).inv(),
        ensures
            final(self).inv(),
            final(self).spec_history() == spec_puts(old(self).spec_history(), s@),
    ;

    /// Clear all TTY output.
    fn clear(&mut self)
        requires
            old(self).inv(),
        ensures
            final(self).inv(),
            final(self).spec_history() == seq![Seq::<char>::empty()],
    ;

    /// Synchronously flush any buffered output.
    fn flush(&mut self) -> (r: Result<(), MissingGlyph>)
        requires
            old(self).inv(),
        ensures
            final(self).inv(),
            final(self).spec_history() == old(self).spec_history(),
    ;
}

} // verus!
