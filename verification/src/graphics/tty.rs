//! The teletype abstraction: buffered character output with an explicit
//! flush, the sole consumer-facing surface of this subsystem.

pub mod serial;
pub mod terminal;
pub mod uefi;

use vstd::prelude::*;
use crate::graphics::terminal::MissingGlyph;

verus! {

/// A logical line history after one more character: a newline pushes a new
/// empty line, anything else appends to the current (last) line.
pub open spec fn spec_putc(h: Seq<Seq<char>>, c: char) -> Seq<Seq<char>>
    recommends
        h.len() >= 1,
{
    if c == '\n' {
        h.push(Seq::empty())
    } else {
        h.update(h.len() - 1, h.last().push(c))
    }
}

/// A logical line history after a whole string, character by character.
pub open spec fn spec_puts(h: Seq<Seq<char>>, s: Seq<char>) -> Seq<Seq<char>>
    recommends
        h.len() >= 1,
    decreases s.len(),
{
    if s.len() == 0 {
        h
    } else {
        spec_puts(spec_putc(h, s[0]), s.drop_first())
    }
}

/// Appending one character to the pending string appends one step to the
/// history it produces.
pub proof fn lemma_puts_snoc(h: Seq<Seq<char>>, s: Seq<char>, c: char)
    ensures
        spec_puts(h, s.push(c)) == spec_putc(spec_puts(h, s), c),
    decreases s.len(),
{
    if s.len() == 0 {
        assert(s.push(c)[0] == c);
        assert(s.push(c).drop_first() =~= Seq::<char>::empty());
        assert(spec_puts(h, s.push(c)) == spec_puts(spec_putc(h, c), s.push(c).drop_first()));
        assert(spec_puts(spec_putc(h, c), Seq::<char>::empty()) == spec_putc(h, c));
    } else {
        assert(s.push(c)[0] == s[0]);
        assert(s.push(c).drop_first() =~= s.drop_first().push(c));
        lemma_puts_snoc(spec_putc(h, s[0]), s.drop_first(), c);
    }
}

/// A device that takes text output and not much else. Output may be
/// buffered: `flush` makes it visible.
pub trait Tty {
    /// The implementation's validity condition: constructors establish it
    /// and every operation preserves it.
    spec fn inv(&self) -> bool;

    /// The buffered logical line history, the last line being the one
    /// currently appended to.
    spec fn spec_history(&self) -> Seq<Seq<char>>;

    /// Print a single character to the TTY.
    fn putc(&mut self, c: char)
        requires
            old(self).inv(),
        ensures
            final(self).inv(),
            final(self).spec_history() == spec_putc(old(self).spec_history(), c),
    ;

    /// Print an entire string to the TTY.
    fn puts(&mut self, s: &str)
        requires
            old(self).inv(),
        ensures
            final(self).inv(),
            final(self).spec_history() == spec_puts(old(self).spec_history(), s@),
    ;

    /// Clear all TTY output: the history becomes one empty line.
    fn clear(&mut self)
        requires
            old(self).inv(),
        ensures
            final(self).inv(),
            final(self).spec_history() == seq![Seq::<char>::empty()],
    ;

    /// Synchronously flush any buffered output.
    fn flush(&mut self) -> (r: Result<(), MissingGlyph>)
        requires
            old(self).inv(),
        ensures
            final(self).inv(),
            final(self).spec_history() == old(self).spec_history(),
    ;
}

} // verus!
