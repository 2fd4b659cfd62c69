//! A teletype buffering output for the firmware's text console. The
//! firmware call that prints — and the console handle it needs — live with
//! the caller; this module keeps the buffered text and produces the
//! NUL-terminated UCS-2 code units a flush hands over.

use vstd::prelude::*;

verus! {

/// Buffered console output: characters accumulate until a flush drains
/// them as code units for the firmware's output protocol.
pub struct UefiTty {
    buffer: Vec<char>,
}

impl UefiTty {
    /// The characters buffered since the last flush, in order.
    pub closed spec fn spec_buffer(&self) -> Seq<char> {
        self.buffer@
    }

    /// Builds a teletype with an empty buffer.
    pub fn new() -> (r: UefiTty)
        ensures
            r.spec_buffer() == Seq::<char>::empty(),
    {
        UefiTty { buffer: Vec::new() }
    }

    /// Buffers a single character.
    pub fn putc(&mut self, c: char)
        ensures
            final(self).spec_buffer() == old(self).spec_buffer().push(c),
    {
        self.buffer.push(c);
    }

    /// Buffers an entire string.
    pub fn puts(&mut self, s: &str)
        ensures
            final(self).spec_buffer() == old(self).spec_buffer() + s@,
    {
        let n = s.unicode_len();
        let mut i: usize = 0;
        proof {
            assert(old(self).spec_buffer() + s@.take(0) =~= old(self).spec_buffer());
        }
        while i < n
            invariant
                i <= n,
                n == s@.len(),
                self.spec_buffer() == old(self).spec_buffer() + s@.take(i as int),
            decreases n - i,
        {
            self.buffer.push(s.get_char(i));
            proof {
                assert(old(self).spec_buffer() + s@.take(i as int + 1) =~= (old(
                    self,
                ).spec_buffer() + s@.take(i as int)).push(s@[i as int]));
            }
            i += 1;
        }
        proof {
            assert(s@.take(n as int) =~= s@);
        }
    }

    /// Drains the buffer as UCS-2 code units with a trailing NUL, the
    /// shape the firmware's output call takes: each character truncated to
    /// one code unit, then a terminator.
    pub fn flush_codes(&mut self) -> (r: Vec<u16>)
        ensures
            r@.len() == old(self).spec_buffer().len() + 1,
            forall|k: int|
                0 <= k < old(self).spec_buffer().len() ==> r@[k] == old(self).spec_buffer()[k]
                    as u16,
            r@[old(self).spec_buffer().len() as int] == 0u16,
            final(self).spec_buffer() == Seq::<char>::empty(),
    {
        let mut codes: Vec<u16> = Vec::new();
        let n = self.buffer.len();
        let mut i: usize = 0;
        while i < n
            invariant
                i <= n,
                n == self.buffer@.len(),
                self.buffer@ == old(self).buffer@,
                codes@.len() == i,
                forall|k: int| 0 <= k < i ==> codes@[k] == self.buffer@[k] as u16,
            decreases n - i,
        {
            codes.push(self.buffer[i] as u16);
            i += 1;
        }
        codes.push(0);
        self.buffer.clear();
        codes
    }
}

} // verus!
