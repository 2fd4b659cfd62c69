//! A teletype attached via a serial port. Serial ports rarely exist on
//! physical devices anymore, but emulators map them to the host terminal,
//! which makes them invaluable for early debugging. The port write itself
//! is I/O and lives with the caller; this module holds the port number and
//! computes the exact bytes each character puts on the wire.

use vstd::prelude::*;

verus! {

/// How many bytes a character occupies on the wire: its UTF-8 length,
/// determined by the scalar value alone.
pub open spec fn spec_wire_len(v: u32) -> int {
    if v < 0x80 {
        1int
    } else if v < 0x800 {
        2int
    } else if v < 0x10000 {
        3int
    } else {
        4int
    }
}

/// Byte `k` of the scalar value in little-endian order.
pub open spec fn spec_scalar_byte(v: u32, k: int) -> u8 {
    if k == 0 {
        v as u8
    } else if k == 1 {
        (v >> 8u32) as u8
    } else if k == 2 {
        (v >> 16u32) as u8
    } else {
        (v >> 24u32) as u8
    }
}

/// The bytes one `putc` sends for `c`: the first `wire_len` little-endian
/// bytes of the character's scalar value, in order.
pub fn wire_bytes(c: char) -> (r: Vec<u8>)
    ensures
        r@.len() == spec_wire_len(c as u32),
        forall|k: int| 0 <= k < r@.len() ==> r@[k] == spec_scalar_byte(c as u32, k),
{
    let v = c as u32;
    let mut r: Vec<u8> = Vec::new();
    r.push(v as u8);
    if v >= 0x80 {
        r.push((v >> 8u32) as u8);
    }
    if v >= 0x800 {
        r.push((v >> 16u32) as u8);
    }
    if v >= 0x10000 {
        r.push((v >> 24u32) as u8);
    }
    r
}

/// A TTY bound to one serial port. The caller is responsible for the port
/// actually being a TTY device, and for performing the byte writes.
pub struct SerialTty {
    port: u16,
}

impl SerialTty {
    pub closed spec fn spec_port(&self) -> u16 {
        self.port
    }

    /// Creates a serial TTY that will use the provided port for output.
    pub fn new(port: u16) -> (r: SerialTty)
        ensures
            r.spec_port() == port,
    {
        SerialTty { port }
    }

    /// The port every byte of output goes to.
    pub fn port(&self) -> (r: u16)
        ensures
            r == self.spec_port(),
    {
        self.port
    }
}

} // verus!
