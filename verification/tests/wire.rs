use bootproof::graphics::tty::serial::{wire_bytes, SerialTty};
use bootproof::graphics::tty::uefi::UefiTty;

#[test]
fn serial_tty_keeps_its_port() {
    let tty = SerialTty::new(0x3F8);
    assert_eq!(tty.port(), 0x3F8);
}

#[test]
fn ascii_takes_one_wire_byte() {
    assert_eq!(wire_bytes('A'), vec![0x41]);
    assert_eq!(wire_bytes('\u{7f}'), vec![0x7F]);
}

#[test]
fn wider_scalars_take_their_utf8_length_in_scalar_bytes() {
    // The wire carries the scalar value little-endian, one byte per byte
    // of the character's UTF-8 length.
    assert_eq!(wire_bytes('\u{e9}'), vec![0xE9, 0x00]);
    assert_eq!(wire_bytes('\u{7ff}'), vec![0xFF, 0x07]);
    assert_eq!(wire_bytes('\u{20ac}'), vec![0xAC, 0x20, 0x00]);
    assert_eq!(wire_bytes('\u{ffff}'), vec![0xFF, 0xFF, 0x00]);
    assert_eq!(wire_bytes('\u{10000}'), vec![0x00, 0x00, 0x01, 0x00]);
    assert_eq!(wire_bytes('\u{10ffff}'), vec![0xFF, 0xFF, 0x10, 0x00]);
}

#[test]
fn uefi_tty_buffers_until_flushed() {
    let mut tty = UefiTty::new();
    tty.putc('h');
    tty.puts("i!");
    let codes = tty.flush_codes();
    assert_eq!(codes, vec![0x68, 0x69, 0x21, 0]);
    // The buffer drains: a second flush yields only the terminator.
    assert_eq!(tty.flush_codes(), vec![0]);
}

#[test]
fn uefi_tty_truncates_codes_beyond_one_unit() {
    let mut tty = UefiTty::new();
    tty.putc('\u{20ac}');
    tty.putc('\u{10348}');
    assert_eq!(tty.flush_codes(), vec![0x20AC, 0x0348, 0]);
}
