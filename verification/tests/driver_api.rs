use bootproof::driver::graphic_display::GraphicDisplay;
use bootproof::driver::text_display::graphic::GraphicTextDisplay;
use bootproof::driver::text_display::{TextDisplay, TextDisplayFrame};
use bootproof::driver::tty::text_display::TextDisplayTty;
use bootproof::driver::tty::Tty;
use bootproof::graphics::color::RGB;
use bootproof::graphics::display::gop::GopDisplay;
use bootproof::graphics::font::psf::PSF;
use bootproof::graphics::terminal::{MissingGlyph, Terminal};

fn psf_blob(count: u32, charsize: u32, height: u32, width: u32, bitmaps: &[u8], table: &[u8]) -> Vec<u8> {
    let mut v = vec![0u8; 16];
    v.extend_from_slice(&count.to_le_bytes());
    v.extend_from_slice(&charsize.to_le_bytes());
    v.extend_from_slice(&height.to_le_bytes());
    v.extend_from_slice(&width.to_le_bytes());
    v.extend_from_slice(bitmaps);
    v.extend_from_slice(table);
    v
}

fn font_blob() -> Vec<u8> {
    psf_blob(1, 2, 2, 2, &[0b1000_0000, 0b0100_0000], b"abc \xFF")
}

#[test]
fn text_display_frame_stores_cells() {
    let mut f = TextDisplayFrame::new((4, 3));
    assert_eq!(f.resolution(), (4, 3));
    assert_eq!(f.width(), 4);
    assert_eq!(f.height(), 3);
    assert_eq!(f.get(3, 2), '\u{0}');
    f.set(3, 2, 'k');
    assert_eq!(f.get(3, 2), 'k');
    f.clear();
    assert_eq!(f.get(3, 2), '\u{0}');
}

#[test]
fn graphic_text_display_renders() {
    let blob = font_blob();
    let font = PSF::parse(&blob).unwrap();
    let display = GopDisplay::new(8, 4, 8).unwrap();
    let mut td =
        GraphicTextDisplay::new(display, &font, RGB::new(0, 0, 0), RGB::new(9, 9, 9)).unwrap();
    assert_eq!(td.resolution(), (4, 2));
    td.set(0, 0, 'a');
    assert_eq!(td.get(0, 0), 'a');
    assert!(td.refresh().is_ok());
    td.clear();
    assert_eq!(td.get(0, 0), '\u{0}');
}

#[test]
fn graphic_text_display_reports_missing_glyphs() {
    let blob = font_blob();
    let font = PSF::parse(&blob).unwrap();
    let display = GopDisplay::new(8, 4, 8).unwrap();
    let mut td =
        GraphicTextDisplay::new(display, &font, RGB::new(0, 0, 0), RGB::new(9, 9, 9)).unwrap();
    td.set(1, 0, 'Z');
    assert_eq!(td.refresh(), Err(MissingGlyph('Z')));
}

#[test]
fn graphic_display_refresh_is_immediate() {
    let mut d = GopDisplay::new(2, 2, 2).unwrap();
    d.write_pixel(RGB::new(1, 2, 3), 0, 0);
    let before = d.data().clone();
    GraphicDisplay::refresh(&mut d);
    assert_eq!(*d.data(), before);
}

#[test]
fn text_display_tty_buffers_and_flushes() {
    let blob = font_blob();
    let font = PSF::parse(&blob).unwrap();
    let display = GopDisplay::new(8, 4, 8).unwrap();
    let td =
        GraphicTextDisplay::new(display, &font, RGB::new(0, 0, 0), RGB::new(9, 9, 9)).unwrap();
    let mut tty = TextDisplayTty::new(td);
    tty.puts("ab\nc");
    assert_eq!(*tty.tty().history(), vec![vec!['a', 'b'], vec!['c']]);
    assert!(tty.flush().is_ok());
    let frame = tty.tty().terminal().get_frame();
    // Two physical lines on a 4x2 grid, bottom-anchored.
    assert_eq!(frame.get(0, 0), 'a');
    assert_eq!(frame.get(1, 0), 'b');
    assert_eq!(frame.get(0, 1), 'c');
    tty.clear();
    assert_eq!(*tty.tty().history(), vec![Vec::<char>::new()]);
}
