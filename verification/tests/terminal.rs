use bootproof::graphics::color::RGB;
use bootproof::graphics::display::gop::GopDisplay;
use bootproof::graphics::font::psf::PSF;
use bootproof::graphics::terminal::display::DisplayTerminal;
use bootproof::graphics::terminal::frame::TerminalFrame;
use bootproof::graphics::terminal::{MissingGlyph, Terminal};

fn psf_blob(count: u32, charsize: u32, height: u32, width: u32, bitmaps: &[u8], table: &[u8]) -> Vec<u8> {
    let mut v = vec![0u8; 16];
    v.extend_from_slice(&count.to_le_bytes());
    v.extend_from_slice(&charsize.to_le_bytes());
    v.extend_from_slice(&height.to_le_bytes());
    v.extend_from_slice(&width.to_le_bytes());
    v.extend_from_slice(bitmaps);
    v.extend_from_slice(table);
    v
}

/// A 2x2 font: 'F' renders as the top row set, 'L' as the left column set.
fn tiny_font_blob() -> Vec<u8> {
    let bitmaps: [u8; 4] = [0b1100_0000, 0b0000_0000, 0b1000_0000, 0b1000_0000];
    psf_blob(2, 2, 2, 2, &bitmaps, b"F\xFFL\xFF")
}

#[test]
fn frame_starts_empty_and_stores_cells() {
    let mut f = TerminalFrame::new((3, 2));
    assert_eq!(f.resolution(), (3, 2));
    assert_eq!(f.width(), 3);
    assert_eq!(f.height(), 2);
    for y in 0..2 {
        for x in 0..3 {
            assert_eq!(f.get(x, y), '\u{0}');
        }
    }
    f.set(2, 1, 'q');
    assert_eq!(f.get(2, 1), 'q');
    assert_eq!(f.get(1, 1), '\u{0}');
    f.clear();
    assert_eq!(f.get(2, 1), '\u{0}');
}

#[test]
fn terminal_grid_is_display_over_font() {
    let blob = tiny_font_blob();
    let font = PSF::parse(&blob).unwrap();
    let display = GopDisplay::new(7, 5, 7).unwrap();
    // 7 / 2 and 5 / 2, truncating: trailing pixels are unused margin.
    let term = DisplayTerminal::new(display, &font, RGB::new(0, 0, 0), RGB::new(255, 255, 255))
        .unwrap();
    assert_eq!(term.get_frame().resolution(), (3, 2));
}

#[test]
fn terminal_rejects_grid_smaller_than_one_cell() {
    let blob = tiny_font_blob();
    let font = PSF::parse(&blob).unwrap();
    let display = GopDisplay::new(1, 5, 1).unwrap();
    assert!(DisplayTerminal::new(display, &font, RGB::new(0, 0, 0), RGB::new(1, 1, 1)).is_err());
}

#[test]
fn refresh_renders_cells_onto_the_surface() {
    let blob = tiny_font_blob();
    let font = PSF::parse(&blob).unwrap();
    let display = GopDisplay::new(4, 2, 4).unwrap();
    let bg = RGB::new(1, 1, 1);
    let fg = RGB::new(250, 250, 250);
    let mut term = DisplayTerminal::new(display, &font, bg, fg).unwrap();
    term.set(0, 0, 'F');
    term.set(1, 0, 'L');
    assert!(term.refresh().is_ok());
    // 'F': top row of cell (0, 0) set.
    assert_eq!(term.display().get_pixel(0, 0), [250, 250, 250, 0]);
    assert_eq!(term.display().get_pixel(1, 0), [250, 250, 250, 0]);
    assert_eq!(term.display().get_pixel(0, 1), [1, 1, 1, 0]);
    assert_eq!(term.display().get_pixel(1, 1), [1, 1, 1, 0]);
    // 'L': left column of cell (1, 0) set.
    assert_eq!(term.display().get_pixel(2, 0), [250, 250, 250, 0]);
    assert_eq!(term.display().get_pixel(2, 1), [250, 250, 250, 0]);
    assert_eq!(term.display().get_pixel(3, 0), [1, 1, 1, 0]);
    assert_eq!(term.display().get_pixel(3, 1), [1, 1, 1, 0]);
}

#[test]
fn refresh_reports_first_missing_glyph_and_leaves_surface_alone() {
    let blob = tiny_font_blob();
    let font = PSF::parse(&blob).unwrap();
    let display = GopDisplay::new(4, 2, 4).unwrap();
    let mut term = DisplayTerminal::new(display, &font, RGB::new(1, 1, 1), RGB::new(2, 2, 2))
        .unwrap();
    let before = term.display().data().clone();
    term.set(0, 0, 'F');
    term.set(1, 0, 'Q');
    assert_eq!(term.refresh(), Err(MissingGlyph('Q')));
    // The check runs before the first pixel is written.
    assert_eq!(*term.display().data(), before);
    // The grid itself keeps what was set.
    assert_eq!(term.get_frame().get(1, 0), 'Q');
}

#[test]
fn refresh_leaves_the_grid_unchanged() {
    let blob = tiny_font_blob();
    let font = PSF::parse(&blob).unwrap();
    let display = GopDisplay::new(4, 4, 4).unwrap();
    let mut term = DisplayTerminal::new(display, &font, RGB::new(0, 0, 0), RGB::new(9, 9, 9))
        .unwrap();
    term.set(1, 1, 'F');
    assert!(term.refresh().is_ok());
    assert_eq!(term.get_frame().get(1, 1), 'F');
    assert_eq!(term.get_frame().get(0, 0), '\u{0}');
}

#[test]
fn degenerate_font_is_rejected_at_terminal_construction() {
    // A zero-width bounding box parses, but no grid can be laid out in it.
    let blob = psf_blob(1, 0, 0, 0, &[], b"");
    let font = PSF::parse(&blob).unwrap();
    let display = GopDisplay::new(8, 8, 8).unwrap();
    assert!(DisplayTerminal::new(display, &font, RGB::new(0, 0, 0), RGB::new(1, 1, 1)).is_err());
}

#[test]
fn terminal_clear_empties_every_cell() {
    let blob = tiny_font_blob();
    let font = PSF::parse(&blob).unwrap();
    let display = GopDisplay::new(4, 2, 4).unwrap();
    let mut term = DisplayTerminal::new(display, &font, RGB::new(0, 0, 0), RGB::new(9, 9, 9))
        .unwrap();
    term.set(0, 0, 'F');
    term.clear();
    assert_eq!(term.get_frame().get(0, 0), '\u{0}');
}
