use bootproof::graphics::color::RGB;
use bootproof::graphics::display::gop::GopDisplay;
use bootproof::graphics::font::psf::PSF;
use bootproof::graphics::terminal::display::DisplayTerminal;
use bootproof::graphics::terminal::{MissingGlyph, Terminal};
use bootproof::graphics::tty::terminal::{wrap_lines, TerminalTty};
use bootproof::graphics::tty::Tty;

fn psf_blob(count: u32, charsize: u32, height: u32, width: u32, bitmaps: &[u8], table: &[u8]) -> Vec<u8> {
    let mut v = vec![0u8; 16];
    v.extend_from_slice(&count.to_le_bytes());
    v.extend_from_slice(&charsize.to_le_bytes());
    v.extend_from_slice(&height.to_le_bytes());
    v.extend_from_slice(&width.to_le_bytes());
    v.extend_from_slice(bitmaps);
    v.extend_from_slice(table);
    v
}

/// A 2x2 font mapping every character these tests print to one glyph.
fn font_blob() -> Vec<u8> {
    psf_blob(1, 2, 2, 2, &[0b1000_0000, 0b0100_0000], b"abcdexyz \xFF")
}

/// A teletype over a 10x3 character grid (20x6 pixels, 2x2 font).
fn tty_10x3<'f>(font: &'f PSF) -> TerminalTty<'f> {
    let display = GopDisplay::new(20, 6, 20).unwrap();
    let term = DisplayTerminal::new(display, font, RGB::new(0, 0, 0), RGB::new(255, 255, 255))
        .unwrap();
    TerminalTty::new(term)
}

fn grid_chars(tty: &TerminalTty) -> Vec<Vec<char>> {
    let frame = tty.terminal().get_frame();
    let (w, h) = frame.resolution();
    let mut rows = Vec::new();
    for y in 0..h {
        let mut row = Vec::new();
        for x in 0..w {
            row.push(frame.get(x, y));
        }
        rows.push(row);
    }
    rows
}

fn row_string(row: &[char]) -> String {
    row.iter().filter(|&&c| c != '\u{0}').copied().collect()
}

#[test]
fn putc_appends_and_newline_opens_a_line() {
    let blob = font_blob();
    let font = PSF::parse(&blob).unwrap();
    let mut tty = tty_10x3(&font);
    tty.putc('a');
    tty.putc('b');
    tty.putc('\n');
    tty.putc('c');
    assert_eq!(*tty.history(), vec![vec!['a', 'b'], vec!['c']]);
}

#[test]
fn puts_is_putc_for_each_character() {
    let blob = font_blob();
    let font = PSF::parse(&blob).unwrap();
    let mut tty = tty_10x3(&font);
    tty.puts("ab\ncd");
    assert_eq!(*tty.history(), vec![vec!['a', 'b'], vec!['c', 'd']]);
}

#[test]
fn clear_resets_to_one_empty_line() {
    let blob = font_blob();
    let font = PSF::parse(&blob).unwrap();
    let mut tty = tty_10x3(&font);
    tty.puts("abc\ndef");
    tty.clear();
    assert_eq!(*tty.history(), vec![Vec::<char>::new()]);
}

#[test]
fn wrap_splits_a_long_line_in_order() {
    // A logical line of length 25 at width 10 wraps to 10, 10 and 5.
    let mut line = Vec::new();
    for i in 0..25 {
        line.push(if i < 10 {
            'a'
        } else if i < 20 {
            'b'
        } else {
            'c'
        });
    }
    let physical = wrap_lines(&vec![line], 10);
    assert_eq!(physical.len(), 3);
    assert_eq!(physical[0], vec!['a'; 10]);
    assert_eq!(physical[1], vec!['b'; 10]);
    assert_eq!(physical[2], vec!['c'; 5]);
}

#[test]
fn wrap_keeps_blank_lines_distinct() {
    // Two pushed newlines produce two distinct empty physical lines.
    let history: Vec<Vec<char>> = vec![Vec::new(), Vec::new(), Vec::new()];
    let physical = wrap_lines(&history, 10);
    assert_eq!(physical.len(), 3);
    assert!(physical.iter().all(|l| l.is_empty()));
}

#[test]
fn blank_lines_keep_their_rows_on_screen() {
    let blob = font_blob();
    let font = PSF::parse(&blob).unwrap();
    let mut tty = tty_10x3(&font);
    tty.putc('a');
    tty.putc('\n');
    tty.putc('\n');
    assert_eq!(tty.history().len(), 3);
    assert!(tty.flush().is_ok());
    let rows = grid_chars(&tty);
    // The two blank lines hold the bottom rows, pushing "a" to the top.
    assert_eq!(row_string(&rows[0]), "a");
    assert_eq!(row_string(&rows[1]), "");
    assert_eq!(row_string(&rows[2]), "");
}

#[test]
fn flush_paints_the_most_recent_lines_bottom_up() {
    let blob = font_blob();
    let font = PSF::parse(&blob).unwrap();
    let mut tty = tty_10x3(&font);
    tty.puts("a\nb\nc\nd\ne");
    assert!(tty.flush().is_ok());
    let rows = grid_chars(&tty);
    // Five physical lines on three rows: the last three are visible,
    // the last of all on the bottom row.
    assert_eq!(row_string(&rows[0]), "c");
    assert_eq!(row_string(&rows[1]), "d");
    assert_eq!(row_string(&rows[2]), "e");
}

#[test]
fn flush_leaves_rows_above_the_history_untouched() {
    let blob = font_blob();
    let font = PSF::parse(&blob).unwrap();
    let display = GopDisplay::new(20, 6, 20).unwrap();
    let mut term =
        DisplayTerminal::new(display, &font, RGB::new(0, 0, 0), RGB::new(255, 255, 255)).unwrap();
    // Pre-existing grid content on the top row.
    term.set(0, 0, 'x');
    let mut tty = TerminalTty::new(term);
    tty.puts("a\nb");
    assert!(tty.flush().is_ok());
    let rows = grid_chars(&tty);
    // Two physical lines fill the bottom two rows; the top row keeps
    // whatever the grid held before.
    assert_eq!(row_string(&rows[0]), "x");
    assert_eq!(row_string(&rows[1]), "a");
    assert_eq!(row_string(&rows[2]), "b");
}

#[test]
fn flush_twice_gives_an_identical_grid() {
    let blob = font_blob();
    let font = PSF::parse(&blob).unwrap();
    let mut tty = tty_10x3(&font);
    tty.puts("abc def\nxyz\n\nab");
    assert!(tty.flush().is_ok());
    let rows_first = grid_chars(&tty);
    let pixels_first = tty.terminal().display().data().clone();
    assert!(tty.flush().is_ok());
    assert_eq!(grid_chars(&tty), rows_first);
    assert_eq!(*tty.terminal().display().data(), pixels_first);
}

#[test]
fn flush_reports_a_missing_glyph_and_keeps_the_surface() {
    let blob = font_blob();
    let font = PSF::parse(&blob).unwrap();
    let mut tty = tty_10x3(&font);
    let before = tty.terminal().display().data().clone();
    tty.puts("aQ");
    assert_eq!(tty.flush(), Err(MissingGlyph('Q')));
    assert_eq!(*tty.terminal().display().data(), before);
    // The history survives the failed flush.
    assert_eq!(*tty.history(), vec![vec!['a', 'Q']]);
}

#[test]
fn flush_renders_the_grid_to_pixels() {
    let blob = font_blob();
    let font = PSF::parse(&blob).unwrap();
    let mut tty = tty_10x3(&font);
    tty.putc('a');
    assert!(tty.flush().is_ok());
    // "a" sits on the bottom row, cell (0, 2): pixel origin (0, 4). The
    // glyph's bits are the top-left and the one right below-right of it.
    let display = tty.terminal().display();
    assert_eq!(display.get_pixel(0, 4), [255, 255, 255, 0]);
    assert_eq!(display.get_pixel(1, 5), [255, 255, 255, 0]);
    assert_eq!(display.get_pixel(1, 4), [0, 0, 0, 0]);
    assert_eq!(display.get_pixel(0, 5), [0, 0, 0, 0]);
}

#[test]
fn long_line_wraps_onto_the_grid() {
    let blob = font_blob();
    let font = PSF::parse(&blob).unwrap();
    let mut tty = tty_10x3(&font);
    // 12 characters at width 10: two physical lines of 10 and 2.
    tty.puts("aaaaaaaaaabb");
    assert!(tty.flush().is_ok());
    let rows = grid_chars(&tty);
    assert_eq!(row_string(&rows[0]), "");
    assert_eq!(row_string(&rows[1]), "aaaaaaaaaa");
    assert_eq!(row_string(&rows[2]), "bb");
}
