use bootproof::graphics::font::psf::{ParseError, PSF};
use bootproof::graphics::font::{Font, Glyph};

/// Builds a PSF resource: a 32-byte header (glyph count, bytes per glyph,
/// height and width as little-endian u32 at offsets 16, 20, 24, 28), the
/// packed bitmaps, then the character description table.
fn psf_blob(count: u32, charsize: u32, height: u32, width: u32, bitmaps: &[u8], table: &[u8]) -> Vec<u8> {
    let mut v = vec![0u8; 16];
    v.extend_from_slice(&count.to_le_bytes());
    v.extend_from_slice(&charsize.to_le_bytes());
    v.extend_from_slice(&height.to_le_bytes());
    v.extend_from_slice(&width.to_le_bytes());
    v.extend_from_slice(bitmaps);
    v.extend_from_slice(table);
    v
}

const GLYPH_A: [u8; 8] = [0x18, 0x24, 0x42, 0x7E, 0x42, 0x42, 0x42, 0x00];
const GLYPH_B: [u8; 8] = [0x7C, 0x42, 0x7C, 0x42, 0x42, 0x42, 0x7C, 0x00];

fn two_glyph_font() -> Vec<u8> {
    let mut bitmaps = Vec::new();
    bitmaps.extend_from_slice(&GLYPH_A);
    bitmaps.extend_from_slice(&GLYPH_B);
    psf_blob(2, 8, 8, 8, &bitmaps, b"A\xFFB\xFF")
}

#[test]
fn parse_reads_header() {
    let font = PSF::parse(&two_glyph_font()).unwrap();
    assert_eq!(font.bounding_box(), (8, 8));
}

#[test]
fn glyph_roundtrip() {
    // For every (x, y) within nominal bounds, get returns the source bit.
    let font = PSF::parse(&two_glyph_font()).unwrap();
    let glyph = font.lookup('A').unwrap();
    assert_eq!(glyph.width(), 8);
    assert_eq!(glyph.height(), 8);
    for y in 0..8 {
        for x in 0..8 {
            let bit = GLYPH_A[y] & (0x80 >> x) != 0;
            assert_eq!(glyph.get(x, y), bit, "pixel ({}, {})", x, y);
        }
    }
}

#[test]
fn padding_overflow_pixels_are_readable() {
    // Width 6 is not a multiple of 8: rows still occupy one whole byte,
    // and set bits in the two padding columns are legitimate pixels.
    let bitmap: [u8; 4] = [0b0000_0011, 0b1111_1111, 0b0000_0000, 0b0000_0001];
    let blob = psf_blob(1, 4, 4, 6, &bitmap, b"o\xFF");
    let font = PSF::parse(&blob).unwrap();
    let glyph = font.lookup('o').unwrap();
    // The storage width exceeds the nominal width.
    assert_eq!(glyph.width(), 8);
    assert!(glyph.get(6, 0));
    assert!(glyph.get(7, 0));
    assert!(!glyph.get(5, 0));
    assert!(glyph.get(6, 1));
    assert!(glyph.get(7, 3));
    assert!(!glyph.get(7, 2));
}

#[test]
fn codepoint_first_match_wins() {
    // Two glyph indices map the same codepoint: lookup returns the lower.
    let mut bitmaps = Vec::new();
    bitmaps.extend_from_slice(&GLYPH_A);
    bitmaps.extend_from_slice(&GLYPH_B);
    let blob = psf_blob(2, 8, 8, 8, &bitmaps, b"Z\xFFZ\xFF");
    let font = PSF::parse(&blob).unwrap();
    let glyph = font.lookup('Z').unwrap();
    for y in 0..8 {
        for x in 0..8 {
            let bit = GLYPH_A[y] & (0x80 >> x) != 0;
            assert_eq!(glyph.get(x, y), bit);
        }
    }
}

#[test]
fn entry_with_several_codepoints() {
    let mut bitmaps = Vec::new();
    bitmaps.extend_from_slice(&GLYPH_A);
    bitmaps.extend_from_slice(&GLYPH_B);
    let blob = psf_blob(2, 8, 8, 8, &bitmaps, b"ab\xFFc\xFF");
    let font = PSF::parse(&blob).unwrap();
    assert!(font.lookup('a').is_some());
    assert!(font.lookup('b').is_some());
    assert!(font.lookup('c').is_some());
    assert!(font.lookup('d').is_none());
    // 'a' and 'b' name the same glyph; 'c' names the other.
    assert!(font.lookup('a').unwrap().get(3, 3) == font.lookup('b').unwrap().get(3, 3));
}

#[test]
fn alternate_spellings_are_skipped() {
    let blob = psf_blob(1, 8, 8, 8, &GLYPH_A, b"a\xFEx\xFF");
    let font = PSF::parse(&blob).unwrap();
    assert!(font.lookup('a').is_some());
    assert!(font.lookup('x').is_none());
}

#[test]
fn multibyte_codepoint() {
    // U+00E9 encodes as 0xC3 0xA9.
    let blob = psf_blob(1, 8, 8, 8, &GLYPH_A, b"\xC3\xA9\xFF");
    let font = PSF::parse(&blob).unwrap();
    assert!(font.lookup('\u{e9}').is_some());
    assert!(font.lookup('e').is_none());
}

#[test]
fn truncated_header_is_rejected() {
    assert!(matches!(PSF::parse(&[0u8; 31]), Err(ParseError::Truncated)));
}

#[test]
fn truncated_bitmaps_are_rejected() {
    // Two glyphs declared, bytes for one supplied.
    let blob = psf_blob(2, 8, 8, 8, &GLYPH_A, b"");
    assert!(matches!(PSF::parse(&blob), Err(ParseError::Truncated)));
}

#[test]
fn short_charsize_is_rejected() {
    // Eight declared rows of one byte each cannot fit in four bytes.
    let blob = psf_blob(1, 4, 8, 8, &[0u8; 4], b"a\xFF");
    assert!(matches!(PSF::parse(&blob), Err(ParseError::Truncated)));
}

#[test]
fn invalid_utf8_in_table_is_rejected() {
    // A continuation byte cannot start a codepoint.
    let blob = psf_blob(1, 8, 8, 8, &GLYPH_A, b"\x80\xFF");
    assert!(matches!(PSF::parse(&blob), Err(ParseError::InvalidTable)));
}

#[test]
fn unterminated_entry_is_rejected() {
    let blob = psf_blob(1, 8, 8, 8, &GLYPH_A, b"a");
    assert!(matches!(PSF::parse(&blob), Err(ParseError::InvalidTable)));
}

#[test]
fn table_for_undeclared_glyph_is_rejected() {
    // One glyph declared, but the table describes a second one.
    let blob = psf_blob(1, 8, 8, 8, &GLYPH_A, b"a\xFFb\xFF");
    assert!(matches!(PSF::parse(&blob), Err(ParseError::InvalidTable)));
}

#[test]
fn empty_table_maps_nothing() {
    let blob = psf_blob(1, 8, 8, 8, &GLYPH_A, b"");
    let font = PSF::parse(&blob).unwrap();
    assert!(font.lookup('a').is_none());
}
