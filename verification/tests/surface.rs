use bootproof::graphics::color::{Color, RGB};
use bootproof::graphics::display::Display;
use bootproof::graphics::display::gop::GopDisplay;
use bootproof::graphics::font::psf::PSF;
use bootproof::graphics::font::Font;

fn psf_blob(count: u32, charsize: u32, height: u32, width: u32, bitmaps: &[u8], table: &[u8]) -> Vec<u8> {
    let mut v = vec![0u8; 16];
    v.extend_from_slice(&count.to_le_bytes());
    v.extend_from_slice(&charsize.to_le_bytes());
    v.extend_from_slice(&height.to_le_bytes());
    v.extend_from_slice(&width.to_le_bytes());
    v.extend_from_slice(bitmaps);
    v.extend_from_slice(table);
    v
}

#[test]
fn new_surface_is_zeroed() {
    let d = GopDisplay::new(4, 3, 5).unwrap();
    assert_eq!(d.resolution(), (4, 3));
    assert_eq!(d.width(), 4);
    assert_eq!(d.height(), 3);
    assert_eq!(d.data().len(), 4 * 5 * 3);
    assert!(d.data().iter().all(|&b| b == 0));
}

#[test]
fn new_surface_rejects_width_beyond_stride() {
    assert!(GopDisplay::new(6, 3, 5).is_none());
}

#[test]
fn new_surface_rejects_unaddressable_geometry() {
    assert!(GopDisplay::new(1, usize::MAX, usize::MAX).is_none());
}

#[test]
fn pixel_encoding_is_bgr_with_stride() {
    let mut d = GopDisplay::new(4, 3, 5).unwrap();
    let color = RGB::new(1, 2, 3);
    d.write_pixel(color, 1, 2);
    // Offset 4 * (stride * y + x) = 4 * 11 holds blue, green, red, padding.
    assert_eq!(d.get_pixel(1, 2), [3, 2, 1, 0]);
    assert_eq!(&d.data()[44..48], &[3, 2, 1, 0]);
    // Every other byte stays zero.
    for (i, &b) in d.data().iter().enumerate() {
        if !(44..48).contains(&i) {
            assert_eq!(b, 0, "byte {}", i);
        }
    }
}

#[test]
fn clipped_write_at_edge_writes_nothing() {
    // x == width and y == height must not write any memory and not panic.
    let mut d = GopDisplay::new(4, 3, 5).unwrap();
    let before = d.data().clone();
    let color = RGB::new(9, 9, 9);
    d.write_pixel_clipped(color, 4, 0);
    d.write_pixel_clipped(color, 0, 3);
    d.write_pixel_clipped(color, usize::MAX, usize::MAX);
    assert_eq!(*d.data(), before);
    // The same through the capability interface.
    d.set_pixel_ignore_oob(color, 4, 2);
    assert_eq!(*d.data(), before);
    // An in-bounds clipped write does land.
    d.write_pixel_clipped(color, 3, 2);
    assert_eq!(d.get_pixel(3, 2), [9, 9, 9, 0]);
}

#[test]
fn fill_colors_every_pixel_and_spares_padding() {
    let mut d = GopDisplay::new(4, 3, 5).unwrap();
    d.fill(RGB::new(10, 20, 30));
    for y in 0..3 {
        for x in 0..4 {
            assert_eq!(d.get_pixel(x, y), [30, 20, 10, 0]);
        }
    }
    // The stride padding column keeps its old bytes.
    for y in 0..3 {
        let base = 4 * (5 * y + 4);
        assert_eq!(&d.data()[base..base + 4], &[0, 0, 0, 0]);
    }
}

#[test]
fn draw_glyph_blits_set_bits_only() {
    let mut d = GopDisplay::new(16, 16, 16).unwrap();
    d.fill(RGB::new(5, 5, 5));
    let bitmap: [u8; 4] = [0b1000_0001, 0b0100_0010, 0b0010_0100, 0b0001_1000];
    let blob = psf_blob(1, 4, 4, 8, &bitmap, b"x\xFF");
    let font = PSF::parse(&blob).unwrap();
    let glyph = font.lookup('x').unwrap();
    let fg = RGB::new(200, 100, 50);
    d.draw_glyph((8, 4), 2, 3, fg, glyph);
    for gy in 0..4 {
        for gx in 0..8 {
            let set = bitmap[gy] & (0x80 >> gx) != 0;
            let expected = if set {
                [fg.b(), fg.g(), fg.r(), 0]
            } else {
                [5, 5, 5, 0]
            };
            assert_eq!(d.get_pixel(2 + gx, 3 + gy), expected, "glyph ({}, {})", gx, gy);
        }
    }
    // Pixels outside the glyph keep the background.
    assert_eq!(d.get_pixel(0, 0), [5, 5, 5, 0]);
    assert_eq!(d.get_pixel(10, 3), [5, 5, 5, 0]);
}

#[test]
fn draw_glyph_overflow_columns_clip_at_the_edge() {
    // A 6-pixel-nominal glyph with set padding bits, drawn so its padding
    // columns hang off the right edge: those pixels vanish silently.
    let mut d = GopDisplay::new(6, 4, 6).unwrap();
    let bitmap: [u8; 4] = [0xFF, 0xFF, 0xFF, 0xFF];
    let blob = psf_blob(1, 4, 4, 6, &bitmap, b"x\xFF");
    let font = PSF::parse(&blob).unwrap();
    let glyph = font.lookup('x').unwrap();
    let fg = RGB::new(7, 8, 9);
    d.draw_glyph((6, 4), 0, 0, fg, glyph);
    for y in 0..4 {
        for x in 0..6 {
            assert_eq!(d.get_pixel(x, y), [9, 8, 7, 0]);
        }
    }
}

#[test]
fn color_accessors_round_trip() {
    let c = RGB::new(11, 22, 33);
    assert_eq!(c.r(), 11);
    assert_eq!(c.g(), 22);
    assert_eq!(c.b(), 33);
    let d = c.into_rgb();
    assert_eq!((d.r(), d.g(), d.b()), (11, 22, 33));
}
