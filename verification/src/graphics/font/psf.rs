//! The PSF font store: parses a compact binary font resource — a 32-byte
//! header, a table of bit-packed glyph bitmaps, and a character description
//! table mapping UTF-8 codepoints to glyph indices — into an in-memory
//! glyph table with first-match codepoint lookup.

use vstd::prelude::*;
use vstd::utf8::{
    decode_first_scalar, is_scalar, length_of_first_scalar, valid_first_scalar,
};
use crate::graphics::font::{Font, Glyph};

verus! {

/// Relies on num_integer::div_ceil for usize: the quotient rounded up,
/// `x / y + (0 != x % y) as usize`.
#[verifier::external_body]
fn div_ceil_usize(x: usize, y: usize) -> (r: usize)
    requires
        y > 0,
    ensures
        r as int == x as int / y as int + (if x as int % y as int == 0 { 0int } else { 1int }),
{
    num_integer::div_ceil(x, y)
}

/// Relies on num_integer::div_rem for usize: the truncated quotient and the
/// remainder, `(x / y, x % y)`.
#[verifier::external_body]
fn div_rem_usize(x: usize, y: usize) -> (r: (usize, usize))
    requires
        y > 0,
    ensures
        r.0 as int == x as int / y as int,
        r.1 as int == x as int % y as int,
{
    num_integer::div_rem(x, y)
}

/// Relies on char::from_u32: `Some` exactly for Unicode scalar values, and
/// the returned `char` has the given scalar value.
#[verifier::external_body]
fn char_from_u32(v: u32) -> (r: Option<char>)
    ensures
        r is Some <==> is_scalar(v),
        r is Some ==> r.unwrap() as u32 == v,
{
    char::from_u32(v)
}

/// Why a font resource is rejected as corrupt. Parsing happens exactly once
/// at boot before any fallback font exists, so a corrupt resource is fatal
/// to the caller; nothing is recovered from a partial parse.
#[derive(Clone, Copy, Debug, PartialEq, Eq, Structural)]
pub enum ParseError {
    /// The resource is structurally truncated: the header, the declared
    /// glyph bitmaps, or the rows of a single glyph run past the buffer.
    Truncated,
    /// The character description table is malformed: a codepoint position
    /// holds invalid UTF-8, an entry is not terminated before the buffer
    /// ends, or the table describes more glyphs than the font declares.
    InvalidTable,
}

/// A glyph's bitmap: row-major, one bit per pixel, each row padded to a
/// whole number of bytes. Set bits in the padding are legitimate pixel data
/// for glyphs that visually overflow their declared bounding box, so the
/// storage width (`line_size * 8`) is this glyph's own width.
pub struct PSFGlyph {
    bitmap: Vec<u8>,
    line_size: usize,
    width: usize,
    height: usize,
}

/// The bit of `bm` addressed by pixel `(x, y)` in a row-major bitmap whose
/// rows are `line_size` bytes wide: bit `x % 8` (most significant first) of
/// byte `y * line_size + x / 8`.
pub open spec fn bitmap_bit(bm: Seq<u8>, line_size: int, x: int, y: int) -> bool {
    bm[y * line_size + x / 8] & (0x80u8 >> ((x % 8) as u8)) != 0
}

impl PSFGlyph {
    pub closed spec fn spec_bitmap(&self) -> Seq<u8> {
        self.bitmap@
    }

    pub closed spec fn spec_line_size(&self) -> int {
        self.line_size as int
    }

    /// Bitmap well-formedness: the storage width is the padded row width,
    /// and the bitmap holds at least `height` full rows.
    #[verifier::type_invariant]
    pub closed spec fn wf(&self) -> bool {
        &&& self.width == self.line_size * 8
        &&& self.bitmap@.len() >= self.height * self.line_size
    }

    /// Whether the pixel at `(x, y)` of this glyph is set.
    pub open spec fn pixel(&self, x: int, y: int) -> bool {
        bitmap_bit(self.spec_bitmap(), self.spec_line_size(), x, y)
    }
}

impl Glyph for PSFGlyph {
    closed spec fn spec_width(&self) -> int {
        self.width as int
    }

    closed spec fn spec_height(&self) -> int {
        self.height as int
    }

    open spec fn spec_pixel(&self, x: int, y: int) -> bool {
        self.pixel(x, y)
    }

    fn width(&self) -> usize {
        self.width
    }

    fn height(&self) -> usize {
        self.height
    }

    fn get(&self, x: usize, y: usize) -> (r: bool) {
        proof {
            use_type_invariant(self);
        }
        let (line_byte_index, bit_index) = div_rem_usize(x, 8);
        let n = self.bitmap.len();
        proof {
            vstd::arithmetic::div_mod::lemma_fundamental_div_mod(x as int, 8);
            assert(line_byte_index < self.line_size) by (nonlinear_arith)
                requires
                    x < self.line_size * 8,
                    x as int == 8 * (x as int / 8) + x as int % 8,
                    0 <= x as int % 8 < 8,
                    line_byte_index == x as int / 8,
            ;
            assert(y * self.line_size + line_byte_index < n) by (nonlinear_arith)
                requires
                    y < self.height,
                    line_byte_index < self.line_size,
                    n >= self.height * self.line_size,
            ;
        }
        let mask: u8 = 0x80u8 >> (bit_index as u8);
        let byte = self.bitmap[y * self.line_size + line_byte_index];
        byte & mask > 0
    }
}

/// The number of whole bytes needed to hold `w` bits: `w / 8`, rounded up.
pub open spec fn spec_div_ceil8(w: int) -> int {
    w / 8 + if w % 8 == 0 {
        0int
    } else {
        1int
    }
}

/// Padding a width to whole bytes never shrinks it and adds at most seven
/// bits: `w <= spec_div_ceil8(w) * 8 <= w + 7`.
pub proof fn lemma_div_ceil8_bounds(w: int)
    requires
        w >= 0,
    ensures
        w <= spec_div_ceil8(w) * 8 <= w + 7,
{
    vstd::arithmetic::div_mod::lemma_fundamental_div_mod(w, 8);
    vstd::arithmetic::div_mod::lemma_mod_pos_bound(w, 8);
}

/// Associates a Unicode character with the index of the glyph rendering it.
struct UnicodeMap {
    c: char,
    i: usize,
}

/// A parsed PSF font: the bounding box, the glyph table, and the ordered
/// codepoint-to-glyph-index associations from the description table.
pub struct PSF {
    width: usize,
    height: usize,
    glyphs: Vec<PSFGlyph>,
    unicode: Vec<UnicodeMap>,
}

/// The codepoint-to-index associations as `(character, glyph index)` pairs,
/// in description-table order.
spec fn entry_view(v: Seq<UnicodeMap>) -> Seq<(char, int)> {
    Seq::new(v.len(), |k: int| (v[k].c, v[k].i as int))
}

/// First-match lookup: the glyph index of the first entry for `c`, in table
/// order, or `None` when no entry maps `c`.
pub open spec fn spec_index_of(entries: Seq<(char, int)>, c: char) -> Option<int>
    decreases entries.len(),
{
    if entries.len() == 0 {
        None
    } else if entries[0].0 == c {
        Some(entries[0].1)
    } else {
        spec_index_of(entries.drop_first(), c)
    }
}

/// A successful first-match lookup returns the index field of some entry
/// whose character matches.
proof fn lemma_spec_index_of_is_entry(entries: Seq<(char, int)>, c: char)
    ensures
        match spec_index_of(entries, c) {
            Some(i) => exists|k: int|
                0 <= k < entries.len() && entries[k].0 == c && entries[k].1 == i,
            None => forall|k: int| 0 <= k < entries.len() ==> entries[k].0 != c,
        },
    decreases entries.len(),
{
    if entries.len() > 0 && entries[0].0 != c {
        lemma_spec_index_of_is_entry(entries.drop_first(), c);
        match spec_index_of(entries, c) {
            Some(i) => {
                let k0 = choose|k: int|
                    0 <= k < entries.drop_first().len() && entries.drop_first()[k].0 == c
                        && entries.drop_first()[k].1 == i;
                assert(entries[k0 + 1].0 == c && entries[k0 + 1].1 == i);
            },
            None => {
                assert(forall|k: int|
                    1 <= k < entries.len() ==> entries[k] == entries.drop_first()[k - 1]);
            },
        }
    }
}

/// Codepoint first-match: when entry `k` is the first, in table order,
/// whose character is `c`, a lookup of `c` returns that entry's glyph
/// index — never a later duplicate's.
pub proof fn lemma_index_of_first_match(entries: Seq<(char, int)>, c: char, k: int)
    requires
        0 <= k < entries.len(),
        entries[k].0 == c,
        forall|j: int| 0 <= j < k ==> (#[trigger] entries[j]).0 != c,
    ensures
        spec_index_of(entries, c) == Some(entries[k].1),
    decreases k,
{
    if k > 0 {
        assert(forall|j: int|
            0 <= j < k - 1 ==> entries.drop_first()[j] == #[trigger] entries[j + 1]);
        lemma_index_of_first_match(entries.drop_first(), c, k - 1);
    }
}

impl PSF {
    pub closed spec fn spec_glyphs(&self) -> Seq<PSFGlyph> {
        self.glyphs@
    }

    pub closed spec fn spec_entries(&self) -> Seq<(char, int)> {
        entry_view(self.unicode@)
    }

    /// Font well-formedness: every glyph shares the font's height, its rows
    /// are exactly wide enough for the font's nominal width, and every
    /// description-table entry points at an existing glyph.
    #[verifier::type_invariant]
    pub closed spec fn wf(&self) -> bool {
        &&& forall|k: int|
            0 <= k < self.glyphs@.len() ==> {
                &&& (#[trigger] self.glyphs@[k]).spec_height() == self.width_height().1
                &&& self.glyphs@[k].spec_line_size() == spec_div_ceil8(self.width_height().0)
                &&& self.glyphs@[k].spec_width() == spec_div_ceil8(self.width_height().0) * 8
            }
        &&& forall|k: int|
            0 <= k < self.unicode@.len() ==> 0 <= (#[trigger] self.unicode@[k]).i
                < self.glyphs@.len()
    }

    pub closed spec fn width_height(&self) -> (int, int) {
        (self.width as int, self.height as int)
    }

    /// Whatever glyph a lookup returns shares the font's declared
    /// geometry: the font's height, and rows just wide enough to pad the
    /// font's nominal width to whole bytes.
    /// What a lookup returns, over the public entry table and glyph
    /// list: the glyph at the first-match index of `c` — so a codepoint
    /// listed by two entries resolves to the lower glyph index — and
    /// `None` exactly when no entry lists `c`.
    pub proof fn lemma_lookup_entries(&self, c: char)
        requires
            self.wf(),
        ensures
            self.spec_lookup(c) == match spec_index_of(self.spec_entries(), c) {
                Some(i) => Some(self.spec_glyphs()[i]),
                None => None::<PSFGlyph>,
            },
    {
        lemma_spec_index_of_is_entry(self.spec_entries(), c);
        match spec_index_of(self.spec_entries(), c) {
            Some(i) => {
                let k = choose|k: int|
                    0 <= k < self.spec_entries().len() && self.spec_entries()[k].0 == c
                        && self.spec_entries()[k].1 == i;
                assert(self.spec_entries()[k].1 == self.unicode@[k].i as int);
                assert(0 <= i < self.glyphs@.len());
            },
            None => {},
        }
    }

    pub proof fn lemma_lookup_glyph(&self, c: char)
        requires
            self.wf(),
        ensures
            match self.spec_lookup(c) {
                Some(g) => {
                    &&& g.spec_height() == self.spec_height()
                    &&& g.spec_line_size() == spec_div_ceil8(self.spec_width())
                    &&& g.spec_width() == spec_div_ceil8(self.spec_width()) * 8
                },
                None => true,
            },
    {
        lemma_spec_index_of_is_entry(self.spec_entries(), c);
        match spec_index_of(self.spec_entries(), c) {
            Some(i) => {
                let k = choose|k: int|
                    0 <= k < self.spec_entries().len() && self.spec_entries()[k].0 == c
                        && self.spec_entries()[k].1 == i;
                assert(self.spec_entries()[k].1 == self.unicode@[k].i as int);
                assert(0 <= i < self.glyphs@.len());
            },
            None => {},
        }
    }

    /// The index of the glyph associated with a particular unicode
    /// character; the first (lowest-index) entry wins when a codepoint
    /// is described more than once.
    fn index_of(&self, c: char) -> (r: Option<usize>)
        ensures
            match r {
                Some(i) => spec_index_of(self.spec_entries(), c) == Some(i as int),
                None => spec_index_of(self.spec_entries(), c) is None,
            },
    {
        let ghost entries = self.spec_entries();
        let mut k: usize = 0;
        proof {
            assert(entries.skip(0) =~= entries);
        }
        while k < self.unicode.len()
            invariant
                0 <= k <= self.unicode.len(),
                entries == self.spec_entries(),
                spec_index_of(entries, c) == spec_index_of(entries.skip(k as int), c),
            decreases self.unicode.len() - k,
        {
            proof {
                assert(entries.skip(k as int)[0] == entries[k as int]);
                assert(entries.skip(k as int).drop_first() =~= entries.skip(k as int + 1));
            }
            if self.unicode[k].c == c {
                return Some(self.unicode[k].i);
            }
            k += 1;
        }
        proof {
            assert(entries.skip(k as int) =~= Seq::<(char, int)>::empty());
        }
        None
    }
}

impl Font for PSF {
    type Glyph = PSFGlyph;

    closed spec fn spec_width(&self) -> int {
        self.width as int
    }

    closed spec fn spec_height(&self) -> int {
        self.height as int
    }

    closed spec fn spec_lookup(&self, c: char) -> Option<PSFGlyph> {
        match spec_index_of(self.spec_entries(), c) {
            Some(i) => if 0 <= i < self.glyphs@.len() {
                Some(self.glyphs@[i])
            } else {
                None
            },
            None => None,
        }
    }

    fn bounding_box(&self) -> (usize, usize) {
        (self.width, self.height)
    }

    fn lookup<'a>(&'a self, c: char) -> (r: Option<&'a PSFGlyph>) {
        proof {
            use_type_invariant(self);
            lemma_spec_index_of_is_entry(self.spec_entries(), c);
        }
        match self.index_of(c) {
            Some(i) => Some(&self.glyphs[i]),
            None => None,
        }
    }
}

/// Glyph round-trip: a glyph parsed from a structurally sound resource
/// reads back exactly the bits of its source blob. For every `(x, y)`
/// within the glyph's storage width and the font's height — including the
/// padding columns at and beyond the nominal width, whose set bits are
/// legitimate overflow pixels — the pixel query returns bit `x % 8` (most
/// significant first) of source byte
/// `32 + k * charsize + y * line_size + x / 8`.
pub proof fn lemma_glyph_roundtrip(b: Seq<u8>, g: PSFGlyph, k: int, x: int, y: int)
    requires
        spec_structure_ok(b),
        0 <= k < spec_glyph_count(b),
        g.spec_bitmap() == spec_glyph_bitmap(b, k),
        g.spec_line_size() == spec_line_size(b),
        0 <= x < spec_line_size(b) * 8,
        0 <= y < spec_font_height(b),
    ensures
        g.pixel(x, y) == (b[32 + k * spec_charsize(b) + y * spec_line_size(b) + x / 8] & (
        0x80u8 >> ((x % 8) as u8)) != 0),
{
    let ls = spec_line_size(b);
    let cs = spec_charsize(b);
    let h = spec_font_height(b);
    vstd::arithmetic::div_mod::lemma_fundamental_div_mod(x, 8);
    assert(x / 8 < ls) by (nonlinear_arith)
        requires
            x < ls * 8,
            x == 8 * (x / 8) + x % 8,
            0 <= x % 8 < 8,
    ;
    assert(y * ls + x / 8 < h * ls) by (nonlinear_arith)
        requires
            0 <= y < h,
            0 <= x / 8 < ls,
    ;
    assert((k + 1) * cs <= spec_glyph_count(b) * cs && k * cs + cs == (k + 1) * cs)
        by (nonlinear_arith)
        requires
            0 <= k < spec_glyph_count(b),
            cs >= 0,
    ;
    assert(g.spec_bitmap()[y * ls + x / 8] == b[32 + k * cs + y * ls + x / 8]);
}

/// Decodes the single UTF-8-encoded Unicode scalar starting at `pos`,
/// returning its value and encoded length, or `None` when no well-formed
/// scalar (by the leading byte's declared length, without overlong
/// encodings or surrogates) starts there.
fn decode_scalar(t: &[u8], pos: usize) -> (r: Option<(u32, usize)>)
    requires
        pos < t@.len(),
    ensures
        match r {
            Some(p) => {
                &&& valid_first_scalar(t@.skip(pos as int))
                &&& p.0 == decode_first_scalar(t@.skip(pos as int))
                &&& p.1 == length_of_first_scalar(t@.skip(pos as int))
                &&& 1 <= p.1 <= 4
                &&& pos + p.1 <= t@.len()
                &&& is_scalar(p.0)
            },
            None => !valid_first_scalar(t@.skip(pos as int)),
        },
{
    let ghost s = t@.skip(pos as int);
    proof {
        assert(s.len() == t@.len() - pos);
    }
    let b0 = t[pos];
    proof {
        assert(s[0] == t@[pos as int]);
    }
    if b0 < 0x80 {
        proof {
            assert(b0 & 0x7F == b0) by (bit_vector)
                requires
                    b0 < 0x80,
            ;
        }
        Some(((b0 & 0x7F) as u32, 1))
    } else if b0 < 0xC0 {
        // A continuation byte cannot lead a codepoint.
        None
    } else if b0 < 0xE0 {
        if t.len() - pos < 2 {
            return None;
        }
        let b1 = t[pos + 1];
        proof {
            assert(s[1] == t@[pos as int + 1]);
        }
        if !(0x80 <= b1 && b1 < 0xC0) {
            return None;
        }
        proof {
            assert(b0 & 0x1F <= 0x1F) by (bit_vector);
            assert(b1 & 0x3F <= 0x3F) by (bit_vector);
        }
        let lb: u32 = (b0 & 0x1F) as u32;
        let cb: u32 = (b1 & 0x3F) as u32;
        let v: u32 = (lb << 6u32) | cb;
        proof {
            assert((lb << 6u32) | cb == lb * 64 + cb && lb * 64 + cb <= 0x7FF)
                by (bit_vector)
                requires
                    lb <= 0x1F,
                    cb <= 0x3F,
            ;
        }
        if v < 0x80 {
            // Overlong: this value has a shorter encoding.
            return None;
        }
        Some((v, 2))
    } else if b0 < 0xF0 {
        if t.len() - pos < 3 {
            return None;
        }
        let b1 = t[pos + 1];
        let b2 = t[pos + 2];
        proof {
            assert(s[1] == t@[pos as int + 1]);
            assert(s[2] == t@[pos as int + 2]);
        }
        if !(0x80 <= b1 && b1 < 0xC0) || !(0x80 <= b2 && b2 < 0xC0) {
            return None;
        }
        proof {
            assert(b0 & 0x0F <= 0x0F) by (bit_vector);
            assert(b1 & 0x3F <= 0x3F) by (bit_vector);
            assert(b2 & 0x3F <= 0x3F) by (bit_vector);
        }
        let lb: u32 = (b0 & 0x0F) as u32;
        let c1: u32 = (b1 & 0x3F) as u32;
        let c2: u32 = (b2 & 0x3F) as u32;
        let v: u32 = (lb << 12u32) | (c1 << 6u32) | c2;
        proof {
            assert((lb << 12u32) | (c1 << 6u32) | c2 == lb * 0x1000 + c1 * 64 + c2
                && lb * 0x1000 + c1 * 64 + c2 <= 0xFFFF) by (bit_vector)
                requires
                    lb <= 0x0F,
                    c1 <= 0x3F,
                    c2 <= 0x3F,
            ;
        }
        if v < 0x800 {
            // Overlong: this value has a shorter encoding.
            return None;
        }
        if 0xD800 <= v && v <= 0xDFFF {
            // The surrogate range is not a scalar value.
            return None;
        }
        Some((v, 3))
    } else if b0 < 0xF8 {
        if t.len() - pos < 4 {
            return None;
        }
        let b1 = t[pos + 1];
        let b2 = t[pos + 2];
        let b3 = t[pos + 3];
        proof {
            assert(s[1] == t@[pos as int + 1]);
            assert(s[2] == t@[pos as int + 2]);
            assert(s[3] == t@[pos as int + 3]);
        }
        if !(0x80 <= b1 && b1 < 0xC0) || !(0x80 <= b2 && b2 < 0xC0) || !(0x80 <= b3 && b3
            < 0xC0) {
            return None;
        }
        let lb: u32 = (b0 & 0x07) as u32;
        let c1: u32 = (b1 & 0x3F) as u32;
        let c2: u32 = (b2 & 0x3F) as u32;
        let c3: u32 = (b3 & 0x3F) as u32;
        let v: u32 = (lb << 18u32) | (c1 << 12u32) | (c2 << 6u32) | c3;
        if v < 0x10000 || v > 0x10FFFF {
            // Overlong or beyond the last Unicode scalar.
            return None;
        }
        Some((v, 4))
    } else {
        // 0xF8..=0xFF never leads a UTF-8 codepoint.
        None
    }
}

/// The unsigned 32-bit little-endian integer stored at `off`.
pub open spec fn le_u32_at(b: Seq<u8>, off: int) -> int {
    b[off] as int + 0x100 * (b[off + 1] as int) + 0x10000 * (b[off + 2] as int) + 0x1000000 * (
    b[off + 3] as int)
}

/// The number of glyphs the header declares.
pub open spec fn spec_glyph_count(b: Seq<u8>) -> int {
    le_u32_at(b, 16)
}

/// The size in bytes of a single glyph's bitmap, as the header declares it.
pub open spec fn spec_charsize(b: Seq<u8>) -> int {
    le_u32_at(b, 20)
}

/// The pixel height of the font's bounding box.
pub open spec fn spec_font_height(b: Seq<u8>) -> int {
    le_u32_at(b, 24)
}

/// The pixel width of the font's bounding box.
pub open spec fn spec_font_width(b: Seq<u8>) -> int {
    le_u32_at(b, 28)
}

/// The size in bytes of a single row of pixels in a glyph.
pub open spec fn spec_line_size(b: Seq<u8>) -> int {
    spec_div_ceil8(spec_font_width(b))
}

/// Where the character description table starts: right after the header and
/// the `count * charsize` bytes of glyph bitmaps.
pub open spec fn spec_table_start(b: Seq<u8>) -> int {
    32 + spec_glyph_count(b) * spec_charsize(b)
}

/// Structural soundness of the resource: the header is complete, the
/// declared glyph bitmaps lie inside the buffer, each bitmap holds the
/// declared number of pixel rows, and a row's storage width is addressable.
pub open spec fn spec_structure_ok(b: Seq<u8>) -> bool {
    &&& b.len() >= 32
    &&& 32 + spec_glyph_count(b) * spec_charsize(b) <= b.len()
    &&& spec_font_height(b) * spec_line_size(b) <= spec_charsize(b)
    &&& spec_line_size(b) * 8 <= usize::MAX
}

/// The bitmap bytes of glyph `k`.
pub open spec fn spec_glyph_bitmap(b: Seq<u8>, k: int) -> Seq<u8> {
    b.subrange(32 + k * spec_charsize(b), 32 + k * spec_charsize(b) + spec_charsize(b))
}

/// The description table read from position `pos` with the next glyph index
/// `glyph`, of a font declaring `n` glyphs: a sequence of one or more UTF-8
/// codepoints per glyph index, in order, each entry ended by `0xFF`; a
/// `0xFE` starts alternate spellings, which are skipped up to the `0xFF`.
/// `skipping` tells whether `pos` lies in such a skipped tail. `None` when
/// the table is malformed: a codepoint position that holds no valid UTF-8
/// scalar, an entry that the buffer ends before terminating, or a codepoint
/// recorded for a glyph index at least `n`.
pub open spec fn spec_table(b: Seq<u8>, pos: int, glyph: int, n: int, skipping: bool) -> Option<
    Seq<(char, int)>,
>
    decreases b.len() - pos, 1int,
{
    if pos >= b.len() {
        if skipping {
            None
        } else {
            Some(Seq::empty())
        }
    } else if skipping {
        if b[pos] == 0xFF {
            spec_table(b, pos + 1, glyph + 1, n, false)
        } else {
            spec_table(b, pos + 1, glyph, n, true)
        }
    } else if b[pos] == 0xFF {
        spec_table(b, pos + 1, glyph + 1, n, false)
    } else if b[pos] == 0xFE {
        spec_table(b, pos + 1, glyph, n, true)
    } else if !valid_first_scalar(b.skip(pos)) {
        None
    } else if glyph >= n {
        None
    } else {
        let l = length_of_first_scalar(b.skip(pos));
        if 1 <= l && pos + l < b.len() {
            match spec_table(b, pos + l, glyph, n, false) {
                None => None,
                Some(rest) => Some(
                    seq![(decode_first_scalar(b.skip(pos)) as char, glyph)] + rest,
                ),
            }
        } else {
            None
        }
    }
}

/// The whole description table of the resource.
pub open spec fn spec_font_entries(b: Seq<u8>) -> Option<Seq<(char, int)>> {
    spec_table(b, spec_table_start(b), 0, spec_glyph_count(b), false)
}

/// A resource parses completely: it is structurally sound and its
/// description table is well formed.
pub open spec fn spec_parse_ok(b: Seq<u8>) -> bool {
    spec_structure_ok(b) && spec_font_entries(b) is Some
}

/// Every entry of a well-formed table names a glyph index below `n`.
proof fn lemma_table_entries_bounded(b: Seq<u8>, pos: int, glyph: int, n: int, skipping: bool)
    requires
        glyph >= 0,
    ensures
        match spec_table(b, pos, glyph, n, skipping) {
            Some(es) => forall|j: int| 0 <= j < es.len() ==> 0 <= (#[trigger] es[j]).1 < n,
            None => true,
        },
    decreases b.len() - pos, 1int,
{
    if pos >= b.len() {
    } else if skipping {
        if b[pos] == 0xFF {
            lemma_table_entries_bounded(b, pos + 1, glyph + 1, n, false);
        } else {
            lemma_table_entries_bounded(b, pos + 1, glyph, n, true);
        }
    } else if b[pos] == 0xFF {
        lemma_table_entries_bounded(b, pos + 1, glyph + 1, n, false);
    } else if b[pos] == 0xFE {
        lemma_table_entries_bounded(b, pos + 1, glyph, n, true);
    } else if !valid_first_scalar(b.skip(pos)) {
    } else if glyph >= n {
    } else {
        let l = length_of_first_scalar(b.skip(pos));
        if 1 <= l && pos + l < b.len() {
            lemma_table_entries_bounded(b, pos + l, glyph, n, false);
        }
    }
}

/// Splices a parsed prefix onto the rest of a table parse: the whole table
/// is well formed exactly when the rest is, and then the entries append.
spec fn combine(done: Seq<(char, int)>, rest: Option<Seq<(char, int)>>) -> Option<
    Seq<(char, int)>,
> {
    match rest {
        None => None,
        Some(r) => Some(done + r),
    }
}

/// The unsigned 32-bit little-endian integer stored at `off`.
fn read_le_u32(font: &[u8], off: usize) -> (r: u32)
    requires
        off + 4 <= font@.len(),
    ensures
        r as int == le_u32_at(font@, off as int),
{
    font[off] as u32 + 0x100 * (font[off + 1] as u32) + 0x10000 * (font[off + 2] as u32)
        + 0x1000000 * (font[off + 3] as u32)
}

impl PSF {
    /// Parses a binary PSF resource: a 32-byte header holding the glyph
    /// count, per-glyph byte size and bounding box; `count * charsize`
    /// bytes of packed bitmaps; and the character description table,
    /// running to the end of the buffer. A structurally deficient buffer
    /// or a malformed description table is rejected as corrupt: parsing
    /// happens once at boot and nothing can recover a partial font.
    pub fn parse(font: &[u8]) -> (r: Result<PSF, ParseError>)
        ensures
            match r {
                Ok(f) => {
                    let b = font@;
                    &&& spec_parse_ok(b)
                    &&& f.spec_width() == spec_font_width(b)
                    &&& f.spec_height() == spec_font_height(b)
                    &&& f.spec_glyphs().len() == spec_glyph_count(b)
                    &&& forall|k: int|
                        0 <= k < spec_glyph_count(b) ==> {
                            &&& (#[trigger] f.spec_glyphs()[k]).spec_bitmap()
                                == spec_glyph_bitmap(b, k)
                            &&& f.spec_glyphs()[k].spec_line_size() == spec_line_size(b)
                            &&& f.spec_glyphs()[k].spec_width() == spec_line_size(b) * 8
                            &&& f.spec_glyphs()[k].spec_height() == spec_font_height(b)
                        }
                    &&& f.spec_entries() == spec_font_entries(b).unwrap()
                },
                Err(ParseError::Truncated) => !spec_structure_ok(font@),
                Err(ParseError::InvalidTable) => spec_structure_ok(font@)
                    && spec_font_entries(font@) is None,
            },
    {
        let ghost b = font@;
        if font.len() < 32 {
            return Err(ParseError::Truncated);
        }
        // The number of glyphs in this font.
        let length = read_le_u32(font, 16) as usize;
        // The size in bytes of a single glyph.
        let charsize = read_le_u32(font, 20) as usize;
        // The height in pixels of this font's bounding box.
        let height = read_le_u32(font, 24) as usize;
        // The width in pixels of this font's bounding box.
        let width = read_le_u32(font, 28) as usize;
        // The size in bytes of a single row of pixels in a glyph.
        let line_size = div_ceil_usize(width, 8);

        let glyphs_size = match length.checked_mul(charsize) {
            Some(s) => s,
            None => {
                return Err(ParseError::Truncated);
            },
        };
        if glyphs_size > font.len() - 32 {
            return Err(ParseError::Truncated);
        }
        let glyphs_offset: usize = 32;
        let unicode_offset = glyphs_offset + glyphs_size;
        // Each bitmap must hold the declared number of whole pixel rows;
        // anything shorter would leave declared pixels without storage.
        match height.checked_mul(line_size) {
            Some(rows) => {
                if rows > charsize {
                    return Err(ParseError::Truncated);
                }
            },
            None => {
                return Err(ParseError::Truncated);
            },
        }
        // The storage width of a row must itself be addressable.
        let glyph_width = match line_size.checked_mul(8) {
            Some(w) => w,
            None => {
                return Err(ParseError::Truncated);
            },
        };
        assert(spec_structure_ok(b));

        let mut glyphs: Vec<PSFGlyph> = Vec::new();
        let mut i: usize = 0;
        while i < length
            invariant
                spec_structure_ok(b),
                b == font@,
                font@.len() >= 32,
                i <= length,
                length == spec_glyph_count(b),
                charsize == spec_charsize(b),
                height == spec_font_height(b),
                width == spec_font_width(b),
                line_size == spec_line_size(b),
                glyph_width == spec_line_size(b) * 8,
                glyphs_offset == 32,
                32 + length * charsize <= font@.len(),
                font@.len() <= usize::MAX,
                glyphs@.len() == i,
                forall|k: int|
                    0 <= k < i ==> {
                        &&& (#[trigger] glyphs@[k]).spec_bitmap() == spec_glyph_bitmap(b, k)
                        &&& glyphs@[k].spec_line_size() == spec_line_size(b)
                        &&& glyphs@[k].spec_width() == spec_line_size(b) * 8
                        &&& glyphs@[k].spec_height() == spec_font_height(b)
                    },
            decreases length - i,
        {
            proof {
                assert((i + 1) * charsize <= length * charsize && i * charsize <= length
                    * charsize) by (nonlinear_arith)
                    requires
                        0 <= i < length,
                        charsize >= 0,
                ;
                assert((i + 1) * charsize == i * charsize + charsize) by (nonlinear_arith);
                assert(charsize * i == i * charsize) by (nonlinear_arith);
                assert(32 + charsize * i + charsize <= font@.len());
            }
            let bitmap_begin = glyphs_offset + charsize * i;
            let bitmap_end = bitmap_begin + charsize;
            let mut bitmap: Vec<u8> = Vec::new();
            let mut j: usize = 0;
            while j < charsize
                invariant
                    b == font@,
                    j <= charsize,
                    bitmap_begin == 32 + charsize * i,
                    bitmap_end == bitmap_begin + charsize,
                    bitmap_end <= font@.len(),
                    bitmap@ == b.subrange(bitmap_begin as int, bitmap_begin + j),
                decreases charsize - j,
            {
                bitmap.push(font[bitmap_begin + j]);
                proof {
                    assert(bitmap@ =~= b.subrange(bitmap_begin as int, bitmap_begin + j + 1));
                }
                j += 1;
            }
            glyphs.push(
                PSFGlyph {
                    bitmap,
                    line_size,
                    // Glyphs may overflow the font's nominal resolution in the
                    // padding bits of each row, so the storage width is the
                    // glyph's own width. This only works horizontally: there
                    // is no vertical padding.
                    width: glyph_width,
                    height,
                },
            );
            i += 1;
        }

        // Read the description table: entries of UTF-8 codepoints per glyph
        // index in order, each ended by 0xFF, with 0xFE starting alternate
        // spellings that are not yet supported and are skipped.
        let mut unicode: Vec<UnicodeMap> = Vec::new();
        let mut pos = unicode_offset;
        let mut glyph: usize = 0;
        let mut skipping = false;
        proof {
            assert(unicode_offset as int == spec_table_start(b));
            assert(entry_view(unicode@) =~= Seq::<(char, int)>::empty());
            assert(combine(entry_view(unicode@), spec_table(b, pos as int, 0, length as int, false))
                == spec_font_entries(b));
        }
        while pos < font.len()
            invariant
                spec_structure_ok(b),
                b == font@,
                pos <= font@.len(),
                glyph <= pos,
                length == spec_glyph_count(b),
                combine(
                    entry_view(unicode@),
                    spec_table(b, pos as int, glyph as int, length as int, skipping),
                ) == spec_font_entries(b),
            decreases font@.len() - pos,
        {
            let byte = font[pos];
            if skipping {
                if byte == 0xFF {
                    skipping = false;
                    glyph += 1;
                }
                pos += 1;
            } else if byte == 0xFF {
                glyph += 1;
                pos += 1;
            } else if byte == 0xFE {
                skipping = true;
                pos += 1;
            } else {
                match decode_scalar(font, pos) {
                    None => {
                        return Err(ParseError::InvalidTable);
                    },
                    Some((v, l)) => {
                        if glyph >= length {
                            return Err(ParseError::InvalidTable);
                        }
                        if l >= font.len() - pos {
                            return Err(ParseError::InvalidTable);
                        }
                        let c = match char_from_u32(v) {
                            Some(c) => c,
                            None => {
                                proof {
                                    assert(false);
                                }
                                return Err(ParseError::InvalidTable);
                            },
                        };
                        proof {
                            vstd::utf8::char_u32_cast(c, v);
                            let e = (c, glyph as int);
                            let rest = spec_table(
                                b,
                                pos as int + l,
                                glyph as int,
                                length as int,
                                false,
                            );
                            assert(spec_table(b, pos as int, glyph as int, length as int, false)
                                == combine(seq![e], rest));
                            assert(entry_view(unicode@.push(UnicodeMap { c, i: glyph })) =~= entry_view(
                                unicode@,
                            ) + seq![e]);
                            if rest is Some {
                                assert((entry_view(unicode@) + seq![e]) + rest.unwrap()
                                    =~= entry_view(unicode@) + (seq![e] + rest.unwrap()));
                            }
                        }
                        unicode.push(UnicodeMap { c, i: glyph });
                        pos += l;
                    },
                }
            }
        }
        if skipping {
            return Err(ParseError::InvalidTable);
        }
        proof {
            assert(spec_table(b, pos as int, glyph as int, length as int, false) == Some(
                Seq::<(char, int)>::empty(),
            ));
            assert(entry_view(unicode@) + Seq::<(char, int)>::empty() =~= entry_view(unicode@));
            assert(spec_font_entries(b) == Some(entry_view(unicode@)));
            lemma_table_entries_bounded(b, spec_table_start(b), 0, length as int, false);
            assert forall|k: int| 0 <= k < unicode@.len() implies 0 <= (
            #[trigger] unicode@[k]).i < glyphs@.len() by {
                assert(spec_font_entries(b).unwrap()[k] == (unicode@[k].c, unicode@[k].i as int));
                assert(0 <= spec_font_entries(b).unwrap()[k].1 < length);
            }
        }
        Ok(PSF { width, height, glyphs, unicode })
    }
}

} // verus!
