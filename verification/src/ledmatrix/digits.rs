//! A 3x6 bitmap font for the LED display.
//!
//! A glyph is stored as six octal digits, one per row from the top; in each
//! digit 4 is the left, 2 the middle and 1 the right column. Letters have one
//! glyph for both cases; the bottom row is left dark as spacing. Bytes that
//! have no glyph are drawn as a blank cell.
use vstd::prelude::*;

verus! {

/// The packed glyph of a character byte (0 where there is none).
pub open spec fn glyph_code(c: u8) -> u32 {
    match c {
        48 => 0o755570,  // 0
        49 => 0o262270,  // 1
        50 => 0o717470,  // 2
        51 => 0o717170,  // 3
        52 => 0o557110,  // 4
        53 => 0o747170,  // 5
        54 => 0o747570,  // 6
        55 => 0o711110,  // 7
        56 => 0o757570,  // 8
        57 => 0o757170,  // 9
        65 | 97 => 0o257550,  // A a
        66 | 98 => 0o656560,  // B b
        67 | 99 => 0o344430,  // C c
        68 | 100 => 0o655560,  // D d
        69 | 101 => 0o746470,  // E e
        70 | 102 => 0o746440,  // F f
        71 | 103 => 0o345530,  // G g
        72 | 104 => 0o557550,  // H h
        73 | 105 => 0o722270,  // I i
        74 | 106 => 0o111520,  // J j
        75 | 107 => 0o556550,  // K k
        76 | 108 => 0o444470,  // L l
        77 | 109 => 0o577550,  // M m
        78 | 110 => 0o655550,  // N n
        79 | 111 => 0o255520,  // O o
        80 | 112 => 0o656440,  // P p
        81 | 113 => 0o255630,  // Q q
        82 | 114 => 0o656550,  // R r
        83 | 115 => 0o342160,  // S s
        84 | 116 => 0o722220,  // T t
        85 | 117 => 0o555570,  // U u
        86 | 118 => 0o555520,  // V v
        87 | 119 => 0o557750,  // W w
        88 | 120 => 0o552550,  // X x
        89 | 121 => 0o552220,  // Y y
        90 | 122 => 0o712470,  // Z z
        45 => 0o007000,  // -
        42 => 0o525000,  // *
        37 => 0o512450,  // %
        46 => 0o000020,  // .
        _ => 0,
    }
}

/// The packed glyph of a decimal digit value; values above 9 are blank.
pub open spec fn digit_code(d: u8) -> u32 {
    if d < 10 {
        glyph_code((d + 48) as u8)
    } else {
        0
    }
}

/// Row `r` of a packed glyph as a display row byte: the three columns of the
/// glyph are the three most significant bits.
pub open spec fn glyph_row(code: u32, r: int) -> u8 {
    if 0 <= r < 6 {
        (((code >> ((15 - 3 * r) as u32)) & 7u32) << 5u32) as u8
    } else {
        0
    }
}

/// The eight row bytes of a packed glyph.
pub open spec fn glyph_rows(code: u32) -> Seq<u8> {
    Seq::new(8, |r: int| glyph_row(code, r))
}

proof fn lemma_glyph_rows_injective(c1: u32, c2: u32)
    requires
        c1 < 0o1000000,
        c2 < 0o1000000,
        glyph_rows(c1) == glyph_rows(c2),
    ensures
        c1 == c2,
{
    assert(glyph_rows(c1)[0] == glyph_row(c1, 0) && glyph_rows(c2)[0] == glyph_row(c2, 0));
    assert(glyph_rows(c1)[1] == glyph_row(c1, 1) && glyph_rows(c2)[1] == glyph_row(c2, 1));
    assert(glyph_rows(c1)[2] == glyph_row(c1, 2) && glyph_rows(c2)[2] == glyph_row(c2, 2));
    assert(glyph_rows(c1)[3] == glyph_row(c1, 3) && glyph_rows(c2)[3] == glyph_row(c2, 3));
    assert(glyph_rows(c1)[4] == glyph_row(c1, 4) && glyph_rows(c2)[4] == glyph_row(c2, 4));
    assert(glyph_rows(c1)[5] == glyph_row(c1, 5) && glyph_rows(c2)[5] == glyph_row(c2, 5));
    assert(glyph_row(c1, 0) == glyph_row(c2, 0));
    assert(glyph_row(c1, 1) == glyph_row(c2, 1));
    assert(glyph_row(c1, 2) == glyph_row(c2, 2));
    assert(glyph_row(c1, 3) == glyph_row(c2, 3));
    assert(glyph_row(c1, 4) == glyph_row(c2, 4));
    assert(glyph_row(c1, 5) == glyph_row(c2, 5));
    assert(c1 == c2) by (bit_vector)
        requires
            c1 < 0o1000000u32,
            c2 < 0o1000000u32,
            (((c1 >> 15u32) & 7u32) << 5u32) as u8 == (((c2 >> 15u32) & 7u32) << 5u32) as u8,
            (((c1 >> 12u32) & 7u32) << 5u32) as u8 == (((c2 >> 12u32) & 7u32) << 5u32) as u8,
            (((c1 >> 9u32) & 7u32) << 5u32) as u8 == (((c2 >> 9u32) & 7u32) << 5u32) as u8,
            (((c1 >> 6u32) & 7u32) << 5u32) as u8 == (((c2 >> 6u32) & 7u32) << 5u32) as u8,
            (((c1 >> 3u32) & 7u32) << 5u32) as u8 == (((c2 >> 3u32) & 7u32) << 5u32) as u8,
            (((c1 >> 0u32) & 7u32) << 5u32) as u8 == (((c2 >> 0u32) & 7u32) << 5u32) as u8,
    ;
}

/// Every glyph fits in the six rows of three columns.
proof fn lemma_glyph_code_bound(c: u8)
    ensures
        glyph_code(c) < 0o1000000,
{
}

/// The ten digits have ten different bitmaps, so no digit can be read as
/// another.
pub proof fn lemma_digit_glyphs_distinct(d1: u8, d2: u8)
    requires
        d1 < 10,
        d2 < 10,
        d1 != d2,
    ensures
        glyph_rows(digit_code(d1)) != glyph_rows(digit_code(d2)),
{
    lemma_glyph_code_bound((d1 + 48) as u8);
    lemma_glyph_code_bound((d2 + 48) as u8);
    if glyph_rows(digit_code(d1)) == glyph_rows(digit_code(d2)) {
        lemma_glyph_rows_injective(digit_code(d1), digit_code(d2));
    }
}

/// The letters have 26 different bitmaps, one for both cases of a letter:
/// two letter bytes share a bitmap exactly when they are the same letter.
pub proof fn lemma_letter_glyphs(c1: u8, c2: u8)
    requires
        65 <= c1 <= 90 || 97 <= c1 <= 122,
        65 <= c2 <= 90 || 97 <= c2 <= 122,
    ensures
        glyph_rows(glyph_code(c1)) == glyph_rows(glyph_code(c2)) <==> (c1 == c2 || c1 + 32 == c2
            || c2 + 32 == c1),
{
    lemma_glyph_code_bound(c1);
    lemma_glyph_code_bound(c2);
    if glyph_rows(glyph_code(c1)) == glyph_rows(glyph_code(c2)) {
        lemma_glyph_rows_injective(glyph_code(c1), glyph_code(c2));
    }
}

/// Digits, letters and signs all have bitmaps, and none of them is blank.
pub proof fn lemma_glyphs_not_blank(c: u8)
    requires
        48 <= c <= 57 || 65 <= c <= 90 || 97 <= c <= 122 || c == 45 || c == 42 || c == 37 || c
            == 46,
    ensures
        glyph_rows(glyph_code(c)) != glyph_rows(0),
{
    lemma_glyph_code_bound(c);
    if glyph_rows(glyph_code(c)) == glyph_rows(0) {
        lemma_glyph_rows_injective(glyph_code(c), 0);
    }
}

fn character_code(c: u8) -> (r: u32)
    ensures
        r == glyph_code(c),
{
    match c {
        48 => 0o755570,  // 0
        49 => 0o262270,  // 1
        50 => 0o717470,  // 2
        51 => 0o717170,  // 3
        52 => 0o557110,  // 4
        53 => 0o747170,  // 5
        54 => 0o747570,  // 6
        55 => 0o711110,  // 7
        56 => 0o757570,  // 8
        57 => 0o757170,  // 9
        65 | 97 => 0o257550,  // A a
        66 | 98 => 0o656560,  // B b
        67 | 99 => 0o344430,  // C c
        68 | 100 => 0o655560,  // D d
        69 | 101 => 0o746470,  // E e
        70 | 102 => 0o746440,  // F f
        71 | 103 => 0o345530,  // G g
        72 | 104 => 0o557550,  // H h
        73 | 105 => 0o722270,  // I i
        74 | 106 => 0o111520,  // J j
        75 | 107 => 0o556550,  // K k
        76 | 108 => 0o444470,  // L l
        77 | 109 => 0o577550,  // M m
        78 | 110 => 0o655550,  // N n
        79 | 111 => 0o255520,  // O o
        80 | 112 => 0o656440,  // P p
        81 | 113 => 0o255630,  // Q q
        82 | 114 => 0o656550,  // R r
        83 | 115 => 0o342160,  // S s
        84 | 116 => 0o722220,  // T t
        85 | 117 => 0o555570,  // U u
        86 | 118 => 0o555520,  // V v
        87 | 119 => 0o557750,  // W w
        88 | 120 => 0o552550,  // X x
        89 | 121 => 0o552220,  // Y y
        90 | 122 => 0o712470,  // Z z
        45 => 0o007000,  // -
        42 => 0o525000,  // *
        37 => 0o512450,  // %
        46 => 0o000020,  // .
        _ => 0,
    }
}

fn unpack_row(code: u32, r: u32) -> (b: u8)
    requires
        r < 6,
    ensures
        b == glyph_row(code, r as int),
{
    (((code >> (15 - 3 * r)) & 7) << 5) as u8
}

fn unpack(code: u32) -> (g: [u8; 8])
    ensures
        g@ == glyph_rows(code),
{
    let g = [
        unpack_row(code, 0),
        unpack_row(code, 1),
        unpack_row(code, 2),
        unpack_row(code, 3),
        unpack_row(code, 4),
        unpack_row(code, 5),
        0,
        0,
    ];
    assert(g@ =~= glyph_rows(code));
    g
}

/// The bitmap of a character byte.
pub fn output_character(c: u8) -> (g: [u8; 8])
    ensures
        g@ == glyph_rows(glyph_code(c)),
{
    unpack(character_code(c))
}

/// The bitmap of a decimal digit value.
pub fn output_digit(d: u8) -> (g: [u8; 8])
    ensures
        g@ == glyph_rows(digit_code(d)),
{
    if d < 10 {
        output_character(d + 48)
    } else {
        unpack(0)
    }
}

} // verus!
