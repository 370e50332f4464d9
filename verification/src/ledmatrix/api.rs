//! Drawing of characters, numbers, text and the battery bar.
//!
//! Each function adds pixels to the picture and turns none off; its contract
//! names the set of pixels that it adds.
use vstd::prelude::*;
use vstd::string::StringSliceAdditionalSpecFns;
use crate::ledmatrix::compositor::{
    blit_fits, glyph_pixels, lit, lemma_glyph_box_fits, screen_pixels, Compositor,
    WriteMode,
};
use crate::ledmatrix::digits::{
    digit_code, glyph_code, glyph_rows, output_character, output_digit,
};

verus! {

/// Integer division rounding toward zero, as Rust's `/` does, for `b > 0`.
pub open spec fn trunc_div(a: int, b: int) -> int {
    if a >= 0 {
        a / b
    } else {
        -((-a) / b)
    }
}

/// The remainder that goes with `trunc_div`, as Rust's `%` computes it.
pub open spec fn trunc_rem(a: int, b: int) -> int {
    a - b * trunc_div(a, b)
}

/// The low byte of `v` in two's complement, which is what `v as u8` keeps.
pub open spec fn low_byte(v: int) -> u8 {
    (v % 256) as u8
}

/// Casting a 16-bit value to a byte keeps its low byte.
pub proof fn lemma_i16_as_u8(v: i16)
    ensures
        (v as u8) == low_byte(v as int),
{
    assert((v as u8) == v % 256) by (bit_vector);
}

/// The pixels of character byte `c` drawn at `(x, y)`.
pub open spec fn char_pixels(c: u8, x: int, y: int) -> Set<(int, int)> {
    glyph_pixels(x, y, 3, 6, glyph_rows(glyph_code(c)))
}

/// The pixels of digit value `d` drawn at `(x, y)`.
pub open spec fn digit_pixels(d: u8, x: int, y: int) -> Set<(int, int)> {
    glyph_pixels(x, y, 3, 6, glyph_rows(digit_code(d)))
}

/// The ASCII byte of a digit value.
fn chr(c: u8) -> (r: u8)
    requires
        c <= 207,
    ensures
        r == c + 48,
{
    return c + 48;
}

/// The value shown by `write_fullscreen_float` before the point, as `value / 10`
/// cut to a byte.
pub open spec fn float_whole(value: int) -> u8 {
    low_byte(trunc_div(value, 10))
}

/// The tenths shown by `write_fullscreen_float`, as `value % 10` cut to a byte.
pub open spec fn float_tenths(value: int) -> u8 {
    low_byte(trunc_rem(value, 10))
}

/// What `write_fullscreen_float` draws: a minus sign for negative values,
/// two digits of the whole part, a point and the tenths.
pub open spec fn fullscreen_float_pixels(value: int) -> Set<(int, int)> {
    let w = float_whole(value);
    (if value < 0 {
        char_pixels(45, 0, 0)
    } else {
        Set::empty()
    }).union(char_pixels((w / 10 + 48) as u8, 4, 0)).union(
        char_pixels((w % 10 + 48) as u8, 8, 0),
    ).insert((11, 5)).union(char_pixels((float_tenths(value) + 48) as u8, 12, 0))
}

/// Shows a fixed-point value in tenths across the display, e.g. 729 as `72.9`.
/// Only the last two digits of the whole part are shown.
pub fn write_fullscreen_float(value: i16, display: &mut Compositor)
    requires
        value >= 0 || trunc_rem(value as int, 10) == 0,
    ensures
        final(display)@ == old(display)@.union(fullscreen_float_pixels(value as int)),
{
    // fixed point in 0.1
    let q = value / 10;
    let rem = value % 10;
    proof {
        lemma_i16_as_u8(q);
        lemma_i16_as_u8(rem);
    }
    let v = q as u8;
    let frac = rem as u8;
    let ghost start = display@;
    let ghost minus = if value < 0 {
        char_pixels(45, 0, 0)
    } else {
        Set::empty()
    };

    if value < 0 {
        write_char(45, 0, 0, display);
    }
    assert(display@ =~= start.union(minus));
    write_char(chr(v / 10), 4, 0, display);
    write_char(chr(v % 10), 8, 0, display);
    display.write_bit(11, 5, true);
    write_char(chr(frac), 12, 0, display);
    assert(display@ =~= start.union(fullscreen_float_pixels(value as int)));
}

/// What `write_num` draws: the tens digit at `x` and the units digit at `x + 4`.
pub open spec fn num_pixels(number: u8, x: int, y: int) -> Set<(int, int)> {
    digit_pixels(number / 10, x, y).union(digit_pixels(number % 10, x + 4, y))
}

/// Shows the last two decimal digits of `number` with the top-left corner at
/// `(x, y)`. Values from 100 on have no glyph for their tens and show a blank there.
pub fn write_num(number: u8, x: usize, y: usize, display: &mut Compositor)
    requires
        x + 4 <= usize::MAX,
        blit_fits(x as int, y as int, 3, 6, glyph_rows(digit_code(number / 10))),
        blit_fits(x + 4, y as int, 3, 6, glyph_rows(digit_code(number % 10))),
    ensures
        final(display)@ == old(display)@.union(num_pixels(number, x as int, y as int)),
{
    let ghost start = display@;
    display.blit(0 + x, 0 + y, 3, 6, &output_digit(number / 10));
    display.blit(4 + x, 0 + y, 3, 6, &output_digit(number % 10));
    assert(display@ =~= start.union(num_pixels(number, x as int, y as int)));
}

/// The digit of `n` at decimal place `place` (1000, 100, 10 or 1) as
/// `write_num_4_digits` computes it with Rust's `%` and `/`, cut to a byte;
/// negative `n` gives values that have no glyph.
pub open spec fn decimal_digit(n: int, place: int) -> u8 {
    low_byte(trunc_div(trunc_rem(n, place * 10), place))
}

/// What `write_num_4_digits` draws: four digits, 4 columns apart.
pub open spec fn num_4_digits_pixels(number: int, x: int, y: int) -> Set<(int, int)> {
    digit_pixels(decimal_digit(number, 1000), x, y).union(
        digit_pixels(decimal_digit(number, 100), x + 4, y),
    ).union(digit_pixels(decimal_digit(number, 10), x + 8, y)).union(
        digit_pixels(decimal_digit(number, 1), x + 12, y),
    )
}

/// Shows the last four decimal digits of `number` with the top-left corner
/// at `(x, y)`.
pub fn write_num_4_digits(number: i16, x: usize, y: usize, display: &mut Compositor)
    requires
        x + 12 <= usize::MAX,
        blit_fits(x as int, y as int, 3, 6, glyph_rows(digit_code(decimal_digit(number as int, 1000)))),
        blit_fits(x + 4, y as int, 3, 6, glyph_rows(digit_code(decimal_digit(number as int, 100)))),
        blit_fits(x + 8, y as int, 3, 6, glyph_rows(digit_code(decimal_digit(number as int, 10)))),
        blit_fits(x + 12, y as int, 3, 6, glyph_rows(digit_code(decimal_digit(number as int, 1)))),
    ensures
        final(display)@ == old(display)@.union(num_4_digits_pixels(number as int, x as int, y as int)),
{
    let ghost start = display@;
    let d0 = (number % 10000) / 1000;
    let d1 = (number % 1000) / 100;
    let d2 = (number % 100) / 10;
    let d3 = number % 10;
    proof {
        lemma_i16_as_u8(d0);
        lemma_i16_as_u8(d1);
        lemma_i16_as_u8(d2);
        lemma_i16_as_u8(d3);
    }
    display.blit(0 + x, 0 + y, 3, 6, &output_digit(d0 as u8));
    display.blit(4 + x, 0 + y, 3, 6, &output_digit(d1 as u8));
    display.blit(8 + x, 0 + y, 3, 6, &output_digit(d2 as u8));
    display.blit(12 + x, 0 + y, 3, 6, &output_digit(d3 as u8));
    assert(display@ =~= start.union(num_4_digits_pixels(number as int, x as int, y as int)));
}

/// Draws character byte `char` with the top-left corner at `(x, y)`.
pub fn write_char(char: u8, x: usize, y: usize, display: &mut Compositor)
    requires
        blit_fits(x as int, y as int, 3, 6, glyph_rows(glyph_code(char))),
    ensures
        final(display)@ == old(display)@.union(char_pixels(char, x as int, y as int)),
{
    display.blit(0 + x, 0 + y, 3, 6, &output_character(char))
}

/// The byte with its bits in reverse order.
pub open spec fn bit_reverse(b: u8) -> u8 {
    ((b & 1u8) << 7u8) | ((b & 2u8) << 5u8) | ((b & 4u8) << 3u8) | ((b & 8u8) << 1u8) | ((b
        & 16u8) >> 1u8) | ((b & 32u8) >> 3u8) | ((b & 64u8) >> 5u8) | ((b & 128u8) >> 7u8)
}

/// Reversing twice gives the byte back.
pub proof fn lemma_bit_reverse_involution(b: u8)
    ensures
        bit_reverse(bit_reverse(b)) == b,
{
    assert(bit_reverse(bit_reverse(b)) == b) by (bit_vector);
}

/// Column `k` of the reversed byte is lit exactly when bit `k` of the byte is set.
pub proof fn lemma_bit_reverse_lit(b: u8, k: u8)
    requires
        k < 8,
    ensures
        lit(bit_reverse(b), k) == (b & (1u8 << k) != 0),
{
    assert(k < 8 ==> (lit(bit_reverse(b), k) == (b & (1u8 << k) != 0))) by (bit_vector);
}

fn reverse_nibble(n: u8) -> (r: u8)
    ensures
        r == ((n & 1u8) << 3u8) | ((n & 2u8) << 1u8) | ((n & 4u8) >> 1u8) | ((n & 8u8) >> 3u8),
{
    ((n & 1) << 3) | ((n & 2) << 1) | ((n & 4) >> 1) | ((n & 8) >> 3)
}

/// Bit `k` of the reversed byte is bit `7 - k` of the byte.
pub proof fn lemma_bit_reverse_order(b: u8, k: u8)
    requires
        k < 8,
    ensures
        (bit_reverse(b) >> k) & 1u8 == (b >> (7 - k) as u8) & 1u8,
{
    assert(k < 8 ==> (bit_reverse(b) >> k) & 1u8 == (b >> (7 - k) as u8) & 1u8) by (bit_vector);
}

/// Flips the bits in a byte the other way around, e.g. 0b00000111 -> 0b11100000.
pub fn flip_byte(b: u8) -> (r: u8)
    ensures
        r == bit_reverse(b),
        forall|k: u8| k < 8 ==> (r >> k) & 1u8 == (b >> (7 - k) as u8) & 1u8,
{
    let lo = reverse_nibble(b & 0b1111);
    let hi = reverse_nibble(b >> 4);
    let r = (lo << 4) | hi;
    assert(r == bit_reverse(b)) by (bit_vector)
        requires
            lo == (((b & 15u8) & 1u8) << 3u8) | (((b & 15u8) & 2u8) << 1u8) | (((b & 15u8) & 4u8)
                >> 1u8) | (((b & 15u8) & 8u8) >> 3u8),
            hi == (((b >> 4u8) & 1u8) << 3u8) | (((b >> 4u8) & 2u8) << 1u8) | (((b >> 4u8) & 4u8)
                >> 1u8) | (((b >> 4u8) & 8u8) >> 3u8),
            r == (lo << 4u8) | hi,
    ;
    assert forall|k: u8| k < 8 implies (r >> k) & 1u8 == (b >> (7 - k) as u8) & 1u8 by {
        lemma_bit_reverse_order(b, k);
    }
    r
}

/// The number of the last lit pixel of the battery bar: 550 (55.0 V) maps
/// to 0 and 840 (84.0 V) to 32, rounded toward zero.
pub open spec fn battery_leds(voltage: int) -> int {
    trunc_div((voltage - 550) * 32, 290)
}

/// The battery bar: the bottom row, from the left edge to column `battery_leds`.
pub open spec fn battery_bar_pixels(voltage: int) -> Set<(int, int)> {
    Set::new(|p: (int, int)| 0 <= p.0 <= battery_leds(voltage) && p.1 == 7)
}

proof fn lemma_bar_bytes(s: u32, bitmask: u32, k: u8)
    requires
        s <= 31,
        k < 8,
        bitmask == ((1u32 << s) - 1) as u32,
    ensures
        lit(bit_reverse(((bitmask & 0x000000FFu32) >> 0u32) as u8), k) == (k < s),
        lit(bit_reverse(((bitmask & 0x0000FF00u32) >> 8u32) as u8), k) == (8 + k < s),
        lit(bit_reverse(((bitmask & 0x00FF0000u32) >> 16u32) as u8), k) == (16 + k < s),
        lit(bit_reverse(((bitmask & 0xFF000000u32) >> 24u32) as u8), k) == (24 + k < s),
{
    assert(s <= 31 && k < 8 && bitmask == ((1u32 << s) - 1) as u32 ==> {
        &&& lit(bit_reverse(((bitmask & 0x000000FFu32) >> 0u32) as u8), k) == (k < s)
        &&& lit(bit_reverse(((bitmask & 0x0000FF00u32) >> 8u32) as u8), k) == (8 + k < s)
        &&& lit(bit_reverse(((bitmask & 0x00FF0000u32) >> 16u32) as u8), k) == (16 + k < s)
        &&& lit(bit_reverse(((bitmask & 0xFF000000u32) >> 24u32) as u8), k) == (24 + k < s)
    }) by (bit_vector);
}

proof fn lemma_shift_positive(s: u32)
    requires
        s <= 31,
    ensures
        1u32 << s >= 1,
{
    assert(s <= 31 ==> 1u32 << s >= 1) by (bit_vector);
}

/// Draws the battery charge as a bar on the bottom row, assuming a 20-cell
/// pack from 55.0 V (2.75 V a cell) to 84.0 V (4.2 V a cell). The bar
/// covers columns 0 to `battery_leds(voltage)`. The mask is built with a
/// 32-bit shift by `battery_leds(voltage) + 1`, so that number must lie
/// between -1 and 30: from 83.1 V on the shift would reach 32 or more.
pub fn write_battery_bar(voltage: i16, display: &mut Compositor)
    requires
        -1 <= battery_leds(voltage as int) <= 30,
    ensures
        final(display)@ == old(display)@.union(battery_bar_pixels(voltage as int)),
{
    // assuming Vmax = 4.2V, Vmin = 2.75V
    // 20s means 55.0-84.0V swing.
    let v_max: i16 = 840;
    let v_min: i16 = 550;

    // multiply first, otherwise the quotient would only be 0 or 1
    let number_of_leds: i16 = ((voltage - v_min) * 32) / (v_max - v_min);
    let s: u32 = (number_of_leds + 1) as u32;
    proof {
        lemma_shift_positive(s);
    }
    let bitmask: u32 = (1u32 << s) - 1;

    // write to last row of bits on each display
    let a = flip_byte(((bitmask & 0x000000FF) >> 0) as u8);
    let b = flip_byte(((bitmask & 0x0000FF00) >> 8) as u8);
    let c = flip_byte(((bitmask & 0x00FF0000) >> 16) as u8);
    let d = flip_byte(((bitmask & 0xFF000000) >> 24) as u8);

    let ghost start = display@;
    let row_a: [u8; 8] = [0, 0, 0, 0, 0, 0, 0, a];
    let row_b: [u8; 8] = [0, 0, 0, 0, 0, 0, 0, b];
    let row_c: [u8; 8] = [0, 0, 0, 0, 0, 0, 0, c];
    let row_d: [u8; 8] = [0, 0, 0, 0, 0, 0, 0, d];
    display.write_raw(0, &row_a, WriteMode::BLEND);
    display.write_raw(1, &row_b, WriteMode::BLEND);
    display.write_raw(2, &row_c, WriteMode::BLEND);
    display.write_raw(3, &row_d, WriteMode::BLEND);
    proof {
        assert(s == number_of_leds + 1);
        assert(number_of_leds == battery_leds(voltage as int));
        let rows_a = seq![0u8, 0, 0, 0, 0, 0, 0, a];
        let rows_b = seq![0u8, 0, 0, 0, 0, 0, 0, b];
        let rows_c = seq![0u8, 0, 0, 0, 0, 0, 0, c];
        let rows_d = seq![0u8, 0, 0, 0, 0, 0, 0, d];
        assert(row_a@ =~= rows_a);
        assert(row_b@ =~= rows_b);
        assert(row_c@ =~= rows_c);
        assert(row_d@ =~= rows_d);
        let drawn = screen_pixels(0, rows_a).union(screen_pixels(1, rows_b)).union(
            screen_pixels(2, rows_c),
        ).union(screen_pixels(3, rows_d));
        assert forall|p: (int, int)| #[trigger]
            drawn.contains(p) == battery_bar_pixels(voltage as int).contains(p) by {
            if 0 <= p.0 < 32 && 0 <= p.1 < 8 {
                let j = p.0 / 8;
                let k = (p.0 % 8) as u8;
                assert(p.0 == 8 * j + k);
                lemma_bar_bytes(s, bitmask, k);
                assert(!lit(0u8, k)) by (bit_vector);
                if j == 0 {
                    assert(screen_pixels(0, rows_a).contains(p) == lit(rows_a[p.1], k));
                } else if j == 1 {
                    assert(screen_pixels(1, rows_b).contains(p) == lit(rows_b[p.1], k));
                } else if j == 2 {
                    assert(screen_pixels(2, rows_c).contains(p) == lit(rows_c[p.1], k));
                } else {
                    assert(screen_pixels(3, rows_d).contains(p) == lit(rows_d[p.1], k));
                }
            }
        }
        assert(display@ =~= start.union(drawn));
        assert(drawn =~= battery_bar_pixels(voltage as int));
    }
}

/// What `write_string` draws: each byte of `bytes` in a cell of its own, 4
/// columns apart, starting at `(x, y)`.
pub open spec fn text_pixels(bytes: Seq<u8>, x: int, y: int) -> Set<(int, int)>
    decreases bytes.len(),
{
    if bytes.len() == 0 {
        Set::empty()
    } else {
        text_pixels(bytes.drop_last(), x, y).union(
            char_pixels(bytes.last(), x + 4 * (bytes.len() - 1), y),
        )
    }
}

/// The bytes that `write_string` shows: at most `max_chars` of them, from
/// byte `start` on.
pub open spec fn shown_bytes(bytes: Seq<u8>, start: int, max_chars: int) -> Seq<u8> {
    if start >= bytes.len() {
        Seq::empty()
    } else if bytes.len() - start <= max_chars {
        bytes.subrange(start, bytes.len() as int)
    } else {
        bytes.subrange(start, start + max_chars)
    }
}

/// The bytes shown are those of `bytes` from `start` on, as many as there
/// are but at most `max_chars`: none when `start` is past the end, exactly
/// `max_chars` when at least that many follow `start`.
pub proof fn lemma_shown_bytes(bytes: Seq<u8>, start: int, max_chars: int)
    requires
        0 <= start,
        0 <= max_chars,
    ensures
        start >= bytes.len() ==> shown_bytes(bytes, start, max_chars).len() == 0,
        start + max_chars <= bytes.len() ==> shown_bytes(bytes, start, max_chars).len()
            == max_chars,
        start < bytes.len() < start + max_chars ==> shown_bytes(bytes, start, max_chars).len()
            == bytes.len() - start,
        forall|i: int|
            0 <= i < shown_bytes(bytes, start, max_chars).len() ==> #[trigger] shown_bytes(
                bytes,
                start,
                max_chars,
            )[i] == bytes[start + i],
{
}

/// The text drawn is each shown byte in its own cell: pixel `p` is lit by
/// the text exactly when it is lit by the glyph of some byte `i`, drawn at
/// `(x + 4 * i, y)`.
pub proof fn lemma_text_pixels_cells(bytes: Seq<u8>, x: int, y: int, p: (int, int))
    ensures
        text_pixels(bytes, x, y).contains(p) <==> exists|i: int|
            0 <= i < bytes.len() && #[trigger] char_pixels(bytes[i], x + 4 * i, y).contains(p),
    decreases bytes.len(),
{
    if bytes.len() > 0 {
        let n = bytes.len() - 1;
        lemma_text_pixels_cells(bytes.drop_last(), x, y, p);
        if text_pixels(bytes, x, y).contains(p) {
            if !char_pixels(bytes.last(), x + 4 * n, y).contains(p) {
                let i = choose|i: int|
                    0 <= i < bytes.drop_last().len() && #[trigger] char_pixels(
                        bytes.drop_last()[i],
                        x + 4 * i,
                        y,
                    ).contains(p);
                assert(bytes.drop_last()[i] == bytes[i]);
            }
        } else {
            assert forall|i: int| 0 <= i < bytes.len() implies !#[trigger] char_pixels(
                bytes[i],
                x + 4 * i,
                y,
            ).contains(p) by {
                if i < n {
                    assert(bytes.drop_last()[i] == bytes[i]);
                }
            }
        }
    }
}

/// Writes up to `max_chars` characters of `text`, from byte `start` on, one
/// cell of 4 columns each, with the first cell's top-left corner at `(x, y)`.
pub fn write_string(
    text: &str,
    x: usize,
    y: usize,
    start: usize,
    max_chars: usize,
    display: &mut Compositor,
)
    requires
        y + 6 <= 8,
        x + 4 * shown_bytes(text.spec_bytes(), start as int, max_chars as int).len() <= 33,
    ensures
        final(display)@ == old(display)@.union(
            text_pixels(shown_bytes(text.spec_bytes(), start as int, max_chars as int), x as int, y as int),
        ),
{
    let bytes = text.as_bytes();
    let ghost shown = shown_bytes(text.spec_bytes(), start as int, max_chars as int);
    let count: usize = if start >= bytes.len() {
        0
    } else if bytes.len() - start <= max_chars {
        bytes.len() - start
    } else {
        max_chars
    };
    assert(shown.len() == count);
    let ghost start_view = display@;
    for i in 0..count
        invariant
            count == shown.len(),
            shown == shown_bytes(text.spec_bytes(), start as int, max_chars as int),
            bytes@ == text.spec_bytes(),
            count > 0 ==> start + count <= bytes.len(),
            y + 6 <= 8,
            x + 4 * count <= 33,
            display@ == start_view.union(text_pixels(shown.subrange(0, i as int), x as int, y as int)),
    {
        let c = bytes[start + i];
        assert(c == shown[i as int]);
        proof {
            lemma_glyph_box_fits(x + 4 * i, y as int, glyph_rows(glyph_code(c)));
        }
        write_char(c, x + 4 * i, y, display);
        proof {
            let pre = shown.subrange(0, i + 1);
            assert(pre.drop_last() =~= shown.subrange(0, i as int));
            assert(pre.last() == c);
            assert(display@ =~= start_view.union(text_pixels(pre, x as int, y as int)));
        }
    }
    assert(shown.subrange(0, count as int) =~= shown);
}

} // verus!
