//! The frame buffer of a chain of four 8x8 LED matrices, seen as one display
//! of 32 columns and 8 rows.
//!
//! Matrix `m` shows columns `8 * m` to `8 * m + 7`. Each matrix row is a byte
//! whose most significant bit is the leftmost column. The contracts speak of
//! the display as the set of lit pixels `(x, y)`, `x` counted from the left
//! and `y` from the top.
use vstd::prelude::*;

verus! {

/// How `Compositor::write_raw` treats what a matrix already shows.
#[derive(Debug, Clone, Copy, PartialEq, Eq, Structural)]
pub enum WriteMode {
    /// The new rows replace the old ones.
    OVERRIDE,
    /// The new rows are OR-ed onto the old ones.
    BLEND,
}

/// Whether column `col` (0 = leftmost, most significant bit) of a row byte is lit.
pub open spec fn lit(b: u8, col: u8) -> bool {
    b & (0x80u8 >> col) != 0
}

/// Whether a pixel lies on the 32x8 display.
pub open spec fn in_grid(p: (int, int)) -> bool {
    0 <= p.0 < 32 && 0 <= p.1 < 8
}

/// The pixels of matrix `num` that the eight row bytes `rows` light.
pub open spec fn screen_pixels(num: int, rows: Seq<u8>) -> Set<(int, int)> {
    Set::new(
        |p: (int, int)|
            8 * num <= p.0 < 8 * num + 8 && 0 <= p.1 < 8 && lit(rows[p.1], (p.0 - 8 * num) as u8),
    )
}

/// All pixels of matrix `num`.
pub open spec fn screen_area(num: int) -> Set<(int, int)> {
    Set::new(|p: (int, int)| 8 * num <= p.0 < 8 * num + 8 && 0 <= p.1 < 8)
}

/// The pixels that a bitmap lights when its top-left corner is put at
/// `(xoff, yoff)` and its `xs` x `ys` top-left part is drawn. Bitmap column
/// `x` is bit `7 - x % 8` of bitmap row `y`.
pub open spec fn glyph_pixels(xoff: int, yoff: int, xs: int, ys: int, rows: Seq<u8>) -> Set<
    (int, int),
> {
    Set::new(
        |p: (int, int)|
            xoff <= p.0 < xoff + xs && yoff <= p.1 < yoff + ys && lit(
                rows[p.1 - yoff],
                ((p.0 - xoff) % 8) as u8,
            ),
    )
}

/// Whether drawing that part of the bitmap stays on the display: the rows it
/// reads exist and every pixel it lights is on the display.
pub open spec fn blit_fits(xoff: int, yoff: int, xs: int, ys: int, rows: Seq<u8>) -> bool {
    &&& (xs > 0 ==> ys <= 8)
    &&& forall|p: (int, int)| #[trigger] glyph_pixels(xoff, yoff, xs, ys, rows).contains(p) ==> in_grid(p)
}

/// The pixels of `s` moved `dx` columns to the right; what leaves the display is lost.
pub open spec fn shifted(s: Set<(int, int)>, dx: int) -> Set<(int, int)> {
    Set::new(|p: (int, int)| in_grid(p) && s.contains((p.0 - dx, p.1)))
}

/// The pixels of column `x`.
pub open spec fn column(x: int) -> Set<(int, int)> {
    Set::new(|p: (int, int)| p.0 == x && 0 <= p.1 < 8)
}

/// A glyph of width 3 and height 6 fits wherever its box does.
pub proof fn lemma_glyph_box_fits(x: int, y: int, rows: Seq<u8>)
    requires
        0 <= x,
        x + 3 <= 32,
        0 <= y,
        y + 6 <= 8,
    ensures
        blit_fits(x, y, 3, 6, rows),
{
}

/// Column `x` of a bitmap drawn at `(xoff, yoff)`, down to bitmap row `y`.
spec fn glyph_column(xoff: int, yoff: int, x: int, y: int, rows: Seq<u8>) -> Set<(int, int)> {
    Set::new(
        |p: (int, int)|
            p.0 == xoff + x && yoff <= p.1 < yoff + y && lit(rows[p.1 - yoff], (x % 8) as u8),
    )
}

/// The frame buffer: row `r` of matrix `m` is `data[m][r]`.
pub struct Compositor {
    data: [[u8; 8]; 4],
}

impl View for Compositor {
    type V = Set<(int, int)>;

    closed spec fn view(&self) -> Set<(int, int)> {
        Set::new(
            |p: (int, int)| in_grid(p) && lit(self.data[p.0 / 8][p.1], (p.0 % 8) as u8),
        )
    }
}

proof fn lemma_lit_zero(k: u8)
    ensures
        !lit(0u8, k),
{
    assert(!lit(0u8, k)) by (bit_vector);
}

proof fn lemma_lit_or(a: u8, b: u8, k: u8)
    requires
        k < 8,
    ensures
        lit(a | b, k) == (lit(a, k) || lit(b, k)),
{
    assert(k < 8 ==> (lit(a | b, k) == (lit(a, k) || lit(b, k)))) by (bit_vector);
}

proof fn lemma_lit_set(a: u8, k0: u8, k: u8)
    requires
        k0 < 8,
        k < 8,
    ensures
        lit(a | (1u8 << (7 - k0) as u8), k) == (lit(a, k) || k == k0),
{
    assert(k0 < 8 && k < 8 ==> (lit(a | (1u8 << (7 - k0) as u8), k) == (lit(a, k) || k == k0)))
        by (bit_vector);
}

proof fn lemma_lit_shr(a: u8, c: u8, k: u8)
    requires
        k < 8,
    ensures
        lit((a >> 1u8) | ((1u8 & c) << 7u8), k) == (if k == 0 {
            lit(c, 7)
        } else {
            lit(a, (k - 1) as u8)
        }),
{
    assert(k < 8 ==> (lit((a >> 1u8) | ((1u8 & c) << 7u8), k) == (if k == 0 {
        lit(c, 7)
    } else {
        lit(a, (k - 1) as u8)
    }))) by (bit_vector);
}

proof fn lemma_lit_shl(a: u8, c: u8, k: u8)
    requires
        k < 8,
    ensures
        lit((a << 1u8) | (1u8 & (c >> 7u8)), k) == (if k == 7 {
            lit(c, 0)
        } else {
            lit(a, (k + 1) as u8)
        }),
{
    assert(k < 8 ==> (lit((a << 1u8) | (1u8 & (c >> 7u8)), k) == (if k == 7 {
        lit(c, 0)
    } else {
        lit(a, (k + 1) as u8)
    }))) by (bit_vector);
}

/// A row byte is fixed by which of its eight columns are lit.
pub proof fn lemma_lit_determines_byte(a: u8, b: u8)
    requires
        forall|k: u8| k < 8 ==> lit(a, k) == lit(b, k),
    ensures
        a == b,
{
    assert(lit(a, 0) == lit(b, 0));
    assert(lit(a, 1) == lit(b, 1));
    assert(lit(a, 2) == lit(b, 2));
    assert(lit(a, 3) == lit(b, 3));
    assert(lit(a, 4) == lit(b, 4));
    assert(lit(a, 5) == lit(b, 5));
    assert(lit(a, 6) == lit(b, 6));
    assert(lit(a, 7) == lit(b, 7));
    assert(lit(a, 0) == lit(b, 0) && lit(a, 1) == lit(b, 1) && lit(a, 2) == lit(b, 2) && lit(a, 3)
        == lit(b, 3) && lit(a, 4) == lit(b, 4) && lit(a, 5) == lit(b, 5) && lit(a, 6) == lit(b, 6)
        && lit(a, 7) == lit(b, 7) ==> a == b) by (bit_vector);
}

/// Row bytes `(a >> 1) | ((c & 1) << 7)` for each row: the row moved one column
/// to the right, with the rightmost column of `carry` entering on the left.
fn shr_rows(row: [u8; 8], carry: [u8; 8]) -> (r: [u8; 8])
    ensures
        forall|i: int| 0 <= i < 8 ==> #[trigger] r[i] == (row[i] >> 1u8) | ((1u8 & carry[i]) << 7u8),
{
    let mut r = row;
    for i in 0..8
        invariant
            forall|j: int| 0 <= j < i ==> #[trigger] r[j] == (row[j] >> 1u8) | ((1u8 & carry[j]) << 7u8),
    {
        r[i] = (row[i] >> 1u8) | ((1u8 & carry[i]) << 7u8);
    }
    r
}

/// Row bytes `(a << 1) | (c >> 7)` for each row: the row moved one column to
/// the left, with the leftmost column of `carry` entering on the right.
fn shl_rows(row: [u8; 8], carry: [u8; 8]) -> (r: [u8; 8])
    ensures
        forall|i: int| 0 <= i < 8 ==> #[trigger] r[i] == (row[i] << 1u8) | (1u8 & (carry[i] >> 7u8)),
{
    let mut r = row;
    for i in 0..8
        invariant
            forall|j: int| 0 <= j < i ==> #[trigger] r[j] == (row[j] << 1u8) | (1u8 & (carry[j] >> 7u8)),
    {
        r[i] = (row[i] << 1u8) | (1u8 & (carry[i] >> 7u8));
    }
    r
}

impl Compositor {
    /// Every lit pixel is on the display.
    pub proof fn lemma_view_in_grid(&self)
        ensures
            forall|p: (int, int)| #[trigger] self@.contains(p) ==> in_grid(p),
    {
    }

    /// A dark display.
    pub fn new() -> (c: Self)
        ensures
            c@ == Set::<(int, int)>::empty(),
    {
        let c = Compositor { data: [[0; 8], [0; 8], [0; 8], [0; 8]] };
        proof {
            assert forall|p: (int, int)| !c@.contains(p) by {
                if in_grid(p) {
                    lemma_lit_zero((p.0 % 8) as u8);
                }
            }
            assert(c@ =~= Set::<(int, int)>::empty());
        }
        c
    }

    /// Turns every pixel off.
    pub fn clear(&mut self)
        ensures
            final(self)@ == Set::<(int, int)>::empty(),
    {
        self.data = [[0;8];4];
        proof {
            assert forall|p: (int, int)| !self@.contains(p) by {
                if in_grid(p) {
                    assert(self.data[p.0 / 8][p.1] == 0);
                    lemma_lit_zero((p.0 % 8) as u8);
                }
            }
            assert(self@ =~= Set::<(int, int)>::empty());
        }
    }

    /// The eight row bytes of matrix `num`, as the matrix driver takes them.
    pub fn screen_data(&self, num: usize) -> (r: [u8; 8])
        requires
            num < 4,
        ensures
            screen_pixels(num as int, r@) == self@.intersect(screen_area(num as int)),
    {
        let r = self.data[num];
        proof {
            assert forall|p: (int, int)|
                #[trigger] screen_pixels(num as int, r@).contains(p) == self@.intersect(
                    screen_area(num as int),
                ).contains(p) by {
                if 8 * num <= p.0 < 8 * num + 8 && 0 <= p.1 < 8 {
                    assert(p.0 / 8 == num);
                    assert(p.0 % 8 == p.0 - 8 * num);
                }
            }
            assert(screen_pixels(num as int, r@) =~= self@.intersect(screen_area(num as int)));
        }
        r
    }

    /// Writes eight row bytes to matrix `num`: OVERRIDE replaces what the
    /// matrix showed, BLEND adds to it. The other matrices keep their pixels.
    pub fn write_raw(&mut self, num: usize, screen: &[u8; 8], mode: WriteMode)
        requires
            num < 4,
        ensures
            mode == WriteMode::BLEND ==> final(self)@ == old(self)@.union(
                screen_pixels(num as int, screen@),
            ),
            mode == WriteMode::OVERRIDE ==> final(self)@ == old(self)@.difference(
                screen_area(num as int),
            ).union(screen_pixels(num as int, screen@)),
    {
        let ghost old_data = self.data;
        match mode {
            WriteMode::BLEND => {
                let mut row = self.data[num];
                for i in 0..8
                    invariant
                        forall|j: int| 0 <= j < i ==> #[trigger] row[j] == old_data[num as int][j] | screen[j],
                        forall|j: int| i <= j < 8 ==> #[trigger] row[j] == old_data[num as int][j],
                {
                    row[i] = row[i] | screen[i];
                }
                self.data[num] = row;
            },
            WriteMode::OVERRIDE => {
                self.data[num] = *screen;
            },
        }
        proof {
            let expected = if mode == WriteMode::BLEND {
                old(self)@.union(screen_pixels(num as int, screen@))
            } else {
                old(self)@.difference(screen_area(num as int)).union(
                    screen_pixels(num as int, screen@),
                )
            };
            assert forall|p: (int, int)| #[trigger] self@.contains(p) == expected.contains(p) by {
                if in_grid(p) {
                    let k = (p.0 % 8) as u8;
                    if p.0 / 8 == num {
                        assert(p.0 % 8 == p.0 - 8 * num);
                        if mode == WriteMode::BLEND {
                            lemma_lit_or(old_data[num as int][p.1], screen[p.1], k);
                        }
                    } else {
                        assert(self.data[p.0 / 8] == old_data[p.0 / 8]);
                    }
                }
            }
            assert(self@ =~= expected);
        }
    }

    /// Moves the picture one column to the right; the rightmost column is
    /// lost and the leftmost column goes dark.
    pub fn shift_right(&mut self)
        ensures
            final(self)@ == shifted(old(self)@, 1),
    {
        let d = self.data;
        let r3 = shr_rows(d[3], d[2]);
        let r2 = shr_rows(d[2], d[1]);
        let r1 = shr_rows(d[1], d[0]);
        let z: [u8; 8] = [0; 8];
        let r0 = shr_rows(d[0], z);
        self.data = [r0, r1, r2, r3];
        proof {
            assert forall|p: (int, int)| #[trigger]
                self@.contains(p) == shifted(old(self)@, 1).contains(p) by {
                if in_grid(p) {
                    let s = p.0 / 8;
                    let k = (p.0 % 8) as u8;
                    let carry = if s == 0 { z } else { d[s - 1] };
                    assert(self.data[s][p.1] == (d[s][p.1] >> 1u8) | ((1u8 & carry[p.1]) << 7u8));
                    lemma_lit_shr(d[s][p.1], carry[p.1], k);
                    if k == 0 {
                        if s == 0 {
                            lemma_lit_zero(7);
                        } else {
                            assert((p.0 - 1) / 8 == s - 1);
                            assert((p.0 - 1) % 8 == 7);
                        }
                    } else {
                        assert((p.0 - 1) / 8 == s);
                        assert((p.0 - 1) % 8 == k - 1);
                    }
                }
            }
            assert(self@ =~= shifted(old(self)@, 1));
        }
    }

    /// Moves the picture one column to the left; the leftmost column is lost
    /// and the rightmost column goes dark.
    pub fn shift_left(&mut self)
        ensures
            final(self)@ == shifted(old(self)@, -1),
    {
        let d = self.data;
        let r0 = shl_rows(d[0], d[1]);
        let r1 = shl_rows(d[1], d[2]);
        let r2 = shl_rows(d[2], d[3]);
        let z: [u8; 8] = [0; 8];
        let r3 = shl_rows(d[3], z);
        self.data = [r0, r1, r2, r3];
        proof {
            assert forall|p: (int, int)| #[trigger]
                self@.contains(p) == shifted(old(self)@, -1).contains(p) by {
                if in_grid(p) {
                    let s = p.0 / 8;
                    let k = (p.0 % 8) as u8;
                    let carry = if s == 3 { z } else { d[s + 1] };
                    assert(self.data[s][p.1] == (d[s][p.1] << 1u8) | (1u8 & (carry[p.1] >> 7u8)));
                    lemma_lit_shl(d[s][p.1], carry[p.1], k);
                    if k == 7 {
                        if s == 3 {
                            lemma_lit_zero(0);
                        } else {
                            assert((p.0 + 1) / 8 == s + 1);
                            assert((p.0 + 1) % 8 == 0);
                        }
                    } else {
                        assert((p.0 + 1) / 8 == s);
                        assert((p.0 + 1) % 8 == k + 1);
                    }
                }
            }
            assert(self@ =~= shifted(old(self)@, -1));
        }
    }

    /// Lights pixel `(x, y)`. The pixel is lit whatever `value` says.
    pub fn write_bit(&mut self, x: usize, y: usize, value: bool)
        requires
            x < 32,
            y < 8,
        ensures
            final(self)@ == old(self)@.insert((x as int, y as int)),
    {
        let row: u8 = 1u8 << (7 - (x % 8)) as u8;
        let screen = x / 8;
        let ghost old_data = self.data;
        self.data[screen][y] = self.data[screen][y] | row;
        proof {
            let q = (x as int, y as int);
            assert forall|p: (int, int)| #[trigger]
                self@.contains(p) == old(self)@.insert(q).contains(p) by {
                if in_grid(p) {
                    if p.0 / 8 == screen && p.1 == y {
                        lemma_lit_set(old_data[screen as int][y as int], (x % 8) as u8, (p.0 % 8) as u8);
                    } else {
                        assert(self.data[p.0 / 8][p.1] == old_data[p.0 / 8][p.1]);
                    }
                }
            }
            assert(self@ =~= old(self)@.insert(q));
        }
    }

    /// Draws the `xs` x `ys` top-left part of a bitmap with its corner at
    /// `(xoff, yoff)`, adding its set bits to the picture.
    pub fn blit(&mut self, xoff: usize, yoff: usize, xs: usize, ys: usize, data: &[u8; 8])
        requires
            blit_fits(xoff as int, yoff as int, xs as int, ys as int, data@),
        ensures
            final(self)@ == old(self)@.union(
                glyph_pixels(xoff as int, yoff as int, xs as int, ys as int, data@),
            ),
    {
        let ghost full = glyph_pixels(xoff as int, yoff as int, xs as int, ys as int, data@);
        for x in 0..xs
            invariant
                blit_fits(xoff as int, yoff as int, xs as int, ys as int, data@),
                full == glyph_pixels(xoff as int, yoff as int, xs as int, ys as int, data@),
                self@ == old(self)@.union(
                    glyph_pixels(xoff as int, yoff as int, x as int, ys as int, data@),
                ),
        {
            for y in 0..ys
                invariant
                    0 <= x < xs,
                    blit_fits(xoff as int, yoff as int, xs as int, ys as int, data@),
                    full == glyph_pixels(xoff as int, yoff as int, xs as int, ys as int, data@),
                    self@ == old(self)@.union(
                        glyph_pixels(xoff as int, yoff as int, x as int, ys as int, data@),
                    ).union(glyph_column(xoff as int, yoff as int, x as int, y as int, data@)),
            {
                let ghost before = self@;
                if data[y] & (1u8 << (7 - (x % 8)) as u8) != 0 {
                    proof {
                        assert(lit(data[y as int], (x % 8) as u8)) by {
                            let b = data[y as int];
                            let k = (x % 8) as u8;
                            assert(k < 8 ==> (b & (1u8 << (7 - k) as u8) != 0) == lit(b, k))
                                by (bit_vector);
                        }
                        assert(full.contains(((x + xoff) as int, (y + yoff) as int)));
                    }
                    self.write_bit(x + xoff, y + yoff, true);
                } else {
                    proof {
                        let b = data[y as int];
                        let k = (x % 8) as u8;
                        assert(k < 8 ==> (b & (1u8 << (7 - k) as u8) != 0) == lit(b, k))
                            by (bit_vector);
                    }
                }
                proof {
                    assert(self@ =~= old(self)@.union(
                        glyph_pixels(xoff as int, yoff as int, x as int, ys as int, data@),
                    ).union(glyph_column(xoff as int, yoff as int, x as int, y + 1, data@)));
                }
            }
            proof {
                assert forall|p: (int, int)| #[trigger]
                    glyph_pixels(xoff as int, yoff as int, x + 1, ys as int, data@).contains(p)
                        == (glyph_pixels(xoff as int, yoff as int, x as int, ys as int, data@).contains(p)
                        || glyph_column(xoff as int, yoff as int, x as int, ys as int, data@).contains(p)) by {
                    if p.0 == xoff + x {
                        assert(p.0 - xoff == x);
                    }
                }
                assert(self@ =~= old(self)@.union(
                    glyph_pixels(xoff as int, yoff as int, x + 1, ys as int, data@),
                ));
            }
        }
    }
}

/// Moving the picture right and then left gives it back without its
/// rightmost column, which the first move pushed off the display.
pub proof fn lemma_shift_right_then_left(c: &Compositor)
    ensures
        shifted(shifted(c@, 1), -1) == c@.difference(column(31)),
{
    assert(shifted(shifted(c@, 1), -1) =~= c@.difference(column(31)));
}

/// Moving the picture left and then right gives it back without its
/// leftmost column.
pub proof fn lemma_shift_left_then_right(c: &Compositor)
    ensures
        shifted(shifted(c@, -1), 1) == c@.difference(column(0)),
{
    assert(shifted(shifted(c@, -1), 1) =~= c@.difference(column(0)));
}

/// Eight row bytes are fixed by the pixels that they light on a matrix: what
/// `write_raw` writes, `screen_data` reads back.
pub proof fn lemma_screen_pixels_injective(num: int, rows1: Seq<u8>, rows2: Seq<u8>)
    requires
        rows1.len() == 8,
        rows2.len() == 8,
        screen_pixels(num, rows1) == screen_pixels(num, rows2),
    ensures
        rows1 == rows2,
{
    assert forall|r: int| 0 <= r < 8 implies rows1[r] == rows2[r] by {
        assert forall|k: u8| k < 8 implies lit(rows1[r], k) == lit(rows2[r], k) by {
            let p = (8 * num + k, r);
            assert(p.0 - 8 * num == k);
            assert(((p.0 - 8 * num) as u8) == k);
            assert(screen_pixels(num, rows1).contains(p) == lit(rows1[r], k));
            assert(screen_pixels(num, rows2).contains(p) == lit(rows2[r], k));
        }
        lemma_lit_determines_byte(rows1[r], rows2[r]);
    }
    assert(rows1 =~= rows2);
}

/// After an OVERRIDE write of `rows` to matrix `num`, the matrix shows
/// exactly `rows`.
pub proof fn lemma_override_then_read(s: Set<(int, int)>, num: int, rows: Seq<u8>)
    ensures
        s.difference(screen_area(num)).union(screen_pixels(num, rows)).intersect(screen_area(num))
            == screen_pixels(num, rows),
{
    assert(s.difference(screen_area(num)).union(screen_pixels(num, rows)).intersect(
        screen_area(num),
    ) =~= screen_pixels(num, rows));
}

} // verus!
