//! A box blur: a square kernel with all weights equal, computed row by
//! row. Every pushed row is first averaged horizontally over `2r + 1`
//! columns, the edge pixels repeated beyond the ends; the filter keeps the
//! last `2r + 1` averaged rows and the sum of each of their columns, and a
//! popped row is that sum divided by `2r + 1`. Divisions are done in fixed
//! point and to the nearest: multiply by `1024 / (2r + 1)`, itself to the
//! nearest, add one half, shift right by ten bits. An average of equal
//! values is then the value itself, and no average leaves the range of
//! what went into it.

use vstd::prelude::*;
use crate::display::Color;

verus! {

/// Largest radius of the kernel.
pub const MAX_RADIUS: usize = 4;

/// Largest side of the kernel.
pub const MAX_SIDE: usize = 9;

/// Largest width of a blurred row.
pub const MAX_WIDTH: usize = 240;

/// A raw RGB565 pixel.
pub type PixelColor = u16;

/// The three channels of a color.
#[derive(Copy, Clone, Debug, PartialEq, Eq, Structural)]
pub struct Rgb<T> {
    pub r: T,
    pub g: T,
    pub b: T,
}

/// Channel `ch` (0 red, 1 green, 2 blue) of a raw pixel on the 8-bit
/// scale.
pub open spec fn chan(px: u16, ch: int) -> int {
    if ch == 0 {
        ((px >> 8) & 0xF8) as int
    } else if ch == 1 {
        ((px >> 3) & 0xFC) as int
    } else {
        ((px << 3) & 0xF8) as int
    }
}

/// Channel `ch` of an 8-bit triple.
pub open spec fn chan8(c: Rgb<u8>, ch: int) -> int {
    if ch == 0 {
        c.r as int
    } else if ch == 1 {
        c.g as int
    } else {
        c.b as int
    }
}

/// Channel `ch` of a 16-bit triple.
pub open spec fn chan16(c: Rgb<u16>, ch: int) -> int {
    if ch == 0 {
        c.r as int
    } else if ch == 1 {
        c.g as int
    } else {
        c.b as int
    }
}

/// True when no channel of the triple exceeds 252, the largest value that
/// a channel of an RGB565 pixel takes on the 8-bit scale.
pub open spec fn low(c: Rgb<u8>) -> bool {
    c.r <= 252 && c.g <= 252 && c.b <= 252
}

/// An index cut to the range of a row of `len` pixels.
pub open spec fn clamp_index(j: int, len: int) -> int {
    if j < 0 {
        0
    } else if j >= len {
        len - 1
    } else {
        j
    }
}

/// Sum of channel `ch` over the pixels `lo <= j < hi` of a row, the edge
/// pixels standing in for those beyond the ends.
pub open spec fn window_sum(inp: Seq<u16>, ch: int, lo: int, hi: int) -> int
    decreases hi - lo,
{
    if hi <= lo {
        0
    } else {
        window_sum(inp, ch, lo, hi - 1) + chan(inp[clamp_index(hi - 1, inp.len() as int)], ch)
    }
}

/// The multiplier that stands for a division by `side`: `1024 / side`, to
/// the nearest.
pub open spec fn multiplier(side: int) -> int {
    (1024 + side / 2) / side
}

/// Division by `side` in fixed point, to the nearest.
pub open spec fn scale(sum: int, side: int) -> int {
    (sum * multiplier(side) + 512) / 1024
}

/// One half in the unit of a right shift by `shift` bits.
pub open spec fn half_unit(shift: u8) -> u32 {
    if shift == 0 {
        0
    } else {
        1u32 << ((shift - 1) as u32)
    }
}

/// The horizontally averaged pixel `i` of a row.
pub open spec fn averaged(inp: Seq<u16>, radius: int, i: int) -> Rgb<u8> {
    Rgb {
        r: scale(window_sum(inp, 0, i - radius, i + radius + 1), 2 * radius + 1) as u8,
        g: scale(window_sum(inp, 1, i - radius, i + radius + 1), 2 * radius + 1) as u8,
        b: scale(window_sum(inp, 2, i - radius, i + radius + 1), 2 * radius + 1) as u8,
    }
}

/// The horizontally averaged row.
pub open spec fn averaged_row(inp: Seq<u16>, radius: int) -> Seq<Rgb<u8>> {
    Seq::new(inp.len(), |i: int| averaged(inp, radius, i))
}

/// Sum of channel `ch` of column `i` over the first `k` rows of a window.
pub open spec fn column_sum(window: Seq<Seq<Rgb<u8>>>, i: int, ch: int, k: int) -> int
    decreases k,
{
    if k <= 0 {
        0
    } else {
        column_sum(window, i, ch, k - 1) + chan8(window[k - 1][i], ch)
    }
}

/// The three sums of column `i` of a window.
pub open spec fn column_totals(window: Seq<Seq<Rgb<u8>>>, i: int) -> Rgb<u16> {
    let n = window.len() as int;
    Rgb {
        r: column_sum(window, i, 0, n) as u16,
        g: column_sum(window, i, 1, n) as u16,
        b: column_sum(window, i, 2, n) as u16,
    }
}

/// The blurred pixel of column `i`: the column's sum divided by the number
/// of rows, packed as RGB565.
pub open spec fn blurred(window: Seq<Seq<Rgb<u8>>>, i: int) -> u16 {
    let n = window.len() as int;
    Color::of_rgb(
        scale(column_sum(window, i, 0, n), n) as u8,
        scale(column_sum(window, i, 1, n), n) as u8,
        scale(column_sum(window, i, 2, n), n) as u8,
    ).0
}

/// The channels of a raw pixel are at most 252, and packing them gives
/// the pixel back.
pub proof fn lemma_chan_bound(px: u16, ch: int)
    ensures
        0 <= chan(px, ch) <= 252,
        Color::of_rgb(chan(px, 0) as u8, chan(px, 1) as u8, chan(px, 2) as u8).0 == px,
{
    assert(((px >> 8) & 0xF8) <= 248 && ((px >> 3) & 0xFC) <= 252 && ((px << 3) & 0xF8) <= 248)
        by (bit_vector);
    let r = (px >> 8) & 0xF8;
    let g = (px >> 3) & 0xFC;
    let b = (px << 3) & 0xF8;
    assert((((((px >> 8) & 0xF8) as u8 as u16) & 0xF8) << 8) | (((((px >> 3) & 0xFC) as u8 as u16)
        & 0xFC) << 3) | (((((px << 3) & 0xF8) as u8 as u16) & 0xF8) >> 3) == px) by (bit_vector);
}

/// A window sum grows by the next pixel at its upper end and shrinks by
/// the first pixel at its lower end, and is bounded by the number of its
/// terms times any bound on the channel.
pub proof fn lemma_window_sum(inp: Seq<u16>, ch: int, lo: int, hi: int, top: int)
    requires
        lo <= hi,
        inp.len() > 0,
        forall|j: int| 0 <= j < inp.len() ==> chan(#[trigger] inp[j], ch) <= top,
    ensures
        0 <= window_sum(inp, ch, lo, hi) <= (hi - lo) * top,
        lo < hi ==> window_sum(inp, ch, lo, hi) == chan(
            inp[clamp_index(lo, inp.len() as int)],
            ch,
        ) + window_sum(inp, ch, lo + 1, hi),
    decreases hi - lo,
{
    if lo < hi {
        lemma_window_sum(inp, ch, lo, hi - 1, top);
        let j = clamp_index(hi - 1, inp.len() as int);
        lemma_chan_bound(inp[j], ch);
        assert(chan(inp[j], ch) <= top);
        assert((hi - 1 - lo) * top + top == (hi - lo) * top) by (nonlinear_arith);
        if lo + 1 < hi {
            lemma_window_sum(inp, ch, lo + 1, hi, top);
            lemma_window_sum(inp, ch, lo + 1, hi - 1, top);
        } else {
            assert(window_sum(inp, ch, lo + 1, hi) == 0);
            assert(window_sum(inp, ch, lo, hi - 1) == 0);
        }
    } else {
        assert((hi - lo) * top == 0) by (nonlinear_arith)
            requires
                hi == lo,
        ;
    }
}

/// The multiplier times the divisor misses 1024 by two at most.
pub proof fn lemma_multiplier(side: int)
    requires
        1 <= side <= 9,
    ensures
        0 <= multiplier(side) <= 1024,
        1022 <= side * multiplier(side) <= 1026,
{
    let m = multiplier(side);
    if side == 1 {
        vstd::arithmetic::div_mod::lemma_fundamental_div_mod_converse(1024, 1, 1024, 0);
        assert(m == 1024);
        assert(side * m == 1024) by (nonlinear_arith)
            requires
                side * 1024 == 1024,
                m == 1024,
        ;
    } else if side == 2 {
        vstd::arithmetic::div_mod::lemma_fundamental_div_mod_converse(1025, 2, 512, 1);
        assert(m == 512);
        assert(side * m == 1024) by (nonlinear_arith)
            requires
                side * 512 == 1024,
                m == 512,
        ;
    } else if side == 3 {
        vstd::arithmetic::div_mod::lemma_fundamental_div_mod_converse(1025, 3, 341, 2);
        assert(m == 341);
        assert(side * m == 1023) by (nonlinear_arith)
            requires
                side * 341 == 1023,
                m == 341,
        ;
    } else if side == 4 {
        vstd::arithmetic::div_mod::lemma_fundamental_div_mod_converse(1026, 4, 256, 2);
        assert(m == 256);
        assert(side * m == 1024) by (nonlinear_arith)
            requires
                side * 256 == 1024,
                m == 256,
        ;
    } else if side == 5 {
        vstd::arithmetic::div_mod::lemma_fundamental_div_mod_converse(1026, 5, 205, 1);
        assert(m == 205);
        assert(side * m == 1025) by (nonlinear_arith)
            requires
                side * 205 == 1025,
                m == 205,
        ;
    } else if side == 6 {
        vstd::arithmetic::div_mod::lemma_fundamental_div_mod_converse(1027, 6, 171, 1);
        assert(m == 171);
        assert(side * m == 1026) by (nonlinear_arith)
            requires
                side * 171 == 1026,
                m == 171,
        ;
    } else if side == 7 {
        vstd::arithmetic::div_mod::lemma_fundamental_div_mod_converse(1027, 7, 146, 5);
        assert(m == 146);
        assert(side * m == 1022) by (nonlinear_arith)
            requires
                side * 146 == 1022,
                m == 146,
        ;
    } else if side == 8 {
        vstd::arithmetic::div_mod::lemma_fundamental_div_mod_converse(1028, 8, 128, 4);
        assert(m == 128);
        assert(side * m == 1024) by (nonlinear_arith)
            requires
                side * 128 == 1024,
                m == 128,
        ;
    } else {
        vstd::arithmetic::div_mod::lemma_fundamental_div_mod_converse(1028, 9, 114, 2);
        assert(m == 114);
        assert(side * m == 1026) by (nonlinear_arith)
            requires
                side * 114 == 1026,
                m == 114,
        ;
    }
}

/// Fixed-point division stays within what is divided: a sum of `side`
/// values between `bot` and `top` scales to a value between `bot` and
/// `top`. The sum of `side` equal values scales to the value itself.
pub proof fn lemma_scale_bound(sum: int, side: int, bot: int, top: int)
    requires
        1 <= side <= 9,
        0 <= bot <= top <= 255,
        side * bot <= sum <= side * top,
    ensures
        bot <= scale(sum, side) <= top,
        0 <= sum * multiplier(side) <= 1026 * top,
{
    let m = multiplier(side);
    lemma_multiplier(side);
    assert(0 <= side * bot) by (nonlinear_arith)
        requires
            0 <= bot,
            1 <= side,
    ;
    assert((side * bot) * m <= sum * m <= (side * top) * m) by (nonlinear_arith)
        requires
            side * bot <= sum <= side * top,
            0 <= m,
    ;
    assert((side * bot) * m == bot * (side * m) && (side * top) * m == top * (side * m))
        by (nonlinear_arith);
    assert(bot * 1022 <= bot * (side * m)) by (nonlinear_arith)
        requires
            1022 <= side * m,
            0 <= bot,
    ;
    assert(top * (side * m) <= top * 1026) by (nonlinear_arith)
        requires
            side * m <= 1026,
            0 <= top,
    ;
}

/// The column sums of a window change with one of its rows by the
/// difference of the old and the new pixel, and are bounded by the number
/// of rows times any bound on the pixels.
pub proof fn lemma_column_sum_update(
    window: Seq<Seq<Rgb<u8>>>,
    row: int,
    fresh: Seq<Rgb<u8>>,
    i: int,
    ch: int,
    k: int,
)
    requires
        0 <= row < window.len(),
        0 <= k <= window.len(),
    ensures
        column_sum(window.update(row, fresh), i, ch, k) == column_sum(window, i, ch, k) + (if row
            < k {
            chan8(fresh[i], ch) - chan8(window[row][i], ch)
        } else {
            0
        }),
    decreases k,
{
    if k > 0 {
        lemma_column_sum_update(window, row, fresh, i, ch, k - 1);
    }
}

/// Bound of a column sum.
pub proof fn lemma_column_sum_bound(window: Seq<Seq<Rgb<u8>>>, i: int, ch: int, k: int, top: int)
    requires
        0 <= k <= window.len(),
        forall|j: int| 0 <= j < window.len() ==> chan8(#[trigger] window[j][i], ch) <= top,
    ensures
        0 <= column_sum(window, i, ch, k) <= k * top,
    decreases k,
{
    if k > 0 {
        lemma_column_sum_bound(window, i, ch, k - 1, top);
        assert(chan8(window[k - 1][i], ch) <= top);
        assert((k - 1) * top + top == k * top) by (nonlinear_arith);
    } else {
        assert(k * top == 0) by (nonlinear_arith)
            requires
                k == 0,
        ;
    }
}

impl Rgb<u16> {
    /// The three channels of a raw pixel on the 8-bit scale.
    pub fn from_pixel(value: u16) -> (c: Rgb<u16>)
        ensures
            c.r == chan(value, 0),
            c.g == chan(value, 1),
            c.b == chan(value, 2),
    {
        Rgb { r: (value >> 8) & 0xF8, g: (value >> 3) & 0xFC, b: (value << 3) & 0xF8 }
    }

    /// Multiplies each channel by `multiplier` and shifts it right by
    /// `shift` bits, to the nearest: one half is added before the shift.
    pub fn mulshift(&self, multiplier: u32, shift: u8) -> (c: Rgb<u8>)
        requires
            shift < 32,
            self.r * multiplier + half_unit(shift) <= u32::MAX,
            self.g * multiplier + half_unit(shift) <= u32::MAX,
            self.b * multiplier + half_unit(shift) <= u32::MAX,
            ((self.r * multiplier + half_unit(shift)) as u32 >> (shift as u32)) <= 255,
            ((self.g * multiplier + half_unit(shift)) as u32 >> (shift as u32)) <= 255,
            ((self.b * multiplier + half_unit(shift)) as u32 >> (shift as u32)) <= 255,
        ensures
            c.r == ((self.r * multiplier + half_unit(shift)) as u32 >> (shift as u32)),
            c.g == ((self.g * multiplier + half_unit(shift)) as u32 >> (shift as u32)),
            c.b == ((self.b * multiplier + half_unit(shift)) as u32 >> (shift as u32)),
    {
        let half: u32 = if shift == 0 {
            0
        } else {
            1u32 << ((shift - 1) as u32)
        };
        Rgb {
            r: ((self.r as u32 * multiplier + half) >> (shift as u32)) as u8,
            g: ((self.g as u32 * multiplier + half) >> (shift as u32)) as u8,
            b: ((self.b as u32 * multiplier + half) >> (shift as u32)) as u8,
        }
    }

    /// Divides each channel by `side` in fixed point, to the nearest.
    pub(crate) fn scaled(&self, side: usize, Ghost(top): Ghost<int>) -> (c: Rgb<u8>)
        requires
            1 <= side <= 9,
            0 <= top <= 255,
            self.r <= side * top,
            self.g <= side * top,
            self.b <= side * top,
        ensures
            c.r == scale(self.r as int, side as int),
            c.g == scale(self.g as int, side as int),
            c.b == scale(self.b as int, side as int),
            c.r <= top,
            c.g <= top,
            c.b <= top,
    {
        let divisor: u32 = side as u32;
        let shift: u8 = 10;
        assert((1u32 << 10) == 1024) by (bit_vector);
        let multiplier: u32 = ((1u32 << 10) + divisor / 2) / divisor;
        proof {
            assert((1u32 << 9u32) == 512) by (bit_vector);
            assert(multiplier == self::multiplier(side as int));
            assert(0 <= side * 0) by (nonlinear_arith)
                requires
                    1 <= side,
            ;
            lemma_scale_bound(self.r as int, side as int, 0, top);
            lemma_scale_bound(self.g as int, side as int, 0, top);
            lemma_scale_bound(self.b as int, side as int, 0, top);
            let pr: u32 = (self.r * multiplier + 512) as u32;
            let pg: u32 = (self.g * multiplier + 512) as u32;
            let pb: u32 = (self.b * multiplier + 512) as u32;
            assert(pr >> 10 == pr / 1024) by (bit_vector);
            assert(pg >> 10 == pg / 1024) by (bit_vector);
            assert(pb >> 10 == pb / 1024) by (bit_vector);
        }
        self.mulshift(multiplier, shift)
    }
}

impl Rgb<u8> {
    /// The raw pixel nearest below the three channels.
    pub fn to_pixel(self) -> (px: u16)
        ensures
            px == Color::of_rgb(self.r, self.g, self.b).0,
    {
        let r: u16 = (self.r as u16 & 0xF8) << 8;
        let g: u16 = (self.g as u16 & 0xFC) << 3;
        let b: u16 = (self.b as u16 & 0xF8) >> 3;
        r | g | b
    }
}

/// State of the filter, as a value.
pub struct BlurState {
    pub width: nat,
    pub radius: nat,
    /// Index of the window row that the next push replaces.
    pub row: nat,
    /// The `2 * radius + 1` averaged rows.
    pub window: Seq<Seq<Rgb<u8>>>,
}

impl BlurState {
    /// The side of the kernel.
    pub open spec fn side(self) -> nat {
        2 * self.radius + 1
    }

    /// The state after a row was pushed.
    pub open spec fn pushed(self, input: Seq<u16>) -> BlurState {
        BlurState {
            row: ((self.row + 1) as int % (self.side() as int)) as nat,
            window: self.window.update(
                self.row as int,
                averaged_row(input, self.radius as int),
            ),
            ..self
        }
    }

    /// The state after `n` copies of a row were pushed.
    pub open spec fn pushed_times(self, input: Seq<u16>, n: nat) -> BlurState
        decreases n,
    {
        if n == 0 {
            self
        } else {
            self.pushed_times(input, (n - 1) as nat).pushed(input)
        }
    }

    /// A fresh filter: every window row all zero.
    pub open spec fn fresh(width: nat, radius: nat) -> BlurState {
        BlurState {
            width,
            radius,
            row: 0,
            window: Seq::new(
                2 * radius + 1,
                |k: int| Seq::new(width, |i: int| Rgb { r: 0u8, g: 0u8, b: 0u8 }),
            ),
        }
    }

    /// The state is consistent.
    pub open spec fn wf(self) -> bool {
        &&& self.width <= MAX_WIDTH
        &&& self.radius <= MAX_RADIUS
        &&& self.width >= 2 * self.radius
        &&& self.row < self.side()
        &&& self.window.len() == self.side()
        &&& forall|k: int| 0 <= k < self.window.len() ==> (#[trigger] self.window[k]).len()
            == self.width
        &&& forall|k: int, i: int|
            0 <= k < self.window.len() && 0 <= i < self.width ==> low(#[trigger] self.window[k][i])
    }

    /// The row that a pop yields.
    pub open spec fn popped(self) -> Seq<u16> {
        Seq::new(self.width, |i: int| blurred(self.window, i))
    }
}

/// A row of `width` black pixels.
pub fn zero_row(width: usize) -> (row: Vec<Rgb<u8>>)
    ensures
        row@ == Seq::new(width as nat, |i: int| Rgb { r: 0u8, g: 0u8, b: 0u8 }),
{
    let mut row: Vec<Rgb<u8>> = Vec::new();
    let mut k: usize = 0;
    while k < width
        invariant
            k <= width,
            row@.len() == k,
            forall|j: int| 0 <= j < k ==> #[trigger] row@[j] == (Rgb { r: 0u8, g: 0u8, b: 0u8 }),
        decreases width - k,
    {
        row.push(Rgb { r: 0u8, g: 0u8, b: 0u8 });
        k += 1;
    }
    assert(row@ =~= Seq::new(width as nat, |i: int| Rgb { r: 0u8, g: 0u8, b: 0u8 }));
    row
}

/// The sliding-window blur filter.
pub struct BlurAlgorithm {
    width: usize,
    radius: usize,
    row: usize,
    totals: Vec<Rgb<u16>>,
    window: Vec<Vec<Rgb<u8>>>,
}

impl BlurAlgorithm {
    /// The window as a sequence of rows.
    pub closed spec fn rows(self) -> Seq<Seq<Rgb<u8>>> {
        Seq::new(self.window@.len(), |k: int| self.window@[k]@)
    }

    /// The filter as a value.
    pub closed spec fn view(self) -> BlurState {
        BlurState {
            width: self.width as nat,
            radius: self.radius as nat,
            row: self.row as nat,
            window: self.rows(),
        }
    }

    /// The filter is consistent: its state is, and it holds the sum of
    /// every column of the window.
    pub closed spec fn wf(self) -> bool {
        &&& self@.wf()
        &&& self.totals@.len() == self.width
        &&& forall|i: int|
            0 <= i < self.width ==> #[trigger] self.totals@[i] == column_totals(self.rows(), i)
    }

    /// The state of a consistent filter is consistent: the laws on the
    /// state hold of every filter that was made by `new` and fed by
    /// `push`.
    pub proof fn lemma_consistent_state(self)
        requires
            self.wf(),
        ensures
            self@.wf(),
    {
    }

    /// A filter for rows of `width` pixels and a kernel of side
    /// `2 * radius + 1`. It is refused when the width is above
    /// `MAX_WIDTH`, when the radius is above `MAX_RADIUS`, or when the
    /// kernel does not fit: `width <= 2 * radius - 1`.
    pub fn new(width: usize, radius: usize) -> (r: Option<Self>)
        ensures
            r.is_some() <==> width <= MAX_WIDTH && radius <= MAX_RADIUS && width > 2 * radius
                - 1,
            r matches Some(b) ==> b.wf() && b@.wf() && b@ == BlurState::fresh(
                width as nat,
                radius as nat,
            ),
    {
        if width > MAX_WIDTH || radius > MAX_RADIUS || width + 1 <= 2 * radius {
            return None;
        }
        let side: usize = 1 + radius * 2;
        let mut window: Vec<Vec<Rgb<u8>>> = Vec::new();
        let mut k: usize = 0;
        while k < side
            invariant
                k <= side,
                window@.len() == k,
                forall|j: int|
                    0 <= j < k ==> (#[trigger] window@[j])@ == Seq::new(
                        width as nat,
                        |i: int| Rgb { r: 0u8, g: 0u8, b: 0u8 },
                    ),
            decreases side - k,
        {
            let row: Vec<Rgb<u8>> = zero_row(width);
            window.push(row);
            k += 1;
        }
        let mut totals: Vec<Rgb<u16>> = Vec::new();
        let mut k: usize = 0;
        while k < width
            invariant
                k <= width,
                totals@.len() == k,
                forall|j: int| 0 <= j < k ==> #[trigger] totals@[j] == (Rgb { r: 0u16, g: 0u16, b: 0u16 }),
            decreases width - k,
        {
            totals.push(Rgb { r: 0u16, g: 0u16, b: 0u16 });
            k += 1;
        }
        let b = BlurAlgorithm { width, radius, row: 0, totals, window };
        proof {
            assert(b@.window =~~= BlurState::fresh(width as nat, radius as nat).window);
            assert forall|i: int| 0 <= i < width implies #[trigger] b.totals@[i] == column_totals(
                b.rows(),
                i,
            ) by {
                lemma_zero_columns(b.rows(), i, 0, b.rows().len() as int);
                lemma_zero_columns(b.rows(), i, 1, b.rows().len() as int);
                lemma_zero_columns(b.rows(), i, 2, b.rows().len() as int);
            }
        }
        Some(b)
    }

    /// The side of the kernel.
    pub fn box_side(&self) -> (s: usize)
        requires
            self.wf(),
        ensures
            s == self@.side(),
            1 <= s <= MAX_SIDE,
    {
        1 + self.radius * 2
    }

    /// Averages a row horizontally.
    pub fn average_to_row(&self, inp: &[PixelColor]) -> (out: Vec<Rgb<u8>>)
        requires
            self.wf(),
            inp@.len() == self@.width,
        ensures
            out@ == averaged_row(inp@, self@.radius as int),
            forall|i: int| 0 <= i < out@.len() ==> low(#[trigger] out@[i]),
    {
        let radius = self.radius;
        let len = inp.len();
        let side = self.box_side();
        let ghost r = radius as int;
        let ghost s = inp@;
        if len == 0 {
            let out: Vec<Rgb<u8>> = Vec::new();
            assert(out@ =~= averaged_row(s, r));
            return out;
        }
        let mut sum = Rgb { r: 0u16, g: 0u16, b: 0u16 };
        proof {
            assert forall|j: int| 0 <= j < s.len() implies chan(#[trigger] s[j], 0) <= 252 && chan(
                s[j],
                1,
            ) <= 252 && chan(s[j], 2) <= 252 by {
                lemma_chan_bound(s[j], 0);
                lemma_chan_bound(s[j], 1);
                lemma_chan_bound(s[j], 2);
            }
        }
        // The window that ends just left of the first pixel's own window:
        // the first pixel repeated, then the pixels up to the radius.
        let mut i: usize = 0;
        while i < 2 * radius
            invariant
                i <= 2 * radius,
                radius == r,
                r <= MAX_RADIUS,
                s == inp@,
                len == s.len(),
                len >= 2 * r,
                len > 0,
                forall|j: int|
                    0 <= j < s.len() ==> chan(#[trigger] s[j], 0) <= 252 && chan(s[j], 1) <= 252
                        && chan(s[j], 2) <= 252,
                sum.r == window_sum(s, 0, -r, i - r),
                sum.g == window_sum(s, 1, -r, i - r),
                sum.b == window_sum(s, 2, -r, i - r),
            decreases 2 * radius - i,
        {
            let j: usize = if i < radius {
                0
            } else {
                i - radius
            };
            let px = Rgb::<u16>::from_pixel(inp[j]);
            proof {
                assert(j == clamp_index(i - r, len as int));
                lemma_window_sum(s, 0, -r, i - r, 252);
                lemma_window_sum(s, 1, -r, i - r, 252);
                lemma_window_sum(s, 2, -r, i - r, 252);
                assert((i - r - (-r)) * 252 <= 8 * 252) by (nonlinear_arith)
                    requires
                        i < 2 * r,
                        r <= 4,
                ;
                assert(chan(s[j as int], 0) <= 252);
            }
            sum = Rgb { r: sum.r + px.r, g: sum.g + px.g, b: sum.b + px.b };
            i += 1;
        }
        let mut out: Vec<Rgb<u8>> = Vec::new();
        let mut i: usize = 0;
        while i < len
            invariant
                i <= len,
                radius == r,
                r <= MAX_RADIUS,
                side == 2 * r + 1,
                s == inp@,
                len == s.len(),
                len >= 2 * r,
                len > 0,
                len <= MAX_WIDTH,
                out@.len() == i,
                forall|j: int|
                    0 <= j < s.len() ==> chan(#[trigger] s[j], 0) <= 252 && chan(s[j], 1) <= 252
                        && chan(s[j], 2) <= 252,
                sum.r == window_sum(s, 0, i - r, i + r),
                sum.g == window_sum(s, 1, i - r, i + r),
                sum.b == window_sum(s, 2, i - r, i + r),
                forall|k: int| 0 <= k < i ==> #[trigger] out@[k] == averaged(s, r, k),
                forall|k: int| 0 <= k < i ==> low(#[trigger] out@[k]),
            decreases len - i,
        {
            let hi: usize = if i + radius < len {
                i + radius
            } else {
                len - 1
            };
            let lo: usize = if i >= radius {
                i - radius
            } else {
                0
            };
            let add = Rgb::<u16>::from_pixel(inp[hi]);
            let sub = Rgb::<u16>::from_pixel(inp[lo]);
            proof {
                assert(hi == clamp_index(i + r, len as int));
                assert(lo == clamp_index(i - r, len as int));
                lemma_window_sum(s, 0, i - r, i + r + 1, 252);
                lemma_window_sum(s, 1, i - r, i + r + 1, 252);
                lemma_window_sum(s, 2, i - r, i + r + 1, 252);
                lemma_window_sum(s, 0, i - r + 1, i + r + 1, 252);
                lemma_window_sum(s, 1, i - r + 1, i + r + 1, 252);
                lemma_window_sum(s, 2, i - r + 1, i + r + 1, 252);
                assert((i + r + 1 - (i - r)) * 252 == side * 252) by (nonlinear_arith)
                    requires
                        side == 2 * r + 1,
                ;
                assert(side * 252 <= 9 * 252) by (nonlinear_arith)
                    requires
                        side <= 9,
                ;
                assert(chan(s[hi as int], 0) <= 252);
                assert(chan(s[lo as int], 0) <= 252);
            }
            sum = Rgb { r: sum.r + add.r, g: sum.g + add.g, b: sum.b + add.b };
            let avg = sum.scaled(side, Ghost(252));
            out.push(avg);
            sum = Rgb { r: sum.r - sub.r, g: sum.g - sub.g, b: sum.b - sub.b };
            i += 1;
        }
        proof {
            assert(out@ =~= averaged_row(s, r));
        }
        out
    }

    /// Takes a window row out of the column sums, pixel by pixel.
    pub fn subtract_row(totals: &mut Vec<Rgb<u16>>, row: &Vec<Rgb<u8>>)
        requires
            old(totals)@.len() == row@.len(),
            forall|i: int|
                0 <= i < row@.len() ==> (#[trigger] old(totals)@[i]).r >= row@[i].r && old(totals)@[i].g >= row@[i].g && old(totals)@[i].b >= row@[i].b,
        ensures
            final(totals)@.len() == row@.len(),
            forall|i: int|
                0 <= i < row@.len() ==> (#[trigger] final(totals)@[i]).r == old(totals)@[i].r
                    - row@[i].r && final(totals)@[i].g == old(totals)@[i].g - row@[i].g && final(totals)@[i].b == old(totals)@[i].b - row@[i].b,
    {
        let n = row.len();
        let ghost before = totals@;
        let mut i: usize = 0;
        while i < n
            invariant
                i <= n,
                n == row@.len(),
                totals@.len() == n,
                before.len() == n,
                forall|k: int|
                    0 <= k < n ==> (#[trigger] before[k]).r >= row@[k].r && before[k].g >= row@[k].g
                        && before[k].b >= row@[k].b,
                forall|k: int| i <= k < n ==> #[trigger] totals@[k] == before[k],
                forall|k: int|
                    0 <= k < i ==> (#[trigger] totals@[k]).r == before[k].r - row@[k].r
                        && totals@[k].g == before[k].g - row@[k].g && totals@[k].b == before[k].b
                        - row@[k].b,
            decreases n - i,
        {
            let t = totals[i];
            let w = row[i];
            assert(before[i as int].r >= row@[i as int].r);
            totals.set(i, Rgb { r: t.r - w.r as u16, g: t.g - w.g as u16, b: t.b - w.b as u16 });
            i += 1;
        }
    }

    /// Adds a window row to the column sums, pixel by pixel.
    pub fn add_row(totals: &mut Vec<Rgb<u16>>, row: &Vec<Rgb<u8>>)
        requires
            old(totals)@.len() == row@.len(),
            forall|i: int|
                0 <= i < row@.len() ==> (#[trigger] old(totals)@[i]).r + row@[i].r <= u16::MAX
                    && old(totals)@[i].g + row@[i].g <= u16::MAX && old(totals)@[i].b + row@[i].b
                    <= u16::MAX,
        ensures
            final(totals)@.len() == row@.len(),
            forall|i: int|
                0 <= i < row@.len() ==> (#[trigger] final(totals)@[i]).r == old(totals)@[i].r
                    + row@[i].r && final(totals)@[i].g == old(totals)@[i].g + row@[i].g && final(totals)@[i].b == old(totals)@[i].b + row@[i].b,
    {
        let n = row.len();
        let ghost before = totals@;
        let mut i: usize = 0;
        while i < n
            invariant
                i <= n,
                n == row@.len(),
                totals@.len() == n,
                before.len() == n,
                forall|k: int|
                    0 <= k < n ==> (#[trigger] before[k]).r + row@[k].r <= u16::MAX && before[k].g
                        + row@[k].g <= u16::MAX && before[k].b + row@[k].b <= u16::MAX,
                forall|k: int| i <= k < n ==> #[trigger] totals@[k] == before[k],
                forall|k: int|
                    0 <= k < i ==> (#[trigger] totals@[k]).r == before[k].r + row@[k].r
                        && totals@[k].g == before[k].g + row@[k].g && totals@[k].b == before[k].b
                        + row@[k].b,
            decreases n - i,
        {
            let t = totals[i];
            let w = row[i];
            assert(before[i as int].r + row@[i as int].r <= u16::MAX);
            totals.set(i, Rgb { r: t.r + w.r as u16, g: t.g + w.g as u16, b: t.b + w.b as u16 });
            i += 1;
        }
    }

    /// Pushes a source row into the window: the oldest row leaves the
    /// column sums, the averaged new row takes its place and enters them.
    pub fn push(&mut self, input: &[PixelColor])
        requires
            old(self).wf(),
            input@.len() == old(self)@.width,
        ensures
            final(self).wf(),
            final(self)@.wf(),
            final(self)@ == old(self)@.pushed(input@),
    {
        let row = self.row;
        let side = self.box_side();
        let fresh = self.average_to_row(input);
        let ghost rows0 = self.rows();
        let ghost n = rows0.len() as int;
        let ghost w = self.width as int;
        let ghost zero = Seq::new(w as nat, |x: int| Rgb { r: 0u8, g: 0u8, b: 0u8 });
        let ghost cleared = rows0.update(row as int, zero);
        proof {
            assert forall|i: int| 0 <= i < w implies push_room(rows0, row as int, i) by {
                lemma_push_column(rows0, row as int, fresh@, i, 0);
                lemma_push_column(rows0, row as int, fresh@, i, 1);
                lemma_push_column(rows0, row as int, fresh@, i, 2);
            }
            assert forall|i: int| 0 <= i < w implies (#[trigger] self.totals@[i]).r
                >= self.window@[row as int]@[i].r && self.totals@[i].g
                >= self.window@[row as int]@[i].g && self.totals@[i].b
                >= self.window@[row as int]@[i].b by {
                assert(push_room(rows0, row as int, i));
                assert(self.totals@[i] == column_totals(rows0, i));
            }
        }
        let ghost t0 = self.totals@;
        Self::subtract_row(&mut self.totals, &self.window[row]);
        proof {
            assert forall|i: int| 0 <= i < w implies (#[trigger] self.totals@[i]).r + fresh@[i].r
                <= u16::MAX && self.totals@[i].g + fresh@[i].g <= u16::MAX && self.totals@[i].b
                + fresh@[i].b <= u16::MAX by {
                assert(push_room(rows0, row as int, i));
                assert(t0[i] == column_totals(rows0, i));
            }
        }
        Self::add_row(&mut self.totals, &fresh);
        self.window.set(row, fresh);
        self.row = (row + 1) % side;
        proof {
            let rows1 = self.rows();
            assert(rows1 =~~= rows0.update(row as int, fresh@));
            assert forall|i: int| 0 <= i < w implies #[trigger] self.totals@[i] == column_totals(
                rows1,
                i,
            ) by {
                assert(push_room(rows0, row as int, i));
                assert(t0[i] == column_totals(rows0, i));
                assert(low(fresh@[i]));
                lemma_push_column(rows0, row as int, fresh@, i, 0);
                lemma_push_column(rows0, row as int, fresh@, i, 1);
                lemma_push_column(rows0, row as int, fresh@, i, 2);
            }
            assert(self@.window =~~= old(self)@.pushed(input@).window);
        }
    }

    /// Writes the blurred row, the column sums divided by the side of the
    /// kernel, into `output`; a shorter `output` takes the row's beginning.
    pub fn pop(&self, output: &mut Vec<PixelColor>)
        requires
            self.wf(),
            old(output)@.len() <= self@.width,
        ensures
            final(output)@ == self@.popped().take(old(output)@.len() as int),
    {
        let side = self.box_side();
        let n = output.len();
        let ghost rows = self.rows();
        let mut i: usize = 0;
        while i < n
            invariant
                i <= n,
                self.wf(),
                n <= self.width,
                output@.len() == n,
                rows == self.rows(),
                side == rows.len(),
                1 <= side <= 9,
                forall|k: int| 0 <= k < i ==> #[trigger] output@[k] == blurred(rows, k),
            decreases n - i,
        {
            let t = self.totals[i];
            proof {
                assert(self.totals@[i as int] == column_totals(rows, i as int));
                lemma_column_sum_bound(rows, i as int, 0, side as int, 255);
                lemma_column_sum_bound(rows, i as int, 1, side as int, 255);
                lemma_column_sum_bound(rows, i as int, 2, side as int, 255);
            }
            let px = t.scaled(side, Ghost(255)).to_pixel();
            output.set(i, px);
            i += 1;
        }
        proof {
            assert(output@ =~= self@.popped().take(old(output)@.len() as int));
        }
    }
}

/// The facts that a push rests on, for column `i`: each column sum is
/// representable, holds the pixel of the row that leaves, and leaves room
/// for the pixel that enters.
pub open spec fn push_room(window: Seq<Seq<Rgb<u8>>>, row: int, i: int) -> bool {
    let n = window.len() as int;
    &&& 0 <= column_sum(window, i, 0, n) - window[row][i].r <= 8 * 255
    &&& 0 <= column_sum(window, i, 1, n) - window[row][i].g <= 8 * 255
    &&& 0 <= column_sum(window, i, 2, n) - window[row][i].b <= 8 * 255
    &&& column_sum(window, i, 0, n) <= 9 * 255
    &&& column_sum(window, i, 1, n) <= 9 * 255
    &&& column_sum(window, i, 2, n) <= 9 * 255
}

/// One channel of the facts above, and the column sum after the row was
/// replaced.
pub proof fn lemma_push_column(window: Seq<Seq<Rgb<u8>>>, row: int, fresh: Seq<Rgb<u8>>, i: int, ch: int)
    requires
        0 <= row < window.len() <= 9,
    ensures
        0 <= column_sum(window, i, ch, window.len() as int) - chan8(window[row][i], ch) <= 8 * 255,
        column_sum(window, i, ch, window.len() as int) <= 9 * 255,
        column_sum(window.update(row, fresh), i, ch, window.len() as int) == column_sum(
            window,
            i,
            ch,
            window.len() as int,
        ) - chan8(window[row][i], ch) + chan8(fresh[i], ch),
{
    let n = window.len() as int;
    lemma_column_sum_any(window, row, i, ch, n);
    assert((n - 1) * 255 <= 8 * 255 && n * 255 <= 9 * 255) by (nonlinear_arith)
        requires
            n <= 9,
    ;
    lemma_column_sum_update(window, row, fresh, i, ch, n);
}

/// Bounds of a column sum that hold for any column index, since a
/// channel is at most 255.
pub proof fn lemma_column_sum_any(window: Seq<Seq<Rgb<u8>>>, row: int, i: int, ch: int, k: int)
    requires
        0 <= row < window.len(),
        0 <= k <= window.len(),
    ensures
        0 <= column_sum(window, i, ch, k) <= k * 255,
        row < k ==> chan8(window[row][i], ch) <= column_sum(window, i, ch, k) <= chan8(
            window[row][i],
            ch,
        ) + (k - 1) * 255,
    decreases k,
{
    if k > 0 {
        lemma_column_sum_any(window, row, i, ch, k - 1);
    }
}

/// The column sums of a window whose pixels are all zero are zero.
pub proof fn lemma_zero_columns(window: Seq<Seq<Rgb<u8>>>, i: int, ch: int, k: int)
    requires
        0 <= k <= window.len(),
        forall|j: int| 0 <= j < window.len() ==> chan8(#[trigger] window[j][i], ch) == 0,
    ensures
        column_sum(window, i, ch, k) == 0,
    decreases k,
{
    if k > 0 {
        lemma_zero_columns(window, i, ch, k - 1);
        assert(chan8(window[k - 1][i], ch) == 0);
    }
}

/// Offset of the window row `k` from the row `first`, going round.
pub open spec fn ring_offset(k: int, first: int, side: int) -> int {
    (k - first + side) % side
}

/// After `n` pushes of one row, the `n` window rows from the current one
/// on, going round, hold the averaged row; the others are as they
/// were.
pub proof fn lemma_pushes_fill_window(s: BlurState, input: Seq<u16>, n: nat)
    requires
        s.window.len() == s.side(),
        s.row < s.side(),
        s.radius <= MAX_RADIUS,
        n <= s.side(),
    ensures
        s.pushed_times(input, n).window.len() == s.side(),
        s.pushed_times(input, n).radius == s.radius,
        s.pushed_times(input, n).width == s.width,
        s.pushed_times(input, n).row == (s.row + n) as int % (s.side() as int),
        forall|k: int|
            0 <= k < s.side() ==> #[trigger] s.pushed_times(input, n).window[k] == (if ring_offset(
                k,
                s.row as int,
                s.side() as int,
            ) < n {
                averaged_row(input, s.radius as int)
            } else {
                s.window[k]
            }),
    decreases n,
{
    let m = s.side() as int;
    let r0 = s.row as int;
    if n > 0 {
        lemma_pushes_fill_window(s, input, (n - 1) as nat);
        let p = s.pushed_times(input, (n - 1) as nat);
        let t = s.pushed_times(input, n);
        assert(t == p.pushed(input));
        lemma_mod_wrap(r0 + n - 1, m);
        lemma_mod_wrap(r0 + n, m);
        lemma_mod_wrap((p.row + 1) as int, m);
        assert forall|k: int| 0 <= k < m implies #[trigger] t.window[k] == (if ring_offset(k, r0, m)
            < n {
            averaged_row(input, s.radius as int)
        } else {
            s.window[k]
        }) by {
            lemma_mod_wrap(k - r0 + m, m);
        }
        assert(t.row == (p.row + 1) as int % m);
        assert(t.row == (r0 + n) % m);
    } else {
        lemma_mod_wrap(r0, m);
        assert forall|k: int| 0 <= k < m implies ring_offset(k, r0, m) >= 0 by {
            lemma_mod_wrap(k - r0 + m, m);
        }
    }
}

/// The remainder of a number below twice the modulus.
pub proof fn lemma_mod_wrap(x: int, m: int)
    requires
        0 < m,
        0 <= x < 2 * m,
    ensures
        x % m == (if x < m {
            x
        } else {
            x - m
        }),
{
    if x < m {
        vstd::arithmetic::div_mod::lemma_fundamental_div_mod_converse(x, m, 0, x);
    } else {
        vstd::arithmetic::div_mod::lemma_fundamental_div_mod_converse(x, m, 1, x - m);
    }
}

/// The sum of a column of a window whose rows all hold the same pixel in
/// that column.
pub proof fn lemma_column_of_equal_rows(window: Seq<Seq<Rgb<u8>>>, i: int, ch: int, k: int, v: int)
    requires
        0 <= k <= window.len(),
        forall|j: int| 0 <= j < window.len() ==> chan8(#[trigger] window[j][i], ch) == v,
    ensures
        column_sum(window, i, ch, k) == k * v,
    decreases k,
{
    if k > 0 {
        lemma_column_of_equal_rows(window, i, ch, k - 1, v);
        assert(chan8(window[k - 1][i], ch) == v);
        assert((k - 1) * v + v == k * v) by (nonlinear_arith);
    } else {
        assert(k * v == 0) by (nonlinear_arith)
            requires
                k == 0,
        ;
    }
}

/// The window sum of a row of equal pixels: the number of terms times the
/// pixel's channel.
pub proof fn lemma_window_sum_uniform(inp: Seq<u16>, color: u16, ch: int, lo: int, hi: int)
    requires
        lo <= hi,
        inp.len() > 0,
        forall|j: int| 0 <= j < inp.len() ==> #[trigger] inp[j] == color,
    ensures
        window_sum(inp, ch, lo, hi) == (hi - lo) * chan(color, ch),
    decreases hi - lo,
{
    if lo < hi {
        lemma_window_sum_uniform(inp, color, ch, lo, hi - 1);
        let j = clamp_index(hi - 1, inp.len() as int);
        assert(inp[j] == color);
        assert((hi - 1 - lo) * chan(color, ch) + chan(color, ch) == (hi - lo) * chan(color, ch))
            by (nonlinear_arith);
    } else {
        assert((hi - lo) * chan(color, ch) == 0) by (nonlinear_arith)
            requires
                hi == lo,
        ;
    }
}

/// Uniform input is a fixed point of the filter: after `2 * radius + 1`
/// rows of one color were pushed, the popped row is that color again, for
/// every color and every kernel.
pub proof fn lemma_uniform_rows_are_a_fixed_point(s: BlurState, color: u16)
    requires
        s.wf(),
    ensures
        s.pushed_times(Seq::new(s.width, |i: int| color), s.side()).popped() == Seq::new(
            s.width,
            |i: int| color,
        ),
{
    let input = Seq::new(s.width, |i: int| color);
    let r = s.radius as int;
    let m = s.side() as int;
    let t = s.pushed_times(input, s.side());
    lemma_pushes_fill_window(s, input, s.side());
    lemma_chan_bound(color, 0);
    lemma_chan_bound(color, 1);
    lemma_chan_bound(color, 2);
    let unit = Rgb { r: chan(color, 0) as u8, g: chan(color, 1) as u8, b: chan(color, 2) as u8 };
    let avg = averaged_row(input, r);
    assert forall|i: int| 0 <= i < s.width implies #[trigger] avg[i] == unit by {
        lemma_window_sum_uniform(input, color, 0, i - r, i + r + 1);
        lemma_window_sum_uniform(input, color, 1, i - r, i + r + 1);
        lemma_window_sum_uniform(input, color, 2, i - r, i + r + 1);
        lemma_uniform_scale(chan(color, 0), m);
        lemma_uniform_scale(chan(color, 1), m);
        lemma_uniform_scale(chan(color, 2), m);
    }
    assert forall|k: int| 0 <= k < m implies #[trigger] t.window[k] == avg by {
        lemma_mod_wrap(k - s.row + m, m);
    }
    assert forall|i: int| 0 <= i < s.width implies #[trigger] t.popped()[i] == color by {
        assert forall|j: int| 0 <= j < t.window.len() implies chan8(#[trigger] t.window[j][i], 0)
            == chan(color, 0) && chan8(t.window[j][i], 1) == chan(color, 1) && chan8(
            t.window[j][i],
            2,
        ) == chan(color, 2) by {
            assert(t.window[j] == avg);
            assert(avg[i] == unit);
        }
        lemma_column_of_equal_rows(t.window, i, 0, m, chan(color, 0));
        lemma_column_of_equal_rows(t.window, i, 1, m, chan(color, 1));
        lemma_column_of_equal_rows(t.window, i, 2, m, chan(color, 2));
        lemma_uniform_scale(chan(color, 0), m);
        lemma_uniform_scale(chan(color, 1), m);
        lemma_uniform_scale(chan(color, 2), m);
    }
    assert(t.popped() =~= Seq::new(s.width, |i: int| color));
}

/// The average of `side` equal values in fixed point is the value itself.
pub proof fn lemma_uniform_scale(v: int, side: int)
    requires
        1 <= side <= 9,
        0 <= v <= 255,
    ensures
        scale(side * v, side) == v,
{
    lemma_scale_bound(side * v, side, v, v);
}

/// A window sum is at least the number of its terms times any lower bound
/// on the channel.
pub proof fn lemma_window_sum_least(inp: Seq<u16>, ch: int, lo: int, hi: int, bot: int)
    requires
        lo <= hi,
        inp.len() > 0,
        forall|j: int| 0 <= j < inp.len() ==> bot <= chan(#[trigger] inp[j], ch),
    ensures
        (hi - lo) * bot <= window_sum(inp, ch, lo, hi),
    decreases hi - lo,
{
    if lo < hi {
        lemma_window_sum_least(inp, ch, lo, hi - 1, bot);
        let j = clamp_index(hi - 1, inp.len() as int);
        assert(bot <= chan(inp[j], ch));
        assert((hi - 1 - lo) * bot + bot == (hi - lo) * bot) by (nonlinear_arith);
    } else {
        assert((hi - lo) * bot == 0) by (nonlinear_arith)
            requires
                hi == lo,
        ;
    }
}

/// A column sum is at least the number of its rows times any lower bound
/// on the pixels.
pub proof fn lemma_column_sum_least(window: Seq<Seq<Rgb<u8>>>, i: int, ch: int, k: int, bot: int)
    requires
        0 <= k <= window.len(),
        forall|j: int| 0 <= j < window.len() ==> bot <= chan8(#[trigger] window[j][i], ch),
    ensures
        k * bot <= column_sum(window, i, ch, k),
    decreases k,
{
    if k > 0 {
        lemma_column_sum_least(window, i, ch, k - 1, bot);
        assert(bot <= chan8(window[k - 1][i], ch));
        assert((k - 1) * bot + bot == k * bot) by (nonlinear_arith);
    } else {
        assert(k * bot == 0) by (nonlinear_arith)
            requires
                k == 0,
        ;
    }
}

/// Averaging stays within its input: where every pixel of a row lies
/// between `bot` and `top` in a channel, so does every averaged pixel.
pub proof fn lemma_average_no_overshoot(inp: Seq<u16>, radius: int, i: int, ch: int, bot: int, top: int)
    requires
        0 <= radius <= MAX_RADIUS,
        inp.len() > 0,
        0 <= ch < 3,
        0 <= bot <= top <= 255,
        forall|j: int| 0 <= j < inp.len() ==> bot <= chan(#[trigger] inp[j], ch) <= top,
    ensures
        bot <= chan8(averaged(inp, radius, i), ch) <= top,
{
    let side = 2 * radius + 1;
    lemma_window_sum(inp, ch, i - radius, i + radius + 1, top);
    lemma_window_sum_least(inp, ch, i - radius, i + radius + 1, bot);
    assert((i + radius + 1 - (i - radius)) * top == side * top && (i + radius + 1 - (i - radius))
        * bot == side * bot) by (nonlinear_arith)
        requires
            side == 2 * radius + 1,
    ;
    lemma_scale_bound(window_sum(inp, ch, i - radius, i + radius + 1), side, bot, top);
}

/// Blurring stays within its input: where every pixel of a column of the
/// window lies, in a channel, between that channel of the raw pixel
/// `least` and `top`, so does the popped pixel.
pub proof fn lemma_blur_no_overshoot(
    window: Seq<Seq<Rgb<u8>>>,
    i: int,
    ch: int,
    least: u16,
    top: int,
)
    requires
        1 <= window.len() <= MAX_SIDE,
        0 <= ch < 3,
        chan(least, ch) <= top <= 255,
        forall|j: int|
            0 <= j < window.len() ==> chan(least, ch) <= chan8(#[trigger] window[j][i], ch) <= top,
    ensures
        chan(least, ch) <= chan(blurred(window, i), ch) <= top,
{
    let n = window.len() as int;
    let bot = chan(least, ch);
    lemma_chan_bound(least, ch);
    lemma_column_sum_bound(window, i, 0, n, 255);
    lemma_column_sum_bound(window, i, 1, n, 255);
    lemma_column_sum_bound(window, i, 2, n, 255);
    lemma_column_sum_bound(window, i, ch, n, top);
    lemma_column_sum_least(window, i, ch, n, bot);
    assert(0 <= n * 0) by (nonlinear_arith)
        requires
            0 <= n,
    ;
    lemma_scale_bound(column_sum(window, i, 0, n), n, 0, 255);
    lemma_scale_bound(column_sum(window, i, 1, n), n, 0, 255);
    lemma_scale_bound(column_sum(window, i, 2, n), n, 0, 255);
    lemma_scale_bound(column_sum(window, i, ch, n), n, bot, top);
    let r = scale(column_sum(window, i, 0, n), n) as u8;
    let g = scale(column_sum(window, i, 1, n), n) as u8;
    let b = scale(column_sum(window, i, 2, n), n) as u8;
    let px = Color::of_rgb(r, g, b).0;
    assert(((((((r as u16) & 0xF8) << 8) | (((g as u16) & 0xFC) << 3) | (((b as u16) & 0xF8) >> 3))
        >> 8) & 0xF8) == (r as u16) & 0xF8 && ((((((r as u16) & 0xF8) << 8) | (((g as u16) & 0xFC)
        << 3) | (((b as u16) & 0xF8) >> 3)) >> 3) & 0xFC) == (g as u16) & 0xFC && ((((((r as u16)
        & 0xF8) << 8) | (((g as u16) & 0xFC) << 3) | (((b as u16) & 0xF8) >> 3)) << 3) & 0xF8)
        == (b as u16) & 0xF8) by (bit_vector);
    assert((r as u16) & 0xF8 <= r as u16 && (g as u16) & 0xFC <= g as u16 && (b as u16) & 0xF8
        <= b as u16) by (bit_vector);
    assert(r as u16 >= ((least >> 8) & 0xF8) ==> (r as u16) & 0xF8 >= ((least >> 8) & 0xF8))
        by (bit_vector);
    assert(g as u16 >= ((least >> 3) & 0xFC) ==> (g as u16) & 0xFC >= ((least >> 3) & 0xFC))
        by (bit_vector);
    assert(b as u16 >= ((least << 3) & 0xF8) ==> (b as u16) & 0xF8 >= ((least << 3) & 0xF8))
        by (bit_vector);
}

/// The filter stays within its input: where the window holds the averaged
/// rows of `2 * radius + 1` source rows whose pixels all lie, in a
/// channel, between that channel of the raw pixels `least` and `most`, so
/// does every popped pixel.
pub proof fn lemma_filter_stays_within_its_input(
    rows: Seq<Seq<u16>>,
    radius: int,
    i: int,
    ch: int,
    least: u16,
    most: u16,
)
    requires
        0 <= radius <= MAX_RADIUS,
        rows.len() == 2 * radius + 1,
        0 <= ch < 3,
        forall|k: int| 0 <= k < rows.len() ==> 0 <= i < (#[trigger] rows[k]).len(),
        forall|k: int, j: int|
            0 <= k < rows.len() && 0 <= j < rows[k].len() ==> chan(least, ch) <= chan(
                #[trigger] rows[k][j],
                ch,
            ) <= chan(most, ch),
    ensures
        chan(least, ch) <= chan(
            blurred(Seq::new(rows.len(), |k: int| averaged_row(rows[k], radius)), i),
            ch,
        ) <= chan(most, ch),
{
    let window = Seq::new(rows.len(), |k: int| averaged_row(rows[k], radius));
    lemma_chan_bound(least, ch);
    lemma_chan_bound(most, ch);
    assert(chan(least, ch) <= chan(rows[0][i], ch) <= chan(most, ch));
    assert forall|k: int| 0 <= k < window.len() implies chan(least, ch) <= chan8(
        #[trigger] window[k][i],
        ch,
    ) <= chan(most, ch) by {
        assert(0 <= i < rows[k].len());
        lemma_average_no_overshoot(rows[k], radius, i, ch, chan(least, ch), chan(most, ch));
    }
    lemma_blur_no_overshoot(window, i, ch, least, chan(most, ch));
}

} // verus!
