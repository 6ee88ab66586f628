//! Colors in the 16-bit RGB565 format, font identifiers and the small
//! color helpers of the text layer.

use vstd::prelude::*;
use crate::canvas::raster::Raster;
use crate::canvas::rgb::RgbCanvas;
use crate::geometry::{fits, max_i16, min_i16, max_int, min_int, Offset, Point, Rect};
use crate::canvas::arcs::Frame;

verus! {

/// Width of the panel in pixels.
pub const WIDTH: i16 = 240;

/// Height of the panel in pixels.
pub const HEIGHT: i16 = 240;

/// Lowest progress value of a loader.
pub const LOADER_MIN: u16 = 0;

/// Highest progress value of a loader.
pub const LOADER_MAX: u16 = 1000;

/// A color in RGB565: five bits of red, six of green, five of blue.
#[derive(Copy, Clone, Debug, PartialEq, Eq, Structural)]
pub struct Color(pub u16);

/// The five-bit red field of a raw RGB565 value.
pub open spec fn red5(v: u16) -> u16 {
    (v & 0xF800) >> 11
}

/// The six-bit green field of a raw RGB565 value.
pub open spec fn green6(v: u16) -> u16 {
    (v & 0x07E0) >> 5
}

/// The five-bit blue field of a raw RGB565 value.
pub open spec fn blue5(v: u16) -> u16 {
    v & 0x001F
}

/// The raw RGB565 value with the given fields.
pub open spec fn pack565(r: u16, g: u16, b: u16) -> u16 {
    (r << 11) | (g << 5) | b
}

/// One channel of an alpha blend on a scale of 0 to 255.
pub open spec fn mix255(fg: int, bg: int, alpha: int) -> int {
    (fg * alpha + bg * (255 - alpha)) / 255
}

/// One channel of an interpolation on a scale of 0 to 15.
pub open spec fn mix15(c0: int, c1: int, step: int) -> int {
    (c0 * step + c1 * (15 - step)) / 15
}

/// One channel of an alpha blend on a scale of 0 to 256.
pub open spec fn mix256(bg: int, fg: int, alpha: int) -> int {
    ((256 - alpha) * bg + alpha * fg) / 256
}

/// Packing fields that are in range and unpacking again gives the fields
/// back.
pub proof fn lemma_pack_unpack(r: u16, g: u16, b: u16)
    requires
        r < 32,
        g < 64,
        b < 32,
    ensures
        red5(pack565(r, g, b)) == r,
        green6(pack565(r, g, b)) == g,
        blue5(pack565(r, g, b)) == b,
{
    assert(((((r << 11) | (g << 5) | b) & 0xF800) >> 11) == r && ((((r << 11) | (g << 5) | b)
        & 0x07E0) >> 5) == g && (((r << 11) | (g << 5) | b) & 0x001F) == b) by (bit_vector)
        requires
            r < 32,
            g < 64,
            b < 32,
    ;
}

/// The fields of a raw value are in range, and packing them gives the
/// value back.
pub proof fn lemma_unpack_pack(v: u16)
    ensures
        red5(v) < 32,
        green6(v) < 64,
        blue5(v) < 32,
        pack565(red5(v), green6(v), blue5(v)) == v,
{
    assert(((v & 0xF800) >> 11) < 32 && ((v & 0x07E0) >> 5) < 64 && (v & 0x001F) < 32 && ((((v
        & 0xF800) >> 11) << 11) | (((v & 0x07E0) >> 5) << 5) | (v & 0x001F)) == v)
        by (bit_vector);
}

impl Color {
    /// The raw RGB565 value.
    pub open spec fn raw(self) -> u16 {
        self.0
    }

    /// Red on a scale of 0 to 255, the low three bits zero.
    pub open spec fn red8(self) -> u8 {
        ((self.0 >> 8) as u8) & 0xF8
    }

    /// Green on a scale of 0 to 255, the low two bits zero.
    pub open spec fn green8(self) -> u8 {
        ((self.0 >> 3) as u8) & 0xFC
    }

    /// Blue on a scale of 0 to 255, the low three bits zero.
    pub open spec fn blue8(self) -> u8 {
        ((self.0 << 3) as u8) & 0xF8
    }

    /// The color with the given 8-bit channels, each cut to the bits that
    /// RGB565 keeps.
    pub open spec fn of_rgb(r: u8, g: u8, b: u8) -> Color {
        Color((((r as u16) & 0xF8) << 8) | (((g as u16) & 0xFC) << 3) | (((b as u16) & 0xF8) >> 3))
    }

    /// The blend of `fg` over this color with weight `alpha` out of 255,
    /// channel by channel on the RGB565 fields.
    pub open spec fn blended(self, fg: Color, alpha: u8) -> Color {
        Color(
            pack565(
                mix255(red5(fg.0) as int, red5(self.0) as int, alpha as int) as u16,
                mix255(green6(fg.0) as int, green6(self.0) as int, alpha as int) as u16,
                mix255(blue5(fg.0) as int, blue5(self.0) as int, alpha as int) as u16,
            ),
        )
    }

    pub fn from_u16(val: u16) -> (c: Self)
        ensures
            c == Color(val),
    {
        Color(val)
    }

    pub fn white() -> (c: Self)
        ensures
            c == Color(0xFFFF),
    {
        Color(0xFFFF)
    }

    pub fn black() -> (c: Self)
        ensures
            c == Color(0),
    {
        Color(0)
    }

    /// The color nearest below the given 8-bit channels.
    pub fn rgb(r: u8, g: u8, b: u8) -> (c: Self)
        ensures
            c == Color::of_rgb(r, g, b),
            c.red8() == r & 0xF8,
            c.green8() == g & 0xFC,
            c.blue8() == b & 0xF8,
    {
        let rr: u16 = (r as u16 & 0xF8) << 8;
        let gg: u16 = (g as u16 & 0xFC) << 3;
        let bb: u16 = (b as u16 & 0xF8) >> 3;
        let v: u16 = rr | gg | bb;
        proof {
            assert((((((((r as u16) & 0xF8) << 8) | (((g as u16) & 0xFC) << 3) | (((b as u16)
                & 0xF8) >> 3)) >> 8) as u8) & 0xF8) == r & 0xF8) by (bit_vector);
            assert((((((((r as u16) & 0xF8) << 8) | (((g as u16) & 0xFC) << 3) | (((b as u16)
                & 0xF8) >> 3)) >> 3) as u8) & 0xFC) == g & 0xFC) by (bit_vector);
            assert((((((((r as u16) & 0xF8) << 8) | (((g as u16) & 0xFC) << 3) | (((b as u16)
                & 0xF8) >> 3)) << 3) as u8) & 0xF8) == b & 0xF8) by (bit_vector);
        }
        Color(v)
    }

    /// Red on a scale of 0 to 255.
    pub fn r(self) -> (v: u8)
        ensures
            v == self.red8(),
            v as int == 8 * red5(self.0),
    {
        proof {
            let x = self.0;
            assert((((x >> 8) as u8) & 0xF8) as int == 8 * (((x & 0xF800) >> 11) as int))
                by (bit_vector);
        }
        (self.0 >> 8) as u8 & 0xF8
    }

    /// Green on a scale of 0 to 255.
    pub fn g(self) -> (v: u8)
        ensures
            v == self.green8(),
            v as int == 4 * green6(self.0),
    {
        proof {
            let x = self.0;
            assert((((x >> 3) as u8) & 0xFC) as int == 4 * (((x & 0x07E0) >> 5) as int))
                by (bit_vector);
        }
        (self.0 >> 3) as u8 & 0xFC
    }

    /// Blue on a scale of 0 to 255.
    pub fn b(self) -> (v: u8)
        ensures
            v == self.blue8(),
            v as int == 8 * blue5(self.0),
    {
        proof {
            let x = self.0;
            assert((((x << 3) as u8) & 0xF8) as int == 8 * ((x & 0x001F) as int)) by (bit_vector);
        }
        (self.0 << 3) as u8 & 0xF8
    }

    pub fn to_u16(self) -> (v: u16)
        ensures
            v == self.0,
    {
        self.0
    }

    /// The color with every bit flipped.
    pub fn negate(self) -> (c: Self)
        ensures
            c == Color(!self.0),
    {
        Color(!self.0)
    }

    /// Blends the 8-bit color `(r, g, b)` over `bg` with weight `alpha` out
    /// of 256.
    pub fn rgba(bg: Color, r: u8, g: u8, b: u8, alpha: u16) -> (c: Self)
        requires
            alpha <= 256,
        ensures
            c == Color::of_rgb(
                mix256(bg.red8() as int, r as int, alpha as int) as u8,
                mix256(bg.green8() as int, g as int, alpha as int) as u8,
                mix256(bg.blue8() as int, b as int, alpha as int) as u8,
            ),
    {
        let r_u16: u16 = r as u16;
        let g_u16: u16 = g as u16;
        let b_u16: u16 = b as u16;
        let br: u16 = bg.r() as u16;
        let bgr: u16 = bg.g() as u16;
        let bb: u16 = bg.b() as u16;
        assert((256 - alpha) * br + alpha * r_u16 <= 256 * 255) by (nonlinear_arith)
            requires
                alpha <= 256,
                br <= 255,
                r_u16 <= 255,
        ;
        assert((256 - alpha) * bgr + alpha * g_u16 <= 256 * 255) by (nonlinear_arith)
            requires
                alpha <= 256,
                bgr <= 255,
                g_u16 <= 255,
        ;
        assert((256 - alpha) * bb + alpha * b_u16 <= 256 * 255) by (nonlinear_arith)
            requires
                alpha <= 256,
                bb <= 255,
                b_u16 <= 255,
        ;
        let sr: u16 = (256 - alpha) * br + alpha * r_u16;
        let sg: u16 = (256 - alpha) * bgr + alpha * g_u16;
        let sb: u16 = (256 - alpha) * bb + alpha * b_u16;
        let mr: u16 = sr / 256;
        let mg: u16 = sg / 256;
        let mb: u16 = sb / 256;
        Color::rgb(mr as u8, mg as u8, mb as u8)
    }

    /// Alpha-composites `fg` over this color: each RGB565 field becomes
    /// `(fg * alpha + bg * (255 - alpha)) / 255`.
    pub fn blend(self, fg: Color, alpha: u8) -> (c: Color)
        ensures
            c == self.blended(fg, alpha),
            red5(c.0) == mix255(red5(fg.0) as int, red5(self.0) as int, alpha as int),
            green6(c.0) == mix255(green6(fg.0) as int, green6(self.0) as int, alpha as int),
            blue5(c.0) == mix255(blue5(fg.0) as int, blue5(self.0) as int, alpha as int),
            alpha == 255 ==> c == fg,
            alpha == 0 ==> c == self,
    {
        let a: u16 = alpha as u16;
        let fg_r: u16 = (fg.to_u16() & 0xF800) >> 11;
        let bg_r: u16 = (self.to_u16() & 0xF800) >> 11;
        let fg_g: u16 = (fg.to_u16() & 0x07E0) >> 5;
        let bg_g: u16 = (self.to_u16() & 0x07E0) >> 5;
        let fg_b: u16 = fg.to_u16() & 0x001F;
        let bg_b: u16 = self.to_u16() & 0x001F;
        proof {
            lemma_unpack_pack(fg.0);
            lemma_unpack_pack(self.0);
            lemma_mix255_bound(fg_r as int, bg_r as int, a as int, 31);
            lemma_mix255_bound(fg_g as int, bg_g as int, a as int, 63);
            lemma_mix255_bound(fg_b as int, bg_b as int, a as int, 31);
        }
        let r: u16 = (fg_r * a + (bg_r * (255 - a))) / 255;
        let g: u16 = (fg_g * a + (bg_g * (255 - a))) / 255;
        let b: u16 = (fg_b * a + (bg_b * (255 - a))) / 255;
        proof {
            lemma_pack_unpack(r, g, b);
        }
        Color((r << 11) | (g << 5) | b)
    }
}

/// A blend of two channel values that are at most `top` is at most `top`,
/// does not overflow sixteen bits on the way, and gives the foreground at
/// full weight and the background at none.
pub proof fn lemma_mix255_bound(fg: int, bg: int, alpha: int, top: int)
    requires
        0 <= fg <= top,
        0 <= bg <= top,
        0 <= alpha <= 255,
        top <= 255,
    ensures
        0 <= fg * alpha + bg * (255 - alpha) <= 255 * top,
        0 <= fg * alpha,
        0 <= bg * (255 - alpha),
        fg * alpha <= 255 * top,
        bg * (255 - alpha) <= 255 * top,
        0 <= mix255(fg, bg, alpha) <= top,
        alpha == 255 ==> mix255(fg, bg, alpha) == fg,
        alpha == 0 ==> mix255(fg, bg, alpha) == bg,
        min_int(fg, bg) <= mix255(fg, bg, alpha) <= max_int(fg, bg),
{
    assert(0 <= fg * alpha <= top * alpha) by (nonlinear_arith)
        requires
            0 <= fg <= top,
            0 <= alpha,
    ;
    assert(0 <= bg * (255 - alpha) <= top * (255 - alpha)) by (nonlinear_arith)
        requires
            0 <= bg <= top,
            0 <= 255 - alpha,
    ;
    assert(top * alpha + top * (255 - alpha) == 255 * top) by (nonlinear_arith);
    let lo = min_int(fg, bg);
    let hi = max_int(fg, bg);
    assert(lo * alpha <= fg * alpha <= hi * alpha) by (nonlinear_arith)
        requires
            lo <= fg <= hi,
            0 <= alpha,
    ;
    assert(lo * (255 - alpha) <= bg * (255 - alpha) <= hi * (255 - alpha)) by (nonlinear_arith)
        requires
            lo <= bg <= hi,
            0 <= 255 - alpha,
    ;
    assert(lo * alpha + lo * (255 - alpha) == 255 * lo) by (nonlinear_arith);
    assert(hi * alpha + hi * (255 - alpha) == 255 * hi) by (nonlinear_arith);
    let s = fg * alpha + bg * (255 - alpha);
    assert(255 * lo <= s <= 255 * hi);
    assert(lo <= s / 255 <= hi) by (nonlinear_arith)
        requires
            255 * lo <= s <= 255 * hi,
    ;
    if alpha == 255 {
        assert(fg * 255 / 255 == fg) by (nonlinear_arith);
        assert(bg * (255 - alpha) == 0) by (nonlinear_arith)
            requires
                alpha == 255,
        ;
    }
    if alpha == 0 {
        assert(bg * 255 / 255 == bg) by (nonlinear_arith);
        assert(fg * alpha == 0) by (nonlinear_arith)
            requires
                alpha == 0,
        ;
    }
}

/// A blend at full weight gives the foreground, and one at no weight
/// leaves the background.
pub proof fn lemma_blended_ends(bg: Color, fg: Color)
    ensures
        bg.blended(fg, 255) == fg,
        bg.blended(fg, 0) == bg,
{
    lemma_unpack_pack(fg.0);
    lemma_unpack_pack(bg.0);
    lemma_mix255_bound(red5(fg.0) as int, red5(bg.0) as int, 255, 31);
    lemma_mix255_bound(green6(fg.0) as int, green6(bg.0) as int, 255, 63);
    lemma_mix255_bound(blue5(fg.0) as int, blue5(bg.0) as int, 255, 31);
    lemma_mix255_bound(red5(fg.0) as int, red5(bg.0) as int, 0, 31);
    lemma_mix255_bound(green6(fg.0) as int, green6(bg.0) as int, 0, 63);
    lemma_mix255_bound(blue5(fg.0) as int, blue5(bg.0) as int, 0, 31);
}

/// Identifier of a font of the text provider.
#[derive(Copy, Clone, Debug, PartialEq, Eq, Structural)]
pub struct Font(pub i32);

impl Font {
    pub fn new(id: i32) -> (f: Self)
        ensures
            f == Font(id),
    {
        Font(id)
    }

    /// The regular font.
    pub fn normal() -> (f: Self)
        ensures
            f == Font(-1i32),
    {
        Font(-1)
    }

    /// The bold font.
    pub fn bold() -> (f: Self)
        ensures
            f == Font(-2i32),
    {
        Font(-2)
    }

    /// The monospace font.
    pub fn mono() -> (f: Self)
        ensures
            f == Font(-3i32),
    {
        Font(-3)
    }

    /// The identifier handed to the text provider.
    pub fn id(self) -> (i: i32)
        ensures
            i == self.0,
    {
        self.0
    }
}

/// The part of the rectangle at `pos` with the given size that lies on the
/// panel.
pub fn clamp_coords(pos: Point, size: Offset) -> (r: Rect)
    requires
        fits(pos.x + size.x),
        fits(pos.y + size.y),
    ensures
        r.x0 == max_int(pos.x as int, 0),
        r.y0 == max_int(pos.y as int, 0),
        r.x1 == min_int(pos.x + size.x, WIDTH as int),
        r.y1 == min_int(pos.y + size.y, HEIGHT as int),
{
    let x0 = max_i16(pos.x, 0);
    let y0 = max_i16(pos.y, 0);
    let x1 = min_i16(pos.x + size.x, WIDTH);
    let y1 = min_i16(pos.y + size.y, HEIGHT);
    Rect::new(Point::new(x0, y0), Point::new(x1, y1))
}

/// The color `step` fifteenths of the way from `color1` to `color0`,
/// channel by channel on the 8-bit scale.
pub open spec fn interpolated(color0: Color, color1: Color, step: u16) -> Color {
    Color::of_rgb(
        mix15(color0.red8() as int, color1.red8() as int, step as int) as u8,
        mix15(color0.green8() as int, color1.green8() as int, step as int) as u8,
        mix15(color0.blue8() as int, color1.blue8() as int, step as int) as u8,
    )
}

/// Interpolates between two colors in sixteen steps: step 15 is `color0`,
/// step 0 is `color1`.
pub fn interpolate_colors(color0: Color, color1: Color, step: u16) -> (c: Color)
    requires
        step <= 15,
    ensures
        c == interpolated(color0, color1, step),
{
    let r0: u16 = color0.r() as u16;
    let g0: u16 = color0.g() as u16;
    let b0: u16 = color0.b() as u16;
    let r1: u16 = color1.r() as u16;
    let g1: u16 = color1.g() as u16;
    let b1: u16 = color1.b() as u16;
    proof {
        lemma_mix15_bound(r0 as int, r1 as int, step as int);
        lemma_mix15_bound(g0 as int, g1 as int, step as int);
        lemma_mix15_bound(b0 as int, b1 as int, step as int);
    }
    let cr: u16 = (r0 * step + r1 * (15 - step)) / 15;
    let cg: u16 = (g0 * step + g1 * (15 - step)) / 15;
    let cb: u16 = (b0 * step + b1 * (15 - step)) / 15;
    Color::rgb(cr as u8, cg as u8, cb as u8)
}

/// An interpolation of two 8-bit channel values stays an 8-bit value and
/// does not overflow sixteen bits on the way.
pub proof fn lemma_mix15_bound(c0: int, c1: int, step: int)
    requires
        0 <= c0 <= 255,
        0 <= c1 <= 255,
        0 <= step <= 15,
    ensures
        0 <= c0 * step <= 255 * 15,
        0 <= c1 * (15 - step) <= 255 * 15,
        0 <= c0 * step + c1 * (15 - step) <= 255 * 15,
        0 <= mix15(c0, c1, step) <= 255,
{
    assert(0 <= c0 * step <= 255 * step) by (nonlinear_arith)
        requires
            0 <= c0 <= 255,
            0 <= step,
    ;
    assert(0 <= c1 * (15 - step) <= 255 * (15 - step)) by (nonlinear_arith)
        requires
            0 <= c1 <= 255,
            0 <= 15 - step,
    ;
}

/// The sixteen colors from `bg_color` (entry 0) to `fg_color` (entry 15).
pub fn get_color_table(fg_color: Color, bg_color: Color) -> (table: [Color; 16])
    ensures
        forall|i: int| 0 <= i < 16 ==> table[i] == interpolated(fg_color, bg_color, i as u16),
{
    let mut table: [Color; 16] = [Color(0); 16];
    let mut i: usize = 0;
    while i < 16
        invariant
            i <= 16,
            forall|j: int| 0 <= j < i ==> table[j] == interpolated(fg_color, bg_color, j as u16),
        decreases 16 - i,
    {
        table[i] = interpolate_colors(fg_color, bg_color, i as u16);
        i += 1;
    }
    table
}

/// Bits per pixel of the glyphs of the fonts.
pub const FONT_BPP: i32 = 4;

/// The bitmap of one character with its metrics.
#[derive(Copy, Clone)]
pub struct Glyph<'a> {
    pub width: i32,
    pub height: i32,
    pub adv: i32,
    pub bearing_x: i32,
    pub bearing_y: i32,
    /// The pixels row after row without gaps between the rows, the first
    /// pixel of a byte in its highest bits.
    pub data: &'a [u8],
}

impl<'a> Glyph<'a> {
    pub fn new(width: i32, height: i32, adv: i32, bearing_x: i32, bearing_y: i32, data: &'a [u8])
        -> (g: Self)
        ensures
            g.width == width,
            g.height == height,
            g.adv == adv,
            g.bearing_x == bearing_x,
            g.bearing_y == bearing_y,
            g.data == data,
    {
        Glyph { width, height, adv, bearing_x, bearing_y, data }
    }

    /// Pixel number `a` of a glyph of one bit per pixel, on a scale of 0
    /// to 15.
    pub open spec fn bpp1(self, a: int) -> int {
        (((self.data@[a / 8] >> ((7 - a % 8) as u8)) & 0x01) * 15) as int
    }

    /// Pixel number `a` of a glyph of two bits per pixel, on a scale of 0
    /// to 15.
    pub open spec fn bpp2(self, a: int) -> int {
        (((self.data@[a / 4] >> ((6 - (a % 4) * 2) as u8)) & 0x03) * 5) as int
    }

    /// Pixel number `a` of a glyph of four bits per pixel.
    pub open spec fn bpp4(self, a: int) -> int {
        ((self.data@[a / 2] >> ((4 - (a % 2) * 4) as u8)) & 0x0F) as int
    }

    /// Pixel number `a` of a glyph of eight bits per pixel, on a scale of
    /// 0 to 15.
    pub open spec fn bpp8(self, a: int) -> int {
        (self.data@[a] >> 4u8) as int
    }

    pub fn unpack_bpp1(&self, a: i32) -> (c: u8)
        requires
            0 <= a,
            a / 8 < self.data@.len(),
        ensures
            c == self.bpp1(a as int),
            c == 0 || c == 15,
    {
        let byte: u8 = self.data[(a / 8) as usize];
        let sh: u8 = (7 - a % 8) as u8;
        let bit: u8 = (byte >> sh) & 0x01;
        assert(bit <= 1) by (bit_vector)
            requires
                bit == (byte >> sh) & 0x01,
        ;
        bit * 15
    }

    pub fn unpack_bpp2(&self, a: i32) -> (c: u8)
        requires
            0 <= a,
            a / 4 < self.data@.len(),
        ensures
            c == self.bpp2(a as int),
            c <= 15,
    {
        let byte: u8 = self.data[(a / 4) as usize];
        let sh: u8 = (6 - (a % 4) * 2) as u8;
        let two: u8 = (byte >> sh) & 0x03;
        assert(two <= 3) by (bit_vector)
            requires
                two == (byte >> sh) & 0x03,
        ;
        two * 5
    }

    pub fn unpack_bpp4(&self, a: i32) -> (c: u8)
        requires
            0 <= a,
            a / 2 < self.data@.len(),
        ensures
            c == self.bpp4(a as int),
            c <= 15,
    {
        let byte: u8 = self.data[(a / 2) as usize];
        let sh: u8 = (4 - (a % 2) * 4) as u8;
        let nib: u8 = (byte >> sh) & 0x0F;
        assert(nib <= 15) by (bit_vector)
            requires
                nib == (byte >> sh) & 0x0F,
        ;
        nib
    }

    pub fn unpack_bpp8(&self, a: i32) -> (c: u8)
        requires
            0 <= a < self.data@.len(),
        ensures
            c == self.bpp8(a as int),
            c <= 15,
    {
        let byte: u8 = self.data[a as usize];
        let c: u8 = byte >> 4u8;
        assert(c <= 15) by (bit_vector)
            requires
                c == byte >> 4u8,
        ;
        c
    }

    pub fn get_advance(&self) -> (v: i32)
        ensures
            v == self.adv,
    {
        self.adv
    }

    pub fn get_width(&self) -> (v: i32)
        ensures
            v == self.width,
    {
        self.width
    }

    pub fn get_height(&self) -> (v: i32)
        ensures
            v == self.height,
    {
        self.height
    }

    pub fn get_bearing_x(&self) -> (v: i32)
        ensures
            v == self.bearing_x,
    {
        self.bearing_x
    }

    pub fn get_bearing_y(&self) -> (v: i32)
        ensures
            v == self.bearing_y,
    {
        self.bearing_y
    }

    /// True when the glyph can be printed at `pos`: its bearings and its
    /// size are 16-bit numbers, and so are the corners of its box.
    pub open spec fn prints_at(self, pos: Point) -> bool {
        &&& fits(self.bearing_x as int)
        &&& fits(-self.bearing_y)
        &&& fits(self.width as int)
        &&& fits(self.height as int)
        &&& fits(pos.x + self.bearing_x)
        &&& fits(pos.y - self.bearing_y)
        &&& fits(pos.x + self.bearing_x + self.width)
        &&& fits(pos.y - self.bearing_y + self.height)
    }

    /// The part of the panel that the glyph covers when it is printed with
    /// the start of its baseline at `pos`: its box, moved right by the one
    /// bearing and up by the other, cut to the panel.
    pub fn window(&self, pos: Point) -> (r: Rect)
        requires
            self.prints_at(pos),
        ensures
            r.x0 == max_int(pos.x + self.bearing_x, 0),
            r.y0 == max_int(pos.y - self.bearing_y, 0),
            r.x1 == min_int(pos.x + self.bearing_x + self.width, WIDTH as int),
            r.y1 == min_int(pos.y - self.bearing_y + self.height, HEIGHT as int),
    {
        let pos_adj = Point::new(
            (pos.x as i32 + self.bearing_x) as i16,
            (pos.y as i32 - self.bearing_y) as i16,
        );
        let size = Offset::new(self.width as i16, self.height as i16);
        clamp_coords(pos_adj, size)
    }

    /// True when the glyph holds the pixel `(x, y)`.
    pub open spec fn has_pixel(self, x: int, y: int) -> bool {
        &&& 0 <= x < self.width
        &&& 0 <= y
        &&& x + y * self.width <= i32::MAX
        &&& (x + y * self.width) / 2 < self.data@.len()
    }

    /// The coverage, 0 to 15, of the pixel `(x, y)` of the glyph.
    pub fn get_pixel_data(&self, x: i32, y: i32) -> (c: u8)
        requires
            self.has_pixel(x as int, y as int),
        ensures
            c == self.bpp4(x + y * self.width),
            c <= 15,
    {
        assert(0 <= y * self.width) by (nonlinear_arith)
            requires
                0 <= y,
                0 <= self.width,
        ;
        let a: i32 = x + y * self.width;
        self.unpack_bpp4(a)
    }
}

/// Effect of the outline of a rectangle, one pixel wide: the top and the
/// bottom row, then the left and the right column.
pub open spec fn stroked(s: Raster, r: Rect, c: Color) -> Raster {
    s.fill_rect(Rect { y1: (r.y0 + 1) as i16, ..r }, c).fill_rect(
        Rect { y0: (r.y1 - 1) as i16, ..r },
        c,
    ).fill_rect(Rect { x1: (r.x0 + 1) as i16, ..r }, c).fill_rect(
        Rect { x0: (r.x1 - 1) as i16, ..r },
        c,
    )
}

/// Effect of a filled rectangle whose four corner pixels have the
/// background color.
pub open spec fn rounded1(s: Raster, r: Rect, fg: Color, bg: Color) -> Raster {
    s.fill_rect(r, fg).draw_pixel(Point { x: r.x0, y: r.y0 }, bg).draw_pixel(
        Point { x: (r.x1 - 1) as i16, y: r.y0 },
        bg,
    ).draw_pixel(Point { x: (r.x1 - 1) as i16, y: (r.y1 - 1) as i16 }, bg).draw_pixel(
        Point { x: r.x0, y: (r.y1 - 1) as i16 },
        bg,
    )
}

/// Effect of the dots of a dotted line from the column `x` on: every
/// second pixel of the row `y` up to the column `end`.
pub open spec fn dotted(s: Raster, x: int, y: i16, end: int, c: Color) -> Raster
    decreases end - x + 2,
{
    if x >= end {
        s
    } else {
        dotted(s.draw_pixel(Point { x: x as i16, y }, c), x + 2, y, end, c)
    }
}

/// Fills a rectangle.
pub fn rect_fill<C: RgbCanvas>(canvas: &mut C, r: Rect, fg_color: Color)
    requires
        old(canvas).model().wf(),
        r.can_translate(old(canvas).model().viewport.origin),
    ensures
        final(canvas).model() == old(canvas).model().fill_rect(r, fg_color),
        final(canvas).model().wf(),
{
    canvas.fill_rect(r, fg_color);
}

/// True when the outline of the rectangle `r` can be drawn under the
/// origin `origin`: the inner edges of its four strips are 16-bit numbers,
/// and the strips are representable once moved by the origin.
pub open spec fn stroke_lands(r: Rect, origin: Offset) -> bool {
    &&& fits(r.x0 + 1) && fits(r.x1 - 1) && fits(r.y0 + 1) && fits(r.y1 - 1)
    &&& r.can_translate(origin)
    &&& fits(r.x0 + 1 + origin.x) && fits(r.x1 - 1 + origin.x)
    &&& fits(r.y0 + 1 + origin.y) && fits(r.y1 - 1 + origin.y)
}

/// Draws the outline of a rectangle, one pixel wide.
pub fn rect_stroke<C: RgbCanvas>(canvas: &mut C, r: Rect, fg_color: Color)
    requires
        old(canvas).model().wf(),
        stroke_lands(r, old(canvas).model().viewport.origin),
    ensures
        final(canvas).model() == stroked(old(canvas).model(), r, fg_color),
        final(canvas).model().wf(),
{
    canvas.fill_rect(Rect { y1: r.y0 + 1, ..r }, fg_color);
    canvas.fill_rect(Rect { y0: r.y1 - 1, ..r }, fg_color);
    canvas.fill_rect(Rect { x1: r.x0 + 1, ..r }, fg_color);
    canvas.fill_rect(Rect { x0: r.x1 - 1, ..r }, fg_color);
}

/// Fills a rectangle and leaves its four corner pixels in the background
/// color.
pub fn rect_fill_rounded1<C: RgbCanvas>(canvas: &mut C, r: Rect, fg_color: Color, bg_color: Color)
    requires
        old(canvas).model().wf(),
        stroke_lands(r, old(canvas).model().viewport.origin),
    ensures
        final(canvas).model() == rounded1(old(canvas).model(), r, fg_color, bg_color),
        final(canvas).model().wf(),
{
    canvas.fill_rect(r, fg_color);
    canvas.draw_pixel(Point::new(r.x0, r.y0), bg_color);
    canvas.draw_pixel(Point::new(r.x1 - 1, r.y0), bg_color);
    canvas.draw_pixel(Point::new(r.x1 - 1, r.y1 - 1), bg_color);
    canvas.draw_pixel(Point::new(r.x0, r.y1 - 1), bg_color);
}

/// True when the column `x` of a progress bar is drawn inverted: it lies
/// in the filled part, which goes from `fill_from` to `fill_to` and, where
/// `fill_to` lies before `fill_from`, round the end of the bar.
pub open spec fn bar_inverted(x: int, fill_from: int, fill_to: int) -> bool {
    (x >= fill_from && fill_from >= 0 && (x <= fill_to || fill_to < fill_from)) || (x < fill_to
        && fill_to >= 0)
}

/// True when `(x, y)` lies in one of the four corner blocks of two by two
/// pixels of a bar of the given size and is the one pixel of that block
/// that is nearest to the middle of the bar, if `inner`, or one of the
/// three others, if not.
pub open spec fn bar_corner(x: int, y: int, width: int, height: int, inner: bool) -> bool {
    ||| x < 2 && y < 2 && (x == 1 && y == 1) == inner
    ||| x < 2 && y > height - 3 && (x == 1 && y == height - 2) == inner
    ||| x > width - 3 && y < 2 && (x == width - 2 && y == 1) == inner
    ||| x > width - 3 && y > height - 3 && (x == width - 2 && y == height - 2) == inner
}

/// The color of the pixel `(x, y)` of a progress bar with rounded corners
/// two pixels wide: the outer pixels of the corner blocks have the
/// background color; the border and the inner pixels of the corner blocks
/// have the foreground color; inside, the filled part has the foreground
/// color and the rest the background color. Where the text of the bar
/// covers the pixel, the color is flipped.
pub open spec fn bar_pixel(
    x: int,
    y: int,
    width: int,
    height: int,
    fill_from: int,
    fill_to: int,
    on_text: bool,
    fg: Color,
    bg: Color,
) -> Color {
    let border = x == 0 || x == width - 1 || y == 0 || y == height - 1;
    let under = if bar_corner(x, y, width, height, false) {
        bg
    } else if border || bar_corner(x, y, width, height, true) {
        fg
    } else if bar_inverted(x, fill_from, fill_to) {
        fg
    } else {
        bg
    };
    if on_text {
        Color(!under.0)
    } else {
        under
    }
}

/// Computes the color of one pixel of a progress bar with rounded
/// corners.
pub fn rect_rounded2_pixel(
    x: i32,
    y: i32,
    width: i32,
    height: i32,
    fill_from: i32,
    fill_to: i32,
    on_text: bool,
    fg_color: Color,
    bg_color: Color,
) -> (c: Color)
    requires
        0 <= width,
        0 <= height,
    ensures
        c == bar_pixel(
            x as int,
            y as int,
            width as int,
            height as int,
            fill_from as int,
            fill_to as int,
            on_text,
            fg_color,
            bg_color,
        ),
{
    let inverted = (x >= fill_from && fill_from >= 0 && (x <= fill_to || fill_to < fill_from)) || (x
        < fill_to && fill_to >= 0);
    let border = x == 0 || x == width - 1 || y == 0 || y == height - 1;
    let left = x < 2;
    let right = x > width - 3;
    let top = y < 2;
    let bottom = y > height - 3;
    let mut corner_out = false;
    let mut corner_pix = false;
    if left && top {
        if x == 1 && y == 1 {
            corner_pix = true;
        } else {
            corner_out = true;
        }
    }
    if left && bottom {
        if x == 1 && y == height - 2 {
            corner_pix = true;
        } else {
            corner_out = true;
        }
    }
    if right && top {
        if x == width - 2 && y == 1 {
            corner_pix = true;
        } else {
            corner_out = true;
        }
    }
    if right && bottom {
        if x == width - 2 && y == height - 2 {
            corner_pix = true;
        } else {
            corner_out = true;
        }
    }
    let under = if corner_out {
        bg_color
    } else if border || corner_pix {
        fg_color
    } else if inverted {
        fg_color
    } else {
        bg_color
    };
    if on_text {
        under.negate()
    } else {
        under
    }
}

/// True for the corner radii that a rounded bar can have.
pub open spec fn is_corner_radius(radius: u8) -> bool {
    radius == 2 || radius == 4 || radius == 8 || radius == 16
}

/// Tells whether a rounded bar can have the corner radius `radius`.
pub fn rounded_radius_ok(radius: u8) -> (ok: bool)
    ensures
        ok == is_corner_radius(radius),
{
    radius == 2 || radius == 4 || radius == 8 || radius == 16
}

/// Fills a rectangle with rounded corners of the given radius; what the
/// rounding leaves out of the rectangle takes the background color.
pub fn rect_fill_rounded<C: RgbCanvas>(
    canvas: &mut C,
    r: Rect,
    fg_color: Color,
    bg_color: Color,
    radius: u8,
)
    requires
        old(canvas).model().wf(),
        r.can_translate(old(canvas).model().viewport.origin),
        Frame::rounding_reaches(r, radius as i16, old(canvas).model().viewport.origin),
        is_corner_radius(radius),
    ensures
        final(canvas).model() == old(canvas).model().fill_rect(r, bg_color).fill_round_rect(
            r,
            radius as i16,
            fg_color,
        ),
        final(canvas).model().wf(),
{
    canvas.fill_rect(r, bg_color);
    canvas.fill_round_rect(r, radius as i16, fg_color);
}

/// The rectangle of an icon of the given size around the point `center`:
/// the left and the top half are the smaller ones where the size is odd.
pub fn icon_rect(center: Point, size: Offset) -> (r: Rect)
    requires
        0 <= size.x,
        0 <= size.y,
        fits(center.x - size.x / 2),
        fits(center.y - size.y / 2),
        fits(center.x - size.x / 2 + size.x),
        fits(center.y - size.y / 2 + size.y),
    ensures
        r.x0 == center.x - size.x / 2,
        r.y0 == center.y - size.y / 2,
        r.x1 == r.x0 + size.x,
        r.y1 == r.y0 + size.y,
{
    let x0: i16 = center.x - size.x / 2;
    let y0: i16 = center.y - size.y / 2;
    Rect::new(Point::new(x0, y0), Point::new(x0 + size.x, y0 + size.y))
}

/// Where a text of the given width starts that is centered on the point
/// `baseline` of its baseline.
pub fn text_center_start(baseline: Point, width: i16) -> (p: Point)
    requires
        0 <= width,
        fits(baseline.x - width / 2),
    ensures
        p.x == baseline.x - width / 2,
        p.y == baseline.y,
{
    Point::new(baseline.x - width / 2, baseline.y)
}

/// Where a text of the given width starts that ends at the point
/// `baseline` of its baseline.
pub fn text_right_start(baseline: Point, width: i16) -> (p: Point)
    requires
        0 <= width,
        fits(baseline.x - width),
    ensures
        p.x == baseline.x - width,
        p.y == baseline.y,
{
    Point::new(baseline.x - width, baseline.y)
}

/// The start of the baseline of a text of the given height whose top-left
/// corner is `position`.
pub fn text_top_left_baseline(position: Point, height: i16) -> (p: Point)
    requires
        fits(position.y + height),
    ensures
        p.x == position.x,
        p.y == position.y + height,
{
    Point::new(position.x, position.y + height)
}

/// True when the dots of a dotted line from `start` up to the column
/// `width` can be drawn under the origin `origin`: there are none, or the
/// end column is a 16-bit number and the row from the start to the end is
/// representable once moved by the origin.
pub open spec fn dots_land(start: Point, width: i32, origin: Offset) -> bool {
    start.x >= width || {
        &&& fits(width as int)
        &&& fits(start.y + 1)
        &&& fits(start.x + origin.x)
        &&& fits(width + origin.x)
        &&& fits(start.y + origin.y)
        &&& fits(start.y + 1 + origin.y)
    }
}

/// Draws every second pixel of a row, from `start` up to the column
/// `width`.
pub fn dotted_line<C: RgbCanvas>(canvas: &mut C, start: Point, width: i32, color: Color)
    requires
        old(canvas).model().wf(),
        dots_land(start, width, old(canvas).model().viewport.origin),
    ensures
        final(canvas).model() == dotted(
            old(canvas).model(),
            start.x as int,
            start.y,
            width as int,
            color,
        ),
        final(canvas).model().wf(),
{
    let mut x: i32 = start.x as i32;
    while x < width
        invariant
            canvas.model().wf(),
            canvas.model().viewport == old(canvas).model().viewport,
            dots_land(start, width, old(canvas).model().viewport.origin),
            start.x <= x,
            x >= width || x <= 32766,
            dotted(canvas.model(), x as int, start.y, width as int, color) == dotted(
                old(canvas).model(),
                start.x as int,
                start.y,
                width as int,
                color,
            ),
        decreases width - x + 2,
    {
        canvas.draw_pixel(Point::new(x as i16, start.y), color);
        x = x + 2;
    }
}

/// The window that is handed to the panel for a rectangle: its first and
/// its last column and row.
pub fn set_window(window: Rect) -> (w: (u16, u16, u16, u16))
    requires
        0 <= window.x0,
        0 <= window.y0,
        1 <= window.x1,
        1 <= window.y1,
    ensures
        w.0 == window.x0,
        w.1 == window.y0,
        w.2 == window.x1 - 1,
        w.3 == window.y1 - 1,
{
    (window.x0 as u16, window.y0 as u16, window.x1 as u16 - 1, window.y1 as u16 - 1)
}

} // verus!
