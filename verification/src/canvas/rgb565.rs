//! The RGB565 surface: sixteen bits per pixel in one array, row after row.

use vstd::prelude::*;
use vstd::slice::slice_subrange;
use crate::canvas::bluralgo::{BlurAlgorithm, BlurState, MAX_RADIUS, MAX_WIDTH};
use crate::canvas::raster::{clamp_row, pixel_rect, text_calls, Paint, Raster, TextCommand};
use crate::canvas::rgb::{BitmapRef, RgbCanvas, RgbCanvasEx, TextAttr};
use crate::display::Color;
use crate::gdc::{AllocError, GdcBitmap, GdcBitmapRef, GdcBuffer, GdcTextAttr, PixelData};
use crate::geometry::{Offset, Point, Rect};
use crate::viewport::Viewport;

verus! {

/// The grid of colors that a row-major array of `w * h` raw pixels holds.
pub open spec fn grid(data: Seq<u16>, w: int, h: int) -> Seq<Seq<Color>> {
    Seq::new(h as nat, |y: int| Seq::new(w as nat, |x: int| Color(data[y * w + x])))
}

/// Two different cells of a row-major array have different indices, and
/// every cell's index is inside the array.
pub proof fn lemma_cells(x: int, y: int, xx: int, yy: int, w: int, h: int)
    requires
        0 <= x < w,
        0 <= xx < w,
        0 <= y < h,
        0 <= yy < h,
    ensures
        0 <= y * w + x < w * h,
        0 <= y * w,
        y * w + w <= w * h,
        w <= 32767 && h <= 32767 ==> w * h <= 1073676289,
        (x != xx || y != yy) ==> y * w + x != yy * w + xx,
{
    if w <= 32767 && h <= 32767 {
        assert(w * h <= 1073676289) by (nonlinear_arith)
            requires
                0 < w <= 32767,
                0 < h <= 32767,
        ;
    }
    assert(0 <= y * w && y * w + w <= w * h) by (nonlinear_arith)
        requires
            0 <= y < h,
            0 < w,
    ;
    if y < yy {
        assert(yy * w >= y * w + w) by (nonlinear_arith)
            requires
                y < yy,
                0 < w,
        ;
    }
    if yy < y {
        assert(y * w >= yy * w + w) by (nonlinear_arith)
            requires
                yy < y,
                0 < w,
        ;
    }
}

/// A surface of RGB565 pixels.
pub struct Canvas {
    buff: GdcBuffer<u16>,
    size: Offset,
    stride: usize,
    viewport: Viewport,
    texts: Vec<TextCommand>,
}

impl Canvas {
    /// The array holds exactly the pixels of the surface.
    pub closed spec fn inv(self) -> bool {
        &&& self.size.x > 0
        &&& self.size.y > 0
        &&& self.buff.data@.len() == self.size.x * self.size.y
        &&& self.stride == 2 * self.size.x
    }

    /// A black surface of the given size whose viewport shows all of it.
    /// A size with a dimension of zero or less is refused as invalid; for
    /// any other size the only failure is that the backing store cannot be
    /// had.
    pub fn new(size: Offset) -> (r: Result<Self, AllocError>)
        ensures
            size.x <= 0 || size.y <= 0 <==> r == Err::<Self, AllocError>(AllocError::InvalidSize),
            r matches Err(e) ==> e == AllocError::InvalidSize || e == AllocError::OutOfMemory,
            r matches Ok(c) ==> c.model() == Raster::blank(size) && c.model().wf(),
    {
        if size.x > 0 && size.y > 0 {
            let width: usize = size.x as usize;
            let height: usize = size.y as usize;
            assert(0 < height * width <= 32767 * 32767) by (nonlinear_arith)
                requires
                    0 < width <= 32767,
                    0 < height <= 32767,
            ;
            assert(height * width == size.x * size.y) by (nonlinear_arith)
                requires
                    width == size.x,
                    height == size.y,
            ;
            match GdcBuffer::<u16>::allocate(height * width) {
                Some(buff) => {
                    let c = Canvas {
                        buff,
                        size,
                        stride: width * 2,
                        viewport: Viewport::from_size(size),
                        texts: Vec::new(),
                    };
                    proof {
                        assert(c.inv());
                        assert forall|y: int, x: int| 0 <= y < size.y && 0 <= x < size.x implies #[trigger] c.model().rows[y][x]
                            == Color(0) by {
                            lemma_cells(x, y, x, y, size.x as int, size.y as int);
                        }
                        assert(c.model().rows =~~= Raster::blank(size).rows);
                        assert(c.model().texts =~= Raster::blank(size).texts);
                    }
                    Ok(c)
                },
                None => Err(AllocError::OutOfMemory),
            }
        } else {
            Err(AllocError::InvalidSize)
        }
    }

    /// The pixels of one row, or `None` for a row outside the surface.
    pub fn row(&self, row: i16) -> (r: Option<&[u16]>)
        requires
            self.model().wf(),
        ensures
            r.is_some() <==> 0 <= row < self.model().size.y,
            r matches Some(s) ==> s@.len() == self.model().size.x && forall|x: int|
                0 <= x < s@.len() ==> Color(#[trigger] s@[x]) == self.model().at(x, row as int),
    {
        proof {
            assert(self.inv());
        }
        if row >= 0 && row < self.size.y {
            let w: usize = self.size.x as usize;
            proof {
                lemma_cells(0, row as int, 0, row as int, self.size.x as int, self.size.y as int);
                lemma_cells(
                    self.size.x - 1,
                    row as int,
                    0,
                    row as int,
                    self.size.x as int,
                    self.size.y as int,
                );
            }
            assert(w * (row as usize) == row * self.size.x) by (nonlinear_arith)
                requires
                    w == self.size.x,
                    row >= 0,
            ;
            let offset: usize = w * (row as usize);
            let s = slice_subrange(self.buff.data.as_slice(), offset, offset + w);
            Some(s)
        } else {
            None
        }
    }

    /// The color of the pixel `(x, y)` in absolute coordinates.
    pub fn pixel(&self, x: i16, y: i16) -> (c: Color)
        requires
            self.model().wf(),
            0 <= x < self.model().size.x,
            0 <= y < self.model().size.y,
        ensures
            c == self.model().at(x as int, y as int),
    {
        proof {
            assert(self.inv());
            lemma_cells(x as int, y as int, x as int, y as int, self.size.x as int, self.size.y as int);
        }
        let w: usize = self.size.x as usize;
        assert((y as usize) * w == y * self.size.x) by (nonlinear_arith)
            requires
                w == self.size.x,
                y >= 0,
        ;
        Color(self.buff.data[(y as usize) * w + (x as usize)])
    }

    /// Stores a color in the pixel `(x, y)` in absolute coordinates.
    pub fn put(&mut self, x: i16, y: i16, c: Color)
        requires
            old(self).model().wf(),
            0 <= x < old(self).model().size.x,
            0 <= y < old(self).model().size.y,
        ensures
            final(self).model() == (Raster {
                rows: old(self).model().rows.update(
                    y as int,
                    old(self).model().rows[y as int].update(x as int, c),
                ),
                ..old(self).model()
            }),
            final(self).model().wf(),
    {
        proof {
            assert(self.inv());
            lemma_cells(x as int, y as int, x as int, y as int, self.size.x as int, self.size.y as int);
        }
        let w: usize = self.size.x as usize;
        assert((y as usize) * w == y * self.size.x) by (nonlinear_arith)
            requires
                w == self.size.x,
                y >= 0,
        ;
        let ghost before = self.model();
        let ghost wi = self.size.x as int;
        let ghost hi = self.size.y as int;
        self.buff.data.set((y as usize) * w + (x as usize), c.0);
        proof {
            let target = before.rows.update(y as int, before.rows[y as int].update(x as int, c));
            assert(self.inv());
            assert forall|yy: int, xx: int| 0 <= yy < hi && 0 <= xx < wi implies self.model().rows[yy][xx]
                == target[yy][xx] by {
                lemma_cells(x as int, y as int, xx, yy, wi, hi);
                lemma_cells(xx, yy, x as int, y as int, wi, hi);
            }
            assert(self.model().rows =~~= target);
        }
    }

    /// Paints `p` on the pixels of the absolute rectangle `a`, which lies
    /// inside the surface.
    pub fn paint(&mut self, a: Rect, p: &Paint)
        requires
            old(self).model().wf(),
            p.wf(),
            0 <= a.x0,
            0 <= a.y0,
            a.x1 <= old(self).model().size.x,
            a.y1 <= old(self).model().size.y,
        ensures
            final(self).model() == old(self).model().painted(a, *p),
            final(self).model().wf(),
    {
        let ghost before = self.model();
        let ghost wi = self.size.x as int;
        let ghost hi = self.size.y as int;
        proof {
            assert(self.inv());
        }
        if a.is_empty() {
            proof {
                assert(before.painted(a, *p).rows =~~= before.rows);
            }
            return ;
        }
        let mut y: i16 = a.y0;
        while y < a.y1
            invariant
                a.y0 <= y <= a.y1,
                0 <= a.x0 < a.x1 <= wi,
                0 <= a.y0 < a.y1 <= hi,
                p.wf(),
                self.inv(),
                self.model().wf(),
                self.model().size == before.size,
                self.model().viewport == before.viewport,
                self.model().texts == before.texts,
                before.size.x == wi,
                before.size.y == hi,
                before.rows.len() == hi,
                forall|yy: int| 0 <= yy < hi ==> (#[trigger] before.rows[yy]).len() == wi,
                self.model().rows.len() == hi,
                forall|yy: int| 0 <= yy < hi ==> (#[trigger] self.model().rows[yy]).len() == wi,
                forall|yy: int, xx: int|
                    0 <= yy < hi && 0 <= xx < wi ==> #[trigger] self.model().rows[yy][xx] == (if a.covers(
                        xx,
                        yy,
                    ) && yy < y {
                        p.result(xx, yy, before.rows[yy][xx])
                    } else {
                        before.rows[yy][xx]
                    }),
            decreases a.y1 - y,
        {
            let mut x: i16 = a.x0;
            while x < a.x1
                invariant
                    a.y0 <= y < a.y1,
                    a.x0 <= x <= a.x1,
                    0 <= a.x0 < a.x1 <= wi,
                    0 <= a.y0 < a.y1 <= hi,
                    p.wf(),
                    self.inv(),
                    self.model().wf(),
                    self.model().size == before.size,
                    self.model().viewport == before.viewport,
                    self.model().texts == before.texts,
                    before.size.x == wi,
                    before.size.y == hi,
                    before.rows.len() == hi,
                    forall|yy: int| 0 <= yy < hi ==> (#[trigger] before.rows[yy]).len() == wi,
                    self.model().rows.len() == hi,
                    forall|yy: int| 0 <= yy < hi ==> (#[trigger] self.model().rows[yy]).len() == wi,
                    forall|yy: int, xx: int|
                        0 <= yy < hi && 0 <= xx < wi ==> #[trigger] self.model().rows[yy][xx] == (if a.covers(
                            xx,
                            yy,
                        ) && (yy < y || (yy == y && xx < x)) {
                            p.result(xx, yy, before.rows[yy][xx])
                        } else {
                            before.rows[yy][xx]
                        }),
                decreases a.x1 - x,
            {
                let old_c = self.pixel(x, y);
                let new_c = p.apply(x, y, old_c);
                self.put(x, y, new_c);
                x += 1;
            }
            y += 1;
        }
        proof {
            assert(self.model().rows =~~= before.painted(a, *p).rows);
        }
    }

    /// The raw pixels of row `y` between the columns `x0` and `x1`.
    pub fn strip(&self, a: Rect, y: i16) -> (s: &[u16])
        requires
            self.model().wf(),
            0 <= a.x0 <= a.x1 <= self.model().size.x,
            0 <= y < self.model().size.y,
        ensures
            s@ == self.model().strip(a, y as int),
    {
        let row = self.row(y).unwrap();
        let s = slice_subrange(row, a.x0 as usize, a.x1 as usize);
        proof {
            assert forall|i: int| 0 <= i < s@.len() implies s@[i] == self.model().rows[y as int][a.x0
                + i].0 by {
                assert(Color(row@[a.x0 + i]) == self.model().at(a.x0 + i, y as int));
            }
            assert(s@ =~= self.model().strip(a, y as int));
        }
        s
    }

    /// Stores raw pixels into row `y` from column `x0` on.
    pub fn store_strip(&mut self, x0: i16, y: i16, pixels: &Vec<u16>)
        requires
            old(self).model().wf(),
            0 <= x0,
            x0 + pixels@.len() <= old(self).model().size.x,
            0 <= y < old(self).model().size.y,
        ensures
            final(self).model().wf(),
            final(self).model() == (Raster {
                rows: old(self).model().rows.update(
                    y as int,
                    Seq::new(
                        old(self).model().size.x as nat,
                        |x: int|
                            if x0 <= x < x0 + pixels@.len() {
                                Color(pixels@[x - x0])
                            } else {
                                old(self).model().rows[y as int][x]
                            },
                    ),
                ),
                ..old(self).model()
            }),
    {
        let ghost before = self.model();
        let n = pixels.len();
        let mut i: usize = 0;
        while i < n
            invariant
                i <= n,
                n == pixels@.len(),
                0 <= x0,
                x0 + n <= before.size.x,
                0 <= y < before.size.y,
                before.wf(),
                self.model().wf(),
                self.model().size == before.size,
                self.model().viewport == before.viewport,
                self.model().texts == before.texts,
                self.model().rows.len() == before.rows.len(),
                forall|yy: int| 0 <= yy < before.size.y && yy != y ==> #[trigger] self.model().rows[yy] == before.rows[yy],
                self.model().rows[y as int].len() == before.size.x,
                forall|x: int|
                    0 <= x < before.size.x ==> #[trigger] self.model().rows[y as int][x] == (if x0 <= x < x0
                        + i {
                        Color(pixels@[x - x0])
                    } else {
                        before.rows[y as int][x]
                    }),
            decreases n - i,
        {
            self.put((x0 as usize + i) as i16, y, Color(pixels[i]));
            i += 1;
        }
        proof {
            let target = before.rows.update(
                y as int,
                Seq::new(
                    before.size.x as nat,
                    |x: int|
                        if x0 <= x < x0 + pixels@.len() {
                            Color(pixels@[x - x0])
                        } else {
                            before.rows[y as int][x]
                        },
                ),
            );
            assert(self.model().rows =~~= target);
        }
    }

    /// Records a run of text for the local box `r` unless it is clipped
    /// away.
    fn record_text(&mut self, r: Rect, text: &str, attr: &GdcTextAttr, blended: bool)
        requires
            old(self).model().wf(),
            old(self).model().can_place(r, attr.offset),
        ensures
            final(self).model() == old(self).model().draw_text(r, text@, *attr, blended),
            final(self).model().wf(),
    {
        proof {
            assert(self.inv());
        }
        let ghost before = self.model();
        let moved = r.translate(self.viewport.origin);
        let a = moved.intersect(self.viewport.clip);
        if !a.is_empty() {
            let cut = Offset { x: a.x0 - moved.x0, y: a.y0 - moved.y0 };
            let cmd = TextCommand {
                rect: a,
                text: text.to_owned(),
                attr: attr.with_offset(cut),
                blended,
            };
            self.texts.push(cmd);
            proof {
                assert(self.model().texts =~= before.texts.push(
                    before.text_call(r, text@, *attr, blended),
                ));
            }
        }
    }

    /// The text runs recorded so far, oldest first.
    pub fn texts(&self) -> (t: &Vec<TextCommand>)
        requires
            self.model().wf(),
        ensures
            text_calls(t@) == self.model().texts,
    {
        &self.texts
    }

    /// Hands out the text runs recorded so far and forgets them.
    pub fn take_texts(&mut self) -> (t: Vec<TextCommand>)
        requires
            old(self).model().wf(),
        ensures
            text_calls(t@) == old(self).model().texts,
            final(self).model() == (Raster { texts: Seq::empty(), ..old(self).model() }),
            final(self).model().wf(),
    {
        assert(self.inv());
        let mut t: Vec<TextCommand> = Vec::new();
        core::mem::swap(&mut self.texts, &mut t);
        assert(self.inv());
        assert(self.model().texts =~= Seq::<crate::canvas::raster::TextCall>::empty());
        t
    }

    /// The surface as a borrowed bitmap: its rows lie one after the other,
    /// 2 bytes to a pixel.
    pub fn bitmap_view(&self) -> (b: GdcBitmap<'_>)
        requires
            self.model().wf(),
        ensures
            b.wf(),
            b.size == self.model().size,
            b.stride == 2 * self.model().size.x,
            b.data is Rgb565,
            forall|x: int, y: int|
                b.has(x, y) ==> #[trigger] b.source_color(x, y) == self.model().at(x, y),
    {
        proof {
            assert(self.inv());
        }
        let b = GdcBitmap::from_rgb565_slice(self.buff.data.as_slice(), self.stride, self.size);
        proof {
            assert(b.units() == self.size.x);
            assert(b.units() * self.size.y == self.size.x * self.size.y) by (nonlinear_arith)
                requires
                    b.units() == self.size.x,
            ;
        }
        b
    }
}

impl RgbCanvas for Canvas {
    closed spec fn model(&self) -> Raster {
        Raster {
            size: self.size,
            viewport: self.viewport,
            rows: if self.inv() {
                grid(self.buff.data@, self.size.x as int, self.size.y as int)
            } else {
                Seq::empty()
            },
            texts: text_calls(self.texts@),
        }
    }

    fn viewport(&self) -> Viewport {
        self.viewport
    }

    fn set_viewport(&mut self, viewport: Viewport) {
        proof {
            assert(self.inv());
        }
        let b = Rect::from_size(self.size);
        self.viewport = viewport.absolute_clip(b);
    }

    fn size(&self) -> Offset {
        self.size
    }

    fn fill_rect(&mut self, r: Rect, color: Color) {
        let a = r.translate(self.viewport.origin).intersect(self.viewport.clip);
        self.paint(a, &Paint::Fill(color));
    }

    fn draw_bitmap(&mut self, r: Rect, bitmap: &BitmapRef) {
        let moved = r.translate(self.viewport.origin);
        let a = moved.intersect(self.viewport.clip);
        self.paint(a, &Paint::Copy(*bitmap, moved.top_left()));
    }

    fn draw_blended(&mut self, r: Rect, fg: &BitmapRef, bg: &BitmapRef) {
        let moved = r.translate(self.viewport.origin);
        let a = moved.intersect(self.viewport.clip);
        self.paint(a, &Paint::Over(*fg, *bg, moved.top_left()));
    }

    fn draw_opaque_text(&mut self, r: Rect, text: &str, attr: &TextAttr) {
        self.record_text(r, text, attr, false);
    }

    fn draw_blended_text(&mut self, r: Rect, text: &str, attr: &TextAttr, bg: &BitmapRef) {
        self.record_text(r, text, attr, true);
    }

    fn draw_pixel(&mut self, pt: Point, color: Color) {
        let ghost before = self.model();
        let p = pt.translate(self.viewport.origin);
        if self.viewport.clip.contains(p) {
            self.put(p.x, p.y, color);
            proof {
                assert(self.model().rows =~~= before.draw_pixel(pt, color).rows);
            }
        } else {
            proof {
                assert(before.rows =~~= before.draw_pixel(pt, color).rows);
            }
        }
    }
}

impl RgbCanvasEx for Canvas {
    fn bitmap(&self) -> BitmapRef<'_> {
        let b = self.bitmap_view();
        GdcBitmapRef::new(&b)
    }

    fn blend_pixel(&mut self, pt: Point, color: Color, alpha: u8) {
        let ghost before = self.model();
        let p = pt.translate(self.viewport.origin);
        if self.viewport.clip.contains(p) {
            let bg_color = self.pixel(p.x, p.y);
            self.put(p.x, p.y, bg_color.blend(color, alpha));
            proof {
                assert(self.model().rows =~~= before.blend_pixel(pt, color, alpha).rows);
            }
        } else {
            proof {
                assert(before.rows =~~= before.blend_pixel(pt, color, alpha).rows);
            }
        }
    }

    fn draw_text(&mut self, r: Rect, text: &str, attr: &TextAttr) {
        self.record_text(r, text, attr, true);
    }

    fn blur_rect(&mut self, r: Rect, radius: usize) {
        let ghost before = self.model();
        let a = r.translate(self.viewport.origin).intersect(self.viewport.clip);
        if a.is_empty() || radius > MAX_RADIUS {
            return ;
        }
        let ofs: i16 = radius as i16;
        let w: i16 = a.width();
        let h: i16 = a.height();
        if !(w > 2 * ofs - 1 && h > 2 * ofs - 1) {
            return ;
        }
        let mut blur = match BlurAlgorithm::new(w as usize, radius) {
            Some(b) => b,
            None => {
                return ;
            },
        };
        let ghost rad = radius as nat;
        let total: i32 = 2 * (ofs as i32) + h as i32;
        let mut out: Vec<u16> = Vec::new();
        let mut i: i16 = 0;
        while i < w
            invariant
                0 <= i <= w,
                out@.len() == i,
            decreases w - i,
        {
            out.push(0u16);
            i += 1;
        }
        // Push number `k` is the row `radius` below the row that is popped
        // after it; the pushes before the first pop fill the window.
        let mut k: i32 = 0;
        while k < total
            invariant
                0 <= k <= total,
                total == 2 * ofs + h,
                ofs == radius,
                rad == radius,
                radius <= MAX_RADIUS,
                w == a.x1 - a.x0,
                h == a.y1 - a.y0,
                0 < w <= MAX_WIDTH,
                h >= 2 * ofs,
                h > 0,
                0 <= a.x0,
                0 <= a.y0,
                a.x1 <= before.size.x,
                a.y1 <= before.size.y,
                before.wf(),
                out@.len() == w,
                blur.wf(),
                blur@.width == w,
                blur@.radius == rad,
                blur@ == before.blur_feed(a, rad, k as nat),
                self.model().wf(),
                self.model().size == before.size,
                self.model().viewport == before.viewport,
                self.model().texts == before.texts,
                forall|y: int, x: int|
                    0 <= y < before.size.y && 0 <= x < before.size.x ==> #[trigger] self.model().rows[y][x]
                        == (if a.covers(x, y) && y < a.y0 + k - 2 * ofs {
                        before.blurred_at(a, rad, x, y)
                    } else {
                        before.rows[y][x]
                    }),
            decreases total - k,
        {
            let want: i32 = a.y0 as i32 - ofs as i32 + k;
            let rd_y: i16 = if want < a.y0 as i32 {
                a.y0
            } else if want >= a.y1 as i32 {
                a.y1 - 1
            } else {
                want as i16
            };
            proof {
                assert(rd_y == clamp_row(a.y0 - rad + k, a));
                assert(rd_y >= a.y0 + k - 2 * ofs);
                assert(self.model().strip(a, rd_y as int) =~= before.strip(a, rd_y as int));
            }
            let src = self.strip(a, rd_y);
            blur.push(src);
            if k >= 2 * (ofs as i32) {
                let y: i16 = (a.y0 as i32 + (k - 2 * (ofs as i32))) as i16;
                blur.pop(&mut out);
                let ghost mid = self.model();
                self.store_strip(a.x0, y, &out);
                proof {
                    assert(blur@ == before.blur_feed(a, rad, (k + 1) as nat));
                    assert(out@ =~= blur@.popped());
                    assert forall|yy: int, x: int| 0 <= yy < before.size.y && 0 <= x
                        < before.size.x implies #[trigger] self.model().rows[yy][x] == (if a.covers(x, yy)
                        && yy < a.y0 + (k + 1) - 2 * ofs {
                        before.blurred_at(a, rad, x, yy)
                    } else {
                        before.rows[yy][x]
                    }) by {
                        if yy != y {
                            assert(self.model().rows[yy] == mid.rows[yy]);
                        }
                    }
                }
            }
            k += 1;
        }
        proof {
            assert(Raster::blur_applies(a, radius));
            assert(self.model().rows =~~= before.blur_rect(r, radius).rows);
        }
    }

    fn blend_bitmap(&mut self, r: Rect, bitmap: &BitmapRef) {
        let moved = r.translate(self.viewport.origin);
        let a = moved.intersect(self.viewport.clip);
        self.paint(a, &Paint::Mask(*bitmap, moved.top_left()));
    }
}

} // verus!
