//! An image from a compressed icon, decompressed and drawn in slices of a
//! few rows to bound the memory it takes.

use vstd::prelude::*;
use crate::canvas::raster::Raster;
use crate::canvas::rgb::{BitmapRef, RgbCanvasEx};
use crate::display::Color;
use crate::gdc::{GdcBitmap, GdcBitmapRef};
use crate::geometry::{Offset, Point, Rect};
use crate::shape::context::{DrawingContext, Exchange, Recorded};
use crate::toif::Toif;
use crate::geometry::fits;
use crate::viewport::Viewport;

verus! {

/// Rows of a grayscale slice.
pub const GRAY_SLICE_ROWS: i16 = 32;

/// Rows of a color slice.
pub const COLOR_SLICE_ROWS: i16 = 8;

/// The visible part of an image of the given size at the local position
/// `pos`, in the image's own coordinates: the clip moved into them and cut
/// to the image; the rectangle of zeros where that is empty.
pub open spec fn visible_part(vp: Viewport, pos: Point, size: Offset) -> Rect {
    let dx = pos.x + vp.origin.x;
    let dy = pos.y + vp.origin.y;
    let x0 = if vp.clip.x0 - dx > 0 {
        vp.clip.x0 - dx
    } else {
        0
    };
    let y0 = if vp.clip.y0 - dy > 0 {
        vp.clip.y0 - dy
    } else {
        0
    };
    let x1 = if vp.clip.x1 - dx < size.x {
        vp.clip.x1 - dx
    } else {
        size.x as int
    };
    let y1 = if vp.clip.y1 - dy < size.y {
        vp.clip.y1 - dy
    } else {
        size.y as int
    };
    if x0 >= x1 || y0 >= y1 {
        Rect { x0: 0, y0: 0, x1: 0, y1: 0 }
    } else {
        Rect { x0: x0 as i16, y0: y0 as i16, x1: x1 as i16, y1: y1 as i16 }
    }
}

/// True when the part `part` of an image at the local position `pos`,
/// moved to its place on the surface, lies inside the clip.
pub open spec fn shown(vp: Viewport, pos: Point, part: Rect) -> bool {
    &&& vp.clip.x0 <= part.x0 + pos.x + vp.origin.x
    &&& part.x1 + pos.x + vp.origin.x <= vp.clip.x1
    &&& vp.clip.y0 <= part.y0 + pos.y + vp.origin.y
    &&& part.y1 + pos.y + vp.origin.y <= vp.clip.y1
}

/// True when the part `clip` of an image at the local position `pos` can
/// be drawn under the origin `origin`: it begins at no negative column or
/// row, and is representable once moved by the position and once more by
/// the origin.
pub open spec fn part_lands(pos: Point, clip: Rect, origin: Offset) -> bool {
    &&& 0 <= clip.x0 <= clip.x1
    &&& 0 <= clip.y0 <= clip.y1
    &&& clip.can_translate(Offset { x: pos.x, y: pos.y })
    &&& clip.moved(Offset { x: pos.x, y: pos.y }).can_translate(origin)
}

/// Computes the visible part of an image: a pixel of the image belongs to
/// it exactly when the clip shows it.
pub fn image_clip(vp: Viewport, pos: Point, size: Offset) -> (r: Rect)
    requires
        0 <= size.x,
        0 <= size.y,
    ensures
        r == visible_part(vp, pos, size),
        r.empty() || shown(vp, pos, r),
        forall|x: int, y: int|
            r.covers(x, y) <==> 0 <= x < size.x && 0 <= y < size.y && vp.clip.covers(
                x + pos.x + vp.origin.x,
                y + pos.y + vp.origin.y,
            ),
        r.empty() || (0 <= r.x0 < r.x1 <= size.x && 0 <= r.y0 < r.y1 <= size.y),
{
    let dx: i32 = pos.x as i32 + vp.origin.x as i32;
    let dy: i32 = pos.y as i32 + vp.origin.y as i32;
    let cx0: i32 = vp.clip.x0 as i32 - dx;
    let cy0: i32 = vp.clip.y0 as i32 - dy;
    let cx1: i32 = vp.clip.x1 as i32 - dx;
    let cy1: i32 = vp.clip.y1 as i32 - dy;
    let x0: i32 = if cx0 > 0 {
        cx0
    } else {
        0
    };
    let y0: i32 = if cy0 > 0 {
        cy0
    } else {
        0
    };
    let x1: i32 = if cx1 < size.x as i32 {
        cx1
    } else {
        size.x as i32
    };
    let y1: i32 = if cy1 < size.y as i32 {
        cy1
    } else {
        size.y as i32
    };
    if x0 >= x1 || y0 >= y1 {
        Rect::zero()
    } else {
        Rect { x0: x0 as i16, y0: y0 as i16, x1: x1 as i16, y1: y1 as i16 }
    }
}

/// The pixels that little-endian bytes hold, two bytes to a pixel.
pub open spec fn le_pixels(bytes: Seq<u8>) -> Seq<u16> {
    Seq::new(bytes.len() / 2, |i: int| (bytes[2 * i] as int + 256 * (bytes[2 * i + 1] as int)) as u16)
}

/// Reads little-endian bytes as 16-bit pixels; an odd last byte is left
/// out.
pub fn pixels_from_le(bytes: &[u8]) -> (px: Vec<u16>)
    ensures
        px@ == le_pixels(bytes@),
{
    let len = bytes.len();
    let n = len / 2;
    let mut px: Vec<u16> = Vec::new();
    let mut i: usize = 0;
    while i < n
        invariant
            i <= n,
            len == bytes@.len(),
            n == len / 2,
            px@.len() == i,
            forall|k: int| 0 <= k < i ==> #[trigger] px@[k] == le_pixels(bytes@)[k],
        decreases n - i,
    {
        let lo: u16 = bytes[2 * i] as u16;
        let hi: u16 = bytes[2 * i + 1] as u16;
        px.push(lo + 256 * hi);
        i += 1;
    }
    assert(px@ =~= le_pixels(bytes@));
    px
}

/// Rows of the next slice of an image of which the part `clip` is still to
/// be drawn: what is left, and no more than a slice holds.
pub open spec fn slice_rows(gray: bool, clip: Rect) -> int {
    let most: int = if gray {
        GRAY_SLICE_ROWS as int
    } else {
        COLOR_SLICE_ROWS as int
    };
    if clip.y1 - clip.y0 < most {
        clip.y1 - clip.y0
    } else {
        most
    }
}

pub struct ToifImage {
    pub pos: Point,
    pub toif: Toif,
    pub fg_color: Color,
    pub bg_color: Option<Color>,
}

impl ToifImage {
    /// An image at `pos`, white, blended over what is there.
    pub fn new(pos: Point, toif: Toif) -> (t: Self)
        ensures
            t == (ToifImage { pos, toif, fg_color: Color(0xFFFF), bg_color: None }),
    {
        ToifImage { pos, toif, fg_color: Color::white(), bg_color: None }
    }

    /// Sets the color that a grayscale icon is drawn in.
    pub fn with_fg(self, fg_color: Color) -> (t: Self)
        ensures
            t == (ToifImage { fg_color, ..self }),
    {
        ToifImage { fg_color, ..self }
    }

    /// Sets a background color: a grayscale icon is then drawn opaquely
    /// on it.
    pub fn with_bg(self, bg_color: Color) -> (t: Self)
        ensures
            t == (ToifImage { bg_color: Some(bg_color), ..self }),
    {
        ToifImage { bg_color: Some(bg_color), ..self }
    }

    /// The image is well-formed and its rectangle is representable.
    pub open spec fn fits(self) -> bool {
        &&& self.toif.wf()
        &&& 0 <= self.toif.spec_width()
        &&& 0 <= self.toif.spec_height()
        &&& fits(self.pos.x + self.toif.spec_width())
        &&& fits(self.pos.y + self.toif.spec_height())
    }

    /// Tells whether the image is well-formed and its rectangle
    /// representable.
    pub fn is_drawable(&self) -> (ok: bool)
        ensures
            ok == self.fits(),
    {
        if !self.toif.is_valid() {
            return false;
        }
        let p = self.pos;
        let w = self.toif.width();
        let h = self.toif.height();
        0 <= w && 0 <= h && crate::geometry::is_16_bit(p.x as i32 + w as i32)
            && crate::geometry::is_16_bit(p.y as i32 + h as i32)
    }

    /// The rectangle of the image.
    pub open spec fn frame(self) -> Rect {
        Rect {
            x0: self.pos.x,
            y0: self.pos.y,
            x1: (self.pos.x + self.toif.spec_width()) as i16,
            y1: (self.pos.y + self.toif.spec_height()) as i16,
        }
    }

    /// The rectangle of the image: its size is that in the icon's header.
    pub fn bounds(&self) -> (r: Rect)
        requires
            self.fits(),
        ensures
            r == self.frame(),
    {
        let toif_size = Offset::new(self.toif.width(), self.toif.height());
        Rect::from_top_left_and_size(self.pos, toif_size)
    }

    /// The bitmap reference that a slice is drawn from: the slice with the
    /// image's colors, moved left by what is clipped off.
    pub open spec fn slice_ref(self, clip: Rect, slice: GdcBitmapRef) -> GdcBitmapRef {
        GdcBitmapRef {
            bitmap: slice.bitmap,
            offset: Offset { x: clip.x0, y: 0 },
            fg_color: self.fg_color,
            bg_color: match self.bg_color {
                Some(c) => c,
                None => slice.bg_color,
            },
        }
    }

    /// Effect of drawing one slice of a grayscale image: with a background
    /// color the slice is drawn opaquely, else it is blended over what is
    /// there.
    pub open spec fn paint_slice(self, s: Raster, clip: Rect, slice: GdcBitmapRef) -> Raster {
        let r = clip.moved(Offset { x: self.pos.x, y: self.pos.y });
        match self.bg_color {
            Some(_) => s.draw_bitmap(r, self.slice_ref(clip, slice)),
            None => s.blend_bitmap(r, self.slice_ref(clip, slice)),
        }
    }

    /// Draws one decompressed slice of a grayscale image. `clip` is the part
    /// of the image not yet drawn, in the image's coordinates; the slice
    /// holds its topmost rows.
    pub fn draw_slice<C: RgbCanvasEx>(&self, canvas: &mut C, clip: Rect, slice: &BitmapRef)
        requires
            old(canvas).model().wf(),
            part_lands(self.pos, clip, old(canvas).model().viewport.origin),
            slice.bitmap.wf(),
            slice.offset == (Offset { x: 0, y: 0 }),
        ensures
            final(canvas).model() == self.paint_slice(old(canvas).model(), clip, *slice),
            final(canvas).model().wf(),
            final(canvas).model().same_frame(old(canvas).model()),
    {
        let r = clip.translate(self.pos.to_offset());
        let slice_ref = slice.with_fg(self.fg_color).with_offset(Offset::new(r.x0 - self.pos.x, 0));
        match self.bg_color {
            Some(bg_color) => canvas.draw_bitmap(r, &slice_ref.with_bg(bg_color)),
            None => canvas.blend_bitmap(r, &slice_ref),
        }
    }

    /// Effect of drawing one slice of a color image.
    pub open spec fn paint_color_slice(self, s: Raster, clip: Rect, slice: GdcBitmapRef) -> Raster {
        s.draw_bitmap(
            clip.moved(Offset { x: self.pos.x, y: self.pos.y }),
            GdcBitmapRef { offset: Offset { x: clip.x0, y: 0 }, ..slice },
        )
    }

    /// Draws one decompressed slice of a color image.
    pub fn draw_color_slice<C: RgbCanvasEx>(&self, canvas: &mut C, clip: Rect, slice: &BitmapRef)
        requires
            old(canvas).model().wf(),
            part_lands(self.pos, clip, old(canvas).model().viewport.origin),
            slice.bitmap.wf(),
            slice.offset == (Offset { x: 0, y: 0 }),
        ensures
            final(canvas).model() == self.paint_color_slice(old(canvas).model(), clip, *slice),
            final(canvas).model().wf(),
            final(canvas).model().same_frame(old(canvas).model()),
    {
        let r = clip.translate(self.pos.to_offset());
        let slice_ref = slice.with_offset(Offset::new(r.x0 - self.pos.x, 0));
        canvas.draw_bitmap(r, &slice_ref);
    }

    /// The size of the image.
    pub open spec fn size(self) -> Offset {
        Offset { x: self.toif.spec_width(), y: self.toif.spec_height() }
    }

    /// Bytes of a slice of `rows` rows: two pixels to a byte in a grayscale
    /// image, two bytes to a pixel in a color image.
    pub open spec fn slice_bytes(self, gray: bool, rows: int) -> int {
        if gray {
            ((self.toif.spec_width() + 1) / 2) * rows
        } else {
            2 * (self.toif.spec_width() * rows)
        }
    }

    /// The color that the pixel `(x, y)` of a slice gives to a pixel of the
    /// surface that had the color `before`. In a grayscale slice the four
    /// bits of the pixel weigh the foreground color over the background
    /// color, or over `before` where there is none; in a color slice the
    /// two bytes of the pixel are its color.
    pub open spec fn slice_pixel(self, gray: bool, out: Seq<u8>, x: int, y: int, before: Color) -> Color {
        if gray {
            let stride = (self.toif.spec_width() + 1) / 2;
            let a = (((out[y * stride + x / 2] >> ((4 * (x % 2)) as u8)) & 15) * 17) as u8;
            match self.bg_color {
                Some(bg) => bg.blended(self.fg_color, a),
                None => before.blended(self.fg_color, a),
            }
        } else {
            Color(le_pixels(out)[y * self.toif.spec_width() + x])
        }
    }

    /// The surface after a slice of `rows` rows with the bytes `out` was
    /// drawn, `clip` being the part of the image not drawn before: the
    /// visible pixels of those rows within `clip` take the colors of the
    /// slice, all others stay.
    pub open spec fn slice_drawn(self, gray: bool, s: Raster, clip: Rect, rows: int, out: Seq<u8>) -> Raster {
        let r = clip.moved(Offset { x: self.pos.x, y: self.pos.y });
        let area = s.visible(r);
        let at = s.viewport.absolute(r).top_left_spec();
        Raster {
            rows: Seq::new(
                s.size.y as nat,
                |y: int|
                    Seq::new(
                        s.size.x as nat,
                        |x: int|
                            if area.covers(x, y) && 0 <= x - at.x + clip.x0 < self.toif.spec_width() && 0
                                <= y - at.y < rows {
                                self.slice_pixel(gray, out, x - at.x + clip.x0, y - at.y, s.rows[y][x])
                            } else {
                                s.rows[y][x]
                            },
                    ),
            ),
            ..s
        }
    }

    /// Drawing a grayscale slice from a bitmap over the bytes `out` gives
    /// the surface that `slice_drawn` states.
    pub proof fn lemma_gray_slice(self, s: Raster, clip: Rect, rows: int, slice: GdcBitmapRef, out: Seq<u8>)
        requires
            slice.bitmap.data matches crate::gdc::PixelData::Mono4(d) && d@ == out,
            slice.bitmap.stride == (self.toif.spec_width() + 1) / 2,
            slice.bitmap.size.x == self.toif.spec_width(),
            slice.bitmap.size.y == rows,
            slice.offset == (Offset { x: 0, y: 0 }),
        ensures
            self.paint_slice(s, clip, slice) == self.slice_drawn(true, s, clip, rows, out),
    {
        let a = self.paint_slice(s, clip, slice);
        let b = self.slice_drawn(true, s, clip, rows, out);
        assert(a.rows =~~= b.rows);
    }

    /// Drawing a color slice from a bitmap over the pixels that the bytes
    /// `out` hold gives the surface that `slice_drawn` states.
    pub proof fn lemma_color_slice(self, s: Raster, clip: Rect, rows: int, slice: GdcBitmapRef, out: Seq<u8>)
        requires
            slice.bitmap.data matches crate::gdc::PixelData::Rgb565(d) && d@ == le_pixels(out),
            slice.bitmap.stride == 2 * self.toif.spec_width(),
            0 <= self.toif.spec_width(),
            slice.bitmap.size.x == self.toif.spec_width(),
            slice.bitmap.size.y == rows,
            slice.offset == (Offset { x: 0, y: 0 }),
        ensures
            self.paint_color_slice(s, clip, slice) == self.slice_drawn(false, s, clip, rows, out),
    {
        let a = self.paint_color_slice(s, clip, slice);
        let b = self.slice_drawn(false, s, clip, rows, out);
        assert forall|c: Color| #[trigger] slice.bg_color.blended(c, 255) == c by {
            crate::display::lemma_blended_ends(slice.bg_color, c);
        }
        assert(a.rows =~~= b.rows);
    }

    /// What drawing the part `clip` of the image in slices makes of the
    /// surface `s` when `log` begins with the exchanges with the decoders:
    /// each slice asks for its bytes from the first row of what is left,
    /// is drawn from the bytes that came, and leaves the rows below it.
    /// The result is the surface then, with the exchanges that follow;
    /// `None` when `log` does not begin with the record of such a run.
    pub open spec fn streamed(self, gray: bool, s: Raster, clip: Rect, log: Seq<Exchange>) -> Option<
        (Raster, Seq<Exchange>),
    >
        decreases log.len(),
    {
        if clip.empty() {
            Some((s, log))
        } else if log.len() == 0 {
            None
        } else {
            let rows = slice_rows(gray, clip);
            match log[0] {
                Exchange::Rows { toif, from_row, out } => {
                    if toif == self.toif && from_row == clip.y0 && out.len() == self.slice_bytes(
                        gray,
                        rows,
                    ) {
                        self.streamed(
                            gray,
                            self.slice_drawn(gray, s, clip, rows, out),
                            Rect { y0: (clip.y0 + rows) as i16, ..clip },
                            log.skip(1),
                        )
                    } else {
                        None
                    }
                },
                _ => None,
            }
        }
    }

    /// Exchanges that follow a run are left over: where `log` alone is the
    /// record of a run, `log` followed by `rest` gives the same surface
    /// and leaves `rest`.
    pub proof fn lemma_streamed_more(
        self,
        gray: bool,
        s: Raster,
        clip: Rect,
        log: Seq<Exchange>,
        rest: Seq<Exchange>,
    )
        requires
            self.streamed(gray, s, clip, log) matches Some(end) && end.1.len() == 0,
        ensures
            self.streamed(gray, s, clip, log + rest) == Some(
                (self.streamed(gray, s, clip, log).unwrap().0, rest),
            ),
        decreases log.len(),
    {
        if clip.empty() {
            assert(log + rest =~= rest);
        } else {
            let rows = slice_rows(gray, clip);
            assert((log + rest)[0] == log[0]);
            assert((log + rest).skip(1) =~= log.skip(1) + rest);
            match log[0] {
                Exchange::Rows { toif, from_row, out } => {
                    self.lemma_streamed_more(
                        gray,
                        self.slice_drawn(gray, s, clip, rows, out),
                        Rect { y0: (clip.y0 + rows) as i16, ..clip },
                        log.skip(1),
                        rest,
                    );
                },
                _ => {},
            }
        }
    }

    /// One more slice at the end of a run: if the exchanges `seg` followed
    /// by any others lead from `start` to where `rest` leads from `cur`,
    /// then so do `seg` with the exchange `e` of the next slice and the
    /// surface after that slice.
    pub proof fn lemma_streamed_step(
        self,
        gray: bool,
        start: Raster,
        part: Rect,
        seg: Seq<Exchange>,
        cur: Raster,
        clip: Rect,
        out: Seq<u8>,
    )
        requires
            !clip.empty(),
            forall|rest: Seq<Exchange>| #[trigger]
                self.streamed(gray, start, part, seg + rest) == self.streamed(gray, cur, clip, rest),
            out.len() == self.slice_bytes(gray, slice_rows(gray, clip)),
        ensures
            forall|rest: Seq<Exchange>| #[trigger]
                self.streamed(
                    gray,
                    start,
                    part,
                    seg.push(Exchange::Rows { toif: self.toif, from_row: clip.y0, out }) + rest,
                ) == self.streamed(
                    gray,
                    self.slice_drawn(gray, cur, clip, slice_rows(gray, clip), out),
                    Rect { y0: (clip.y0 + slice_rows(gray, clip)) as i16, ..clip },
                    rest,
                ),
    {
        let e = Exchange::Rows { toif: self.toif, from_row: clip.y0, out };
        assert forall|rest: Seq<Exchange>| #[trigger]
            self.streamed(gray, start, part, seg.push(e) + rest) == self.streamed(
                gray,
                self.slice_drawn(gray, cur, clip, slice_rows(gray, clip), out),
                Rect { y0: (clip.y0 + slice_rows(gray, clip)) as i16, ..clip },
                rest,
            ) by {
            let longer = seq![e] + rest;
            assert(seg.push(e) + rest =~= seg + longer);
            assert(self.streamed(gray, start, part, seg + longer) == self.streamed(
                gray,
                cur,
                clip,
                longer,
            ));
            assert(longer[0] == e);
            assert(longer.skip(1) =~= rest);
        }
    }

    /// Draws a grayscale image: slice after slice of at most
    /// `GRAY_SLICE_ROWS` rows is asked of the decoders, from the first
    /// visible row down, and drawn from the bytes that came. The record
    /// grows by these exchanges, and the surface is what they make of it.
    pub fn draw_grayscale<C: RgbCanvasEx, D: DrawingContext>(&self, canvas: &mut C, context: &mut Recorded<D>)
        requires
            old(canvas).model().wf(),
            self.fits(),
        ensures
            final(canvas).model().wf(),
            final(canvas).model().same_frame(old(canvas).model()),
            old(context).exchanges().is_prefix_of(final(context).exchanges()),
            self.streamed(
                true,
                old(canvas).model(),
                visible_part(old(canvas).model().viewport, self.pos, self.size()),
                final(context).exchanges().skip(old(context).exchanges().len() as int),
            ) == Some((final(canvas).model(), Seq::<Exchange>::empty())),
            final(context).releases() == old(context).releases(),
    {
        let viewport = canvas.viewport();
        let w = self.toif.width();
        let size = Offset::new(w, self.toif.height());
        let mut clip = image_clip(viewport, self.pos, size);
        let ghost start = canvas.model();
        let ghost part = clip;
        let ghost before = context.exchanges();
        let ghost seg: Seq<Exchange> = Seq::empty();
        proof {
            assert(before + seg =~= before);
            assert forall|rest: Seq<Exchange>| #[trigger]
                self.streamed(true, start, part, seg + rest) == self.streamed(
                    true,
                    start,
                    part,
                    rest,
                ) by {
                assert(seg + rest =~= rest);
            }
        }
        if w <= 0 {
            proof {
                assert(context.exchanges().skip(before.len() as int) =~= Seq::<Exchange>::empty());
            }
            return ;
        }
        let stride: usize = ((w as usize) + 1) / 2;
        while !clip.is_empty()
            invariant
                self.fits(),
                canvas.model().wf(),
                canvas.model().same_frame(old(canvas).model()),
                w == self.toif.spec_width(),
                stride == (w + 1) / 2,
                0 < w,
                clip.empty() || (0 <= clip.x0 < clip.x1 <= w && 0 <= clip.y0 < clip.y1
                    <= self.toif.spec_height() && shown(canvas.model().viewport, self.pos, clip)),
                context.exchanges() == before + seg,
                context.releases() == old(context).releases(),
                forall|rest: Seq<Exchange>| #[trigger]
                    self.streamed(true, start, part, seg + rest) == self.streamed(
                        true,
                        canvas.model(),
                        clip,
                        rest,
                    ),
            decreases clip.y1 - clip.y0,
        {
            let rest = clip.height();
            let height: i16 = if rest < GRAY_SLICE_ROWS {
                rest
            } else {
                GRAY_SLICE_ROWS
            };
            assert(stride * (height as usize) <= stride * 32) by (nonlinear_arith)
                requires
                    0 <= height <= 32,
                    stride >= 0,
            ;
            let mut buf: Vec<u8> = vec![0u8; stride * (height as usize)];
            context.deflate_toif(self.toif, clip.y0, &mut buf);
            let bitmap = GdcBitmap::new_mono4(buf.as_slice(), stride, Offset::new(w, height));
            let slice = GdcBitmapRef::new(&bitmap);
            proof {
                assert(height == slice_rows(true, clip));
                self.lemma_gray_slice(canvas.model(), clip, height as int, slice, buf@);
                self.lemma_streamed_step(true, start, part, seg, canvas.model(), clip, buf@);
                assert(before + seg.push(Exchange::Rows { toif: self.toif, from_row: clip.y0, out: buf@ })
                    =~= (before + seg).push(
                    Exchange::Rows { toif: self.toif, from_row: clip.y0, out: buf@ },
                ));
                seg = seg.push(Exchange::Rows { toif: self.toif, from_row: clip.y0, out: buf@ });
            }
            self.draw_slice(canvas, clip, &slice);
            clip.y0 = clip.y0 + height;
        }
        proof {
            assert(seg + Seq::<Exchange>::empty() =~= seg);
            assert(context.exchanges().skip(before.len() as int) =~= seg);
        }
    }

    /// Draws a color image: slice after slice of at most
    /// `COLOR_SLICE_ROWS` rows is asked of the decoders, from the first
    /// visible row down, and drawn from the bytes that came. The record
    /// grows by these exchanges, and the surface is what they make of it.
    pub fn draw_rgb<C: RgbCanvasEx, D: DrawingContext>(&self, canvas: &mut C, context: &mut Recorded<D>)
        requires
            old(canvas).model().wf(),
            self.fits(),
        ensures
            final(canvas).model().wf(),
            final(canvas).model().same_frame(old(canvas).model()),
            old(context).exchanges().is_prefix_of(final(context).exchanges()),
            self.streamed(
                false,
                old(canvas).model(),
                visible_part(old(canvas).model().viewport, self.pos, self.size()),
                final(context).exchanges().skip(old(context).exchanges().len() as int),
            ) == Some((final(canvas).model(), Seq::<Exchange>::empty())),
            final(context).releases() == old(context).releases(),
    {
        let viewport = canvas.viewport();
        let w = self.toif.width();
        let size = Offset::new(w, self.toif.height());
        let mut clip = image_clip(viewport, self.pos, size);
        let ghost start = canvas.model();
        let ghost part = clip;
        let ghost before = context.exchanges();
        let ghost seg: Seq<Exchange> = Seq::empty();
        proof {
            assert(before + seg =~= before);
            assert forall|rest: Seq<Exchange>| #[trigger]
                self.streamed(false, start, part, seg + rest) == self.streamed(
                    false,
                    start,
                    part,
                    rest,
                ) by {
                assert(seg + rest =~= rest);
            }
        }
        if w <= 0 {
            proof {
                assert(context.exchanges().skip(before.len() as int) =~= Seq::<Exchange>::empty());
            }
            return ;
        }
        while !clip.is_empty()
            invariant
                self.fits(),
                canvas.model().wf(),
                canvas.model().same_frame(old(canvas).model()),
                w == self.toif.spec_width(),
                0 < w,
                clip.empty() || (0 <= clip.x0 < clip.x1 <= w && 0 <= clip.y0 < clip.y1
                    <= self.toif.spec_height() && shown(canvas.model().viewport, self.pos, clip)),
                context.exchanges() == before + seg,
                context.releases() == old(context).releases(),
                forall|rest: Seq<Exchange>| #[trigger]
                    self.streamed(false, start, part, seg + rest) == self.streamed(
                        false,
                        canvas.model(),
                        clip,
                        rest,
                    ),
            decreases clip.y1 - clip.y0,
        {
            let rest = clip.height();
            let height: i16 = if rest < COLOR_SLICE_ROWS {
                rest
            } else {
                COLOR_SLICE_ROWS
            };
            assert(0 < w * height <= 8 * 32767) by (nonlinear_arith)
                requires
                    0 < w <= 32767,
                    0 < height <= 8,
            ;
            let pixels: usize = (w as usize) * (height as usize);
            let mut buf: Vec<u8> = vec![0u8; 2 * pixels];
            context.deflate_toif(self.toif, clip.y0, &mut buf);
            let px = pixels_from_le(buf.as_slice());
            let bitmap = GdcBitmap::from_rgb565_slice(
                px.as_slice(),
                2 * (w as usize),
                Offset::new(w, height),
            );
            let slice = GdcBitmapRef::new(&bitmap);
            proof {
                assert(bitmap.units() == w);
                assert(px@.len() == pixels);
                assert(height == slice_rows(false, clip));
                self.lemma_color_slice(canvas.model(), clip, height as int, slice, buf@);
                self.lemma_streamed_step(false, start, part, seg, canvas.model(), clip, buf@);
                assert(before + seg.push(Exchange::Rows { toif: self.toif, from_row: clip.y0, out: buf@ })
                    =~= (before + seg).push(
                    Exchange::Rows { toif: self.toif, from_row: clip.y0, out: buf@ },
                ));
                seg = seg.push(Exchange::Rows { toif: self.toif, from_row: clip.y0, out: buf@ });
            }
            self.draw_color_slice(canvas, clip, &slice);
            clip.y0 = clip.y0 + height;
        }
        proof {
            assert(seg + Seq::<Exchange>::empty() =~= seg);
            assert(context.exchanges().skip(before.len() as int) =~= seg);
        }
    }

    /// Draws the image, in the way of its format: a grayscale image as
    /// `draw_grayscale` does, a color image as `draw_rgb` does.
    pub fn draw<C: RgbCanvasEx, D: DrawingContext>(&self, canvas: &mut C, context: &mut Recorded<D>)
        requires
            old(canvas).model().wf(),
            self.fits(),
        ensures
            final(canvas).model().wf(),
            final(canvas).model().same_frame(old(canvas).model()),
            old(context).exchanges().is_prefix_of(final(context).exchanges()),
            self.streamed(
                self.toif.spec_is_grayscale(),
                old(canvas).model(),
                visible_part(old(canvas).model().viewport, self.pos, self.size()),
                final(context).exchanges().skip(old(context).exchanges().len() as int),
            ) == Some((final(canvas).model(), Seq::<Exchange>::empty())),
            final(context).releases() == old(context).releases(),
    {
        if self.toif.is_grayscale() {
            self.draw_grayscale(canvas, context);
        } else {
            self.draw_rgb(canvas, context);
        }
    }
}

} // verus!
