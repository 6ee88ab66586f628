//! An image from a JPEG stream, drawn block by block as the decoder
//! delivers it.

use vstd::prelude::*;
use crate::canvas::raster::Raster;
use crate::canvas::rgb::{RgbCanvas, RgbCanvasEx};
use crate::gdc::{GdcBitmap, GdcBitmapRef};
use crate::geometry::{Offset, Point, Rect};
use crate::shape::context::{DrawingContext, Exchange, Recorded};
use crate::shape::toif::{image_clip, visible_part};
use crate::geometry::{fits, is_16_bit};
use crate::viewport::Viewport;

verus! {

/// Receiver of the decoded blocks of an image: draws them on a surface
/// and tells the decoder when the visible part is done.
#[derive(Copy, Clone, Debug, PartialEq, Eq, Structural)]
pub struct JpegFnOutput {
    /// Local position of the image.
    pub pos: Point,
    /// Visible part of the image, in the image's coordinates.
    pub clip: Rect,
}

/// True when a block is not empty, its rectangle is representable in 16
/// bits, and it comes with all its pixels.
pub open spec fn block_ok(rect_origin: (u32, u32), rect_size: (u32, u32), pixels: Seq<u16>) -> bool {
    &&& 0 < rect_size.0
    &&& 0 < rect_size.1
    &&& rect_origin.0 + rect_size.0 <= i16::MAX
    &&& rect_origin.1 + rect_size.1 <= i16::MAX
    &&& rect_size.0 * rect_size.1 <= pixels.len()
}

/// The bitmap of a block: its pixels row after row, without offset.
pub open spec fn block_bitmap(rect_size: (u32, u32), pixels: &[u16]) -> GdcBitmapRef {
    GdcBitmapRef {
        bitmap: GdcBitmap {
            data: crate::gdc::PixelData::Rgb565(pixels),
            stride: (2 * rect_size.0) as usize,
            size: Offset { x: rect_size.0 as i16, y: rect_size.1 as i16 },
        },
        offset: Offset { x: 0, y: 0 },
        fg_color: crate::display::Color(0),
        bg_color: crate::display::Color(0),
    }
}

/// The rectangle of a block in the image's coordinates.
pub open spec fn block_rect(rect_origin: (u32, u32), rect_size: (u32, u32)) -> Rect {
    Rect {
        x0: rect_origin.0 as i16,
        y0: rect_origin.1 as i16,
        x1: (rect_origin.0 + rect_size.0) as i16,
        y1: (rect_origin.1 + rect_size.1) as i16,
    }
}

impl JpegFnOutput {
    /// A receiver for the image at `pos` whose visible part is `clip`.
    pub fn new(pos: Point, clip: Rect) -> (r: Self)
        ensures
            r == (JpegFnOutput { pos, clip }),
    {
        JpegFnOutput { pos, clip }
    }

    /// True when blocks beyond the given one are still wanted: it ends
    /// left of or above the end of the visible part.
    pub open spec fn wants_more(self, mcu_r: Rect) -> bool {
        mcu_r.x1 < self.clip.x1 || mcu_r.y1 < self.clip.y1
    }

    /// True when the receiver can take the block under the origin
    /// `origin`: the block is consistent, and its rectangle is
    /// representable once moved by the image's position and once more by
    /// the origin.
    pub open spec fn takes(
        self,
        origin: Offset,
        rect_origin: (u32, u32),
        rect_size: (u32, u32),
        pixels: Seq<u16>,
    ) -> bool {
        &&& block_ok(rect_origin, rect_size, pixels)
        &&& block_rect(rect_origin, rect_size).can_translate(Offset { x: self.pos.x, y: self.pos.y })
        &&& block_rect(rect_origin, rect_size).moved(
            Offset { x: self.pos.x, y: self.pos.y },
        ).can_translate(origin)
    }

    /// Takes a block: one that the receiver can take is drawn at its place
    /// on `canvas`, and the answer tells whether more are wanted; any
    /// other stops the decoder and leaves the surface as it is.
    pub fn write<C: RgbCanvas>(
        &self,
        canvas: &mut C,
        rect_origin: (u32, u32),
        rect_size: (u32, u32),
        pixels: &[u16],
    ) -> (go_on: bool)
        requires
            old(canvas).model().wf(),
        ensures
            final(canvas).model().wf(),
            final(canvas).model().same_frame(old(canvas).model()),
            !self.takes(old(canvas).model().viewport.origin, rect_origin, rect_size, pixels@)
                ==> !go_on && final(canvas).model() == old(canvas).model(),
            self.takes(old(canvas).model().viewport.origin, rect_origin, rect_size, pixels@)
                ==> go_on == self.wants_more(block_rect(rect_origin, rect_size))
                && final(canvas).model() == old(canvas).model().draw_bitmap(
                block_rect(rect_origin, rect_size).moved(Offset { x: self.pos.x, y: self.pos.y }),
                block_bitmap(rect_size, pixels),
            ),
    {
        let lim: u32 = 32767;
        if rect_size.0 == 0 || rect_size.1 == 0 || rect_origin.0 > lim || rect_origin.1 > lim
            || rect_size.0 > lim || rect_size.1 > lim || rect_origin.0 + rect_size.0 > lim
            || rect_origin.1 + rect_size.1 > lim {
            return false;
        }
        let w: usize = rect_size.0 as usize;
        let h: usize = rect_size.1 as usize;
        assert(w * h == rect_size.0 * rect_size.1 && w * h <= 1073676289) by (nonlinear_arith)
            requires
                w == rect_size.0,
                h == rect_size.1,
                w <= 32767,
                h <= 32767,
        ;
        if pixels.len() < w * h {
            return false;
        }
        let mcu_r = Rect::from_top_left_and_size(
            Point::new(rect_origin.0 as i16, rect_origin.1 as i16),
            Offset::new(rect_size.0 as i16, rect_size.1 as i16),
        );
        if !mcu_r.translatable(self.pos.to_offset()) {
            return false;
        }
        let placed = mcu_r.translate(self.pos.to_offset());
        if !placed.translatable(canvas.viewport().origin) {
            return false;
        }
        let mcu_bitmap = GdcBitmap::from_rgb565_slice(pixels, 2 * w, mcu_r.size());
        proof {
            assert(mcu_bitmap.units() == w);
        }
        let b = GdcBitmapRef::new(&mcu_bitmap);
        canvas.draw_bitmap(placed, &b);
        mcu_r.x1 < self.clip.x1 || mcu_r.y1 < self.clip.y1
    }
}

/// True when a block lies wholly before the pixel `start` in the order in
/// which a decoder delivers blocks: it ends above the row of `start`, or
/// it ends left of `start` and begins no lower than its row.
pub open spec fn before_start(start: Point, rect_origin: (u32, u32), rect_size: (u32, u32)) -> bool {
    rect_origin.1 + rect_size.1 <= start.y || (rect_origin.0 + rect_size.0 <= start.x
        && rect_origin.1 <= start.y)
}

impl JpegFnOutput {
    /// Takes a block from a decoder that began at the start of the image
    /// though the blocks were asked for from the pixel `start` on: a block
    /// that lies wholly before `start` is passed over and the decoder goes
    /// on; any other is taken as `write` takes it.
    pub fn write_from<C: RgbCanvas>(
        &self,
        canvas: &mut C,
        start: Point,
        rect_origin: (u32, u32),
        rect_size: (u32, u32),
        pixels: &[u16],
    ) -> (go_on: bool)
        requires
            old(canvas).model().wf(),
        ensures
            final(canvas).model().wf(),
            final(canvas).model().same_frame(old(canvas).model()),
            before_start(start, rect_origin, rect_size) ==> go_on && final(canvas).model()
                == old(canvas).model(),
            !before_start(start, rect_origin, rect_size) && !self.takes(
                old(canvas).model().viewport.origin,
                rect_origin,
                rect_size,
                pixels@,
            ) ==> !go_on && final(canvas).model() == old(canvas).model(),
            !before_start(start, rect_origin, rect_size) && self.takes(
                old(canvas).model().viewport.origin,
                rect_origin,
                rect_size,
                pixels@,
            ) ==> go_on == self.wants_more(block_rect(rect_origin, rect_size))
                && final(canvas).model() == old(canvas).model().draw_bitmap(
                block_rect(rect_origin, rect_size).moved(Offset { x: self.pos.x, y: self.pos.y }),
                block_bitmap(rect_size, pixels),
            ),
    {
        let above = rect_origin.1 as i64 + rect_size.1 as i64 <= start.y as i64;
        let left = rect_origin.0 as i64 + rect_size.0 as i64 <= start.x as i64 && rect_origin.1 as i64
            <= start.y as i64;
        if above || left {
            return true;
        }
        self.write(canvas, rect_origin, rect_size, pixels)
    }
}

pub struct JpegImage {
    pub pos: Point,
    pub blur_radius: usize,
    pub jpeg: &'static [u8],
}

impl JpegImage {
    /// An image at `pos` without blur.
    pub fn new(pos: Point, jpeg: &'static [u8]) -> (j: Self)
        ensures
            j == (JpegImage { pos, blur_radius: 0, jpeg }),
    {
        JpegImage { pos, blur_radius: 0, jpeg }
    }

    /// Notes a blur radius for the image. Drawing does not blur yet.
    pub fn with_blur(self, blur_radius: usize) -> (j: Self)
        ensures
            j == (JpegImage { blur_radius, ..self }),
    {
        JpegImage { blur_radius, ..self }
    }

    /// The rectangle of an image of the given size at the image's
    /// position. A size that is negative, or whose sum with the position
    /// is no 16-bit number, has no rectangle: the empty rectangle at the
    /// position stands for it.
    pub open spec fn frame_of(self, size: Offset) -> Rect {
        if 0 <= size.x && 0 <= size.y && fits(self.pos.x + size.x) && fits(self.pos.y + size.y) {
            Rect {
                x0: self.pos.x,
                y0: self.pos.y,
                x1: (self.pos.x + size.x) as i16,
                y1: (self.pos.y + size.y) as i16,
            }
        } else {
            Rect { x0: self.pos.x, y0: self.pos.y, x1: self.pos.x, y1: self.pos.y }
        }
    }

    /// The rectangle of the image for what the decoder says of its size:
    /// an image whose size cannot be had has an empty rectangle.
    pub open spec fn frame_for(self, size: Result<Offset, crate::shape::context::JpegError>) -> Rect {
        match size {
            Ok(s) => self.frame_of(s),
            Err(_) => self.frame_of(Offset { x: -1i16, y: -1i16 }),
        }
    }

    /// Computes the rectangle of the image for what the decoder says of
    /// its size.
    pub fn bounds_for(&self, size: Result<Offset, crate::shape::context::JpegError>) -> (r: Rect)
        ensures
            r == self.frame_for(size),
            r.x0 == self.pos.x,
            r.y0 == self.pos.y,
            r.x0 <= r.x1,
            r.y0 <= r.y1,
    {
        match size {
            Ok(s) => {
                if 0 <= s.x && 0 <= s.y && is_16_bit(self.pos.x as i32 + s.x as i32) && is_16_bit(
                    self.pos.y as i32 + s.y as i32,
                ) {
                    Rect::from_top_left_and_size(self.pos, s)
                } else {
                    Rect::new(self.pos, self.pos)
                }
            },
            Err(_) => Rect::new(self.pos, self.pos),
        }
    }

    /// The rectangle of the image, from the size that the decoder reads in
    /// the stream's header: the record grows by that one request, and the
    /// rectangle is the one for its answer.
    pub fn bounds<D: DrawingContext>(&self, context: &mut Recorded<D>) -> (r: Rect)
        ensures
            r.x0 == self.pos.x,
            r.y0 == self.pos.y,
            r.x0 <= r.x1,
            r.y0 <= r.y1,
            final(context).exchanges() == old(context).exchanges().push(
                Exchange::Size { jpeg: self.jpeg@, size: size_told(final(context).exchanges().last()) },
            ),
            r == self.frame_for(size_told(final(context).exchanges().last())),
            final(context).releases() == old(context).releases(),
    {
        let size = context.get_jpeg_size(self.jpeg);
        self.bounds_for(size)
    }

    /// The size of the image for what the decoder says of it.
    pub open spec fn size_for(self, size: Result<Offset, crate::shape::context::JpegError>) -> Offset {
        let b = self.frame_for(size);
        Offset { x: (b.x1 - b.x0) as i16, y: (b.y1 - b.y0) as i16 }
    }

    /// What drawing the image makes of the surface `s` when `log` begins
    /// with the exchanges with the decoders: first the size is asked for;
    /// then, unless no pixel of an image of that size is visible, the
    /// blocks from the first visible pixel on, for a receiver that draws at
    /// the image's position and stops after the visible part. The result
    /// is the surface as the decoder left it, or `s` where nothing was
    /// visible, with the exchanges that follow; `None` when `log` does not
    /// begin with the record of such a drawing.
    pub open spec fn decoded(self, s: Raster, log: Seq<Exchange>) -> Option<(Raster, Seq<Exchange>)> {
        if log.len() == 0 {
            None
        } else {
            match log[0] {
                Exchange::Size { jpeg, size } => {
                    let part = visible_part(s.viewport, self.pos, self.size_for(size));
                    if jpeg != self.jpeg@ {
                        None
                    } else if part.empty() {
                        Some((s, log.skip(1)))
                    } else if log.len() == 1 {
                        None
                    } else {
                        match log[1] {
                            Exchange::Blocks { jpeg, offset, output, answer, shown } => {
                                if jpeg == self.jpeg@ && offset == (Point { x: part.x0, y: part.y0 })
                                    && output == (JpegFnOutput { pos: self.pos, clip: part }) {
                                    Some((shown, log.skip(2)))
                                } else {
                                    None
                                }
                            },
                            _ => None,
                        }
                    }
                },
                _ => None,
            }
        }
    }

    /// Exchanges that follow a drawing are left over.
    pub proof fn lemma_decoded_more(self, s: Raster, log: Seq<Exchange>, rest: Seq<Exchange>)
        requires
            self.decoded(s, log) matches Some(end) && end.1.len() == 0,
        ensures
            self.decoded(s, log + rest) == Some((self.decoded(s, log).unwrap().0, rest)),
    {
        assert((log + rest)[0] == log[0]);
        assert((log + rest).skip(1) =~= log.skip(1) + rest);
        if log.len() >= 2 {
            assert((log + rest)[1] == log[1]);
            assert((log + rest).skip(2) =~= log.skip(2) + rest);
        }
        assert(log.skip(1).len() == 0 ==> log.skip(1) + rest =~= rest);
        assert(log.len() >= 2 && log.skip(2).len() == 0 ==> log.skip(2) + rest =~= rest);
    }

    /// Draws the visible part of the image: the decoder is asked for the
    /// size, then to start at the first visible pixel, and every block is
    /// drawn as it comes. A stream that fails to decode leaves the blocks
    /// drawn so far; an image of which nothing is visible leaves the
    /// surface as it is and the decoder unasked for blocks.
    pub fn draw<C: RgbCanvasEx, D: DrawingContext>(&self, canvas: &mut C, context: &mut Recorded<D>)
        requires
            old(canvas).model().wf(),
        ensures
            final(canvas).model().wf(),
            final(canvas).model().same_frame(old(canvas).model()),
            old(context).exchanges().is_prefix_of(final(context).exchanges()),
            self.decoded(
                old(canvas).model(),
                final(context).exchanges().skip(old(context).exchanges().len() as int),
            ) == Some((final(canvas).model(), Seq::<Exchange>::empty())),
            final(context).releases() == old(context).releases(),
    {
        let ghost before = context.exchanges();
        let b = self.bounds(context);
        let size = Offset::new(b.x1 - b.x0, b.y1 - b.y0);
        let clip = image_clip(canvas.viewport(), self.pos, size);
        proof {
            let seg = context.exchanges().skip(before.len() as int);
            assert(seg[0] == context.exchanges().last());
            assert(seg.skip(1) =~= Seq::<Exchange>::empty());
        }
        if clip.is_empty() {
            return ;
        }
        let output = JpegFnOutput::new(self.pos, clip);
        let _ = context.decompress_jpeg(self.jpeg, clip.top_left(), &output, canvas);
        proof {
            let seg = context.exchanges().skip(before.len() as int);
            assert(seg.len() == 2);
            assert(seg[0] == context.exchanges()[before.len() as int]);
            assert(seg[1] == context.exchanges().last());
            assert(seg.skip(2) =~= Seq::<Exchange>::empty());
        }
    }
}

/// The size that an exchange told, if it was a request for a size.
pub open spec fn size_told(e: Exchange) -> Result<Offset, crate::shape::context::JpegError> {
    match e {
        Exchange::Size { size, .. } => size,
        _ => Err(crate::shape::context::JpegError::Parameter),
    }
}

} // verus!
