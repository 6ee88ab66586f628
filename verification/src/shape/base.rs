//! The closed set of shapes behind one contract: bounds, draw, cleanup.

use vstd::prelude::*;
use crate::canvas::raster::Raster;
use crate::canvas::rgb::RgbCanvasEx;
use crate::geometry::Rect;
use crate::viewport::Viewport;
use crate::shape::bar::Bar;
use crate::shape::blur::Blurring;
use crate::shape::circle::Circle;
use crate::shape::context::{DrawingContext, Exchange, Recorded};
use crate::shape::jpeg::size_told;
use crate::shape::toif::visible_part;
use crate::shape::jpeg::JpegImage;
use crate::shape::snake::Snake;
use crate::shape::text::Text;
use crate::shape::toif::ToifImage;

verus! {

/// A drawing instruction.
pub enum Shape {
    Bar(Bar),
    Circle(Circle),
    Text(Text),
    ToifImage(ToifImage),
    JpegImage(JpegImage),
    Blurring(Blurring),
    Snake(Snake),
}

impl Shape {
    /// The shape is supported and its own numbers can be computed in 16
    /// bits. Of a JPEG image and of a region to blur no number is computed
    /// but from the viewport.
    pub open spec fn fits(self) -> bool {
        match self {
            Shape::Bar(s) => s.fits(),
            Shape::Circle(s) => s.fits(),
            Shape::Text(s) => s.fits(),
            Shape::ToifImage(s) => s.fits(),
            Shape::JpegImage(_) => true,
            Shape::Blurring(_) => true,
            Shape::Snake(s) => s.fits(),
        }
    }

    /// The shape can be drawn under the viewport `vp`: what it paints is
    /// representable once moved by the origin, and a region to blur is
    /// one that the filter takes. An image lands under every viewport: it
    /// paints what the clip shows of it, which is representable.
    pub open spec fn lands(self, vp: Viewport) -> bool {
        match self {
            Shape::Bar(s) => s.lands(vp),
            Shape::Circle(s) => s.lands(vp),
            Shape::Text(s) => s.lands(vp),
            Shape::ToifImage(_) => true,
            Shape::JpegImage(_) => true,
            Shape::Blurring(s) => s.lands(vp),
            Shape::Snake(s) => s.lands(vp),
        }
    }

    /// The bounds of a shape that needs no decoder for them; `None` for a
    /// JPEG image.
    pub fn plain_frame(&self) -> (r: Option<Rect>)
        requires
            self.fits(),
        ensures
            self.has_frame() ==> r == Some(self.frame()),
            !self.has_frame() ==> r.is_none(),
    {
        match self {
            Shape::Bar(s) => Some(s.bounds()),
            Shape::Circle(s) => Some(s.bounds()),
            Shape::Text(s) => Some(s.bounds()),
            Shape::ToifImage(s) => Some(s.bounds()),
            Shape::JpegImage(_) => None,
            Shape::Blurring(s) => Some(s.bounds()),
            Shape::Snake(s) => Some(s.bounds()),
        }
    }

    /// Tells whether the shape can be drawn under the viewport `vp`.
    pub fn lands_at(&self, vp: Viewport) -> (ok: bool)
        requires
            self.fits(),
        ensures
            ok == self.lands(vp),
    {
        match self {
            Shape::Bar(s) => s.lands_at(vp),
            Shape::Circle(s) => s.lands_at(vp),
            Shape::Text(s) => s.lands_at(vp),
            Shape::ToifImage(_) => true,
            Shape::JpegImage(_) => true,
            Shape::Blurring(s) => s.lands_at(vp),
            Shape::Snake(s) => s.lands_at(vp),
        }
    }

    /// True for the shapes that are drawn without a decoder: what they
    /// paint is a function of the shape and the surface alone.
    pub open spec fn is_plain(self) -> bool {
        !(self is ToifImage) && !(self is JpegImage)
    }

    /// True for the shapes whose bounds need no decoder.
    pub open spec fn has_frame(self) -> bool {
        !(self is JpegImage)
    }

    /// The bounds of a shape that needs no decoder for them.
    pub open spec fn frame(self) -> Rect {
        match self {
            Shape::Bar(s) => s.area,
            Shape::Circle(s) => s.frame(),
            Shape::Text(s) => s.area,
            Shape::ToifImage(s) => s.frame(),
            Shape::JpegImage(s) => s.frame_of(crate::geometry::Offset { x: 0, y: 0 }),
            Shape::Blurring(s) => s.area,
            Shape::Snake(s) => s.common(s.snake@.len() as int),
        }
    }

    /// Effect of drawing a plain shape on a surface.
    pub open spec fn paint(self, s: Raster) -> Raster {
        match self {
            Shape::Bar(b) => b.paint(s),
            Shape::Circle(c) => c.paint(s),
            Shape::Text(t) => t.paint(s),
            Shape::ToifImage(_) => s,
            Shape::JpegImage(_) => s,
            Shape::Blurring(b) => b.paint(s),
            Shape::Snake(k) => k.paint(s),
        }
    }

    /// The bounds of the shape when `log` begins with what taking them
    /// asks of the decoders, with the exchanges that follow: a JPEG image
    /// asks for its size and has the rectangle for the answer, no other
    /// shape asks anything. `None` when `log` does not begin so.
    pub open spec fn measured(self, log: Seq<Exchange>) -> Option<(Rect, Seq<Exchange>)> {
        match self {
            Shape::JpegImage(j) => {
                if log.len() > 0 && log[0] == (Exchange::Size { jpeg: j.jpeg@, size: size_told(log[0]) }) {
                    Some((j.frame_for(size_told(log[0])), log.skip(1)))
                } else {
                    None
                }
            },
            _ => Some((self.frame(), log)),
        }
    }

    /// Exchanges that follow the taking of the bounds are left over.
    pub proof fn lemma_measured_more(self, log: Seq<Exchange>, rest: Seq<Exchange>)
        requires
            self.measured(log) matches Some(end) && end.1.len() == 0,
        ensures
            self.measured(log + rest) == Some((self.measured(log).unwrap().0, rest)),
    {
        if self is JpegImage {
            assert((log + rest)[0] == log[0]);
            assert((log + rest).skip(1) =~= log.skip(1) + rest);
            assert(log.skip(1) + rest =~= rest);
        } else {
            assert(log + rest =~= rest);
        }
    }

    /// Exchanges that follow do not change the bounds that are taken.
    pub proof fn lemma_measured_first(self, log: Seq<Exchange>, rest: Seq<Exchange>)
        requires
            self.measured(log).is_some(),
        ensures
            self.measured(log + rest).is_some(),
            self.measured(log + rest).unwrap().0 == self.measured(log).unwrap().0,
    {
        if self is JpegImage {
            assert((log + rest)[0] == log[0]);
        }
    }

    /// What drawing the shape makes of the surface `s` when `log` begins
    /// with what the drawing asks of the decoders, with the exchanges that
    /// follow. A plain shape paints and asks nothing; an icon is drawn in
    /// slices from what the decoders answer; a JPEG image asks for its
    /// size and for the blocks of its visible part. `None` when `log` does
    /// not begin so.
    pub open spec fn drawn(self, s: Raster, log: Seq<Exchange>) -> Option<(Raster, Seq<Exchange>)> {
        match self {
            Shape::ToifImage(t) => t.streamed(
                t.toif.spec_is_grayscale(),
                s,
                visible_part(s.viewport, t.pos, t.size()),
                log,
            ),
            Shape::JpegImage(j) => j.decoded(s, log),
            _ => Some((self.paint(s), log)),
        }
    }

    /// Exchanges that follow a drawing are left over: where `log` alone is
    /// what the drawing asks, `log` followed by `rest` gives the same
    /// surface and leaves `rest`.
    pub proof fn lemma_drawn_more(self, s: Raster, log: Seq<Exchange>, rest: Seq<Exchange>)
        requires
            self.drawn(s, log) matches Some(end) && end.1.len() == 0,
        ensures
            self.drawn(s, log + rest) == Some((self.drawn(s, log).unwrap().0, rest)),
    {
        match self {
            Shape::ToifImage(t) => {
                t.lemma_streamed_more(
                    t.toif.spec_is_grayscale(),
                    s,
                    visible_part(s.viewport, t.pos, t.size()),
                    log,
                    rest,
                );
            },
            Shape::JpegImage(j) => {
                j.lemma_decoded_more(s, log, rest);
            },
            _ => {
                assert(log + rest =~= rest);
            },
        }
    }

    /// Tells whether the shape is supported and can be drawn.
    pub fn is_drawable(&self) -> (ok: bool)
        ensures
            ok == self.fits(),
    {
        match self {
            Shape::Bar(s) => s.is_drawable(),
            Shape::Circle(s) => s.is_drawable(),
            Shape::Text(s) => s.is_drawable(),
            Shape::ToifImage(s) => s.is_drawable(),
            Shape::JpegImage(_) => true,
            Shape::Blurring(_) => true,
            Shape::Snake(s) => s.is_drawable(),
        }
    }

    /// The smallest rectangle known to hold the shape. A JPEG image asks
    /// the decoder for its size, and has the rectangle for the answer; no
    /// other shape asks anything.
    pub fn bounds<D: DrawingContext>(&self, context: &mut Recorded<D>) -> (r: Rect)
        requires
            self.fits(),
        ensures
            self.has_frame() ==> r == self.frame(),
            old(context).exchanges().is_prefix_of(final(context).exchanges()),
            self.measured(final(context).exchanges().skip(old(context).exchanges().len() as int))
                == Some((r, Seq::<Exchange>::empty())),
            final(context).releases() == old(context).releases(),
    {
        proof {
            let log = context.exchanges();
            assert(log.skip(log.len() as int) =~= Seq::<Exchange>::empty());
        }
        let ghost before = context.exchanges();
        let r = match self {
            Shape::Bar(s) => s.bounds(),
            Shape::Circle(s) => s.bounds(),
            Shape::Text(s) => s.bounds(),
            Shape::ToifImage(s) => s.bounds(),
            Shape::JpegImage(s) => s.bounds(context),
            Shape::Blurring(s) => s.bounds(),
            Shape::Snake(s) => s.bounds(),
        };
        proof {
            if self is JpegImage {
                let seg = context.exchanges().skip(before.len() as int);
                assert(seg[0] == context.exchanges().last());
                assert(seg.skip(1) =~= Seq::<Exchange>::empty());
            }
        }
        r
    }

    /// Draws the shape on a surface, as `drawn` states.
    pub fn draw<C: RgbCanvasEx, D: DrawingContext>(&self, canvas: &mut C, context: &mut Recorded<D>)
        requires
            old(canvas).model().wf(),
            self.fits(),
            self.lands(old(canvas).model().viewport),
        ensures
            final(canvas).model().wf(),
            final(canvas).model().same_view(old(canvas).model()),
            self.is_plain() ==> final(canvas).model() == self.paint(old(canvas).model()),
            !(self is Text) ==> final(canvas).model().texts == old(canvas).model().texts,
            old(context).exchanges().is_prefix_of(final(context).exchanges()),
            self.drawn(
                old(canvas).model(),
                final(context).exchanges().skip(old(context).exchanges().len() as int),
            ) == Some((final(canvas).model(), Seq::<Exchange>::empty())),
            final(context).releases() == old(context).releases(),
    {
        proof {
            let log = context.exchanges();
            assert(log.skip(log.len() as int) =~= Seq::<Exchange>::empty());
        }
        match self {
            Shape::Bar(s) => s.draw(canvas),
            Shape::Circle(s) => s.draw(canvas),
            Shape::Text(s) => s.draw(canvas),
            Shape::ToifImage(s) => s.draw(canvas, context),
            Shape::JpegImage(s) => s.draw(canvas, context),
            Shape::Blurring(s) => s.draw(canvas),
            Shape::Snake(s) => s.draw(canvas),
        }
    }

    /// Releases what the shape holds in the decoders, and notes the
    /// release. No shape holds anything beyond its own drawing: an icon's
    /// decoder frees itself when its stream ends.
    pub fn cleanup<D: DrawingContext>(&self, context: &mut Recorded<D>)
        ensures
            final(context).releases() == old(context).releases().push(*self),
            final(context).exchanges() == old(context).exchanges(),
            final(context).decoders() == old(context).decoders(),
    {
        context.release(self);
    }
}

} // verus!
