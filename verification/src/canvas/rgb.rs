//! The drawing contract of the color surfaces.

use vstd::prelude::*;
use crate::canvas::arcs::{
    circle_band, inner_rect, inward_of, rect_band, rect_left_edge, rect_middle, rect_right_edge,
    row_rect, AaStroke, Frame, Side, Stroke,
};
use crate::canvas::raster::{pixel_rect, Raster};
use crate::display::Color;
use crate::gdc::{GdcBitmapRef, GdcTextAttr};
use crate::geometry::{Offset, Point, Rect};
use crate::octant::{lemma_octant_shape, octant_points, octant_seq, split_of, OctantPoint};
use crate::viewport::Viewport;

verus! {

/// A reference to a bitmap with its drawing offset and colors.
pub type BitmapRef<'a> = GdcBitmapRef<'a>;

/// Text attributes: font, colors and drawing offset.
pub type TextAttr = GdcTextAttr;

/// Drawing operations of every color surface. Each operation moves its
/// argument by the viewport's origin, cuts it to the clip and paints what is
/// left; what is clipped away is silently skipped.
pub trait RgbCanvas {
    /// The surface as a mathematical value.
    spec fn model(&self) -> Raster;

    /// Sets the viewport for the drawing operations that follow; the clip
    /// is cut to the surface.
    fn set_viewport(&mut self, vp: Viewport)
        requires
            old(self).model().wf(),
        ensures
            final(self).model() == old(self).model().with_viewport(vp),
            final(self).model().wf(),
    ;

    /// The current viewport.
    fn viewport(&self) -> (v: Viewport)
        ensures
            v == self.model().viewport,
    ;

    /// Size of the surface in pixels.
    fn size(&self) -> (s: Offset)
        ensures
            s == self.model().size,
    ;

    /// Fills a rectangle with a color.
    fn fill_rect(&mut self, r: Rect, color: Color)
        requires
            old(self).model().wf(),
            r.can_translate(old(self).model().viewport.origin),
        ensures
            final(self).model() == old(self).model().fill_rect(r, color),
            final(self).model().wf(),
            final(self).model().same_frame(old(self).model()),
    ;

    /// Draws a bitmap into a rectangle.
    fn draw_bitmap(&mut self, r: Rect, bitmap: &BitmapRef)
        requires
            old(self).model().wf(),
            r.can_translate(old(self).model().viewport.origin),
            bitmap.bitmap.wf(),
        ensures
            final(self).model() == old(self).model().draw_bitmap(r, *bitmap),
            final(self).model().wf(),
            final(self).model().same_frame(old(self).model()),
    ;

    /// Blends the bitmap `fg` over the bitmap `bg` and draws the result
    /// into a rectangle.
    fn draw_blended(&mut self, r: Rect, fg: &BitmapRef, bg: &BitmapRef)
        requires
            old(self).model().wf(),
            r.can_translate(old(self).model().viewport.origin),
            fg.bitmap.wf(),
            bg.bitmap.wf(),
        ensures
            final(self).model() == old(self).model().draw_blended(r, *fg, *bg),
            final(self).model().wf(),
            final(self).model().same_frame(old(self).model()),
    ;

    /// Hands a run of text on its background color to the text provider.
    fn draw_opaque_text(&mut self, r: Rect, text: &str, attr: &TextAttr)
        requires
            old(self).model().wf(),
            old(self).model().can_place(r, attr.offset),
        ensures
            final(self).model() == old(self).model().draw_text(r, text@, *attr, false),
            final(self).model().wf(),
            final(self).model().same_view(old(self).model()),
    ;

    /// Hands a run of text blended over a background to the text provider;
    /// the background color of the attributes plays no part.
    fn draw_blended_text(&mut self, r: Rect, text: &str, attr: &TextAttr, bg: &BitmapRef)
        requires
            old(self).model().wf(),
            old(self).model().can_place(r, attr.offset),
        ensures
            final(self).model() == old(self).model().draw_text(r, text@, *attr, true),
            final(self).model().wf(),
            final(self).model().same_view(old(self).model()),
    ;

    /// Advises the surface of the region that the next operations touch.
    fn set_window_hint(&mut self, r: Rect)
        ensures
            final(self).model() == old(self).model(),
    {
    }

    /// The surface as a rectangle with its top-left corner at the origin.
    fn bounds(&self) -> (r: Rect)
        ensures
            r == self.model().bounds(),
    {
        Rect::from_size(self.size())
    }

    /// Width of the surface in pixels.
    fn witdh(&self) -> (w: i16)
        ensures
            w == self.model().size.x,
    {
        self.size().x
    }

    /// Height of the surface in pixels.
    fn height(&self) -> (h: i16)
        ensures
            h == self.model().size.y,
    {
        self.size().y
    }

    /// Narrows the viewport to the local rectangle `window` and moves the
    /// origin to its top-left corner. Returns the viewport as it was.
    fn set_window(&mut self, window: Rect) -> (before: Viewport)
        requires
            old(self).model().wf(),
            window.can_translate(old(self).model().viewport.origin),
        ensures
            before == old(self).model().viewport,
            final(self).model() == old(self).model().windowed(window),
            final(self).model().wf(),
    {
        let viewport = self.viewport();
        self.set_viewport(viewport.relative_window(window));
        viewport
    }

    /// Narrows the clip to the local rectangle `clip`. Returns the viewport
    /// as it was.
    fn set_clip(&mut self, clip: Rect) -> (before: Viewport)
        requires
            old(self).model().wf(),
            clip.can_translate(old(self).model().viewport.origin),
        ensures
            before == old(self).model().viewport,
            final(self).model() == old(self).model().clipped(clip),
            final(self).model().wf(),
    {
        let viewport = self.viewport();
        self.set_viewport(viewport.relative_clip(clip));
        viewport
    }

    /// Sets one pixel.
    fn draw_pixel(&mut self, pt: Point, color: Color)
        requires
            old(self).model().wf(),
            pixel_rect(pt).can_translate(old(self).model().viewport.origin),
            pt.x < i16::MAX,
            pt.y < i16::MAX,
        ensures
            final(self).model() == old(self).model().draw_pixel(pt, color),
            final(self).model().wf(),
            final(self).model().same_frame(old(self).model()),
    {
        self.fill_rect(Rect::new(pt, pt.onright().under()), color);
    }

    /// Fills the canvas background: the clip rectangle, taken as a local
    /// rectangle, is filled with the color. With the origin at zero this is
    /// the whole visible part.
    fn fill_background(&mut self, color: Color)
        requires
            old(self).model().wf(),
            old(self).model().viewport.clip.can_translate(old(self).model().viewport.origin),
        ensures
            final(self).model() == old(self).model().fill_rect(
                old(self).model().viewport.clip,
                color,
            ),
            final(self).model().wf(),
            final(self).model().same_frame(old(self).model()),
    {
        let vp = self.viewport();
        self.fill_rect(vp.clip, color);
    }

    /// Paints one point of a band without blending.
    fn stroke_point(
        &mut self,
        f: Frame,
        radius: i16,
        side: Side,
        stroke: Stroke,
        color: Color,
        p: OctantPoint,
    )
        requires
            old(self).model().wf(),
            f.reaches(radius, old(self).model().viewport.origin),
            0 <= p.1 <= p.0 <= radius,
        ensures
            final(self).model() == old(self).model().stroke_point(f, radius, side, stroke, color, p),
            final(self).model().wf(),
            final(self).model().same_frame(old(self).model()),
    {
        let (l, r) = f.mirror(radius, side, p, Ghost(self.model().viewport.origin));
        match stroke {
            Stroke::Pixels => {
                self.draw_pixel(l, color);
                self.draw_pixel(r, color);
            },
            Stroke::CapPixels => {
                if p.0 == radius && p.4 {
                    self.fill_rect(Rect::new(l, r.onright().under()), color);
                } else {
                    self.draw_pixel(l, color);
                    self.draw_pixel(r, color);
                }
            },
            Stroke::Rows => {
                self.fill_rect(Rect::new(l, r.onright().under()), color);
            },
            Stroke::CapRows => {
                if p.4 {
                    self.fill_rect(Rect::new(l, r.onright().under()), color);
                }
            },
        }
    }

    /// Paints all points of a band without blending, in the order of the
    /// octant.
    fn stroke_band(&mut self, f: Frame, radius: i16, side: Side, stroke: Stroke, color: Color)
        requires
            old(self).model().wf(),
            f.reaches(radius, old(self).model().viewport.origin),
        ensures
            final(self).model() == old(self).model().stroke_points(
                f,
                radius,
                side,
                stroke,
                color,
                octant_seq(radius),
            ),
            final(self).model().wf(),
            final(self).model().same_frame(old(self).model()),
    {
        let mut it = octant_points(radius);
        let ghost start = self.model();
        loop
            invariant
                it.wf(),
                it.radius == radius,
                f.reaches(radius, self.model().viewport.origin),
                self.model().wf(),
                self.model().same_frame(start),
                self.model().stroke_points(f, radius, side, stroke, color, it@)
                    == start.stroke_points(f, radius, side, stroke, color, octant_seq(radius)),
            ensures
                self.model() == start.stroke_points(f, radius, side, stroke, color, octant_seq(radius)),
                self.model().wf(),
                self.model().same_frame(start),
            decreases it.x - it.y + 2,
        {
            let ghost rest = it@;
            let ghost here = it;
            match it.next() {
                Some(p) => {
                    proof {
                        here.lemma_advanced_wf();
                    }
                    self.stroke_point(f, radius, side, stroke, color, p);
                },
                None => {
                    break ;
                },
            }
        }
    }

    /// Paints a band if its rectangle `b` lies wholly inside the clip.
    fn paint_band(
        &mut self,
        b: Rect,
        f: Frame,
        radius: i16,
        side: Side,
        stroke: Stroke,
        color: Color,
    )
        requires
            old(self).model().wf(),
            f.reaches(radius, old(self).model().viewport.origin),
            b.can_translate(old(self).model().viewport.origin),
        ensures
            final(self).model() == old(self).model().band(b, f, radius, side, stroke, color),
            final(self).model().wf(),
            final(self).model().same_frame(old(self).model()),
    {
        if self.viewport().contains(b) {
            self.stroke_band(f, radius, side, stroke, color);
        }
    }

    /// Draws the outline, one pixel wide, of a rectangle with rounded
    /// corners.
    fn draw_round_rect(&mut self, r: Rect, radius: i16, color: Color)
        requires
            old(self).model().wf(),
            Frame::rounding_reaches(r, radius, old(self).model().viewport.origin),
        ensures
            final(self).model() == old(self).model().draw_round_rect(r, radius, color),
            final(self).model().wf(),
            final(self).model().same_frame(old(self).model()),
    {
        proof {
            lemma_octant_shape(radius);
        }
        let split = split_of(radius);
        let f = Frame::of_round_rect(r, radius);
        let b = Rect { y1: r.y0 + radius - split + 1, ..r };
        self.paint_band(b, f, radius, Side::Top, Stroke::CapPixels, color);
        let b = Rect { y0: r.y0 + radius - split + 1, y1: r.y0 + radius + 1, ..r };
        self.paint_band(b, f, radius, Side::Upper, Stroke::Pixels, color);
        self.fill_rect(
            Rect { x0: r.x0, y0: r.y0 + radius + 1, x1: r.x0 + 1, y1: r.y1 - radius - 1 },
            color,
        );
        self.fill_rect(
            Rect { x0: r.x1 - 1, y0: r.y0 + radius + 1, x1: r.x1, y1: r.y1 - radius - 1 },
            color,
        );
        let b = Rect { y0: r.y1 - radius - 1, y1: r.y1 - radius - 1 + split, ..r };
        self.paint_band(b, f, radius, Side::Lower, Stroke::Pixels, color);
        let b = Rect { y0: r.y1 - radius - 1 + split, ..r };
        self.paint_band(b, f, radius, Side::Bottom, Stroke::CapPixels, color);
    }

    /// Fills a rectangle with rounded corners.
    fn fill_round_rect(&mut self, r: Rect, radius: i16, color: Color)
        requires
            old(self).model().wf(),
            Frame::rounding_reaches(r, radius, old(self).model().viewport.origin),
        ensures
            final(self).model() == old(self).model().fill_round_rect(r, radius, color),
            final(self).model().wf(),
            final(self).model().same_frame(old(self).model()),
    {
        proof {
            lemma_octant_shape(radius);
        }
        let split = split_of(radius);
        let f = Frame::of_round_rect(r, radius);
        let b = Rect { y1: r.y0 + radius - split + 1, ..r };
        self.paint_band(b, f, radius, Side::Top, Stroke::CapRows, color);
        let b = Rect { y0: r.y0 + radius - split + 1, y1: r.y0 + radius + 1, ..r };
        self.paint_band(b, f, radius, Side::Upper, Stroke::Rows, color);
        self.fill_rect(
            Rect { x0: r.x0, y0: r.y0 + radius + 1, x1: r.x1, y1: r.y1 - radius - 1 },
            color,
        );
        let b = Rect { y0: r.y1 - radius - 1, y1: r.y1 - radius - 1 + split, ..r };
        self.paint_band(b, f, radius, Side::Lower, Stroke::Rows, color);
        let b = Rect { y0: r.y1 - radius - 1 + split, ..r };
        self.paint_band(b, f, radius, Side::Bottom, Stroke::CapRows, color);
    }

    /// Fills the circle with the given center and radius.
    fn fill_circle(&mut self, center: Point, radius: i16, color: Color)
        requires
            old(self).model().wf(),
            Frame::around(center).reaches(radius, old(self).model().viewport.origin),
        ensures
            final(self).model() == old(self).model().fill_circle(center, radius, color),
            final(self).model().wf(),
            final(self).model().same_frame(old(self).model()),
    {
        proof {
            lemma_octant_shape(radius);
        }
        let split = split_of(radius);
        let f = Frame::of_circle(center);
        let r = Rect::new(
            Point::new(center.x - radius, center.y - radius),
            Point::new(center.x + radius + 1, center.y - split + 1),
        );
        self.paint_band(r, f, radius, Side::Top, Stroke::CapRows, color);
        let r = Rect::new(
            Point::new(center.x - radius, center.y - split),
            Point::new(center.x + radius + 1, center.y + 1),
        );
        self.paint_band(r, f, radius, Side::Upper, Stroke::Rows, color);
        let r = Rect::new(
            Point::new(center.x - radius, center.y),
            Point::new(center.x + radius + 1, center.y + split + 1),
        );
        self.paint_band(r, f, radius, Side::Lower, Stroke::Rows, color);
        let r = Rect::new(
            Point::new(center.x - radius, center.y + split),
            Point::new(center.x + radius + 1, center.y + radius + 1),
        );
        self.paint_band(r, f, radius, Side::Bottom, Stroke::CapRows, color);
    }

    /// Draws the outline, one pixel wide, of the circle with the given
    /// center and radius.
    fn draw_circle(&mut self, center: Point, radius: i16, color: Color)
        requires
            old(self).model().wf(),
            Frame::around(center).reaches(radius, old(self).model().viewport.origin),
        ensures
            final(self).model() == old(self).model().draw_circle(center, radius, color),
            final(self).model().wf(),
            final(self).model().same_frame(old(self).model()),
    {
        proof {
            lemma_octant_shape(radius);
        }
        let split = split_of(radius);
        let f = Frame::of_circle(center);
        let r = Rect::new(
            Point::new(center.x - radius, center.y - radius),
            Point::new(center.x + radius + 1, center.y - split + 1),
        );
        self.paint_band(r, f, radius, Side::Top, Stroke::Pixels, color);
        let r = Rect::new(
            Point::new(center.x - radius, center.y - split),
            Point::new(center.x + radius + 1, center.y + 1),
        );
        self.paint_band(r, f, radius, Side::Upper, Stroke::Pixels, color);
        let r = Rect::new(
            Point::new(center.x - radius, center.y),
            Point::new(center.x + radius + 1, center.y + split + 1),
        );
        self.paint_band(r, f, radius, Side::Lower, Stroke::Pixels, color);
        let r = Rect::new(
            Point::new(center.x - radius, center.y + split),
            Point::new(center.x + radius + 1, center.y + radius + 1),
        );
        self.paint_band(r, f, radius, Side::Bottom, Stroke::Pixels, color);
    }
}

/// Drawing operations of the surfaces that can read their own pixels back:
/// blending, and the shapes with smoothed edges.
pub trait RgbCanvasEx: RgbCanvas {
    /// The surface as a bitmap that other surfaces can draw from.
    fn bitmap(&self) -> (b: BitmapRef<'_>)
        requires
            self.model().wf(),
        ensures
            b.bitmap.wf(),
            b.bitmap.size == self.model().size,
            b.offset == (Offset { x: 0, y: 0 }),
            !b.is_mono(),
            forall|x: int, y: int|
                b.bitmap.has(x, y) ==> #[trigger] b.bitmap.source_color(x, y) == self.model().at(
                    x,
                    y,
                ) && b.bitmap.source_alpha(x, y) == 255,
    ;

    /// Blends a color into one pixel: `alpha` 255 gives the color, 0 leaves
    /// the pixel as it is.
    fn blend_pixel(&mut self, pt: Point, color: Color, alpha: u8)
        requires
            old(self).model().wf(),
            pixel_rect(pt).can_translate(old(self).model().viewport.origin),
            pt.x < i16::MAX,
            pt.y < i16::MAX,
        ensures
            final(self).model() == old(self).model().blend_pixel(pt, color, alpha),
            final(self).model().wf(),
            final(self).model().same_frame(old(self).model()),
    ;

    /// Hands a run of text, blended over what the surface holds, to the
    /// text provider.
    fn draw_text(&mut self, r: Rect, text: &str, attr: &TextAttr)
        requires
            old(self).model().wf(),
            old(self).model().can_place(r, attr.offset),
        ensures
            final(self).model() == old(self).model().draw_text(r, text@, *attr, true),
            final(self).model().wf(),
            final(self).model().same_view(old(self).model()),
    ;

    /// Blends a bitmap over what the surface holds.
    fn blend_bitmap(&mut self, r: Rect, bitmap: &BitmapRef)
        requires
            old(self).model().wf(),
            r.can_translate(old(self).model().viewport.origin),
            bitmap.bitmap.wf(),
        ensures
            final(self).model() == old(self).model().blend_bitmap(r, *bitmap),
            final(self).model().wf(),
            final(self).model().same_frame(old(self).model()),
    ;

    /// Blurs a rectangle with a box filter of side `2 * radius + 1`. The
    /// result is as intended only where the rectangle is not clipped: the
    /// filter repeats the edge rows and columns of what is visible. The
    /// filter takes a kernel of a radius up to `MAX_RADIUS` and rows of up
    /// to `MAX_WIDTH` pixels; a visible part that the kernel does not fit
    /// into is left as it is.
    fn blur_rect(&mut self, r: Rect, radius: usize)
        requires
            old(self).model().wf(),
            r.can_translate(old(self).model().viewport.origin),
            Raster::blur_allowed(old(self).model().visible(r), radius),
        ensures
            final(self).model() == old(self).model().blur_rect(r, radius),
            final(self).model().wf(),
            final(self).model().same_frame(old(self).model()),
    ;

    /// Paints one point of a band with its coverage.
    fn aa_point(
        &mut self,
        f: Frame,
        radius: i16,
        side: Side,
        stroke: AaStroke,
        color: Color,
        p: OctantPoint,
    )
        requires
            old(self).model().wf(),
            f.reaches(radius, old(self).model().viewport.origin),
            0 <= p.1 <= p.0 <= radius,
        ensures
            final(self).model() == old(self).model().aa_point(f, side, stroke, color, p),
            final(self).model().wf(),
            final(self).model().same_frame(old(self).model()),
    {
        let (l, r) = f.mirror(radius, side, p, Ghost(self.model().viewport.origin));
        match stroke {
            AaStroke::BlendRows => {
                self.blend_pixel(l, color, p.2);
                self.blend_pixel(r, color, p.2);
                self.fill_rect(Rect::new(l.onright(), r.under()), color);
            },
            AaStroke::BlendCapRows => {
                self.blend_pixel(l, color, p.2);
                self.blend_pixel(r, color, p.2);
                if p.3 {
                    self.fill_rect(Rect::new(l.onright(), r.under()), color);
                }
            },
            AaStroke::BlendPairs => {
                self.blend_pixel(l, color, p.2);
                self.blend_pixel(inward_of(l, side, true), color, 255 - p.2);
                self.blend_pixel(r, color, p.2);
                self.blend_pixel(inward_of(r, side, false), color, 255 - p.2);
            },
        }
    }

    /// Paints all points of a band with their coverage, in the order of
    /// the octant.
    fn aa_stroke_band(&mut self, f: Frame, radius: i16, side: Side, stroke: AaStroke, color: Color)
        requires
            old(self).model().wf(),
            f.reaches(radius, old(self).model().viewport.origin),
        ensures
            final(self).model() == old(self).model().aa_points(
                f,
                side,
                stroke,
                color,
                octant_seq(radius),
            ),
            final(self).model().wf(),
            final(self).model().same_frame(old(self).model()),
    {
        let mut it = octant_points(radius);
        let ghost start = self.model();
        loop
            invariant
                it.wf(),
                it.radius == radius,
                f.reaches(radius, self.model().viewport.origin),
                self.model().wf(),
                self.model().same_frame(start),
                self.model().aa_points(f, side, stroke, color, it@) == start.aa_points(
                    f,
                    side,
                    stroke,
                    color,
                    octant_seq(radius),
                ),
            ensures
                self.model() == start.aa_points(f, side, stroke, color, octant_seq(radius)),
                self.model().wf(),
                self.model().same_frame(start),
            decreases it.x - it.y + 2,
        {
            let ghost here = it;
            match it.next() {
                Some(p) => {
                    proof {
                        here.lemma_advanced_wf();
                    }
                    self.aa_point(f, radius, side, stroke, color, p);
                },
                None => {
                    break ;
                },
            }
        }
    }

    /// Paints a band with coverage if its rectangle `b` lies wholly inside
    /// the clip.
    fn aa_paint_band(
        &mut self,
        b: Rect,
        f: Frame,
        radius: i16,
        side: Side,
        stroke: AaStroke,
        color: Color,
    )
        requires
            old(self).model().wf(),
            f.reaches(radius, old(self).model().viewport.origin),
            b.can_translate(old(self).model().viewport.origin),
        ensures
            final(self).model() == old(self).model().aa_band(b, f, radius, side, stroke, color),
            final(self).model().wf(),
            final(self).model().same_frame(old(self).model()),
    {
        if self.viewport().contains(b) {
            self.aa_stroke_band(f, radius, side, stroke, color);
        }
    }

    /// Fills a circle and blends its edge by coverage.
    fn fill_circle_aa(&mut self, center: Point, radius: i16, color: Color)
        requires
            old(self).model().wf(),
            Frame::around(center).reaches(radius, old(self).model().viewport.origin),
        ensures
            final(self).model() == old(self).model().fill_circle_aa(center, radius, color),
            final(self).model().wf(),
            final(self).model().same_frame(old(self).model()),
    {
        proof {
            lemma_octant_shape(radius);
        }
        let split = split_of(radius);
        let f = Frame::of_circle(center);
        let r = Rect::new(
            Point::new(center.x - radius, center.y - radius),
            Point::new(center.x + radius + 1, center.y - split + 1),
        );
        self.aa_paint_band(r, f, radius, Side::Top, AaStroke::BlendCapRows, color);
        let r = Rect::new(
            Point::new(center.x - radius, center.y - split),
            Point::new(center.x + radius + 1, center.y + 1),
        );
        self.aa_paint_band(r, f, radius, Side::Upper, AaStroke::BlendRows, color);
        let r = Rect::new(
            Point::new(center.x - radius, center.y),
            Point::new(center.x + radius + 1, center.y + split + 1),
        );
        self.aa_paint_band(r, f, radius, Side::Lower, AaStroke::BlendRows, color);
        let r = Rect::new(
            Point::new(center.x - radius, center.y + split),
            Point::new(center.x + radius + 1, center.y + radius + 1),
        );
        self.aa_paint_band(r, f, radius, Side::Bottom, AaStroke::BlendCapRows, color);
    }

    /// Draws the outline of a circle, blending each outline pixel by its
    /// coverage and its inner neighbour by the rest.
    fn draw_circle_aa(&mut self, center: Point, radius: i16, color: Color)
        requires
            old(self).model().wf(),
            Frame::around(center).reaches(radius, old(self).model().viewport.origin),
        ensures
            final(self).model() == old(self).model().draw_circle_aa(center, radius, color),
            final(self).model().wf(),
            final(self).model().same_frame(old(self).model()),
    {
        proof {
            lemma_octant_shape(radius);
        }
        let split = split_of(radius);
        let f = Frame::of_circle(center);
        let r = Rect::new(
            Point::new(center.x - radius, center.y - radius),
            Point::new(center.x + radius + 1, center.y - split + 1),
        );
        self.aa_paint_band(r, f, radius, Side::Top, AaStroke::BlendPairs, color);
        let r = Rect::new(
            Point::new(center.x - radius, center.y - split),
            Point::new(center.x + radius + 1, center.y + 1),
        );
        self.aa_paint_band(r, f, radius, Side::Upper, AaStroke::BlendPairs, color);
        let r = Rect::new(
            Point::new(center.x - radius, center.y),
            Point::new(center.x + radius + 1, center.y + split + 1),
        );
        self.aa_paint_band(r, f, radius, Side::Lower, AaStroke::BlendPairs, color);
        let r = Rect::new(
            Point::new(center.x - radius, center.y + split),
            Point::new(center.x + radius + 1, center.y + radius + 1),
        );
        self.aa_paint_band(r, f, radius, Side::Bottom, AaStroke::BlendPairs, color);
    }

    /// Fills a rectangle with rounded corners and blends the corners'
    /// edges by coverage.
    fn fill_round_rect_aa(&mut self, r: Rect, radius: i16, color: Color)
        requires
            old(self).model().wf(),
            Frame::rounding_reaches(r, radius, old(self).model().viewport.origin),
        ensures
            final(self).model() == old(self).model().fill_round_rect_aa(r, radius, color),
            final(self).model().wf(),
            final(self).model().same_frame(old(self).model()),
    {
        proof {
            lemma_octant_shape(radius);
        }
        let split = split_of(radius);
        let f = Frame::of_round_rect(r, radius);
        let b = Rect { y1: r.y0 + radius - split + 1, ..r };
        self.aa_paint_band(b, f, radius, Side::Top, AaStroke::BlendCapRows, color);
        let b = Rect { y0: r.y0 + radius - split + 1, y1: r.y0 + radius + 1, ..r };
        self.aa_paint_band(b, f, radius, Side::Upper, AaStroke::BlendRows, color);
        self.fill_rect(
            Rect { x0: r.x0, y0: r.y0 + radius + 1, x1: r.x1, y1: r.y1 - radius - 1 },
            color,
        );
        let b = Rect { y0: r.y1 - radius - 1, y1: r.y1 - radius - 1 + split, ..r };
        self.aa_paint_band(b, f, radius, Side::Lower, AaStroke::BlendRows, color);
        let b = Rect { y0: r.y1 - radius - 1 + split, ..r };
        self.aa_paint_band(b, f, radius, Side::Bottom, AaStroke::BlendCapRows, color);
    }
}

} // verus!
