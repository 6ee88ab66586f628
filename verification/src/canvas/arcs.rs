//! Circles and rounded rectangles as sequences of primitive strokes: the
//! octant of points is mirrored into four bands, and every point of a band
//! paints pixels or rows.

use vstd::prelude::*;
use crate::canvas::raster::Raster;
use crate::display::Color;
use crate::geometry::{fits, is_16_bit, Offset, Point, Rect};
use crate::octant::{octant_seq, octant_split, OctantPoint, MAX_RADIUS};

verus! {

/// The centers of the four corner arcs of a rounded shape: the arcs on the
/// left turn around `x == left`, those on the right around `x == right`,
/// the upper ones around `y == top`, the lower ones around `y == bottom`.
/// For a circle all four are the center.
#[derive(Copy, Clone, Debug, PartialEq, Eq, Structural)]
pub struct Frame {
    pub left: i16,
    pub right: i16,
    pub top: i16,
    pub bottom: i16,
}

/// The four bands of a rounded shape, from the top down.
#[derive(Copy, Clone, Debug, PartialEq, Eq, Structural)]
pub enum Side {
    /// From the top edge down to the diagonal.
    Top,
    /// From the diagonal down to the arcs' centers.
    Upper,
    /// From the arcs' centers down to the diagonal.
    Lower,
    /// From the diagonal down to the bottom edge.
    Bottom,
}

/// What a point of a band paints, without blending.
#[derive(Copy, Clone, Debug, PartialEq, Eq, Structural)]
pub enum Stroke {
    /// The two mirrored pixels.
    Pixels,
    /// The row between the mirrored pixels where the point closes the
    /// outermost row, else the two pixels.
    CapPixels,
    /// The row between the mirrored pixels, both included.
    Rows,
    /// That row, but only at the last point of each row.
    CapRows,
}

/// What a point of a band paints with its coverage blended in.
#[derive(Copy, Clone, Debug, PartialEq, Eq, Structural)]
pub enum AaStroke {
    /// The two pixels blended, the row strictly between them filled.
    BlendRows,
    /// The two pixels blended, the row between them filled at the first
    /// point of each column.
    BlendCapRows,
    /// The two pixels blended, and their inner neighbours blended with the
    /// complementary coverage.
    BlendPairs,
}

/// True when the column or row `v` can be painted on under an origin that
/// moves it by `by`: it, its neighbours on both sides and the end of the
/// pixel after it are 16-bit numbers, before the move and after it.
pub open spec fn near(v: int, by: int) -> bool {
    fits(v - 1) && fits(v + 2) && fits(v + by - 1) && fits(v + by + 2)
}

/// Tells whether the column or row `v` can be painted on under an origin
/// that moves it by `by`.
pub fn is_near(v: i32, by: i16) -> (ok: bool)
    requires
        -100000 <= v <= 100000,
    ensures
        ok == near(v as int, by as int),
{
    is_16_bit(v - 1) && is_16_bit(v + 2) && is_16_bit(v + by as i32 - 1) && is_16_bit(
        v + by as i32 + 2,
    )
}

/// The row from `l` to `r`, both included.
pub open spec fn row_rect(l: Point, r: Point) -> Rect {
    Rect { x0: l.x, y0: l.y, x1: (r.x + 1) as i16, y1: (r.y + 1) as i16 }
}

/// The row strictly between `l` and `r`.
pub open spec fn inner_rect(l: Point, r: Point) -> Rect {
    Rect { x0: (l.x + 1) as i16, y0: l.y, x1: r.x, y1: (r.y + 1) as i16 }
}

/// The neighbour of an outline pixel towards the inside of the shape.
pub open spec fn inward(pt: Point, side: Side, is_left: bool) -> Point {
    match side {
        Side::Top => Point { x: pt.x, y: (pt.y + 1) as i16 },
        Side::Upper | Side::Lower => if is_left {
            Point { x: (pt.x + 1) as i16, y: pt.y }
        } else {
            Point { x: (pt.x - 1) as i16, y: pt.y }
        },
        Side::Bottom => Point { x: pt.x, y: (pt.y - 1) as i16 },
    }
}

impl Frame {
    /// The frame of the circle around `center`.
    pub open spec fn around(center: Point) -> Frame {
        Frame { left: center.x, right: center.x, top: center.y, bottom: center.y }
    }

    /// The frame of the rectangle `r` with corners of the given radius.
    pub open spec fn rounding(r: Rect, radius: i16) -> Frame {
        Frame {
            left: (r.x0 + radius) as i16,
            right: (r.x1 - radius - 1) as i16,
            top: (r.y0 + radius) as i16,
            bottom: (r.y1 - radius - 1) as i16,
        }
    }

    /// Every point of every band can be painted on under the origin
    /// `origin`: the radius is one that the octant is walked for, and the
    /// outermost and the innermost columns and rows of the four arcs are
    /// near. This is all that the 16-bit arithmetic of the bands asks.
    pub open spec fn reaches(self, radius: i16, origin: Offset) -> bool {
        &&& 0 <= radius <= MAX_RADIUS
        &&& near(self.left - radius, origin.x as int)
        &&& near(self.left as int, origin.x as int)
        &&& near(self.right as int, origin.x as int)
        &&& near(self.right + radius, origin.x as int)
        &&& near(self.top - radius, origin.y as int)
        &&& near(self.top as int, origin.y as int)
        &&& near(self.bottom as int, origin.y as int)
        &&& near(self.bottom + radius, origin.y as int)
    }

    /// True when the frame of the rectangle `r` with corners of the given
    /// radius can be computed and every point of its bands painted on
    /// under the origin `origin`.
    pub open spec fn rounding_reaches(r: Rect, radius: i16, origin: Offset) -> bool {
        &&& fits(r.x0 + radius)
        &&& fits(r.x1 - radius - 1)
        &&& fits(r.y0 + radius)
        &&& fits(r.y1 - radius - 1)
        &&& Frame::rounding(r, radius).reaches(radius, origin)
    }

    /// The left one of the two pixels that the point `p` stands for in the
    /// band `side`.
    pub open spec fn left_point(self, side: Side, p: OctantPoint) -> Point {
        match side {
            Side::Top => Point { x: (self.left - p.1) as i16, y: (self.top - p.0) as i16 },
            Side::Upper => Point { x: (self.left - p.0) as i16, y: (self.top - p.1) as i16 },
            Side::Lower => Point { x: (self.left - p.0) as i16, y: (self.bottom + p.1) as i16 },
            Side::Bottom => Point { x: (self.left - p.1) as i16, y: (self.bottom + p.0) as i16 },
        }
    }

    /// The right one of the two pixels that the point `p` stands for in
    /// the band `side`.
    pub open spec fn right_point(self, side: Side, p: OctantPoint) -> Point {
        match side {
            Side::Top => Point { x: (self.right + p.1) as i16, y: (self.top - p.0) as i16 },
            Side::Upper => Point { x: (self.right + p.0) as i16, y: (self.top - p.1) as i16 },
            Side::Lower => Point { x: (self.right + p.0) as i16, y: (self.bottom + p.1) as i16 },
            Side::Bottom => Point { x: (self.right + p.1) as i16, y: (self.bottom + p.0) as i16 },
        }
    }

    /// Tells whether every point of every band can be painted on under
    /// the origin `origin`.
    pub fn can_reach(&self, radius: i16, origin: Offset) -> (ok: bool)
        ensures
            ok == self.reaches(radius, origin),
    {
        let r: i32 = radius as i32;
        0 <= radius && radius <= MAX_RADIUS && is_near(self.left as i32 - r, origin.x) && is_near(
            self.left as i32,
            origin.x,
        ) && is_near(self.right as i32, origin.x) && is_near(self.right as i32 + r, origin.x)
            && is_near(self.top as i32 - r, origin.y) && is_near(self.top as i32, origin.y)
            && is_near(self.bottom as i32, origin.y) && is_near(self.bottom as i32 + r, origin.y)
    }

    /// Tells whether the frame of a rounded rectangle can be computed and
    /// every point of its bands painted on under the origin `origin`.
    pub fn rounding_can_reach(r: Rect, radius: i16, origin: Offset) -> (ok: bool)
        ensures
            ok == Frame::rounding_reaches(r, radius, origin),
    {
        if is_16_bit(r.x0 as i32 + radius as i32) && is_16_bit(r.x1 as i32 - radius as i32 - 1)
            && is_16_bit(r.y0 as i32 + radius as i32) && is_16_bit(
            r.y1 as i32 - radius as i32 - 1,
        ) {
            Frame::of_round_rect(r, radius).can_reach(radius, origin)
        } else {
            false
        }
    }

    /// Computes the frame of the circle around `center`.
    pub fn of_circle(center: Point) -> (f: Frame)
        ensures
            f == Frame::around(center),
    {
        Frame { left: center.x, right: center.x, top: center.y, bottom: center.y }
    }

    /// Computes the frame of a rounded rectangle.
    pub fn of_round_rect(r: Rect, radius: i16) -> (f: Frame)
        requires
            fits(r.x0 + radius),
            fits(r.x1 - radius - 1),
            fits(r.y0 + radius),
            fits(r.y1 - radius - 1),
        ensures
            f == Frame::rounding(r, radius),
    {
        Frame {
            left: r.x0 + radius,
            right: (r.x1 as i32 - radius as i32 - 1) as i16,
            top: r.y0 + radius,
            bottom: (r.y1 as i32 - radius as i32 - 1) as i16,
        }
    }

    /// Computes the two mirrored pixels of a point of a band.
    pub fn mirror(&self, radius: i16, side: Side, p: OctantPoint, Ghost(origin): Ghost<Offset>) -> (r: (
        Point,
        Point,
    ))
        requires
            self.reaches(radius, origin),
            0 <= p.1 <= p.0 <= radius,
        ensures
            r.0 == self.left_point(side, p),
            r.1 == self.right_point(side, p),
            near(r.0.x as int, origin.x as int),
            near(r.0.y as int, origin.y as int),
            near(r.1.x as int, origin.x as int),
            near(r.1.y as int, origin.y as int),
    {
        match side {
            Side::Top => (
                Point { x: self.left - p.1, y: self.top - p.0 },
                Point { x: self.right + p.1, y: self.top - p.0 },
            ),
            Side::Upper => (
                Point { x: self.left - p.0, y: self.top - p.1 },
                Point { x: self.right + p.0, y: self.top - p.1 },
            ),
            Side::Lower => (
                Point { x: self.left - p.0, y: self.bottom + p.1 },
                Point { x: self.right + p.0, y: self.bottom + p.1 },
            ),
            Side::Bottom => (
                Point { x: self.left - p.1, y: self.bottom + p.0 },
                Point { x: self.right + p.1, y: self.bottom + p.0 },
            ),
        }
    }
}

/// Computes the neighbour of an outline pixel towards the inside.
pub fn inward_of(pt: Point, side: Side, is_left: bool) -> (q: Point)
    requires
        fits(pt.x - 1),
        fits(pt.x + 1),
        fits(pt.y - 1),
        fits(pt.y + 1),
    ensures
        q == inward(pt, side, is_left),
        pt.x - 1 <= q.x <= pt.x + 1,
        pt.y - 1 <= q.y <= pt.y + 1,
{
    match side {
        Side::Top => pt.under(),
        Side::Upper => if is_left {
            pt.onright()
        } else {
            pt.onleft()
        },
        Side::Lower => if is_left {
            pt.onright()
        } else {
            pt.onleft()
        },
        Side::Bottom => pt.above(),
    }
}

impl Raster {
    /// Effect of one point of a band painted without blending.
    pub open spec fn stroke_point(
        self,
        f: Frame,
        radius: i16,
        side: Side,
        stroke: Stroke,
        color: Color,
        p: OctantPoint,
    ) -> Raster {
        let l = f.left_point(side, p);
        let r = f.right_point(side, p);
        match stroke {
            Stroke::Pixels => self.draw_pixel(l, color).draw_pixel(r, color),
            Stroke::CapPixels => if p.0 == radius && p.4 {
                self.fill_rect(row_rect(l, r), color)
            } else {
                self.draw_pixel(l, color).draw_pixel(r, color)
            },
            Stroke::Rows => self.fill_rect(row_rect(l, r), color),
            Stroke::CapRows => if p.4 {
                self.fill_rect(row_rect(l, r), color)
            } else {
                self
            },
        }
    }

    /// Effect of the points `pts` of a band painted in order without
    /// blending.
    pub open spec fn stroke_points(
        self,
        f: Frame,
        radius: i16,
        side: Side,
        stroke: Stroke,
        color: Color,
        pts: Seq<OctantPoint>,
    ) -> Raster
        decreases pts.len(),
    {
        if pts.len() == 0 {
            self
        } else {
            self.stroke_point(f, radius, side, stroke, color, pts[0]).stroke_points(
                f,
                radius,
                side,
                stroke,
                color,
                pts.skip(1),
            )
        }
    }

    /// Effect of a band painted without blending: nothing unless the
    /// band's rectangle `b` lies wholly inside the clip.
    pub open spec fn band(
        self,
        b: Rect,
        f: Frame,
        radius: i16,
        side: Side,
        stroke: Stroke,
        color: Color,
    ) -> Raster {
        if self.viewport.holds(b) {
            self.stroke_points(f, radius, side, stroke, color, octant_seq(radius))
        } else {
            self
        }
    }

    /// Effect of one point of a band painted with its coverage.
    pub open spec fn aa_point(
        self,
        f: Frame,
        side: Side,
        stroke: AaStroke,
        color: Color,
        p: OctantPoint,
    ) -> Raster {
        let l = f.left_point(side, p);
        let r = f.right_point(side, p);
        let edge = self.blend_pixel(l, color, p.2).blend_pixel(r, color, p.2);
        match stroke {
            AaStroke::BlendRows => edge.fill_rect(inner_rect(l, r), color),
            AaStroke::BlendCapRows => if p.3 {
                edge.fill_rect(inner_rect(l, r), color)
            } else {
                edge
            },
            AaStroke::BlendPairs => self.blend_pixel(l, color, p.2).blend_pixel(
                inward(l, side, true),
                color,
                (255 - p.2) as u8,
            ).blend_pixel(r, color, p.2).blend_pixel(
                inward(r, side, false),
                color,
                (255 - p.2) as u8,
            ),
        }
    }

    /// Effect of the points `pts` of a band painted in order with their
    /// coverage.
    pub open spec fn aa_points(
        self,
        f: Frame,
        side: Side,
        stroke: AaStroke,
        color: Color,
        pts: Seq<OctantPoint>,
    ) -> Raster
        decreases pts.len(),
    {
        if pts.len() == 0 {
            self
        } else {
            self.aa_point(f, side, stroke, color, pts[0]).aa_points(
                f,
                side,
                stroke,
                color,
                pts.skip(1),
            )
        }
    }

    /// Effect of a band painted with coverage: nothing unless the band's
    /// rectangle `b` lies wholly inside the clip.
    pub open spec fn aa_band(
        self,
        b: Rect,
        f: Frame,
        radius: i16,
        side: Side,
        stroke: AaStroke,
        color: Color,
    ) -> Raster {
        if self.viewport.holds(b) {
            self.aa_points(f, side, stroke, color, octant_seq(radius))
        } else {
            self
        }
    }
}

/// The rectangle of the band `side` of the circle around `c`.
pub open spec fn circle_band(c: Point, radius: i16, side: Side) -> Rect {
    let split = octant_split(radius);
    match side {
        Side::Top => Rect {
            x0: (c.x - radius) as i16,
            y0: (c.y - radius) as i16,
            x1: (c.x + radius + 1) as i16,
            y1: (c.y - split + 1) as i16,
        },
        Side::Upper => Rect {
            x0: (c.x - radius) as i16,
            y0: (c.y - split) as i16,
            x1: (c.x + radius + 1) as i16,
            y1: (c.y + 1) as i16,
        },
        Side::Lower => Rect {
            x0: (c.x - radius) as i16,
            y0: c.y,
            x1: (c.x + radius + 1) as i16,
            y1: (c.y + split + 1) as i16,
        },
        Side::Bottom => Rect {
            x0: (c.x - radius) as i16,
            y0: (c.y + split) as i16,
            x1: (c.x + radius + 1) as i16,
            y1: (c.y + radius + 1) as i16,
        },
    }
}

/// The rectangle of the band `side` of the rectangle `r` with corners of
/// the given radius.
pub open spec fn rect_band(r: Rect, radius: i16, side: Side) -> Rect {
    let split = octant_split(radius);
    match side {
        Side::Top => Rect { y1: (r.y0 + radius - split + 1) as i16, ..r },
        Side::Upper => Rect {
            y0: (r.y0 + radius - split + 1) as i16,
            y1: (r.y0 + radius + 1) as i16,
            ..r
        },
        Side::Lower => Rect {
            y0: (r.y1 - radius - 1) as i16,
            y1: (r.y1 - radius - 1 + split) as i16,
            ..r
        },
        Side::Bottom => Rect { y0: (r.y1 - radius - 1 + split) as i16, ..r },
    }
}

/// The part of the rectangle `r` between its upper and lower corners.
pub open spec fn rect_middle(r: Rect, radius: i16) -> Rect {
    Rect { x0: r.x0, y0: (r.y0 + radius + 1) as i16, x1: r.x1, y1: (r.y1 - radius - 1) as i16 }
}

/// The leftmost column of `rect_middle`.
pub open spec fn rect_left_edge(r: Rect, radius: i16) -> Rect {
    Rect {
        x0: r.x0,
        y0: (r.y0 + radius + 1) as i16,
        x1: (r.x0 + 1) as i16,
        y1: (r.y1 - radius - 1) as i16,
    }
}

/// The rightmost column of `rect_middle`.
pub open spec fn rect_right_edge(r: Rect, radius: i16) -> Rect {
    Rect {
        x0: (r.x1 - 1) as i16,
        y0: (r.y0 + radius + 1) as i16,
        x1: r.x1,
        y1: (r.y1 - radius - 1) as i16,
    }
}

impl Raster {
    /// Effect of a filled circle.
    pub open spec fn fill_circle(self, c: Point, radius: i16, color: Color) -> Raster {
        let f = Frame::around(c);
        self.band(circle_band(c, radius, Side::Top), f, radius, Side::Top, Stroke::CapRows, color)
            .band(circle_band(c, radius, Side::Upper), f, radius, Side::Upper, Stroke::Rows, color)
            .band(circle_band(c, radius, Side::Lower), f, radius, Side::Lower, Stroke::Rows, color)
            .band(
            circle_band(c, radius, Side::Bottom),
            f,
            radius,
            Side::Bottom,
            Stroke::CapRows,
            color,
        )
    }

    /// Effect of the outline of a circle.
    pub open spec fn draw_circle(self, c: Point, radius: i16, color: Color) -> Raster {
        let f = Frame::around(c);
        self.band(circle_band(c, radius, Side::Top), f, radius, Side::Top, Stroke::Pixels, color)
            .band(
            circle_band(c, radius, Side::Upper),
            f,
            radius,
            Side::Upper,
            Stroke::Pixels,
            color,
        ).band(circle_band(c, radius, Side::Lower), f, radius, Side::Lower, Stroke::Pixels, color)
            .band(
            circle_band(c, radius, Side::Bottom),
            f,
            radius,
            Side::Bottom,
            Stroke::Pixels,
            color,
        )
    }

    /// Effect of a filled rectangle with rounded corners.
    pub open spec fn fill_round_rect(self, r: Rect, radius: i16, color: Color) -> Raster {
        let f = Frame::rounding(r, radius);
        self.band(rect_band(r, radius, Side::Top), f, radius, Side::Top, Stroke::CapRows, color)
            .band(rect_band(r, radius, Side::Upper), f, radius, Side::Upper, Stroke::Rows, color)
            .fill_rect(rect_middle(r, radius), color).band(
            rect_band(r, radius, Side::Lower),
            f,
            radius,
            Side::Lower,
            Stroke::Rows,
            color,
        ).band(rect_band(r, radius, Side::Bottom), f, radius, Side::Bottom, Stroke::CapRows, color)
    }

    /// Effect of the outline of a rectangle with rounded corners.
    pub open spec fn draw_round_rect(self, r: Rect, radius: i16, color: Color) -> Raster {
        let f = Frame::rounding(r, radius);
        self.band(rect_band(r, radius, Side::Top), f, radius, Side::Top, Stroke::CapPixels, color)
            .band(rect_band(r, radius, Side::Upper), f, radius, Side::Upper, Stroke::Pixels, color)
            .fill_rect(rect_left_edge(r, radius), color).fill_rect(
            rect_right_edge(r, radius),
            color,
        ).band(rect_band(r, radius, Side::Lower), f, radius, Side::Lower, Stroke::Pixels, color)
            .band(
            rect_band(r, radius, Side::Bottom),
            f,
            radius,
            Side::Bottom,
            Stroke::CapPixels,
            color,
        )
    }

    /// Effect of a filled circle with a smoothed edge.
    pub open spec fn fill_circle_aa(self, c: Point, radius: i16, color: Color) -> Raster {
        let f = Frame::around(c);
        self.aa_band(
            circle_band(c, radius, Side::Top),
            f,
            radius,
            Side::Top,
            AaStroke::BlendCapRows,
            color,
        ).aa_band(
            circle_band(c, radius, Side::Upper),
            f,
            radius,
            Side::Upper,
            AaStroke::BlendRows,
            color,
        ).aa_band(
            circle_band(c, radius, Side::Lower),
            f,
            radius,
            Side::Lower,
            AaStroke::BlendRows,
            color,
        ).aa_band(
            circle_band(c, radius, Side::Bottom),
            f,
            radius,
            Side::Bottom,
            AaStroke::BlendCapRows,
            color,
        )
    }

    /// Effect of the smoothed outline of a circle.
    pub open spec fn draw_circle_aa(self, c: Point, radius: i16, color: Color) -> Raster {
        let f = Frame::around(c);
        self.aa_band(
            circle_band(c, radius, Side::Top),
            f,
            radius,
            Side::Top,
            AaStroke::BlendPairs,
            color,
        ).aa_band(
            circle_band(c, radius, Side::Upper),
            f,
            radius,
            Side::Upper,
            AaStroke::BlendPairs,
            color,
        ).aa_band(
            circle_band(c, radius, Side::Lower),
            f,
            radius,
            Side::Lower,
            AaStroke::BlendPairs,
            color,
        ).aa_band(
            circle_band(c, radius, Side::Bottom),
            f,
            radius,
            Side::Bottom,
            AaStroke::BlendPairs,
            color,
        )
    }

    /// Effect of a filled rectangle with smoothed rounded corners.
    pub open spec fn fill_round_rect_aa(self, r: Rect, radius: i16, color: Color) -> Raster {
        let f = Frame::rounding(r, radius);
        self.aa_band(
            rect_band(r, radius, Side::Top),
            f,
            radius,
            Side::Top,
            AaStroke::BlendCapRows,
            color,
        ).aa_band(
            rect_band(r, radius, Side::Upper),
            f,
            radius,
            Side::Upper,
            AaStroke::BlendRows,
            color,
        ).fill_rect(rect_middle(r, radius), color).aa_band(
            rect_band(r, radius, Side::Lower),
            f,
            radius,
            Side::Lower,
            AaStroke::BlendRows,
            color,
        ).aa_band(
            rect_band(r, radius, Side::Bottom),
            f,
            radius,
            Side::Bottom,
            AaStroke::BlendCapRows,
            color,
        )
    }
}

} // verus!
