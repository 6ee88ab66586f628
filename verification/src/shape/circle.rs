//! The circle: filled, outlined, or a ring of a given thickness.

use vstd::prelude::*;
use crate::canvas::raster::Raster;
use crate::canvas::rgb::RgbCanvasEx;
use crate::display::Color;
use crate::canvas::arcs::Frame;
use crate::geometry::{fits, is_16_bit, Offset, Point, Rect};
use crate::viewport::Viewport;

verus! {

pub struct Circle {
    pub center: Point,
    pub radius: i16,
    pub fg_color: Option<Color>,
    pub bg_color: Option<Color>,
    pub thickness: i16,
}

impl Circle {
    /// A circle without outline or fill, thickness 1.
    pub fn new(center: Point, radius: i16) -> (c: Self)
        ensures
            c == (Circle { center, radius, fg_color: None, bg_color: None, thickness: 1 }),
    {
        Circle { center, radius, fg_color: None, bg_color: None, thickness: 1 }
    }

    /// Sets the color of the outline.
    pub fn with_fg(self, fg_color: Color) -> (c: Self)
        ensures
            c == (Circle { fg_color: Some(fg_color), ..self }),
    {
        Circle { fg_color: Some(fg_color), ..self }
    }

    /// Sets the color of the fill.
    pub fn with_bg(self, bg_color: Color) -> (c: Self)
        ensures
            c == (Circle { bg_color: Some(bg_color), ..self }),
    {
        Circle { bg_color: Some(bg_color), ..self }
    }

    /// Sets the thickness of the outline.
    pub fn with_thickness(self, thickness: i16) -> (c: Self)
        ensures
            c == (Circle { thickness, ..self }),
    {
        Circle { thickness, ..self }
    }

    /// Thickness of the outline that is drawn: none without a color.
    pub open spec fn outline(self) -> i16 {
        if self.fg_color.is_some() {
            self.thickness
        } else {
            0
        }
    }

    /// The circle is supported and its own numbers can be computed in 16
    /// bits: the radius is not negative, the square around the circle is
    /// representable, and so is the radius of the fill inside a thick
    /// outline. An outline thicker than one pixel needs a fill: a ring
    /// alone is not supported.
    pub open spec fn fits(self) -> bool {
        &&& 0 <= self.radius
        &&& fits(self.center.x - self.radius)
        &&& fits(self.center.x + self.radius + 1)
        &&& fits(self.center.y - self.radius)
        &&& fits(self.center.y + self.radius + 1)
        &&& !(self.fg_color.is_some() && self.bg_color.is_none() && self.thickness > 1)
        &&& self.thickness != 1 && self.bg_color.is_some() ==> 0 <= self.radius - self.outline()
            <= self.radius
    }

    /// The circle can be drawn under the viewport `vp`: every point of
    /// its bands can be painted on.
    pub open spec fn lands(self, vp: Viewport) -> bool {
        let origin = vp.origin;
        Frame::around(self.center).reaches(self.radius, origin)
    }

    /// Tells whether the circle is supported and its own numbers can be
    /// computed.
    pub fn is_drawable(&self) -> (ok: bool)
        ensures
            ok == self.fits(),
    {
        let c = self.center;
        let r: i32 = self.radius as i32;
        if r < 0 {
            return false;
        }
        if !(is_16_bit(c.x as i32 - r) && is_16_bit(c.x as i32 + r + 1) && is_16_bit(c.y as i32 - r)
            && is_16_bit(c.y as i32 + r + 1)) {
            return false;
        }
        if self.fg_color.is_some() && self.bg_color.is_none() && self.thickness > 1 {
            return false;
        }
        if self.thickness != 1 && self.bg_color.is_some() {
            let th: i32 = match self.fg_color {
                Some(_) => self.thickness as i32,
                None => 0,
            };
            0 <= r - th && r - th <= r
        } else {
            true
        }
    }

    /// Tells whether the circle can be drawn under the viewport `vp`.
    pub fn lands_at(&self, vp: Viewport) -> (ok: bool)
        ensures
            ok == self.lands(vp),
    {
        let origin = vp.origin;
        Frame::of_circle(self.center).can_reach(self.radius, origin)
    }

    /// The square around the circle.
    pub open spec fn frame(self) -> Rect {
        Rect {
            x0: (self.center.x - self.radius) as i16,
            y0: (self.center.y - self.radius) as i16,
            x1: (self.center.x + self.radius + 1) as i16,
            y1: (self.center.y + self.radius + 1) as i16,
        }
    }

    /// The smallest rectangle that holds the circle.
    pub fn bounds(&self) -> (r: Rect)
        requires
            fits(self.center.x - self.radius),
            fits(self.center.x + self.radius + 1),
            fits(self.center.y - self.radius),
            fits(self.center.y + self.radius + 1),
        ensures
            r == self.frame(),
    {
        let c = self.center;
        let r = self.radius;
        Rect::new(
            Point::new(c.x - r, c.y - r),
            Point::new((c.x as i32 + r as i32 + 1) as i16, (c.y as i32 + r as i32 + 1) as i16),
        )
    }

    /// Effect of drawing the circle on a surface.
    pub open spec fn paint(self, s: Raster) -> Raster {
        if self.thickness == 1 {
            let s1 = match self.bg_color {
                Some(c) => s.fill_circle_aa(self.center, self.radius, c),
                None => s,
            };
            match self.fg_color {
                Some(c) => s1.draw_circle_aa(self.center, self.radius, c),
                None => s1,
            }
        } else {
            let s1 = match self.fg_color {
                Some(c) => s.fill_circle_aa(self.center, self.radius, c),
                None => s,
            };
            match self.bg_color {
                Some(c) => s1.fill_circle_aa(
                    self.center,
                    (self.radius - self.outline()) as i16,
                    c,
                ),
                None => s1,
            }
        }
    }

    /// Draws the circle: with thickness 1, the fill and then the outline,
    /// both smoothed; else a disc in the outline's color and a smaller one
    /// in the fill's color on top.
    pub fn draw<C: RgbCanvasEx>(&self, canvas: &mut C)
        requires
            old(canvas).model().wf(),
            self.fits(),
            self.lands(old(canvas).model().viewport),
        ensures
            final(canvas).model() == self.paint(old(canvas).model()),
            final(canvas).model().wf(),
            final(canvas).model().same_frame(old(canvas).model()),
    {
        let th: i16 = match self.fg_color {
            Some(_) => self.thickness,
            None => 0,
        };
        if self.thickness == 1 {
            if let Some(color) = self.bg_color {
                canvas.fill_circle_aa(self.center, self.radius, color);
            }
            if let Some(color) = self.fg_color {
                canvas.draw_circle_aa(self.center, self.radius, color);
            }
        } else {
            if let Some(color) = self.fg_color {
                canvas.fill_circle_aa(self.center, self.radius, color);
            }
            if let Some(color) = self.bg_color {
                canvas.fill_circle_aa(self.center, self.radius - th, color);
            }
        }
    }
}

} // verus!
