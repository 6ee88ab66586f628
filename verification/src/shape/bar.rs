//! The bar: a rectangle with optional outline, fill and rounded corners.

use vstd::prelude::*;
use crate::canvas::raster::Raster;
use crate::canvas::rgb::RgbCanvasEx;
use crate::display::Color;
use crate::canvas::arcs::Frame;
use crate::geometry::{Insets, Offset, Rect};
use crate::viewport::Viewport;

verus! {

pub struct Bar {
    pub area: Rect,
    pub fg_color: Option<Color>,
    pub bg_color: Option<Color>,
    pub thickness: i16,
    pub radius: i16,
}

impl Bar {
    /// A bar over `area` without outline or fill, thickness 1, sharp
    /// corners.
    pub fn new(area: Rect) -> (b: Self)
        ensures
            b == (Bar { area, fg_color: None, bg_color: None, thickness: 1, radius: 0 }),
    {
        Bar { area, fg_color: None, bg_color: None, thickness: 1, radius: 0 }
    }

    /// Sets the color of the outline.
    pub fn with_fg(self, fg_color: Color) -> (b: Self)
        ensures
            b == (Bar { fg_color: Some(fg_color), ..self }),
    {
        Bar { fg_color: Some(fg_color), ..self }
    }

    /// Sets the color of the fill.
    pub fn with_bg(self, bg_color: Color) -> (b: Self)
        ensures
            b == (Bar { bg_color: Some(bg_color), ..self }),
    {
        Bar { bg_color: Some(bg_color), ..self }
    }

    /// Sets the radius of the corners.
    pub fn with_radius(self, radius: i16) -> (b: Self)
        ensures
            b == (Bar { radius, ..self }),
    {
        Bar { radius, ..self }
    }

    /// Sets the thickness of the outline.
    pub fn with_thickness(self, thickness: i16) -> (b: Self)
        ensures
            b == (Bar { thickness, ..self }),
    {
        Bar { thickness, ..self }
    }

    /// Thickness of the outline that is drawn: none without a color.
    pub open spec fn outline(self) -> i16 {
        if self.fg_color.is_some() {
            self.thickness
        } else {
            0
        }
    }

    /// The area inside the outline.
    pub open spec fn inner(self) -> Rect {
        self.area.shrunk(
            Insets {
                top: self.outline(),
                right: self.outline(),
                bottom: self.outline(),
                left: self.outline(),
            },
        )
    }

    /// True when drawing the bar deals with the area inside the outline.
    pub open spec fn has_inside(self) -> bool {
        (self.radius == 0 && self.fg_color.is_some()) || self.bg_color.is_some()
    }

    /// The bar's own numbers can be computed in 16 bits: the radius is not
    /// negative and, where the area inside the outline is dealt with, its
    /// edges are representable.
    pub open spec fn fits(self) -> bool {
        &&& 0 <= self.radius
        &&& self.has_inside() ==> self.area.can_inset(
            Insets {
                top: self.outline(),
                right: self.outline(),
                bottom: self.outline(),
                left: self.outline(),
            },
        )
    }

    /// The bar can be drawn under the viewport `vp`: what it paints is
    /// representable once moved by the origin. With sharp corners these
    /// are the area and the area inside the outline; with rounded corners,
    /// the points of the bands of the rounded rectangles.
    pub open spec fn lands(self, vp: Viewport) -> bool {
        let origin = vp.origin;
        if self.radius == 0 {
            &&& self.fg_color.is_some() ==> self.area.can_translate(origin)
            &&& self.has_inside() ==> self.inner().can_translate(origin)
        } else {
            &&& self.fg_color.is_some() ==> Frame::rounding_reaches(self.area, self.radius, origin)
            &&& self.bg_color.is_some() ==> Frame::rounding_reaches(
                self.inner(),
                self.radius,
                origin,
            )
        }
    }

    /// Tells whether the bar's own numbers can be computed.
    pub fn is_drawable(&self) -> (ok: bool)
        ensures
            ok == self.fits(),
    {
        if self.radius < 0 {
            return false;
        }
        let th: i16 = match self.fg_color {
            Some(_) => self.thickness,
            None => 0,
        };
        if (self.radius == 0 && self.fg_color.is_some()) || self.bg_color.is_some() {
            self.area.insettable(Insets::uniform(th))
        } else {
            true
        }
    }

    /// Tells whether the bar can be drawn under the viewport `vp`.
    pub fn lands_at(&self, vp: Viewport) -> (ok: bool)
        requires
            self.fits(),
        ensures
            ok == self.lands(vp),
    {
        let origin = vp.origin;
        let th: i16 = match self.fg_color {
            Some(_) => self.thickness,
            None => 0,
        };
        if self.radius == 0 {
            if self.fg_color.is_some() && !self.area.translatable(origin) {
                return false;
            }
            if self.fg_color.is_some() || self.bg_color.is_some() {
                self.area.inset(Insets::uniform(th)).translatable(origin)
            } else {
                true
            }
        } else {
            if self.fg_color.is_some() && !Frame::rounding_can_reach(self.area, self.radius, origin) {
                return false;
            }
            if self.bg_color.is_some() {
                Frame::rounding_can_reach(self.area.inset(Insets::uniform(th)), self.radius, origin)
            } else {
                true
            }
        }
    }

    /// The smallest rectangle that holds the bar.
    pub fn bounds(&self) -> (r: Rect)
        ensures
            r == self.area,
    {
        self.area
    }

    /// Effect of the outline of a bar with sharp corners: four strips
    /// along the edges.
    pub open spec fn paint_outline(self, s: Raster, c: Color) -> Raster {
        let r = self.area;
        let th = self.outline();
        s.fill_rect(Rect { y1: (r.y0 + th) as i16, ..r }, c).fill_rect(
            Rect { x1: (r.x0 + th) as i16, ..r },
            c,
        ).fill_rect(Rect { x0: (r.x1 - th) as i16, ..r }, c).fill_rect(
            Rect { y0: (r.y1 - th) as i16, ..r },
            c,
        )
    }

    /// Effect of drawing the bar on a surface.
    pub open spec fn paint(self, s: Raster) -> Raster {
        if self.radius == 0 {
            let s1 = match self.fg_color {
                Some(c) => self.paint_outline(s, c),
                None => s,
            };
            match self.bg_color {
                Some(c) => s1.fill_rect(self.inner(), c),
                None => s1,
            }
        } else {
            let s1 = match self.fg_color {
                Some(c) => s.fill_round_rect(self.area, self.radius, c),
                None => s,
            };
            match self.bg_color {
                Some(c) => s1.fill_round_rect_aa(self.inner(), self.radius, c),
                None => s1,
            }
        }
    }

    /// Draws the bar: with sharp corners, the outline as four strips and
    /// the fill inside it; with rounded corners, a rounded rectangle in the
    /// outline's color and a smoothed one inside it in the fill's color.
    pub fn draw<C: RgbCanvasEx>(&self, canvas: &mut C)
        requires
            old(canvas).model().wf(),
            self.fits(),
            self.lands(old(canvas).model().viewport),
        ensures
            final(canvas).model() == self.paint(old(canvas).model()),
            final(canvas).model().wf(),
            final(canvas).model().same_frame(old(canvas).model()),
    {
        let th: i16 = match self.fg_color {
            Some(_) => self.thickness,
            None => 0,
        };
        if self.radius == 0 {
            if let Some(fg_color) = self.fg_color {
                let r = self.area;
                canvas.fill_rect(Rect { y1: r.y0 + th, ..r }, fg_color);
                canvas.fill_rect(Rect { x1: r.x0 + th, ..r }, fg_color);
                canvas.fill_rect(Rect { x0: r.x1 - th, ..r }, fg_color);
                canvas.fill_rect(Rect { y0: r.y1 - th, ..r }, fg_color);
            }
            if let Some(bg_color) = self.bg_color {
                let bg_r = self.area.inset(Insets::uniform(th));
                canvas.fill_rect(bg_r, bg_color);
            }
        } else {
            if let Some(fg_color) = self.fg_color {
                canvas.fill_round_rect(self.area, self.radius, fg_color);
            }
            if let Some(bg_color) = self.bg_color {
                let bg_r = self.area.inset(Insets::uniform(th));
                canvas.fill_round_rect_aa(bg_r, self.radius, bg_color);
            }
        }
    }
}

} // verus!
