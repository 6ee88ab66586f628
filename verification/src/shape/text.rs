//! A run of text in a box.

use vstd::prelude::*;
use crate::canvas::raster::Raster;
use crate::canvas::rgb::{RgbCanvasEx, TextAttr};
use crate::display::{Color, Font};
use crate::gdc::GdcTextAttr;
use crate::geometry::{Offset, Rect};
use crate::viewport::Viewport;

verus! {

pub struct Text {
    pub area: Rect,
    pub text: String,
    pub color: Color,
    pub font: Font,
}

impl Text {
    /// White text in the regular font.
    pub fn new(area: Rect, text: &str) -> (t: Self)
        ensures
            t.area == area,
            t.text@ == text@,
            t.color == Color(0xFFFF),
            t.font == Font(-1i32),
    {
        Text { area, text: text.to_owned(), color: Color::white(), font: Font::normal() }
    }

    /// Sets the color of the glyphs.
    pub fn with_fg(self, color: Color) -> (t: Self)
        ensures
            t == (Text { color, ..self }),
    {
        Text { color, ..self }
    }

    /// Sets the font.
    pub fn with_font(self, font: Font) -> (t: Self)
        ensures
            t == (Text { font, ..self }),
    {
        Text { font, ..self }
    }

    /// The width and the height of the box are 16-bit numbers.
    pub open spec fn fits(self) -> bool {
        crate::geometry::fits(self.area.spec_width()) && crate::geometry::fits(
            self.area.spec_height(),
        )
    }

    /// The text can be placed under the viewport `vp`: its box is
    /// representable once moved by the origin.
    pub open spec fn lands(self, vp: Viewport) -> bool {
        let origin = vp.origin;
        self.area.can_translate(origin)
    }

    /// Tells whether the width and the height of the box are 16-bit
    /// numbers.
    pub fn is_drawable(&self) -> (ok: bool)
        ensures
            ok == self.fits(),
    {
        let a = self.area;
        crate::geometry::is_16_bit(a.x1 as i32 - a.x0 as i32) && crate::geometry::is_16_bit(
            a.y1 as i32 - a.y0 as i32,
        )
    }

    /// Tells whether the text can be placed under the viewport `vp`.
    pub fn lands_at(&self, vp: Viewport) -> (ok: bool)
        ensures
            ok == self.lands(vp),
    {
        let origin = vp.origin;
        self.area.translatable(origin)
    }

    /// The box of the text.
    pub fn bounds(&self) -> (r: Rect)
        ensures
            r == self.area,
    {
        self.area
    }

    /// The attributes that the text is drawn with.
    pub open spec fn attr(self) -> GdcTextAttr {
        GdcTextAttr {
            font: self.font,
            fg_color: self.color,
            bg_color: Color(0),
            offset: Offset { x: 0, y: 0 },
        }
    }

    /// Effect of drawing the text on a surface.
    pub open spec fn paint(self, s: Raster) -> Raster {
        s.draw_text(self.area, self.text@, self.attr(), true)
    }

    /// Hands the text, blended over what the surface holds, to the text
    /// provider.
    pub fn draw<C: RgbCanvasEx>(&self, canvas: &mut C)
        requires
            old(canvas).model().wf(),
            self.fits(),
            self.lands(old(canvas).model().viewport),
        ensures
            final(canvas).model() == self.paint(old(canvas).model()),
            final(canvas).model().wf(),
            final(canvas).model().same_view(old(canvas).model()),
    {
        let attr = TextAttr::new().with_fg(self.color).with_font(self.font);
        canvas.draw_text(self.area, self.text.as_str(), &attr);
    }
}

} // verus!
