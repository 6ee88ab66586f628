//! The surface of the panel itself: the frame that is handed to the
//! display controller once it is drawn.

use vstd::prelude::*;
use crate::canvas::raster::{Raster, TextCommand, text_calls};
use crate::canvas::rgb::{BitmapRef, RgbCanvas, TextAttr};
use crate::canvas::rgb565;
use crate::display::Color;
use crate::geometry::{Offset, Point, Rect};
use crate::viewport::Viewport;

verus! {

/// The frame of the panel.
pub struct Canvas {
    frame: rgb565::Canvas,
}

impl Canvas {
    /// Takes the frame of a panel of the given size, black all over and
    /// with a viewport that shows all of it. A panel without pixels cannot
    /// be taken, nor one whose frame cannot be had.
    pub fn acquire(size: Offset) -> (r: Option<Self>)
        ensures
            r.is_some() ==> size.x > 0 && size.y > 0,
            r matches Some(c) ==> c.model() == Raster::blank(size) && c.model().wf(),
    {
        Self::of_frame(rgb565::Canvas::new(size))
    }

    /// The panel over the frame that was asked for: `None` where the frame
    /// was refused, else the panel that shows what the frame shows.
    pub fn of_frame(frame: Result<rgb565::Canvas, crate::gdc::AllocError>) -> (r: Option<Self>)
        ensures
            r.is_some() == frame.is_ok(),
            r matches Some(c) ==> frame matches Ok(f) && c.model() == f.model(),
    {
        match frame {
            Ok(frame) => Some(Canvas { frame }),
            Err(_) => None,
        }
    }

    /// The pixels of one row of the frame, or `None` for a row outside it.
    pub fn row(&self, row: i16) -> (r: Option<&[u16]>)
        requires
            self.model().wf(),
        ensures
            r.is_some() <==> 0 <= row < self.model().size.y,
            r matches Some(s) ==> s@.len() == self.model().size.x && forall|x: int|
                0 <= x < s@.len() ==> Color(#[trigger] s@[x]) == self.model().at(x, row as int),
    {
        self.frame.row(row)
    }

    /// The text runs to hand to the text provider, oldest first.
    pub fn texts(&self) -> (t: &Vec<TextCommand>)
        requires
            self.model().wf(),
        ensures
            text_calls(t@) == self.model().texts,
    {
        self.frame.texts()
    }
}

impl RgbCanvas for Canvas {
    closed spec fn model(&self) -> Raster {
        self.frame.model()
    }

    fn viewport(&self) -> Viewport {
        self.frame.viewport()
    }

    fn set_viewport(&mut self, viewport: Viewport) {
        self.frame.set_viewport(viewport);
    }

    fn size(&self) -> Offset {
        self.frame.size()
    }

    fn fill_rect(&mut self, r: Rect, color: Color) {
        self.frame.fill_rect(r, color);
    }

    fn draw_bitmap(&mut self, r: Rect, bitmap: &BitmapRef) {
        self.frame.draw_bitmap(r, bitmap);
    }

    fn draw_blended(&mut self, r: Rect, fg: &BitmapRef, bg: &BitmapRef) {
        self.frame.draw_blended(r, fg, bg);
    }

    fn draw_opaque_text(&mut self, r: Rect, text: &str, attr: &TextAttr) {
        self.frame.draw_opaque_text(r, text, attr);
    }

    fn draw_blended_text(&mut self, r: Rect, text: &str, attr: &TextAttr, bg: &BitmapRef) {
        self.frame.draw_blended_text(r, text, attr, bg);
    }
}

} // verus!
