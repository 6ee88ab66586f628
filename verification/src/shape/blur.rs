//! A region that is blurred in place.

use vstd::prelude::*;
use crate::canvas::raster::Raster;
use crate::canvas::rgb::RgbCanvasEx;
use crate::geometry::{Offset, Rect};
use crate::viewport::Viewport;

verus! {

pub struct Blurring {
    pub area: Rect,
    pub radius: usize,
}

impl Blurring {
    pub fn new(area: Rect, radius: usize) -> (b: Self)
        ensures
            b == (Blurring { area, radius }),
    {
        Blurring { area, radius }
    }

    /// The region can be blurred under the viewport `vp`: it is
    /// representable once moved by the origin, and blurring its visible
    /// part asks nothing of the filter that it refuses.
    pub open spec fn lands(self, vp: Viewport) -> bool {
        &&& self.area.can_translate(vp.origin)
        &&& Raster::blur_allowed(vp.visible(self.area), self.radius)
    }

    /// Tells whether the region can be blurred under the viewport `vp`.
    pub fn lands_at(&self, vp: Viewport) -> (ok: bool)
        ensures
            ok == self.lands(vp),
    {
        if !self.area.translatable(vp.origin) {
            return false;
        }
        let a = self.area.translate(vp.origin).intersect(vp.clip);
        let w: i32 = a.x1 as i32 - a.x0 as i32;
        let h: i32 = a.y1 as i32 - a.y0 as i32;
        if self.radius > 100000 {
            // no rectangle of 16-bit numbers holds such a kernel
            return true;
        }
        let side: i32 = 2 * (self.radius as i32) - 1;
        if w > side && h > side {
            self.radius <= crate::canvas::bluralgo::MAX_RADIUS && w <= crate::canvas::bluralgo::MAX_WIDTH as i32
        } else {
            true
        }
    }

    /// The blurred region.
    pub fn bounds(&self) -> (r: Rect)
        ensures
            r == self.area,
    {
        self.area
    }

    /// Effect of blurring the region of a surface.
    pub open spec fn paint(self, s: Raster) -> Raster {
        s.blur_rect(self.area, self.radius)
    }

    /// Blurs the region. The result is as intended only where the
    /// surface's clip does not cut the region.
    pub fn draw<C: RgbCanvasEx>(&self, canvas: &mut C)
        requires
            old(canvas).model().wf(),
            self.lands(old(canvas).model().viewport),
        ensures
            final(canvas).model() == self.paint(old(canvas).model()),
            final(canvas).model().wf(),
            final(canvas).model().same_frame(old(canvas).model()),
    {
        canvas.blur_rect(self.area, self.radius);
    }
}

} // verus!
