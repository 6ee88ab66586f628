//! Viewports: an origin that moves shape-local coordinates to absolute
//! ones, and a clip rectangle that bounds the absolute coordinates.

use vstd::prelude::*;
use crate::geometry::{fits, Offset, Point, Rect};

verus! {

/// Origin and clip of a drawing target.
#[derive(Copy, Clone, Debug, PartialEq, Eq, Structural)]
pub struct Viewport {
    /// Clip rectangle, in absolute coordinates.
    pub clip: Rect,
    /// Displacement added to every coordinate before clipping.
    pub origin: Offset,
}

impl Viewport {
    /// A viewport with the given clip and no displacement.
    pub fn new(clip: Rect) -> (v: Self)
        ensures
            v == (Viewport { clip, origin: Offset { x: 0, y: 0 } }),
    {
        Viewport { clip, origin: Offset { x: 0, y: 0 } }
    }

    /// The viewport that shows a whole surface of the given size.
    pub open spec fn of_size(size: Offset) -> Viewport {
        Viewport { clip: Rect::of_size(size), origin: Offset { x: 0, y: 0 } }
    }

    /// The viewport that shows a whole surface of the given size.
    pub fn from_size(size: Offset) -> (v: Self)
        ensures
            v == Viewport::of_size(size),
    {
        Viewport { clip: Rect::from_size(size), origin: Offset { x: 0, y: 0 } }
    }

    /// The absolute position of the rectangle `r` given in local
    /// coordinates.
    pub open spec fn absolute(self, r: Rect) -> Rect {
        r.moved(self.origin)
    }

    /// The visible part of `r`: moved by the origin, then cut to the clip.
    pub open spec fn visible(self, r: Rect) -> Rect {
        r.moved(self.origin).meet(self.clip)
    }

    /// True when the local rectangle `r` is not empty and, once moved by
    /// the origin, lies wholly inside the clip. A rectangle that the
    /// origin moves out of the 16-bit range lies inside no clip.
    pub open spec fn holds(self, r: Rect) -> bool {
        r.can_translate(self.origin) && self.clip.encloses(r.moved(self.origin))
    }

    /// Tells whether the local rectangle `r` lies wholly inside the clip.
    pub fn contains(&self, r: Rect) -> (c: bool)
        ensures
            c == self.holds(r),
    {
        let x0: i32 = r.x0 as i32 + self.origin.x as i32;
        let y0: i32 = r.y0 as i32 + self.origin.y as i32;
        let x1: i32 = r.x1 as i32 + self.origin.x as i32;
        let y1: i32 = r.y1 as i32 + self.origin.y as i32;
        x0 < x1 && y0 < y1 && self.clip.x0 as i32 <= x0 && x1 <= self.clip.x1 as i32
            && self.clip.y0 as i32 <= y0 && y1 <= self.clip.y1 as i32
    }

    /// The viewport moved as a whole, clip and origin alike.
    pub fn translate(self, offset: Offset) -> (v: Self)
        requires
            self.clip.can_translate(offset),
            self.origin.can_add(offset),
        ensures
            v.clip == self.clip.moved(offset),
            v.origin == self.origin.plus(offset),
    {
        Viewport { clip: self.clip.translate(offset), origin: self.origin.add_offset(offset) }
    }

    /// The same clip with another origin.
    pub fn with_origin(self, origin: Offset) -> (v: Self)
        ensures
            v == (Viewport { clip: self.clip, origin }),
    {
        Viewport { clip: self.clip, origin }
    }

    /// Narrows the clip to the absolute rectangle `r`; the origin stays.
    pub fn absolute_clip(self, r: Rect) -> (v: Self)
        ensures
            v == (Viewport { clip: r.meet(self.clip), origin: self.origin }),
            forall|x: int, y: int| v.clip.covers(x, y) <==> self.clip.covers(x, y) && r.covers(x, y),
    {
        Viewport { clip: r.intersect(self.clip), origin: self.origin }
    }

    /// Narrows the clip to the local rectangle `r`; the origin stays.
    pub fn relative_clip(self, r: Rect) -> (v: Self)
        requires
            r.can_translate(self.origin),
        ensures
            v == (Viewport { clip: self.visible(r), origin: self.origin }),
            forall|x: int, y: int|
                v.clip.covers(x, y) <==> self.clip.covers(x, y) && r.moved(self.origin).covers(
                    x,
                    y,
                ),
    {
        Viewport { clip: r.translate(self.origin).intersect(self.clip), origin: self.origin }
    }

    /// Narrows the clip to the local rectangle `r` and moves the origin to
    /// the top-left corner of `r`.
    pub fn relative_window(self, r: Rect) -> (v: Self)
        requires
            r.can_translate(self.origin),
        ensures
            v.clip == self.visible(r),
            v.origin.x == self.origin.x + r.x0,
            v.origin.y == self.origin.y + r.y0,
            forall|x: int, y: int| v.clip.covers(x, y) ==> self.clip.covers(x, y),
    {
        let moved = r.translate(self.origin);
        Viewport { clip: moved.intersect(self.clip), origin: Offset { x: moved.x0, y: moved.y0 } }
    }
}

/// A child viewport made by `absolute_clip`, `relative_clip` or
/// `relative_window` never shows a pixel that its parent hides, and a
/// parent clip inside the rectangle `bounds` keeps the child inside it.
pub proof fn lemma_child_clip_within_parent(parent: Viewport, r: Rect, bounds: Rect)
    requires
        parent.clip.empty() || bounds.encloses(parent.clip),
    ensures
        r.meet(parent.clip).empty() || (parent.clip.encloses(r.meet(parent.clip))
            && bounds.encloses(r.meet(parent.clip))),
        parent.visible(r).empty() || (parent.clip.encloses(parent.visible(r)) && bounds.encloses(
            parent.visible(r),
        )),
{
}

} // verus!
