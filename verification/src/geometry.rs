//! Integer 2D geometry: points, offsets, rectangles, insets and viewports.

use vstd::prelude::*;

verus! {

/// True when `v` is representable as a 16-bit signed coordinate.
pub open spec fn fits(v: int) -> bool {
    i16::MIN <= v <= i16::MAX
}

/// Tells whether a number is a 16-bit number.
pub fn is_16_bit(v: i32) -> (ok: bool)
    ensures
        ok == fits(v as int),
{
    -32768 <= v && v <= 32767
}

/// Mathematical maximum of two integers.
pub open spec fn max_int(a: int, b: int) -> int {
    if a >= b { a } else { b }
}

/// Mathematical minimum of two integers.
pub open spec fn min_int(a: int, b: int) -> int {
    if a <= b { a } else { b }
}

/// Larger of two coordinates.
pub fn max_i16(a: i16, b: i16) -> (m: i16)
    ensures
        m == max_int(a as int, b as int),
{
    if a >= b { a } else { b }
}

/// Smaller of two coordinates.
pub fn min_i16(a: i16, b: i16) -> (m: i16)
    ensures
        m == min_int(a as int, b as int),
{
    if a <= b { a } else { b }
}

/// A displacement in the plane.
#[derive(Copy, Clone, Debug, PartialEq, Eq, Structural)]
pub struct Offset {
    pub x: i16,
    pub y: i16,
}

/// A position in the plane.
#[derive(Copy, Clone, Debug, PartialEq, Eq, Structural)]
pub struct Point {
    pub x: i16,
    pub y: i16,
}

/// An axis-aligned rectangle covering `x0 <= x < x1`, `y0 <= y < y1`.
#[derive(Copy, Clone, Debug, PartialEq, Eq, Structural)]
pub struct Rect {
    pub x0: i16,
    pub y0: i16,
    pub x1: i16,
    pub y1: i16,
}

/// Distances by which a rectangle is shrunk on each side.
#[derive(Copy, Clone, Debug, PartialEq, Eq, Structural)]
pub struct Insets {
    pub top: i16,
    pub right: i16,
    pub bottom: i16,
    pub left: i16,
}

impl Offset {
    pub fn new(x: i16, y: i16) -> (o: Self)
        ensures
            o == (Offset { x, y }),
    {
        Offset { x, y }
    }

    pub fn zero() -> (o: Self)
        ensures
            o == (Offset { x: 0, y: 0 }),
    {
        Offset { x: 0, y: 0 }
    }

    pub fn uniform(a: i16) -> (o: Self)
        ensures
            o == (Offset { x: a, y: a }),
    {
        Offset { x: a, y: a }
    }

    /// Sum of two offsets, as a specification.
    pub open spec fn plus(self, other: Offset) -> Offset {
        Offset { x: (self.x + other.x) as i16, y: (self.y + other.y) as i16 }
    }

    /// True when the component sums are representable.
    pub open spec fn can_add(self, other: Offset) -> bool {
        fits(self.x + other.x) && fits(self.y + other.y)
    }

    /// Component-wise sum.
    pub fn add_offset(self, other: Offset) -> (o: Self)
        requires
            self.can_add(other),
        ensures
            o.x == self.x + other.x,
            o.y == self.y + other.y,
            o == self.plus(other),
    {
        Offset { x: self.x + other.x, y: self.y + other.y }
    }

    /// The opposite displacement.
    pub fn neg(self) -> (o: Self)
        requires
            self.x > i16::MIN,
            self.y > i16::MIN,
        ensures
            o.x == -self.x,
            o.y == -self.y,
    {
        Offset { x: -self.x, y: -self.y }
    }

    /// The point reached from the origin by this displacement.
    pub fn to_point(self) -> (p: Point)
        ensures
            p == (Point { x: self.x, y: self.y }),
    {
        Point { x: self.x, y: self.y }
    }
}

impl Point {
    pub fn new(x: i16, y: i16) -> (p: Self)
        ensures
            p == (Point { x, y }),
    {
        Point { x, y }
    }

    pub fn zero() -> (p: Self)
        ensures
            p == (Point { x: 0, y: 0 }),
    {
        Point { x: 0, y: 0 }
    }

    /// True when moving by `offset` stays representable.
    pub open spec fn can_translate(self, offset: Offset) -> bool {
        fits(self.x + offset.x) && fits(self.y + offset.y)
    }

    /// The point moved by `offset`, as a specification.
    pub open spec fn moved(self, offset: Offset) -> Point {
        Point { x: (self.x + offset.x) as i16, y: (self.y + offset.y) as i16 }
    }

    /// Moves the point by `offset`.
    pub fn translate(self, offset: Offset) -> (p: Self)
        requires
            self.can_translate(offset),
        ensures
            p.x == self.x + offset.x,
            p.y == self.y + offset.y,
            p == self.moved(offset),
    {
        Point { x: self.x + offset.x, y: self.y + offset.y }
    }

    /// The displacement that leads from `other` to this point.
    pub fn offset_from(self, other: Point) -> (o: Offset)
        requires
            fits(self.x - other.x),
            fits(self.y - other.y),
        ensures
            o.x == self.x - other.x,
            o.y == self.y - other.y,
    {
        Offset { x: self.x - other.x, y: self.y - other.y }
    }

    /// The point mirrored through the origin.
    pub fn neg(self) -> (p: Self)
        requires
            self.x > i16::MIN,
            self.y > i16::MIN,
        ensures
            p.x == -self.x,
            p.y == -self.y,
    {
        Point { x: -self.x, y: -self.y }
    }

    /// The displacement from the origin to this point.
    pub fn to_offset(self) -> (o: Offset)
        ensures
            o == (Offset { x: self.x, y: self.y }),
    {
        Offset { x: self.x, y: self.y }
    }

    /// The neighbour one pixel to the left.
    pub fn onleft(self) -> (p: Self)
        requires
            self.x > i16::MIN,
        ensures
            p == (Point { x: (self.x - 1) as i16, y: self.y }),
    {
        Point { x: self.x - 1, y: self.y }
    }

    /// The neighbour one pixel to the right.
    pub fn onright(self) -> (p: Self)
        requires
            self.x < i16::MAX,
        ensures
            p == (Point { x: (self.x + 1) as i16, y: self.y }),
    {
        Point { x: self.x + 1, y: self.y }
    }

    /// The neighbour one pixel up.
    pub fn above(self) -> (p: Self)
        requires
            self.y > i16::MIN,
        ensures
            p == (Point { x: self.x, y: (self.y - 1) as i16 }),
    {
        Point { x: self.x, y: self.y - 1 }
    }

    /// The neighbour one pixel down.
    pub fn under(self) -> (p: Self)
        requires
            self.y < i16::MAX,
        ensures
            p == (Point { x: self.x, y: (self.y + 1) as i16 }),
    {
        Point { x: self.x, y: self.y + 1 }
    }
}

impl Insets {
    pub fn new(top: i16, right: i16, bottom: i16, left: i16) -> (i: Self)
        ensures
            i == (Insets { top, right, bottom, left }),
    {
        Insets { top, right, bottom, left }
    }

    pub fn uniform(d: i16) -> (i: Self)
        ensures
            i == (Insets { top: d, right: d, bottom: d, left: d }),
    {
        Insets { top: d, right: d, bottom: d, left: d }
    }
}

impl Rect {
    /// The rectangle spanned by its top-left and bottom-right corners.
    pub fn new(p0: Point, p1: Point) -> (r: Self)
        ensures
            r == (Rect { x0: p0.x, y0: p0.y, x1: p1.x, y1: p1.y }),
    {
        Rect { x0: p0.x, y0: p0.y, x1: p1.x, y1: p1.y }
    }

    pub fn zero() -> (r: Self)
        ensures
            r == (Rect { x0: 0, y0: 0, x1: 0, y1: 0 }),
    {
        Rect { x0: 0, y0: 0, x1: 0, y1: 0 }
    }

    /// The rectangle of the given size whose top-left corner is `p0`.
    pub fn from_top_left_and_size(p0: Point, size: Offset) -> (r: Self)
        requires
            fits(p0.x + size.x),
            fits(p0.y + size.y),
        ensures
            r.x0 == p0.x,
            r.y0 == p0.y,
            r.x1 == p0.x + size.x,
            r.y1 == p0.y + size.y,
    {
        Rect { x0: p0.x, y0: p0.y, x1: p0.x + size.x, y1: p0.y + size.y }
    }

    /// The rectangle of the given size whose top-left corner is the origin.
    pub open spec fn of_size(size: Offset) -> Rect {
        Rect { x0: 0, y0: 0, x1: size.x, y1: size.y }
    }

    /// The rectangle of the given size whose top-left corner is the origin.
    pub fn from_size(size: Offset) -> (r: Self)
        ensures
            r == Rect::of_size(size),
    {
        Rect { x0: 0, y0: 0, x1: size.x, y1: size.y }
    }

    /// Mathematical width, negative for an inverted rectangle.
    pub open spec fn spec_width(self) -> int {
        self.x1 - self.x0
    }

    /// Mathematical height, negative for an inverted rectangle.
    pub open spec fn spec_height(self) -> int {
        self.y1 - self.y0
    }

    pub fn width(&self) -> (w: i16)
        requires
            fits(self.spec_width()),
        ensures
            w == self.spec_width(),
    {
        self.x1 - self.x0
    }

    pub fn height(&self) -> (h: i16)
        requires
            fits(self.spec_height()),
        ensures
            h == self.spec_height(),
    {
        self.y1 - self.y0
    }

    pub fn size(&self) -> (s: Offset)
        requires
            fits(self.spec_width()),
            fits(self.spec_height()),
        ensures
            s.x == self.spec_width(),
            s.y == self.spec_height(),
    {
        Offset { x: self.x1 - self.x0, y: self.y1 - self.y0 }
    }

    pub fn top_left(&self) -> (p: Point)
        ensures
            p == (Point { x: self.x0, y: self.y0 }),
    {
        Point { x: self.x0, y: self.y0 }
    }

    pub fn bottom_right(&self) -> (p: Point)
        ensures
            p == (Point { x: self.x1, y: self.y1 }),
    {
        Point { x: self.x1, y: self.y1 }
    }

    /// True when the pixel `(x, y)` lies inside the rectangle.
    pub open spec fn covers(self, x: int, y: int) -> bool {
        self.x0 <= x < self.x1 && self.y0 <= y < self.y1
    }

    /// The empty-rectangle rule: no pixel lies inside.
    pub open spec fn empty(self) -> bool {
        self.x0 >= self.x1 || self.y0 >= self.y1
    }

    /// True when the rectangle covers no pixel.
    pub fn is_empty(&self) -> (e: bool)
        ensures
            e == self.empty(),
            e <==> forall|x: int, y: int| !self.covers(x, y),
    {
        proof {
            if !self.empty() {
                assert(self.covers(self.x0 as int, self.y0 as int));
            }
        }
        self.x0 >= self.x1 || self.y0 >= self.y1
    }

    /// True when `pt` lies inside the rectangle.
    pub fn contains(&self, pt: Point) -> (c: bool)
        ensures
            c == self.covers(pt.x as int, pt.y as int),
    {
        self.x0 <= pt.x && pt.x < self.x1 && self.y0 <= pt.y && pt.y < self.y1
    }

    /// True when the two rectangles overlap in a region of positive area,
    /// taking both as non-inverted.
    pub open spec fn overlaps(self, r: Rect) -> bool {
        self.x0 < r.x1 && self.x1 > r.x0 && self.y0 < r.y1 && self.y1 > r.y0
    }

    pub fn has_intersection(&self, r: Rect) -> (b: bool)
        ensures
            b == self.overlaps(r),
    {
        self.x0 < r.x1 && self.x1 > r.x0 && self.y0 < r.y1 && self.y1 > r.y0
    }

    /// The common part of two rectangles, as a specification.
    pub open spec fn meet(self, r: Rect) -> Rect {
        Rect {
            x0: max_int(self.x0 as int, r.x0 as int) as i16,
            y0: max_int(self.y0 as int, r.y0 as int) as i16,
            x1: min_int(self.x1 as int, r.x1 as int) as i16,
            y1: min_int(self.y1 as int, r.y1 as int) as i16,
        }
    }

    /// The common part of two rectangles: a pixel lies in the result exactly
    /// when it lies in both.
    pub fn intersect(&self, r: Rect) -> (m: Rect)
        ensures
            m == self.meet(r),
            forall|x: int, y: int| m.covers(x, y) <==> self.covers(x, y) && r.covers(x, y),
    {
        Rect {
            x0: max_i16(self.x0, r.x0),
            y0: max_i16(self.y0, r.y0),
            x1: min_i16(self.x1, r.x1),
            y1: min_i16(self.y1, r.y1),
        }
    }

    /// True when every pixel of `r` lies inside this rectangle and `r` is
    /// not empty.
    pub open spec fn encloses(self, r: Rect) -> bool {
        !r.empty() && self.x0 <= r.x0 && r.x1 <= self.x1 && self.y0 <= r.y0 && r.y1 <= self.y1
    }

    /// True when moving by `offset` keeps all four edges representable.
    pub open spec fn can_translate(self, offset: Offset) -> bool {
        fits(self.x0 + offset.x) && fits(self.x1 + offset.x) && fits(self.y0 + offset.y) && fits(
            self.y1 + offset.y,
        )
    }

    /// Tells whether moving by `offset` keeps all four edges
    /// representable.
    pub fn translatable(&self, offset: Offset) -> (ok: bool)
        ensures
            ok == self.can_translate(offset),
    {
        is_16_bit(self.x0 as i32 + offset.x as i32) && is_16_bit(self.x1 as i32 + offset.x as i32)
            && is_16_bit(self.y0 as i32 + offset.y as i32) && is_16_bit(
            self.y1 as i32 + offset.y as i32,
        )
    }

    /// Tells whether shrinking by `insets` keeps all four edges
    /// representable.
    pub fn insettable(&self, insets: Insets) -> (ok: bool)
        ensures
            ok == self.can_inset(insets),
    {
        is_16_bit(self.x0 as i32 + insets.left as i32) && is_16_bit(
            self.x1 as i32 - insets.right as i32,
        ) && is_16_bit(self.y0 as i32 + insets.top as i32) && is_16_bit(
            self.y1 as i32 - insets.bottom as i32,
        )
    }

    /// The rectangle moved by `offset`, as a specification.
    pub open spec fn moved(self, offset: Offset) -> Rect {
        Rect {
            x0: (self.x0 + offset.x) as i16,
            y0: (self.y0 + offset.y) as i16,
            x1: (self.x1 + offset.x) as i16,
            y1: (self.y1 + offset.y) as i16,
        }
    }

    /// Moves the rectangle by `offset`.
    pub fn translate(&self, offset: Offset) -> (m: Rect)
        requires
            self.can_translate(offset),
        ensures
            m == self.moved(offset),
            m.x0 == self.x0 + offset.x,
            m.y0 == self.y0 + offset.y,
            m.x1 == self.x1 + offset.x,
            m.y1 == self.y1 + offset.y,
    {
        Rect {
            x0: self.x0 + offset.x,
            y0: self.y0 + offset.y,
            x1: self.x1 + offset.x,
            y1: self.y1 + offset.y,
        }
    }

    /// True when shrinking by `insets` keeps all four edges representable.
    pub open spec fn can_inset(self, insets: Insets) -> bool {
        fits(self.x0 + insets.left) && fits(self.x1 - insets.right) && fits(self.y0 + insets.top)
            && fits(self.y1 - insets.bottom)
    }

    /// The rectangle shrunk by `insets`, as a specification.
    pub open spec fn shrunk(self, insets: Insets) -> Rect {
        Rect {
            x0: (self.x0 + insets.left) as i16,
            y0: (self.y0 + insets.top) as i16,
            x1: (self.x1 - insets.right) as i16,
            y1: (self.y1 - insets.bottom) as i16,
        }
    }

    /// Shrinks the rectangle by `insets` on each side.
    pub fn inset(&self, insets: Insets) -> (m: Rect)
        requires
            self.can_inset(insets),
        ensures
            m == self.shrunk(insets),
    {
        Rect {
            x0: self.x0 + insets.left,
            y0: self.y0 + insets.top,
            x1: self.x1 - insets.right,
            y1: self.y1 - insets.bottom,
        }
    }
}

/// Commutativity of intersection.
pub proof fn lemma_intersect_commutes(a: Rect, b: Rect)
    ensures
        a.meet(b) == b.meet(a),
{
}

/// Intersecting a rectangle with itself gives the rectangle back.
pub proof fn lemma_intersect_idempotent(a: Rect)
    ensures
        a.meet(a) == a,
{
}

/// Two non-inverted rectangles that do not overlap have an empty
/// intersection.
pub proof fn lemma_intersect_disjoint_is_empty(a: Rect, b: Rect)
    requires
        a.x0 < a.x1,
        a.y0 < a.y1,
        b.x0 < b.x1,
        b.y0 < b.y1,
        !a.overlaps(b),
    ensures
        a.meet(b).empty(),
{
}

/// For non-inverted rectangles the intersection is non-empty exactly when
/// the two overlap.
pub proof fn lemma_intersect_nonempty_iff_overlap(a: Rect, b: Rect)
    requires
        a.x0 < a.x1,
        a.y0 < a.y1,
        b.x0 < b.x1,
        b.y0 < b.y1,
    ensures
        !a.meet(b).empty() <==> a.overlaps(b),
{
}

} // verus!
