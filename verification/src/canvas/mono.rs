//! The contract of the monochrome surfaces. They hold pixels for other
//! surfaces to draw from and offer no drawing of their own.

use vstd::prelude::*;
use crate::gdc::GdcBitmapRef;
use crate::geometry::{Offset, Rect};

verus! {

/// A reference to a bitmap with its drawing offset and colors.
pub type BitmapRef<'a> = GdcBitmapRef<'a>;

pub trait MonoCanvas {
    /// Size of the surface in pixels, as a specification.
    spec fn spec_size(&self) -> Offset;

    /// The surface is consistent.
    spec fn wf(&self) -> bool;

    /// Size of the surface in pixels.
    fn size(&self) -> (s: Offset)
        ensures
            s == self.spec_size(),
    ;

    /// The surface as a bitmap without offset.
    fn bitmap<'a>(&'a self) -> (b: BitmapRef<'a>)
        requires
            self.wf(),
        ensures
            b.bitmap.wf(),
            b.bitmap.size == self.spec_size(),
            b.is_mono(),
            b.offset == (Offset { x: 0, y: 0 }),
    ;

    /// The surface as a rectangle with its top-left corner at the origin.
    fn bounds(&self) -> (r: Rect)
        ensures
            r == Rect::of_size(self.spec_size()),
    {
        Rect::from_size(self.size())
    }

    /// Width in pixels.
    fn width(&self) -> (w: i16)
        ensures
            w == self.spec_size().x,
    {
        self.size().x
    }

    /// Height in pixels.
    fn height(&self) -> (h: i16)
        ensures
            h == self.spec_size().y,
    {
        self.size().y
    }
}

/// The product of a row count below `h` and a stride, plus a length of at
/// most `n` further rows, stays inside an array of `h` rows.
pub proof fn lemma_rows_inside(row: int, n: int, h: int, stride: int, w: int)
    requires
        0 <= row,
        0 <= n,
        row + n <= h,
        0 <= stride <= w,
        h <= 32767,
        w <= 32767,
    ensures
        0 <= stride * row,
        0 <= stride * n,
        stride * row + stride * n <= stride * h,
        stride * h <= w * h,
        w * h <= 1073676289,
        stride * row + stride * n == stride * (row + n),
{
    assert(0 <= stride * row && 0 <= stride * n && stride * row + stride * n == stride * (row
        + n)) by (nonlinear_arith)
        requires
            0 <= row,
            0 <= n,
            0 <= stride,
    ;
    assert(stride * (row + n) <= stride * h) by (nonlinear_arith)
        requires
            row + n <= h,
            0 <= stride,
    ;
    assert(stride * h <= w * h) by (nonlinear_arith)
        requires
            0 <= stride <= w,
            0 <= h,
    ;
    assert(w * h <= 1073676289) by (nonlinear_arith)
        requires
            0 <= w <= 32767,
            0 <= h <= 32767,
    ;
}

} // verus!
