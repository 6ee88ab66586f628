//! Rendering in strips against rendering in one piece: a shape that lies
//! wholly on one strip is painted on it as on the whole.

use vstd::prelude::*;
use crate::canvas::arcs::{AaStroke, Frame, Stroke};
use crate::canvas::raster::Raster;
use crate::canvas::shift::{
    circle_bands, circle_frame, in_rows, lemma_circle_bands, lemma_circles_are_bands,
    lemma_local_primitives, lemma_outside_facts, lemma_rect_bands, lemma_round_rects_are_bands,
    lemma_same_outside_refl, lemma_same_outside_trans, lemma_shift_primitives, lemma_strip_facts,
    rect_bands, roomy, same_outside, strip_rel,
};
use crate::canvas::shift::{both_reach, view_rel};
use crate::display::Color;
use crate::geometry::{Offset, Point, Rect};
use crate::shape::pool::ShapeHolder;
use crate::shape::render::{
    forwarded, holder_ok, on_strip, render_rest, strip_cleared, strip_rect, strip_rest, strip_size,
    strip_step, strip_suits, strip_viewport,
};
use crate::canvas::raster::TextCall;
use crate::viewport::Viewport;
use crate::shape::bar::Bar;
use crate::shape::base::Shape;
use crate::shape::circle::Circle;
use crate::shape::text::Text;

verus! {

/// True when every stroke of the bar lies within its area: the outline is
/// not thicker than the bar is wide or high, and rounded corners have
/// room.
pub open spec fn bar_tidy(b: Bar) -> bool {
    &&& 0 <= b.outline()
    &&& b.outline() <= b.area.x1 - b.area.x0
    &&& b.outline() <= b.area.y1 - b.area.y0
    &&& b.radius != 0 && b.fg_color.is_some() ==> roomy(b.area, b.radius)
    &&& b.radius != 0 && b.bg_color.is_some() ==> roomy(b.inner(), b.radius)
}

/// True when every stroke of the circle lies within the square around it:
/// an outline of one pixel needs a radius from 1 up, a thicker one is not
/// negative.
pub open spec fn circle_tidy(c: Circle) -> bool {
    &&& c.thickness == 1 && c.fg_color.is_some() ==> c.radius >= 1
    &&& c.thickness != 1 ==> 0 <= c.outline()
}

/// True for the shapes that are drawn without a decoder and paint within
/// their bounds only: bars and circles whose strokes lie within them,
/// text, and blurred regions.
pub open spec fn tidy(s: Shape) -> bool {
    match s {
        Shape::Bar(b) => bar_tidy(b),
        Shape::Circle(c) => circle_tidy(c),
        Shape::Text(_) => true,
        Shape::Blurring(_) => true,
        _ => false,
    }
}

/// A rectangle within an area, filled on a surface and on a strip of it:
/// the strip stays a strip of the surface, and what had changed nothing
/// outside the area before still has not.
pub proof fn lemma_fill_step(
    a0: Raster,
    a: Raster,
    b: Raster,
    dy: int,
    n: int,
    area: Rect,
    r: Rect,
    c: Color,
)
    requires
        a0.wf(),
        strip_rel(a, b, dy, n),
        same_outside(a0, a, area),
        both_reach(a, b, r),
        r.empty() || area.encloses(r.moved(a0.viewport.origin)),
    ensures
        strip_rel(a.fill_rect(r, c), b.fill_rect(r, c), dy, n),
        same_outside(a0, a.fill_rect(r, c), area),
{
    lemma_strip_facts(a, b, dy, n);
    lemma_outside_facts(a0, a, area);
    let zero = Point { x: 0, y: 0 };
    lemma_shift_primitives(a, b, dy, n, r, zero, c, 0);
    lemma_local_primitives(a, area, r, zero, c, 0);
    lemma_same_outside_trans(a0, a, a.fill_rect(r, c), area);
}

/// A circle within an area, painted with coverage on a surface and on a
/// strip of it that holds the rows of the circle: the strip stays a strip
/// of the surface, and what had changed nothing outside the area before
/// still has not.
pub proof fn lemma_circle_step(
    a0: Raster,
    a: Raster,
    b: Raster,
    dy: int,
    n: int,
    area: Rect,
    c: Point,
    radius: i16,
    s0: AaStroke,
    s1: AaStroke,
    color: Color,
)
    requires
        a0.wf(),
        strip_rel(a, b, dy, n),
        same_outside(a0, a, area),
        Frame::around(c).reaches(radius, a.viewport.origin),
        Frame::around(c).reaches(radius, b.viewport.origin),
        in_rows(a0, circle_frame(c, radius), dy, n),
        area.encloses(circle_frame(c, radius).moved(a0.viewport.origin)),
        s0 is BlendPairs || s1 is BlendPairs ==> radius >= 1,
    ensures
        strip_rel(
            circle_bands(a, c, radius, s0, s1, color),
            circle_bands(b, c, radius, s0, s1, color),
            dy,
            n,
        ),
        same_outside(a0, circle_bands(a, c, radius, s0, s1, color), area),
{
    lemma_outside_facts(a0, a, area);
    lemma_circle_bands(a, b, dy, n, c, radius, s0, s1, color);
    let a1 = circle_bands(a, c, radius, s0, s1, color);
    crate::canvas::shift::lemma_same_outside_grow(
        a,
        a1,
        circle_frame(c, radius).moved(a.viewport.origin),
        area,
    );
    lemma_same_outside_trans(a0, a, a1, area);
}

/// A rounded rectangle within an area and large enough for its corners,
/// painted on a surface and on a strip of it that holds its rows: the
/// strip stays a strip of the surface, and what had changed nothing
/// outside the area before still has not.
pub proof fn lemma_rect_step(
    a0: Raster,
    a: Raster,
    b: Raster,
    dy: int,
    n: int,
    area: Rect,
    r: Rect,
    radius: i16,
    aa: bool,
    t0: Stroke,
    t1: Stroke,
    s0: AaStroke,
    s1: AaStroke,
    color: Color,
)
    requires
        a0.wf(),
        strip_rel(a, b, dy, n),
        same_outside(a0, a, area),
        Frame::rounding_reaches(r, radius, a.viewport.origin),
        Frame::rounding_reaches(r, radius, b.viewport.origin),
        roomy(r, radius),
        in_rows(a0, r, dy, n),
        area.encloses(r.moved(a0.viewport.origin)),
        !(s0 is BlendPairs) && !(s1 is BlendPairs),
    ensures
        strip_rel(
            rect_bands(a, r, radius, aa, t0, t1, s0, s1, color),
            rect_bands(b, r, radius, aa, t0, t1, s0, s1, color),
            dy,
            n,
        ),
        same_outside(a0, rect_bands(a, r, radius, aa, t0, t1, s0, s1, color), area),
{
    lemma_outside_facts(a0, a, area);
    lemma_rect_bands(a, b, dy, n, r, radius, aa, t0, t1, s0, s1, color);
    let a1 = rect_bands(a, r, radius, aa, t0, t1, s0, s1, color);
    crate::canvas::shift::lemma_same_outside_grow(a, a1, r.moved(a.viewport.origin), area);
    lemma_same_outside_trans(a0, a, a1, area);
}

/// The outline of a tidy bar with sharp corners, painted on a surface and
/// on a strip of it.
pub proof fn lemma_bar_outline(a: Raster, b: Raster, dy: int, n: int, bar: Bar, c: Color)
    requires
        strip_rel(a, b, dy, n),
        bar.fits(),
        bar.has_inside(),
        both_reach(a, b, bar.area),
        both_reach(a, b, bar.inner()),
        bar_tidy(bar),
        !bar.area.empty(),
    ensures
        strip_rel(bar.paint_outline(a, c), bar.paint_outline(b, c), dy, n),
        same_outside(a, bar.paint_outline(a, c), bar.area.moved(a.viewport.origin)),
{
    lemma_strip_facts(a, b, dy, n);
    let area = bar.area.moved(a.viewport.origin);
    let r = bar.area;
    let th = bar.outline();
    let r1 = Rect { y1: (r.y0 + th) as i16, ..r };
    let r2 = Rect { x1: (r.x0 + th) as i16, ..r };
    let r3 = Rect { x0: (r.x1 - th) as i16, ..r };
    let r4 = Rect { y0: (r.y1 - th) as i16, ..r };
    lemma_same_outside_refl(a, area);
    lemma_fill_step(a, a, b, dy, n, area, r1, c);
    lemma_fill_step(a, a.fill_rect(r1, c), b.fill_rect(r1, c), dy, n, area, r2, c);
    lemma_fill_step(
        a,
        a.fill_rect(r1, c).fill_rect(r2, c),
        b.fill_rect(r1, c).fill_rect(r2, c),
        dy,
        n,
        area,
        r3,
        c,
    );
    lemma_fill_step(
        a,
        a.fill_rect(r1, c).fill_rect(r2, c).fill_rect(r3, c),
        b.fill_rect(r1, c).fill_rect(r2, c).fill_rect(r3, c),
        dy,
        n,
        area,
        r4,
        c,
    );
}

/// The bar before its fill is painted: with its outline, if it has one.
#[verifier::opaque]
pub open spec fn bar_first(bar: Bar, s: Raster) -> Raster {
    match bar.fg_color {
        Some(c) => if bar.radius == 0 {
            bar.paint_outline(s, c)
        } else {
            s.fill_round_rect(bar.area, bar.radius, c)
        },
        None => s,
    }
}

/// The outline of a tidy bar, painted on a surface and on a strip of it
/// that holds the rows of the bar.
pub proof fn lemma_bar_first(a: Raster, b: Raster, dy: int, n: int, bar: Bar)
    requires
        strip_rel(a, b, dy, n),
        bar.fits(),
        bar.lands(a.viewport),
        bar.lands(b.viewport),
        bar_tidy(bar),
        in_rows(a, bar.area, dy, n),
        !bar.area.empty(),
    ensures
        strip_rel(bar_first(bar, a), bar_first(bar, b), dy, n),
        same_outside(a, bar_first(bar, a), bar.area.moved(a.viewport.origin)),
{
    reveal(bar_first);
    lemma_strip_facts(a, b, dy, n);
    let area = bar.area.moved(a.viewport.origin);
    lemma_same_outside_refl(a, area);
    match bar.fg_color {
        Some(c) => {
            if bar.radius == 0 {
                lemma_bar_outline(a, b, dy, n, bar, c);
            } else {
                lemma_round_rects_are_bands(a, bar.area, bar.radius, c);
                lemma_round_rects_are_bands(b, bar.area, bar.radius, c);
                lemma_rect_step(
                    a,
                    a,
                    b,
                    dy,
                    n,
                    area,
                    bar.area,
                    bar.radius,
                    false,
                    Stroke::CapRows,
                    Stroke::Rows,
                    AaStroke::BlendRows,
                    AaStroke::BlendRows,
                    c,
                );
            }
        },
        None => {},
    }
}

/// The fill of a bar, painted over what is there.
#[verifier::opaque]
pub open spec fn bar_second(bar: Bar, s: Raster) -> Raster {
    match bar.bg_color {
        Some(c) => if bar.radius == 0 {
            s.fill_rect(bar.inner(), c)
        } else {
            s.fill_round_rect_aa(bar.inner(), bar.radius, c)
        },
        None => s,
    }
}

/// A bar is painted outline first, fill second.
pub proof fn lemma_bar_coats(bar: Bar, s: Raster)
    ensures
        bar.paint(s) == bar_second(bar, bar_first(bar, s)),
{
    reveal(bar_first);
    reveal(bar_second);
}

/// The fill of a tidy bar, painted on a surface and on a strip of it that
/// holds the rows of the bar.
pub proof fn lemma_bar_second(a0: Raster, a: Raster, b: Raster, dy: int, n: int, bar: Bar)
    requires
        a0.wf(),
        strip_rel(a, b, dy, n),
        same_outside(a0, a, bar.area.moved(a0.viewport.origin)),
        bar.fits(),
        bar.lands(a.viewport),
        bar.lands(b.viewport),
        bar_tidy(bar),
        in_rows(a0, bar.area, dy, n),
        !bar.area.empty(),
    ensures
        strip_rel(bar_second(bar, a), bar_second(bar, b), dy, n),
        same_outside(a0, bar_second(bar, a), bar.area.moved(a0.viewport.origin)),
{
    reveal(bar_second);
    let area = bar.area.moved(a0.viewport.origin);
    match bar.bg_color {
        Some(c) => {
            if bar.radius == 0 {
                lemma_fill_step(a0, a, b, dy, n, area, bar.inner(), c);
            } else {
                lemma_round_rects_are_bands(a, bar.inner(), bar.radius, c);
                lemma_round_rects_are_bands(b, bar.inner(), bar.radius, c);
                lemma_rect_step(
                    a0,
                    a,
                    b,
                    dy,
                    n,
                    area,
                    bar.inner(),
                    bar.radius,
                    true,
                    Stroke::Rows,
                    Stroke::Rows,
                    AaStroke::BlendCapRows,
                    AaStroke::BlendRows,
                    c,
                );
            }
        },
        None => {},
    }
}

/// A tidy bar painted on a surface and on a strip of it that holds the
/// rows of the bar: the strip stays a strip of the surface, and nothing
/// changes outside the bar.
pub proof fn lemma_bar_on_strip(a: Raster, b: Raster, dy: int, n: int, bar: Bar)
    requires
        strip_rel(a, b, dy, n),
        bar.fits(),
        bar.lands(a.viewport),
        bar.lands(b.viewport),
        bar_tidy(bar),
        in_rows(a, bar.area, dy, n),
        !bar.area.empty(),
    ensures
        strip_rel(bar.paint(a), bar.paint(b), dy, n),
        same_outside(a, bar.paint(a), bar.area.moved(a.viewport.origin)),
{
    lemma_strip_facts(a, b, dy, n);
    lemma_bar_first(a, b, dy, n, bar);
    lemma_outside_facts(a, bar_first(bar, a), bar.area.moved(a.viewport.origin));
    lemma_strip_facts(bar_first(bar, a), bar_first(bar, b), dy, n);
    lemma_bar_second(a, bar_first(bar, a), bar_first(bar, b), dy, n, bar);
    lemma_bar_coats(bar, a);
    lemma_bar_coats(bar, b);
}

/// The circle before its second coat is painted.
#[verifier::opaque]
pub open spec fn circle_first(circle: Circle, s: Raster) -> Raster {
    if circle.thickness == 1 {
        match circle.bg_color {
            Some(c) => s.fill_circle_aa(circle.center, circle.radius, c),
            None => s,
        }
    } else {
        match circle.fg_color {
            Some(c) => s.fill_circle_aa(circle.center, circle.radius, c),
            None => s,
        }
    }
}

/// The first coat of a tidy circle, painted on a surface and on a strip
/// of it that holds the rows of the circle.
pub proof fn lemma_circle_first(a: Raster, b: Raster, dy: int, n: int, circle: Circle)
    requires
        strip_rel(a, b, dy, n),
        circle.fits(),
        circle.lands(a.viewport),
        circle.lands(b.viewport),
        circle_tidy(circle),
        in_rows(a, circle.frame(), dy, n),
    ensures
        strip_rel(circle_first(circle, a), circle_first(circle, b), dy, n),
        same_outside(a, circle_first(circle, a), circle.frame().moved(a.viewport.origin)),
{
    reveal(circle_first);
    lemma_strip_facts(a, b, dy, n);
    let c = circle.center;
    let r = circle.radius;
    let area = circle.frame().moved(a.viewport.origin);
    assert(circle.frame() == circle_frame(c, r));
    lemma_same_outside_refl(a, area);
    let coat = if circle.thickness == 1 {
        circle.bg_color
    } else {
        circle.fg_color
    };
    match coat {
        Some(col) => {
            lemma_circles_are_bands(a, c, r, col);
            lemma_circles_are_bands(b, c, r, col);
            lemma_circle_step(a, a, b, dy, n, area, c, r, AaStroke::BlendCapRows, AaStroke::BlendRows, col);
        },
        None => {},
    }
}

/// The second coat of a circle, painted over what is there: the outline
/// of one pixel, or the inner disc of a thicker one.
#[verifier::opaque]
pub open spec fn circle_second(circle: Circle, s: Raster) -> Raster {
    if circle.thickness == 1 {
        match circle.fg_color {
            Some(c) => s.draw_circle_aa(circle.center, circle.radius, c),
            None => s,
        }
    } else {
        match circle.bg_color {
            Some(c) => s.fill_circle_aa(
                circle.center,
                (circle.radius - circle.outline()) as i16,
                c,
            ),
            None => s,
        }
    }
}

/// A circle is painted in two coats.
pub proof fn lemma_circle_coats(circle: Circle, s: Raster)
    ensures
        circle.paint(s) == circle_second(circle, circle_first(circle, s)),
{
    reveal(circle_first);
    reveal(circle_second);
}

/// The second coat of a tidy circle, painted on a surface and on a strip
/// of it that holds the rows of the circle.
#[verifier::spinoff_prover]
#[verifier::rlimit(100)]
pub proof fn lemma_circle_second(a0: Raster, a: Raster, b: Raster, dy: int, n: int, circle: Circle)
    requires
        a0.wf(),
        strip_rel(a, b, dy, n),
        same_outside(a0, a, circle.frame().moved(a0.viewport.origin)),
        circle.fits(),
        circle.lands(a.viewport),
        circle.lands(b.viewport),
        circle_tidy(circle),
        in_rows(a0, circle.frame(), dy, n),
    ensures
        strip_rel(circle_second(circle, a), circle_second(circle, b), dy, n),
        same_outside(a0, circle_second(circle, a), circle.frame().moved(a0.viewport.origin)),
{
    reveal(circle_second);
    let c = circle.center;
    let r = circle.radius;
    let area = circle.frame().moved(a0.viewport.origin);
    assert(circle.frame() == circle_frame(c, r));
    if circle.thickness == 1 {
        match circle.fg_color {
            Some(col) => {
                lemma_circles_are_bands(a, c, r, col);
                lemma_circles_are_bands(b, c, r, col);
                lemma_circle_step(
                    a0,
                    a,
                    b,
                    dy,
                    n,
                    area,
                    c,
                    r,
                    AaStroke::BlendPairs,
                    AaStroke::BlendPairs,
                    col,
                );
            },
            None => {},
        }
    } else {
        match circle.bg_color {
            Some(col) => {
                let r2 = (r - circle.outline()) as i16;
                assert(0 <= r2 <= r);
                assert(Frame::around(c).reaches(r2, a.viewport.origin));
                assert(Frame::around(c).reaches(r2, b.viewport.origin));
                lemma_circles_are_bands(a, c, r2, col);
                lemma_circles_are_bands(b, c, r2, col);
                lemma_circle_step(
                    a0,
                    a,
                    b,
                    dy,
                    n,
                    area,
                    c,
                    r2,
                    AaStroke::BlendCapRows,
                    AaStroke::BlendRows,
                    col,
                );
            },
            None => {},
        }
    }
}

/// A tidy circle painted on a surface and on a strip of it that holds the
/// rows of the circle: the strip stays a strip of the surface, and nothing
/// changes outside the square around the circle.
pub proof fn lemma_circle_on_strip(a: Raster, b: Raster, dy: int, n: int, circle: Circle)
    requires
        strip_rel(a, b, dy, n),
        circle.fits(),
        circle.lands(a.viewport),
        circle.lands(b.viewport),
        circle_tidy(circle),
        in_rows(a, circle.frame(), dy, n),
    ensures
        strip_rel(circle.paint(a), circle.paint(b), dy, n),
        same_outside(a, circle.paint(a), circle.frame().moved(a.viewport.origin)),
{
    lemma_strip_facts(a, b, dy, n);
    lemma_circle_first(a, b, dy, n, circle);
    lemma_outside_facts(a, circle_first(circle, a), circle.frame().moved(a.viewport.origin));
    lemma_strip_facts(circle_first(circle, a), circle_first(circle, b), dy, n);
    lemma_circle_second(a, circle_first(circle, a), circle_first(circle, b), dy, n, circle);
    lemma_circle_coats(circle, a);
    lemma_circle_coats(circle, b);
}

/// A tidy shape painted on a surface and on a strip of it that holds the
/// rows of the shape: the strip stays a strip of the surface, and nothing
/// changes outside the bounds of the shape.
pub proof fn lemma_shape_on_strip(a: Raster, b: Raster, dy: int, n: int, s: Shape)
    requires
        strip_rel(a, b, dy, n),
        s.fits(),
        s.lands(a.viewport),
        s.lands(b.viewport),
        tidy(s),
        in_rows(a, s.frame(), dy, n),
        !s.frame().empty(),
    ensures
        strip_rel(s.paint(a), s.paint(b), dy, n),
        same_outside(a, s.paint(a), s.frame().moved(a.viewport.origin)),
{
    match s {
        Shape::Bar(bar) => {
            lemma_bar_on_strip(a, b, dy, n, bar);
        },
        Shape::Circle(c) => {
            lemma_circle_on_strip(a, b, dy, n, c);
        },
        Shape::Text(t) => {
            lemma_text_on_strip(a, b, dy, n, t);
        },
        Shape::Blurring(blur) => {
            crate::canvas::shift::lemma_shift_blur(a, b, dy, n, blur.area, blur.radius);
        },
        _ => {},
    }
}

/// Text changes no pixel: painted on a surface and on a strip of it, the
/// strip stays a strip of the surface.
pub proof fn lemma_text_on_strip(a: Raster, b: Raster, dy: int, n: int, t: Text)
    requires
        strip_rel(a, b, dy, n),
        t.fits(),
        t.lands(a.viewport),
        t.lands(b.viewport),
    ensures
        strip_rel(t.paint(a), t.paint(b), dy, n),
        same_outside(a, t.paint(a), t.area.moved(a.viewport.origin)),
{
    reveal(strip_rel);
    reveal(same_outside);
}

/// The first `n` rows of the surface `b` hold the pixels of the rows `dy`
/// to `dy + n` of the surface `a`.
#[verifier::opaque]
pub open spec fn rows_rel(a: Raster, b: Raster, dy: int, n: int) -> bool {
    &&& a.wf()
    &&& b.wf()
    &&& a.size.x == b.size.x
    &&& 0 <= dy
    &&& 0 <= n <= b.size.y
    &&& dy + n <= a.size.y
    &&& forall|y: int, x: int|
        0 <= y < n && 0 <= x < a.size.x ==> #[trigger] b.rows[y][x] == a.rows[y + dy][x]
}

/// What two surfaces with related rows share but for the pixels.
pub proof fn lemma_rows_facts(a: Raster, b: Raster, dy: int, n: int)
    requires
        rows_rel(a, b, dy, n),
    ensures
        a.wf(),
        b.wf(),
        a.size.x == b.size.x,
        0 <= dy,
        0 <= n <= b.size.y,
        dy + n <= a.size.y,
{
    reveal(rows_rel);
}

/// A strip of a surface has the rows of the surface.
pub proof fn lemma_strip_has_rows(a: Raster, b: Raster, dy: int, n: int)
    requires
        strip_rel(a, b, dy, n),
    ensures
        rows_rel(a, b, dy, n),
{
    reveal(strip_rel);
    reveal(rows_rel);
}

/// Surfaces with related rows, given related viewports, are a surface and
/// a strip of it.
pub proof fn lemma_rows_with_views(a: Raster, b: Raster, dy: int, n: int, va: Viewport, vb: Viewport)
    requires
        rows_rel(a, b, dy, n),
        a.with_viewport(va).wf(),
        b.with_viewport(vb).wf(),
        view_rel(a.with_viewport(va).viewport, b.with_viewport(vb).viewport, dy, n),
    ensures
        strip_rel(a.with_viewport(va), b.with_viewport(vb), dy, n),
{
    reveal(strip_rel);
    reveal(rows_rel);
}

/// Related rows stay related when one of the surfaces changes outside
/// those rows only.
pub proof fn lemma_rows_outside(a: Raster, a1: Raster, b: Raster, dy: int, n: int, area: Rect)
    requires
        rows_rel(a, b, dy, n),
        same_outside(a, a1, area),
        area.y1 <= dy || dy + n <= area.y0,
    ensures
        rows_rel(a1, b, dy, n),
{
    reveal(rows_rel);
    reveal(same_outside);
}

/// Related rows do not depend on the viewport of the surface.
pub proof fn lemma_rows_any_view(a: Raster, b: Raster, dy: int, n: int, va: Viewport)
    requires
        rows_rel(a, b, dy, n),
        a.with_viewport(va).wf(),
    ensures
        rows_rel(a.with_viewport(va), b, dy, n),
{
    reveal(rows_rel);
}

/// The strip `rb` is the part of the strip `ra` in the rows `dy` to
/// `dy + n` of it, and neither is empty.
pub open spec fn sub_strip(ra: Rect, rb: Rect, dy: int, n: int) -> bool {
    &&& rb.x0 == ra.x0
    &&& rb.x1 == ra.x1
    &&& rb.y0 == ra.y0 + dy
    &&& rb.y1 == rb.y0 + n
    &&& rb.y1 <= ra.y1
    &&& 0 <= dy
    &&& 0 < n
    &&& 0 < ra.x1 - ra.x0 <= i16::MAX
    &&& 0 < ra.y1 - ra.y0 <= i16::MAX
}

/// A shape that lies on a part of a strip lies on the strip, and its
/// viewports on the two are those of a surface and of a strip of it that
/// holds the rows of the shape.
pub proof fn lemma_holder_views(
    a: Raster,
    b: Raster,
    h: ShapeHolder,
    frame: Rect,
    ra: Rect,
    rb: Rect,
    dy: int,
    n: int,
)
    requires
        a.wf(),
        b.wf(),
        a.size.x == ra.x1 - ra.x0,
        a.size.y >= ra.y1 - ra.y0,
        b.size.x == a.size.x,
        n <= b.size.y,
        holder_ok(h),
        h.shape.has_frame(),
        frame == h.shape.frame(),
        strip_suits(h, ra),
        strip_suits(h, rb),
        sub_strip(ra, rb, dy, n),
        on_strip(h, frame, rb),
    ensures
        on_strip(h, frame, ra),
        a.with_viewport(strip_viewport(h.viewport, ra)).wf(),
        b.with_viewport(strip_viewport(h.viewport, rb)).wf(),
        view_rel(
            a.with_viewport(strip_viewport(h.viewport, ra)).viewport,
            b.with_viewport(strip_viewport(h.viewport, rb)).viewport,
            dy,
            n,
        ),
        in_rows(a.with_viewport(strip_viewport(h.viewport, ra)), frame, dy, n),
        !frame.empty(),
{
}

/// True when the rows of a recorded shape, moved by its viewport's
/// origin, do not meet the rows of a strip.
pub open spec fn rows_off(h: ShapeHolder, rb: Rect) -> bool {
    h.shape.frame().y1 + h.viewport.origin.y <= rb.y0 || rb.y1 <= h.shape.frame().y0
        + h.viewport.origin.y
}

/// True when a recorded shape lies wholly on a strip or its rows do not
/// meet the strip at all.
pub open spec fn on_or_off(h: ShapeHolder, rb: Rect) -> bool {
    on_strip(h, h.shape.frame(), rb) || rows_off(h, rb)
}

/// A surface is a strip of itself.
pub proof fn lemma_strip_of_itself(a: Raster)
    requires
        a.wf(),
    ensures
        strip_rel(a, a, 0, a.size.y as int),
{
    reveal(strip_rel);
}

/// One recorded tidy shape, drawn on a strip and on a part of it on which
/// it lies wholly or not at all, leaves the part holding the rows of the
/// strip.
pub proof fn lemma_step_match(
    a: Raster,
    b: Raster,
    dy: int,
    n: int,
    h: ShapeHolder,
    ra: Rect,
    rb: Rect,
)
    requires
        rows_rel(a, b, dy, n),
        a.size == (Offset { x: (ra.x1 - ra.x0) as i16, y: (ra.y1 - ra.y0) as i16 }),
        holder_ok(h),
        strip_suits(h, ra),
        strip_suits(h, rb),
        tidy(h.shape),
        sub_strip(ra, rb, dy, n),
        on_or_off(h, rb),
    ensures
        rows_rel(strip_step(a, h, ra), strip_step(b, h, rb), dy, n),
        strip_step(a, h, ra).size == a.size,
        strip_step(b, h, rb).size == b.size,
{
    lemma_rows_facts(a, b, dy, n);
    lemma_step_keeps(b, h, rb);
    let frame = h.shape.frame();
    let sa = strip_viewport(h.viewport, ra);
    let sb = strip_viewport(h.viewport, rb);
    if on_strip(h, frame, rb) {
        lemma_holder_views(a, b, h, frame, ra, rb, dy, n);
        lemma_rows_with_views(a, b, dy, n, sa, sb);
        lemma_shape_on_strip(a.with_viewport(sa), b.with_viewport(sb), dy, n, h.shape);
        lemma_strip_has_rows(h.shape.paint(a.with_viewport(sa)), h.shape.paint(b.with_viewport(sb)), dy, n);
        lemma_outside_facts(
            a.with_viewport(sa),
            h.shape.paint(a.with_viewport(sa)),
            frame.moved(a.with_viewport(sa).viewport.origin),
        );
    } else if on_strip(h, frame, ra) {
        let hh = (ra.y1 - ra.y0) as int;
        assert(sub_strip(ra, ra, 0, hh));
        lemma_holder_views(a, a, h, frame, ra, ra, 0, hh);
        let av = a.with_viewport(sa);
        lemma_strip_of_itself(av);
        lemma_shape_on_strip(av, av, 0, hh, h.shape);
        let area = frame.moved(av.viewport.origin);
        lemma_rows_any_view(a, b, dy, n, sa);
        lemma_rows_outside(av, h.shape.paint(av), b, dy, n, area);
        lemma_outside_facts(av, h.shape.paint(av), area);
    }
}

/// One recorded tidy shape, drawn on a strip or left out, leaves the
/// strip consistent and of its size.
pub proof fn lemma_step_keeps(a: Raster, h: ShapeHolder, ra: Rect)
    requires
        a.wf(),
        a.size.x == ra.x1 - ra.x0,
        a.size.y >= ra.y1 - ra.y0,
        0 < ra.x1 - ra.x0 <= i16::MAX,
        0 < ra.y1 - ra.y0 <= i16::MAX,
        holder_ok(h),
        strip_suits(h, ra),
        tidy(h.shape),
    ensures
        strip_step(a, h, ra).wf(),
        strip_step(a, h, ra).size == a.size,
{
    let frame = h.shape.frame();
    if on_strip(h, frame, ra) {
        let hh = (ra.y1 - ra.y0) as int;
        assert(sub_strip(ra, ra, 0, hh));
        lemma_holder_views(a, a, h, frame, ra, ra, 0, hh);
        let av = a.with_viewport(strip_viewport(h.viewport, ra));
        lemma_strip_of_part(av, hh);
        lemma_shape_on_strip(av, av, 0, hh, h.shape);
        lemma_outside_facts(av, h.shape.paint(av), frame.moved(av.viewport.origin));
    }
}

/// A surface whose clip lies in its first `n` rows is a strip of itself
/// over these rows.
pub proof fn lemma_strip_of_part(a: Raster, n: int)
    requires
        a.wf(),
        0 <= n <= a.size.y,
        a.viewport.clip.y1 <= n,
    ensures
        strip_rel(a, a, 0, n),
{
    reveal(strip_rel);
}

/// The recorded tidy shapes from number `i` on leave a strip consistent
/// and of its size.
pub proof fn lemma_rest_keeps(a: Raster, holders: Seq<ShapeHolder>, ra: Rect, i: int)
    requires
        a.wf(),
        a.size.x == ra.x1 - ra.x0,
        a.size.y >= ra.y1 - ra.y0,
        0 < ra.x1 - ra.x0 <= i16::MAX,
        0 < ra.y1 - ra.y0 <= i16::MAX,
        0 <= i,
        forall|k: int|
            0 <= k < holders.len() ==> holder_ok(#[trigger] holders[k]) && tidy(holders[k].shape)
                && strip_suits(holders[k], ra),
    ensures
        strip_rest(a, holders, ra, i).wf(),
        strip_rest(a, holders, ra, i).size == a.size,
    decreases holders.len() - i,
{
    if i < holders.len() {
        lemma_step_keeps(a, holders[i], ra);
        lemma_rest_keeps(strip_step(a, holders[i], ra), holders, ra, i + 1);
    }
}

/// The recorded tidy shapes from number `i` on, drawn on a strip and on a
/// part of it on which each lies wholly or not at all, leave the part
/// holding the rows of the strip.
pub proof fn lemma_rest_match(
    a: Raster,
    b: Raster,
    dy: int,
    n: int,
    holders: Seq<ShapeHolder>,
    ra: Rect,
    rb: Rect,
    i: int,
)
    requires
        rows_rel(a, b, dy, n),
        a.size == (Offset { x: (ra.x1 - ra.x0) as i16, y: (ra.y1 - ra.y0) as i16 }),
        sub_strip(ra, rb, dy, n),
        0 <= i,
        forall|k: int|
            0 <= k < holders.len() ==> holder_ok(#[trigger] holders[k]) && tidy(holders[k].shape)
                && strip_suits(holders[k], ra) && strip_suits(holders[k], rb) && on_or_off(
                holders[k],
                rb,
            ),
    ensures
        rows_rel(strip_rest(a, holders, ra, i), strip_rest(b, holders, rb, i), dy, n),
        strip_rest(a, holders, ra, i).size == a.size,
        strip_rest(b, holders, rb, i).size == b.size,
    decreases holders.len() - i,
{
    if i < holders.len() {
        lemma_step_match(a, b, dy, n, holders[i], ra, rb);
        lemma_rest_match(
            strip_step(a, holders[i], ra),
            strip_step(b, holders[i], rb),
            dy,
            n,
            holders,
            ra,
            rb,
            i + 1,
        );
    }
}

/// Handing text runs on changes no pixel, nor size or viewport.
pub proof fn lemma_forwarded_rows(t: Raster, cmds: Seq<TextCall>, tl: Offset, i: int)
    requires
        t.wf(),
    ensures
        forwarded(t, cmds, tl, i).rows == t.rows,
        forwarded(t, cmds, tl, i).same_view(t),
        forwarded(t, cmds, tl, i).wf(),
    decreases cmds.len() - i,
{
    if 0 <= i < cmds.len() {
        if crate::shape::render::can_forward(t.viewport.origin, cmds[i], tl) {
            lemma_forwarded_rows(
                t.draw_text(cmds[i].rect.moved(tl), cmds[i].text, cmds[i].attr, cmds[i].blended),
                cmds,
                tl,
                i + 1,
            );
        } else {
            lemma_forwarded_rows(t, cmds, tl, i + 1);
        }
    }
}

/// True when a surface can be rendered in strips of `lines` rows and in
/// one strip: its clip is not empty, and the strips are representable in
/// the local coordinates of the surface.
pub open spec fn strips_ready(t: Raster, lines: int) -> bool {
    &&& t.wf()
    &&& !t.viewport.clip.empty()
    &&& 0 < lines <= i16::MAX
    &&& crate::geometry::fits(t.viewport.clip.x0 - t.viewport.origin.x)
    &&& crate::geometry::fits(t.viewport.clip.x1 - t.viewport.origin.x)
    &&& crate::geometry::fits(t.viewport.clip.y0 - t.viewport.origin.y)
    &&& crate::geometry::fits(t.viewport.clip.y1 - t.viewport.origin.y)
}

/// True when `y` is the first row of a strip of `lines` rows, counted
/// from the row `y0`.
pub open spec fn strip_start(y0: int, lines: int, y: int) -> bool
    decreases y - y0 + lines,
{
    if lines <= 0 || y <= y0 {
        y == y0
    } else {
        strip_start(y0, lines, y - lines)
    }
}

/// True when every recorded shape is tidy, can be drawn on the strip of
/// the whole clip, and on every strip of `lines` rows of the clip lies
/// wholly or not at all and can be drawn.
pub open spec fn tiles_well(holders: Seq<ShapeHolder>, view: Viewport, lines: int) -> bool {
    &&& forall|k: int|
        0 <= k < holders.len() ==> holder_ok(#[trigger] holders[k]) && tidy(holders[k].shape)
            && strip_suits(
            holders[k],
            strip_rect(view, view.clip.y1 - view.clip.y0, view.clip.y0 as int),
        )
    &&& forall|k: int, y: int|
        0 <= k < holders.len() && view.clip.y0 <= y < view.clip.y1 && strip_start(
            view.clip.y0 as int,
            lines,
            y,
        ) ==> #[trigger] on_or_off(holders[k], strip_rect(view, lines, y)) && strip_suits(
            holders[k],
            strip_rect(view, lines, y),
        )
}

/// The surface `tc` is the surface `t` with the rows above `y` of its clip
/// taken from the strip `big`, which stands for the whole clip.
#[verifier::opaque]
pub open spec fn composed(t: Raster, tc: Raster, big: Raster, y: int) -> bool {
    &&& tc.wf()
    &&& tc.same_view(t)
    &&& forall|yy: int, xx: int|
        0 <= yy < t.size.y && 0 <= xx < t.size.x ==> #[trigger] tc.rows[yy][xx] == (
        if t.viewport.clip.covers(xx, yy) && yy < y {
            big.rows[yy - t.viewport.clip.y0][xx - t.viewport.clip.x0]
        } else {
            t.rows[yy][xx]
        })
}

/// A surface is itself with no row taken from elsewhere.
pub proof fn lemma_composed_start(t: Raster, big: Raster)
    requires
        t.wf(),
    ensures
        composed(t, t, big, t.viewport.clip.y0 as int),
{
    reveal(composed);
}

/// Two surfaces that take all rows of the clip from the same strip have
/// the same pixels.
pub proof fn lemma_composed_unique(t: Raster, t1: Raster, t2: Raster, big: Raster, y1: int, y2: int)
    requires
        t.wf(),
        composed(t, t1, big, y1),
        composed(t, t2, big, y2),
        y1 >= t.viewport.clip.y1,
        y2 >= t.viewport.clip.y1,
    ensures
        t1.rows == t2.rows,
{
    reveal(composed);
    assert(t1.rows =~~= t2.rows);
}

/// Copying a strip that holds the rows `y` to `y + n` of the whole to its
/// place adds these rows to those taken from the whole.
pub proof fn lemma_blit_strip(
    t: Raster,
    tc: Raster,
    big: Raster,
    b1: Raster,
    lines: int,
    y: int,
)
    requires
        strips_ready(t, lines),
        composed(t, tc, big, y),
        t.viewport.clip.y0 <= y < t.viewport.clip.y1,
        rows_rel(
            big,
            b1,
            y - t.viewport.clip.y0,
            crate::geometry::min_int(lines, t.viewport.clip.y1 - y),
        ),
        big.size.x == t.viewport.clip.x1 - t.viewport.clip.x0,
    ensures
        composed(
            t,
            tc.blit(strip_rect(t.viewport, lines, y), b1),
            big,
            y + crate::geometry::min_int(lines, t.viewport.clip.y1 - y),
        ),
{
    reveal(composed);
    reveal(rows_rel);
    let r = strip_rect(t.viewport, lines, y);
    let n = crate::geometry::min_int(lines, t.viewport.clip.y1 - y);
    let t1 = tc.blit(r, b1);
    let clip = t.viewport.clip;
    assert forall|yy: int, xx: int| 0 <= yy < t.size.y && 0 <= xx < t.size.x implies #[trigger] t1.rows[yy][xx]
        == (if clip.covers(xx, yy) && yy < y + n {
        big.rows[yy - clip.y0][xx - clip.x0]
    } else {
        t.rows[yy][xx]
    }) by {
        if clip.covers(xx, yy) && y <= yy < y + n {
            assert(b1.rows[yy - y][xx - clip.x0] == big.rows[(yy - y) + (y - clip.y0)][xx - clip.x0]);
        }
    }
}

/// A strip that was cleared to the background color holds, in its rows,
/// what the cleared strip of the whole clip holds in the rows that it
/// stands for.
pub proof fn lemma_cleared_rows(a: Raster, b: Raster, c: Color, ra: Rect, rb: Rect, dy: int, n: int)
    requires
        a.wf(),
        b.wf(),
        a.size == (Offset { x: (ra.x1 - ra.x0) as i16, y: (ra.y1 - ra.y0) as i16 }),
        b.size.x == a.size.x,
        n <= b.size.y,
        sub_strip(ra, rb, dy, n),
    ensures
        rows_rel(strip_cleared(a, Some(c), ra), strip_cleared(b, Some(c), rb), dy, n),
        strip_cleared(a, Some(c), ra).size == a.size,
        strip_cleared(b, Some(c), rb).size == b.size,
        strip_cleared(b, Some(c), rb).wf(),
{
    reveal(rows_rel);
}

/// The strip that stands for the whole clip of a surface, after it was
/// cleared to the background color and took the recorded shapes.
pub open spec fn whole_strip(t: Raster, holders: Seq<ShapeHolder>, c: Color) -> Raster {
    let h = t.viewport.clip.y1 - t.viewport.clip.y0;
    let r = strip_rect(t.viewport, h, t.viewport.clip.y0 as int);
    strip_rest(
        strip_cleared(Raster::blank(strip_size(t.viewport, h)), Some(c), r),
        holders,
        r,
        0,
    )
}

/// A surface with the pixels and the viewport of another, both
/// consistent, takes its rows from the whole as the other does.
pub proof fn lemma_composed_rows(t: Raster, tc: Raster, tc2: Raster, big: Raster, y: int)
    requires
        composed(t, tc, big, y),
        tc2.rows == tc.rows,
        tc2.same_view(tc),
        tc2.wf(),
    ensures
        composed(t, tc2, big, y),
{
    reveal(composed);
}

/// Rendering from the strip that starts at `y` on, in strips on each of
/// which every shape lies wholly or not at all, takes all rows of the clip
/// from the strip that stands for the whole clip.
pub proof fn lemma_render_strips(
    t: Raster,
    tc: Raster,
    s: Raster,
    holders: Seq<ShapeHolder>,
    c: Color,
    lines: int,
    y: int,
)
    requires
        strips_ready(t, lines),
        tiles_well(holders, t.viewport, lines),
        s.wf(),
        s.size == strip_size(t.viewport, lines),
        t.viewport.clip.y0 <= y,
        y < t.viewport.clip.y1 ==> strip_start(t.viewport.clip.y0 as int, lines, y),
        composed(t, tc, whole_strip(t, holders, c), y),
    ensures
        composed(
            t,
            render_rest(tc, s, holders, Some(c), lines, t.viewport, y),
            whole_strip(t, holders, c),
            crate::geometry::max_int(y, t.viewport.clip.y1 as int),
        ),
    decreases t.viewport.clip.y1 - y,
{
    let view = t.viewport;
    let clip = view.clip;
    if y < clip.y1 {
        let hh = (clip.y1 - clip.y0) as int;
        let ra = strip_rect(view, hh, clip.y0 as int);
        let rb = strip_rect(view, lines, y);
        let n = crate::geometry::min_int(lines, clip.y1 - y);
        let dy = y - clip.y0;
        let big = whole_strip(t, holders, c);
        let blank = Raster::blank(strip_size(view, hh));
        assert(sub_strip(ra, rb, dy, n));
        lemma_cleared_rows(blank, s, c, ra, rb, dy, n);
        let a0 = strip_cleared(blank, Some(c), ra);
        let b0 = strip_cleared(s, Some(c), rb);
        assert forall|k: int| 0 <= k < holders.len() implies holder_ok(#[trigger] holders[k])
            && tidy(holders[k].shape) && on_or_off(holders[k], rb) by {
            assert(on_or_off(holders[k], strip_rect(view, lines, y)));
        }
        lemma_rest_match(a0, b0, dy, n, holders, ra, rb, 0);
        let b1 = strip_rest(b0, holders, rb, 0);
        lemma_rows_facts(big, b1, dy, n);
        lemma_blit_strip(t, tc, big, b1, lines, y);
        let t1 = tc.blit(rb, b1);
        let tl = Offset { x: rb.x0, y: rb.y0 };
        assert(t1.wf() && t1.same_view(t)) by {
            reveal(composed);
        }
        lemma_forwarded_rows(t1, b1.texts, tl, 0);
        let t2 = forwarded(t1, b1.texts, tl, 0);
        lemma_composed_rows(t, t1, t2, big, y + n);
        assert(t2.viewport == view);
        if y + n < clip.y1 {
            assert(n == lines);
            assert(strip_start(clip.y0 as int, lines, y + n));
        }
        lemma_render_strips(t, t2, b1.without_texts(), holders, c, lines, y + n);
    }
}

/// Rendering a scene in strips gives the same pixels as rendering it in
/// one strip as high as the clip, where every shape is tidy, lies, on
/// every strip, wholly on the strip or not at all, and can be drawn on the
/// strips that it lies on, and the strips are cleared to a background
/// color. Nothing else is asked: surfaces, strips and coordinates are any
/// that the 16-bit arithmetic of the render pass takes.
pub proof fn lemma_strips_as_one_strip(
    t: Raster,
    holders: Seq<ShapeHolder>,
    c: Color,
    lines: int,
)
    requires
        strips_ready(t, lines),
        tiles_well(holders, t.viewport, lines),
    ensures
        render_rest(
            t,
            Raster::blank(strip_size(t.viewport, lines)),
            holders,
            Some(c),
            lines,
            t.viewport,
            t.viewport.clip.y0 as int,
        ).rows == render_rest(
            t,
            Raster::blank(strip_size(t.viewport, t.viewport.clip.y1 - t.viewport.clip.y0)),
            holders,
            Some(c),
            t.viewport.clip.y1 - t.viewport.clip.y0,
            t.viewport,
            t.viewport.clip.y0 as int,
        ).rows,
{
    let view = t.viewport;
    let clip = view.clip;
    let hh = (clip.y1 - clip.y0) as int;
    let big = whole_strip(t, holders, c);
    let y0 = clip.y0 as int;
    lemma_composed_start(t, big);
    // in strips
    let small = Raster::blank(strip_size(view, lines));
    lemma_render_strips(t, t, small, holders, c, lines, y0);
    let left = render_rest(t, small, holders, Some(c), lines, view, y0);
    // in one strip
    let ra = strip_rect(view, hh, y0);
    let blank = Raster::blank(strip_size(view, hh));
    let a0 = strip_cleared(blank, Some(c), ra);
    assert(sub_strip(ra, ra, 0, hh));
    lemma_cleared_rows(blank, blank, c, ra, ra, 0, hh);
    lemma_rows_facts(a0, a0, 0, hh);
    lemma_rest_keeps(a0, holders, ra, 0);
    assert(big == strip_rest(a0, holders, ra, 0));
    lemma_rows_of_itself(big);
    lemma_blit_strip(t, t, big, big, hh, y0);
    let t1 = t.blit(ra, big);
    assert(t1.wf() && t1.same_view(t)) by {
        reveal(composed);
    }
    let tl = Offset { x: ra.x0, y: ra.y0 };
    lemma_forwarded_rows(t1, big.texts, tl, 0);
    let t2 = forwarded(t1, big.texts, tl, 0);
    lemma_composed_rows(t, t1, t2, big, y0 + hh);
    let right = render_rest(t, blank, holders, Some(c), hh, view, y0);
    assert(right == render_rest(t2, big.without_texts(), holders, Some(c), hh, view, y0 + hh));
    assert(right == t2);
    lemma_composed_unique(t, left, right, big, crate::geometry::max_int(y0, clip.y1 as int), y0 + hh);
}

/// A surface holds its own rows.
pub proof fn lemma_rows_of_itself(a: Raster)
    requires
        a.wf(),
    ensures
        rows_rel(a, a, 0, a.size.y as int),
{
    reveal(rows_rel);
}

} // verus!
