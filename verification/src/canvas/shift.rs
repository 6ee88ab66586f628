//! A strip of a surface as a surface of its own: what a drawing operation
//! paints on the strip is what it paints on the rows of the surface that
//! the strip stands for.

use vstd::prelude::*;
use crate::canvas::arcs::{
    circle_band, inner_rect, inward, rect_band, rect_middle, row_rect, AaStroke, Frame, Side,
    Stroke,
};
use crate::canvas::raster::{clamp_row, pixel_rect, Paint, Raster};
use crate::display::Color;
use crate::geometry::{fits, max_int, min_int, Point, Rect};
use crate::octant::{
    lemma_octant_shape, lemma_walk_shape, octant_seq, octant_split, OctantPoint, OctantPoints,
};
use crate::viewport::Viewport;

verus! {

/// The viewport `b` shows of a strip what the viewport `a` shows of the
/// rows `dy` to `dy + n` of the whole surface.
pub open spec fn view_rel(a: Viewport, b: Viewport, dy: int, n: int) -> bool {
    &&& b.origin.x == a.origin.x
    &&& b.origin.y == a.origin.y - dy
    &&& b.clip.x0 == a.clip.x0
    &&& b.clip.x1 == a.clip.x1
    &&& b.clip.y0 == max_int(a.clip.y0 as int, dy) - dy
    &&& b.clip.y1 == min_int(a.clip.y1 as int, dy + n) - dy
}

/// The surface `b` is the strip of the rows `dy` to `dy + n` of the
/// surface `a`: its first `n` rows hold the pixels of those rows, and its
/// viewport shows what the viewport of `a` shows of them.
#[verifier::opaque]
pub open spec fn strip_rel(a: Raster, b: Raster, dy: int, n: int) -> bool {
    &&& a.wf()
    &&& b.wf()
    &&& a.size.x == b.size.x
    &&& 0 <= dy
    &&& 0 <= n <= b.size.y
    &&& dy + n <= a.size.y
    &&& view_rel(a.viewport, b.viewport, dy, n)
    &&& forall|y: int, x: int|
        0 <= y < n && 0 <= x < a.size.x ==> #[trigger] b.rows[y][x] == a.rows[y + dy][x]
}

/// What a strip and its surface share but for the pixels.
pub proof fn lemma_strip_facts(a: Raster, b: Raster, dy: int, n: int)
    requires
        strip_rel(a, b, dy, n),
    ensures
        a.wf(),
        b.wf(),
        a.size.x == b.size.x,
        0 <= dy,
        0 <= n <= b.size.y,
        dy + n <= a.size.y,
        view_rel(a.viewport, b.viewport, dy, n),
{
    reveal(strip_rel);
}

/// What a surface shares with one that differs from it inside an area
/// only.
pub proof fn lemma_outside_facts(a: Raster, a1: Raster, area: Rect)
    requires
        same_outside(a, a1, area),
    ensures
        a1.same_view(a),
        a1.wf(),
{
    reveal(same_outside);
}

/// True when the local rectangle `r` can be moved by the origins of both
/// surfaces.
pub open spec fn both_reach(a: Raster, b: Raster, r: Rect) -> bool {
    r.can_translate(a.viewport.origin) && r.can_translate(b.viewport.origin)
}

/// A solid color or a blend painted into the same local rectangle of a
/// surface and of a strip of it keeps the strip a strip of the surface.
pub proof fn lemma_shift_painted(a: Raster, b: Raster, dy: int, n: int, r: Rect, p: Paint)
    requires
        strip_rel(a, b, dy, n),
        both_reach(a, b, r),
        p is Fill || p is Blend,
    ensures
        strip_rel(a.painted(a.visible(r), p), b.painted(b.visible(r), p), dy, n),
{
    reveal(strip_rel);
    let a1 = a.painted(a.visible(r), p);
    let b1 = b.painted(b.visible(r), p);
    assert forall|y: int, x: int| 0 <= y < n && 0 <= x < a.size.x implies #[trigger] b1.rows[y][x]
        == a1.rows[y + dy][x] by {
        assert(b.rows[y][x] == a.rows[y + dy][x]);
        assert(b.visible(r).covers(x, y) == a.visible(r).covers(x, y + dy));
    }
}

/// Filling a rectangle, setting or blending a pixel on a surface and on a
/// strip of it keeps the strip a strip of the surface.
pub proof fn lemma_shift_primitives(a: Raster, b: Raster, dy: int, n: int, r: Rect, pt: Point, c: Color, alpha: u8)
    requires
        strip_rel(a, b, dy, n),
    ensures
        both_reach(a, b, r) ==> strip_rel(a.fill_rect(r, c), b.fill_rect(r, c), dy, n),
        both_reach(a, b, pixel_rect(pt)) ==> strip_rel(
            a.draw_pixel(pt, c),
            b.draw_pixel(pt, c),
            dy,
            n,
        ) && strip_rel(a.blend_pixel(pt, c, alpha), b.blend_pixel(pt, c, alpha), dy, n),
{
    if both_reach(a, b, r) {
        lemma_shift_painted(a, b, dy, n, r, Paint::Fill(c));
    }
    if both_reach(a, b, pixel_rect(pt)) {
        lemma_shift_painted(a, b, dy, n, pixel_rect(pt), Paint::Fill(c));
        lemma_shift_painted(a, b, dy, n, pixel_rect(pt), Paint::Blend(c, alpha));
    }
}

/// True when every pixel of the surface `a1` outside the absolute
/// rectangle `area` is as in the surface `a`, and the two agree in size
/// and viewport.
#[verifier::opaque]
pub open spec fn same_outside(a: Raster, a1: Raster, area: Rect) -> bool {
    &&& a1.same_view(a)
    &&& a1.wf()
    &&& forall|y: int, x: int|
        0 <= y < a.size.y && 0 <= x < a.size.x && !area.covers(x, y) ==> #[trigger] a1.rows[y][x]
            == a.rows[y][x]
}

/// True when the absolute rectangle `area` holds every pixel of the local
/// rectangle `r` on the surface `a`.
pub open spec fn within(a: Raster, r: Rect, area: Rect) -> bool {
    r.can_translate(a.viewport.origin) && (r.empty() || area.encloses(r.moved(a.viewport.origin)))
}

/// Filling a rectangle, setting or blending a pixel changes nothing
/// outside an area that holds the rectangle or the pixel.
pub proof fn lemma_local_primitives(a: Raster, area: Rect, r: Rect, pt: Point, c: Color, alpha: u8)
    requires
        a.wf(),
    ensures
        within(a, r, area) ==> same_outside(a, a.fill_rect(r, c), area),
        within(a, pixel_rect(pt), area) ==> same_outside(a, a.draw_pixel(pt, c), area)
            && same_outside(a, a.blend_pixel(pt, c, alpha), area),
{
    reveal(same_outside);
}

/// A surface differs from itself nowhere.
pub proof fn lemma_same_outside_refl(a: Raster, area: Rect)
    requires
        a.wf(),
    ensures
        same_outside(a, a, area),
{
    reveal(same_outside);
}

/// What changes nothing outside an area changes nothing outside a larger
/// one.
pub proof fn lemma_same_outside_grow(a: Raster, a1: Raster, area: Rect, larger: Rect)
    requires
        same_outside(a, a1, area),
        area.empty() || larger.encloses(area),
    ensures
        same_outside(a, a1, larger),
{
    reveal(same_outside);
}

/// Changes outside nothing but an area, one after the other, change
/// nothing outside the area.
pub proof fn lemma_same_outside_trans(a: Raster, a1: Raster, a2: Raster, area: Rect)
    requires
        a.wf(),
        same_outside(a, a1, area),
        same_outside(a1, a2, area),
    ensures
        same_outside(a, a2, area),
{
    reveal(same_outside);
    assert forall|y: int, x: int| 0 <= y < a.size.y && 0 <= x < a.size.x && !area.covers(
        x,
        y,
    ) implies #[trigger] a2.rows[y][x] == a.rows[y][x] by {
        assert(a1.rows[y][x] == a.rows[y][x]);
    }
}

/// True when every point of `pts` lies in the octant of the given
/// radius: `0 <= y <= x <= radius`.
pub open spec fn in_octant(pts: Seq<OctantPoint>, radius: i16) -> bool {
    forall|i: int| 0 <= i < pts.len() ==> 0 <= (#[trigger] pts[i]).1 <= pts[i].0 <= radius
}

/// The points of the octant of a radius lie in the octant, and for a
/// radius from 1 up none has `x == 0`.
pub proof fn lemma_octant_in_octant(radius: i16)
    requires
        0 <= radius <= crate::octant::MAX_RADIUS,
    ensures
        in_octant(octant_seq(radius), radius),
        radius >= 1 ==> forall|i: int|
            0 <= i < octant_seq(radius).len() ==> (#[trigger] octant_seq(radius)[i]).0 >= 1,
{
    let s = OctantPoints { radius, x: radius, y: 0, t1: (radius / 16) as i16, first: true };
    assert(0 <= radius / 16 <= radius);
    assert(radius > 0 ==> radius / 16 < radius);
    lemma_walk_shape(s);
    let pts = octant_seq(radius);
    assert forall|i: int| 0 <= i < pts.len() implies 0 <= (#[trigger] pts[i]).1 <= pts[i].0
        <= radius by {
        assert(pts[i].1 == 0 + i);
    }
    if radius >= 1 {
        assert forall|i: int| 0 <= i < pts.len() implies (#[trigger] pts[i]).0 >= 1 by {
            assert(pts[i].1 == 0 + i);
            assert(pts[0].0 == radius) by {
                assert(s@ =~= seq![s.current()] + s.advanced()@);
            }
        }
    }
}

/// One point of a band painted on a surface and on a strip of it keeps
/// the strip a strip of the surface.
pub proof fn lemma_shift_stroke_point(
    a: Raster,
    b: Raster,
    dy: int,
    n: int,
    f: Frame,
    radius: i16,
    side: Side,
    stroke: Stroke,
    color: Color,
    p: OctantPoint,
)
    requires
        strip_rel(a, b, dy, n),
        f.reaches(radius, a.viewport.origin),
        f.reaches(radius, b.viewport.origin),
        0 <= p.1 <= p.0 <= radius,
    ensures
        strip_rel(
            a.stroke_point(f, radius, side, stroke, color, p),
            b.stroke_point(f, radius, side, stroke, color, p),
            dy,
            n,
        ),
{
    let l = f.left_point(side, p);
    let r = f.right_point(side, p);
    lemma_strip_facts(a, b, dy, n);
    lemma_shift_primitives(a, b, dy, n, row_rect(l, r), l, color, 0);
    lemma_shift_primitives(
        a.draw_pixel(l, color),
        b.draw_pixel(l, color),
        dy,
        n,
        row_rect(l, r),
        r,
        color,
        0,
    );
}

/// One point of a band painted with its coverage on a surface and on a
/// strip of it keeps the strip a strip of the surface.
pub proof fn lemma_shift_aa_point(
    a: Raster,
    b: Raster,
    dy: int,
    n: int,
    f: Frame,
    radius: i16,
    side: Side,
    stroke: AaStroke,
    color: Color,
    p: OctantPoint,
)
    requires
        strip_rel(a, b, dy, n),
        f.reaches(radius, a.viewport.origin),
        f.reaches(radius, b.viewport.origin),
        0 <= p.1 <= p.0 <= radius,
    ensures
        strip_rel(a.aa_point(f, side, stroke, color, p), b.aa_point(f, side, stroke, color, p), dy, n),
{
    let l = f.left_point(side, p);
    let r = f.right_point(side, p);
    let li = inward(l, side, true);
    let ri = inward(r, side, false);
    let rest = (255 - p.2) as u8;
    lemma_strip_facts(a, b, dy, n);
    lemma_shift_primitives(a, b, dy, n, inner_rect(l, r), l, color, p.2);
    let a1 = a.blend_pixel(l, color, p.2);
    let b1 = b.blend_pixel(l, color, p.2);
    lemma_shift_primitives(a1, b1, dy, n, inner_rect(l, r), r, color, p.2);
    let a2 = a1.blend_pixel(r, color, p.2);
    let b2 = b1.blend_pixel(r, color, p.2);
    lemma_shift_primitives(a2, b2, dy, n, inner_rect(l, r), r, color, p.2);
    lemma_shift_primitives(a1, b1, dy, n, inner_rect(l, r), li, color, rest);
    let a3 = a1.blend_pixel(li, color, rest);
    let b3 = b1.blend_pixel(li, color, rest);
    lemma_shift_primitives(a3, b3, dy, n, inner_rect(l, r), r, color, p.2);
    let a4 = a3.blend_pixel(r, color, p.2);
    let b4 = b3.blend_pixel(r, color, p.2);
    lemma_shift_primitives(a4, b4, dy, n, inner_rect(l, r), ri, color, rest);
}

/// The points of a band painted in order on a surface and on a strip of
/// it keep the strip a strip of the surface.
pub proof fn lemma_shift_stroke_points(
    a: Raster,
    b: Raster,
    dy: int,
    n: int,
    f: Frame,
    radius: i16,
    side: Side,
    stroke: Stroke,
    color: Color,
    pts: Seq<OctantPoint>,
)
    requires
        strip_rel(a, b, dy, n),
        f.reaches(radius, a.viewport.origin),
        f.reaches(radius, b.viewport.origin),
        in_octant(pts, radius),
    ensures
        strip_rel(
            a.stroke_points(f, radius, side, stroke, color, pts),
            b.stroke_points(f, radius, side, stroke, color, pts),
            dy,
            n,
        ),
    decreases pts.len(),
{
    if pts.len() > 0 {
        lemma_shift_stroke_point(a, b, dy, n, f, radius, side, stroke, color, pts[0]);
        assert forall|i: int| 0 <= i < pts.skip(1).len() implies 0 <= (#[trigger] pts.skip(1)[i]).1
            <= pts.skip(1)[i].0 <= radius by {
            assert(pts.skip(1)[i] == pts[i + 1]);
        }
        lemma_shift_stroke_points(
            a.stroke_point(f, radius, side, stroke, color, pts[0]),
            b.stroke_point(f, radius, side, stroke, color, pts[0]),
            dy,
            n,
            f,
            radius,
            side,
            stroke,
            color,
            pts.skip(1),
        );
    }
}

/// The points of a band painted in order with their coverage on a surface
/// and on a strip of it keep the strip a strip of the surface.
pub proof fn lemma_shift_aa_points(
    a: Raster,
    b: Raster,
    dy: int,
    n: int,
    f: Frame,
    radius: i16,
    side: Side,
    stroke: AaStroke,
    color: Color,
    pts: Seq<OctantPoint>,
)
    requires
        strip_rel(a, b, dy, n),
        f.reaches(radius, a.viewport.origin),
        f.reaches(radius, b.viewport.origin),
        in_octant(pts, radius),
    ensures
        strip_rel(
            a.aa_points(f, side, stroke, color, pts),
            b.aa_points(f, side, stroke, color, pts),
            dy,
            n,
        ),
    decreases pts.len(),
{
    if pts.len() > 0 {
        lemma_shift_aa_point(a, b, dy, n, f, radius, side, stroke, color, pts[0]);
        assert forall|i: int| 0 <= i < pts.skip(1).len() implies 0 <= (#[trigger] pts.skip(1)[i]).1
            <= pts.skip(1)[i].0 <= radius by {
            assert(pts.skip(1)[i] == pts[i + 1]);
        }
        lemma_shift_aa_points(
            a.aa_point(f, side, stroke, color, pts[0]),
            b.aa_point(f, side, stroke, color, pts[0]),
            dy,
            n,
            f,
            radius,
            side,
            stroke,
            color,
            pts.skip(1),
        );
    }
}

/// True when the local rectangle `r` is empty or lies in the rows `dy` to
/// `dy + n` of the surface `a`.
pub open spec fn in_rows(a: Raster, r: Rect, dy: int, n: int) -> bool {
    r.can_translate(a.viewport.origin) && (r.empty() || (dy <= r.y0 + a.viewport.origin.y && r.y1
        + a.viewport.origin.y <= dy + n))
}

/// A rectangle in the rows of a strip lies wholly inside the clip of the
/// strip exactly when it lies wholly inside the clip of the surface.
pub proof fn lemma_shift_holds(a: Raster, b: Raster, dy: int, n: int, r: Rect)
    requires
        strip_rel(a, b, dy, n),
        in_rows(a, r, dy, n),
        r.can_translate(b.viewport.origin),
    ensures
        a.viewport.holds(r) == b.viewport.holds(r),
{
    lemma_strip_facts(a, b, dy, n);
}

/// A band painted on a surface and on a strip of it, its rectangle in the
/// rows of the strip, keeps the strip a strip of the surface.
pub proof fn lemma_shift_bands(
    a: Raster,
    b: Raster,
    dy: int,
    n: int,
    band: Rect,
    f: Frame,
    radius: i16,
    side: Side,
    stroke: Stroke,
    aa: AaStroke,
    color: Color,
)
    requires
        strip_rel(a, b, dy, n),
        f.reaches(radius, a.viewport.origin),
        f.reaches(radius, b.viewport.origin),
        in_rows(a, band, dy, n),
        band.can_translate(b.viewport.origin),
    ensures
        strip_rel(
            a.band(band, f, radius, side, stroke, color),
            b.band(band, f, radius, side, stroke, color),
            dy,
            n,
        ),
        strip_rel(
            a.aa_band(band, f, radius, side, aa, color),
            b.aa_band(band, f, radius, side, aa, color),
            dy,
            n,
        ),
{
    lemma_shift_holds(a, b, dy, n, band);
    lemma_octant_in_octant(radius);
    lemma_strip_facts(a, b, dy, n);
    lemma_shift_stroke_points(a, b, dy, n, f, radius, side, stroke, color, octant_seq(radius));
    lemma_shift_aa_points(a, b, dy, n, f, radius, side, aa, color, octant_seq(radius));
}

/// The rectangle that holds every pixel of the bands of a frame.
pub open spec fn extent(f: Frame, radius: i16) -> Rect {
    Rect {
        x0: (f.left - radius) as i16,
        y0: (f.top - radius) as i16,
        x1: (f.right + radius + 1) as i16,
        y1: (f.bottom + radius + 1) as i16,
    }
}

/// True when the arcs on the left do not lie right of those on the right,
/// nor the upper ones below the lower ones.
pub open spec fn ordered(f: Frame) -> bool {
    f.left <= f.right && f.top <= f.bottom
}

/// One point of a band changes nothing outside the extent of the frame.
pub proof fn lemma_local_stroke_point(
    a: Raster,
    area: Rect,
    f: Frame,
    radius: i16,
    side: Side,
    stroke: Stroke,
    color: Color,
    p: OctantPoint,
)
    requires
        a.wf(),
        f.reaches(radius, a.viewport.origin),
        ordered(f),
        0 <= p.1 <= p.0 <= radius,
        area.encloses(extent(f, radius).moved(a.viewport.origin)),
    ensures
        same_outside(a, a.stroke_point(f, radius, side, stroke, color, p), area),
{
    let l = f.left_point(side, p);
    let r = f.right_point(side, p);
    lemma_same_outside_refl(a, area);
    lemma_local_primitives(a, area, row_rect(l, r), l, color, 0);
    let a1 = a.draw_pixel(l, color);
    lemma_outside_facts(a, a1, area);
    lemma_local_primitives(a1, area, row_rect(l, r), r, color, 0);
    lemma_same_outside_trans(a, a1, a1.draw_pixel(r, color), area);
}

/// One point of a band painted with its coverage changes nothing outside
/// the extent of the frame; for the outline with its inner neighbours,
/// where the point has `x` from 1 up.
pub proof fn lemma_local_aa_point(
    a: Raster,
    area: Rect,
    f: Frame,
    radius: i16,
    side: Side,
    stroke: AaStroke,
    color: Color,
    p: OctantPoint,
)
    requires
        a.wf(),
        f.reaches(radius, a.viewport.origin),
        ordered(f),
        0 <= p.1 <= p.0 <= radius,
        stroke is BlendPairs ==> p.0 >= 1,
        area.encloses(extent(f, radius).moved(a.viewport.origin)),
    ensures
        same_outside(a, a.aa_point(f, side, stroke, color, p), area),
{
    let l = f.left_point(side, p);
    let r = f.right_point(side, p);
    let rest = (255 - p.2) as u8;
    lemma_local_primitives(a, area, inner_rect(l, r), l, color, p.2);
    let a1 = a.blend_pixel(l, color, p.2);
    lemma_outside_facts(a, a1, area);
    if stroke is BlendPairs {
        let li = inward(l, side, true);
        let ri = inward(r, side, false);
        lemma_local_primitives(a1, area, inner_rect(l, r), li, color, rest);
        let a3 = a1.blend_pixel(li, color, rest);
        lemma_same_outside_trans(a, a1, a3, area);
        lemma_outside_facts(a, a3, area);
        lemma_local_primitives(a3, area, inner_rect(l, r), r, color, p.2);
        let a4 = a3.blend_pixel(r, color, p.2);
        lemma_same_outside_trans(a, a3, a4, area);
        lemma_outside_facts(a, a4, area);
        lemma_local_primitives(a4, area, inner_rect(l, r), ri, color, rest);
        lemma_same_outside_trans(a, a4, a4.blend_pixel(ri, color, rest), area);
    } else {
        lemma_local_primitives(a1, area, inner_rect(l, r), r, color, p.2);
        let a2 = a1.blend_pixel(r, color, p.2);
        lemma_same_outside_trans(a, a1, a2, area);
        lemma_outside_facts(a, a2, area);
        lemma_local_primitives(a2, area, inner_rect(l, r), r, color, p.2);
        lemma_same_outside_trans(a, a2, a2.fill_rect(inner_rect(l, r), color), area);
    }
}

/// The points of a band change nothing outside the extent of the frame.
pub proof fn lemma_local_stroke_points(
    a: Raster,
    area: Rect,
    f: Frame,
    radius: i16,
    side: Side,
    stroke: Stroke,
    color: Color,
    pts: Seq<OctantPoint>,
)
    requires
        a.wf(),
        f.reaches(radius, a.viewport.origin),
        ordered(f),
        in_octant(pts, radius),
        area.encloses(extent(f, radius).moved(a.viewport.origin)),
    ensures
        same_outside(a, a.stroke_points(f, radius, side, stroke, color, pts), area),
    decreases pts.len(),
{
    if pts.len() > 0 {
        lemma_local_stroke_point(a, area, f, radius, side, stroke, color, pts[0]);
        let a1 = a.stroke_point(f, radius, side, stroke, color, pts[0]);
        assert forall|i: int| 0 <= i < pts.skip(1).len() implies 0 <= (#[trigger] pts.skip(1)[i]).1
            <= pts.skip(1)[i].0 <= radius by {
            assert(pts.skip(1)[i] == pts[i + 1]);
        }
        lemma_outside_facts(a, a1, area);
        lemma_local_stroke_points(a1, area, f, radius, side, stroke, color, pts.skip(1));
        lemma_same_outside_trans(
            a,
            a1,
            a1.stroke_points(f, radius, side, stroke, color, pts.skip(1)),
            area,
        );
    } else {
        lemma_same_outside_refl(a, area);
    }
}

/// The points of a band painted with their coverage change nothing
/// outside the extent of the frame.
pub proof fn lemma_local_aa_points(
    a: Raster,
    area: Rect,
    f: Frame,
    radius: i16,
    side: Side,
    stroke: AaStroke,
    color: Color,
    pts: Seq<OctantPoint>,
)
    requires
        a.wf(),
        f.reaches(radius, a.viewport.origin),
        ordered(f),
        in_octant(pts, radius),
        stroke is BlendPairs ==> forall|i: int| 0 <= i < pts.len() ==> (#[trigger] pts[i]).0 >= 1,
        area.encloses(extent(f, radius).moved(a.viewport.origin)),
    ensures
        same_outside(a, a.aa_points(f, side, stroke, color, pts), area),
    decreases pts.len(),
{
    if pts.len() > 0 {
        lemma_local_aa_point(a, area, f, radius, side, stroke, color, pts[0]);
        let a1 = a.aa_point(f, side, stroke, color, pts[0]);
        assert forall|i: int| 0 <= i < pts.skip(1).len() implies 0 <= (#[trigger] pts.skip(1)[i]).1
            <= pts.skip(1)[i].0 <= radius && (stroke is BlendPairs ==> pts.skip(1)[i].0 >= 1) by {
            assert(pts.skip(1)[i] == pts[i + 1]);
        }
        lemma_outside_facts(a, a1, area);
        lemma_local_aa_points(a1, area, f, radius, side, stroke, color, pts.skip(1));
        lemma_same_outside_trans(a, a1, a1.aa_points(f, side, stroke, color, pts.skip(1)), area);
    } else {
        lemma_same_outside_refl(a, area);
    }
}

/// A band, drawn or not, changes nothing outside the extent of its frame.
pub proof fn lemma_local_bands(
    a: Raster,
    area: Rect,
    band: Rect,
    f: Frame,
    radius: i16,
    side: Side,
    stroke: Stroke,
    aa: AaStroke,
    color: Color,
)
    requires
        a.wf(),
        f.reaches(radius, a.viewport.origin),
        ordered(f),
        aa is BlendPairs ==> radius >= 1,
        area.encloses(extent(f, radius).moved(a.viewport.origin)),
    ensures
        same_outside(a, a.band(band, f, radius, side, stroke, color), area),
        same_outside(a, a.aa_band(band, f, radius, side, aa, color), area),
{
    lemma_octant_in_octant(radius);
    lemma_same_outside_refl(a, area);
    lemma_local_stroke_points(a, area, f, radius, side, stroke, color, octant_seq(radius));
    lemma_local_aa_points(a, area, f, radius, side, aa, color, octant_seq(radius));
}

/// The points of a band leave size, viewport and text runs as they
/// are.
pub proof fn lemma_points_keep_frame(
    a: Raster,
    f: Frame,
    radius: i16,
    side: Side,
    stroke: Stroke,
    aa: AaStroke,
    color: Color,
    pts: Seq<OctantPoint>,
)
    ensures
        a.stroke_points(f, radius, side, stroke, color, pts).same_frame(a),
        a.aa_points(f, side, aa, color, pts).same_frame(a),
    decreases pts.len(),
{
    if pts.len() > 0 {
        lemma_points_keep_frame(
            a.stroke_point(f, radius, side, stroke, color, pts[0]),
            f,
            radius,
            side,
            stroke,
            aa,
            color,
            pts.skip(1),
        );
        lemma_points_keep_frame(
            a.aa_point(f, side, aa, color, pts[0]),
            f,
            radius,
            side,
            stroke,
            aa,
            color,
            pts.skip(1),
        );
    }
}

/// A band leaves size, viewport and text runs as they are.
pub proof fn lemma_bands_keep_frame(
    a: Raster,
    band: Rect,
    f: Frame,
    radius: i16,
    side: Side,
    stroke: Stroke,
    aa: AaStroke,
    color: Color,
)
    ensures
        a.band(band, f, radius, side, stroke, color).same_frame(a),
        a.aa_band(band, f, radius, side, aa, color).same_frame(a),
{
    lemma_points_keep_frame(a, f, radius, side, stroke, aa, color, octant_seq(radius));
}

/// The square around a circle.
pub open spec fn circle_frame(c: Point, radius: i16) -> Rect {
    Rect {
        x0: (c.x - radius) as i16,
        y0: (c.y - radius) as i16,
        x1: (c.x + radius + 1) as i16,
        y1: (c.y + radius + 1) as i16,
    }
}

/// The four bands of a circle, painted in any of the ways, on a surface
/// and on a strip of it that holds the rows of the circle, keep the strip a
/// strip of the surface, and change nothing outside the square around the
/// circle.
#[verifier::rlimit(100)]
#[verifier::spinoff_prover]
pub proof fn lemma_circle_bands(
    a: Raster,
    b: Raster,
    dy: int,
    n: int,
    c: Point,
    radius: i16,
    s0: AaStroke,
    s1: AaStroke,
    color: Color,
)
    requires
        strip_rel(a, b, dy, n),
        Frame::around(c).reaches(radius, a.viewport.origin),
        Frame::around(c).reaches(radius, b.viewport.origin),
        in_rows(a, circle_frame(c, radius), dy, n),
        s0 is BlendPairs || s1 is BlendPairs ==> radius >= 1,
    ensures
        strip_rel(circle_bands(a, c, radius, s0, s1, color), circle_bands(b, c, radius, s0, s1, color), dy, n),
        same_outside(
            a,
            circle_bands(a, c, radius, s0, s1, color),
            circle_frame(c, radius).moved(a.viewport.origin),
        ),
{
    lemma_octant_shape(radius);
    lemma_strip_facts(a, b, dy, n);
    let f = Frame::around(c);
    let area = circle_frame(c, radius).moved(a.viewport.origin);
    let t = circle_band(c, radius, Side::Top);
    let u = circle_band(c, radius, Side::Upper);
    let l = circle_band(c, radius, Side::Lower);
    let m = circle_band(c, radius, Side::Bottom);
    assert(extent(f, radius) == circle_frame(c, radius));
    lemma_aa_step(a, b, dy, n, area, t, f, radius, Side::Top, s0, color);
    let a1 = a.aa_band(t, f, radius, Side::Top, s0, color);
    let b1 = b.aa_band(t, f, radius, Side::Top, s0, color);
    lemma_outside_facts(a, a1, area);
    lemma_strip_facts(a1, b1, dy, n);
    lemma_aa_step(a1, b1, dy, n, area, u, f, radius, Side::Upper, s1, color);
    let a2 = a1.aa_band(u, f, radius, Side::Upper, s1, color);
    let b2 = b1.aa_band(u, f, radius, Side::Upper, s1, color);
    lemma_same_outside_trans(a, a1, a2, area);
    lemma_outside_facts(a, a2, area);
    lemma_strip_facts(a2, b2, dy, n);
    lemma_aa_step(a2, b2, dy, n, area, l, f, radius, Side::Lower, s1, color);
    let a3 = a2.aa_band(l, f, radius, Side::Lower, s1, color);
    let b3 = b2.aa_band(l, f, radius, Side::Lower, s1, color);
    lemma_same_outside_trans(a, a2, a3, area);
    lemma_outside_facts(a, a3, area);
    lemma_strip_facts(a3, b3, dy, n);
    lemma_aa_step(a3, b3, dy, n, area, m, f, radius, Side::Bottom, s0, color);
    let a4 = a3.aa_band(m, f, radius, Side::Bottom, s0, color);
    lemma_same_outside_trans(a, a3, a4, area);
}

/// A band painted with coverage in the rows of a strip, on the surface
/// and on the strip: the strip stays a strip of the surface, and nothing
/// changes outside the extent of the frame.
pub proof fn lemma_aa_step(
    a: Raster,
    b: Raster,
    dy: int,
    n: int,
    area: Rect,
    band: Rect,
    f: Frame,
    radius: i16,
    side: Side,
    s: AaStroke,
    color: Color,
)
    requires
        strip_rel(a, b, dy, n),
        f.reaches(radius, a.viewport.origin),
        f.reaches(radius, b.viewport.origin),
        ordered(f),
        in_rows(a, band, dy, n),
        both_reach(a, b, band),
        s is BlendPairs ==> radius >= 1,
        area.encloses(extent(f, radius).moved(a.viewport.origin)),
    ensures
        strip_rel(
            a.aa_band(band, f, radius, side, s, color),
            b.aa_band(band, f, radius, side, s, color),
            dy,
            n,
        ),
        same_outside(a, a.aa_band(band, f, radius, side, s, color), area),
{
    lemma_strip_facts(a, b, dy, n);
    lemma_shift_bands(a, b, dy, n, band, f, radius, side, Stroke::Pixels, s, color);
    lemma_local_bands(a, area, band, f, radius, side, Stroke::Pixels, s, color);
}

/// The four bands of a circle painted with coverage: the caps in the way
/// `s0`, the two middle bands in the way `s1`.
pub open spec fn circle_bands(a: Raster, c: Point, radius: i16, s0: AaStroke, s1: AaStroke, color: Color)
    -> Raster {
    let f = Frame::around(c);
    a.aa_band(circle_band(c, radius, Side::Top), f, radius, Side::Top, s0, color).aa_band(
        circle_band(c, radius, Side::Upper),
        f,
        radius,
        Side::Upper,
        s1,
        color,
    ).aa_band(circle_band(c, radius, Side::Lower), f, radius, Side::Lower, s1, color).aa_band(
        circle_band(c, radius, Side::Bottom),
        f,
        radius,
        Side::Bottom,
        s0,
        color,
    )
}

/// The smoothed circles are the four bands of `circle_bands`.
pub proof fn lemma_circles_are_bands(a: Raster, c: Point, radius: i16, color: Color)
    ensures
        a.fill_circle_aa(c, radius, color) == circle_bands(
            a,
            c,
            radius,
            AaStroke::BlendCapRows,
            AaStroke::BlendRows,
            color,
        ),
        a.draw_circle_aa(c, radius, color) == circle_bands(
            a,
            c,
            radius,
            AaStroke::BlendPairs,
            AaStroke::BlendPairs,
            color,
        ),
{
}

/// True when a rectangle is large enough for corners of the given radius:
/// at least `2 * radius + 1` pixels wide and high.
pub open spec fn roomy(r: Rect, radius: i16) -> bool {
    r.x1 - r.x0 >= 2 * radius + 1 && r.y1 - r.y0 >= 2 * radius + 1
}

/// A band painted with coverage in the way `s`, or without in the way
/// `t`.
pub open spec fn either_band(
    a: Raster,
    band: Rect,
    f: Frame,
    radius: i16,
    side: Side,
    aa: bool,
    t: Stroke,
    s: AaStroke,
    color: Color,
) -> Raster {
    if aa {
        a.aa_band(band, f, radius, side, s, color)
    } else {
        a.band(band, f, radius, side, t, color)
    }
}

/// A band in the rows of a strip, painted on the surface and on the strip,
/// keeps the strip a strip of the surface, changes nothing outside the
/// extent of its frame, and leaves size, viewport and text runs as they
/// are.
pub proof fn lemma_either_band(
    a: Raster,
    b: Raster,
    dy: int,
    n: int,
    area: Rect,
    band: Rect,
    f: Frame,
    radius: i16,
    side: Side,
    aa: bool,
    t: Stroke,
    s: AaStroke,
    color: Color,
)
    requires
        strip_rel(a, b, dy, n),
        f.reaches(radius, a.viewport.origin),
        f.reaches(radius, b.viewport.origin),
        ordered(f),
        in_rows(a, band, dy, n),
        both_reach(a, b, band),
        !(s is BlendPairs),
        area.encloses(extent(f, radius).moved(a.viewport.origin)),
    ensures
        strip_rel(
            either_band(a, band, f, radius, side, aa, t, s, color),
            either_band(b, band, f, radius, side, aa, t, s, color),
            dy,
            n,
        ),
        same_outside(a, either_band(a, band, f, radius, side, aa, t, s, color), area),
{
    lemma_strip_facts(a, b, dy, n);
    lemma_shift_bands(a, b, dy, n, band, f, radius, side, t, s, color);
    lemma_local_bands(a, area, band, f, radius, side, t, s, color);
}

/// The bands and the middle of a rounded rectangle: with `aa` the bands
/// are painted with coverage in the ways `s0` and `s1`, else without in
/// the ways `t0` and `t1`.
pub open spec fn rect_bands(
    a: Raster,
    r: Rect,
    radius: i16,
    aa: bool,
    t0: Stroke,
    t1: Stroke,
    s0: AaStroke,
    s1: AaStroke,
    color: Color,
) -> Raster {
    let f = Frame::rounding(r, radius);
    let a1 = either_band(a, rect_band(r, radius, Side::Top), f, radius, Side::Top, aa, t0, s0, color);
    let a2 = either_band(
        a1,
        rect_band(r, radius, Side::Upper),
        f,
        radius,
        Side::Upper,
        aa,
        t1,
        s1,
        color,
    );
    let a3 = a2.fill_rect(rect_middle(r, radius), color);
    let a4 = either_band(
        a3,
        rect_band(r, radius, Side::Lower),
        f,
        radius,
        Side::Lower,
        aa,
        t1,
        s1,
        color,
    );
    either_band(a4, rect_band(r, radius, Side::Bottom), f, radius, Side::Bottom, aa, t0, s0, color)
}

/// The filled rounded rectangles are the bands of `rect_bands`.
pub proof fn lemma_round_rects_are_bands(a: Raster, r: Rect, radius: i16, color: Color)
    ensures
        a.fill_round_rect(r, radius, color) == rect_bands(
            a,
            r,
            radius,
            false,
            Stroke::CapRows,
            Stroke::Rows,
            AaStroke::BlendRows,
            AaStroke::BlendRows,
            color,
        ),
        a.fill_round_rect_aa(r, radius, color) == rect_bands(
            a,
            r,
            radius,
            true,
            Stroke::Rows,
            Stroke::Rows,
            AaStroke::BlendCapRows,
            AaStroke::BlendRows,
            color,
        ),
{
}

/// The bands and the middle of a rounded rectangle that is large enough
/// for its corners, painted on a surface and on a strip of it that holds
/// the rows of the rectangle, keep the strip a strip of the surface, and
/// change nothing outside the rectangle.
#[verifier::rlimit(100)]
#[verifier::spinoff_prover]
pub proof fn lemma_rect_bands(
    a: Raster,
    b: Raster,
    dy: int,
    n: int,
    r: Rect,
    radius: i16,
    aa: bool,
    t0: Stroke,
    t1: Stroke,
    s0: AaStroke,
    s1: AaStroke,
    color: Color,
)
    requires
        strip_rel(a, b, dy, n),
        Frame::rounding_reaches(r, radius, a.viewport.origin),
        Frame::rounding_reaches(r, radius, b.viewport.origin),
        roomy(r, radius),
        in_rows(a, r, dy, n),
        !(s0 is BlendPairs) && !(s1 is BlendPairs),
    ensures
        strip_rel(
            rect_bands(a, r, radius, aa, t0, t1, s0, s1, color),
            rect_bands(b, r, radius, aa, t0, t1, s0, s1, color),
            dy,
            n,
        ),
        same_outside(
            a,
            rect_bands(a, r, radius, aa, t0, t1, s0, s1, color),
            r.moved(a.viewport.origin),
        ),
{
    lemma_octant_shape(radius);
    lemma_strip_facts(a, b, dy, n);
    let f = Frame::rounding(r, radius);
    let area = r.moved(a.viewport.origin);
    let top = rect_band(r, radius, Side::Top);
    let upper = rect_band(r, radius, Side::Upper);
    let lower = rect_band(r, radius, Side::Lower);
    let bottom = rect_band(r, radius, Side::Bottom);
    let mid = rect_middle(r, radius);
    assert(extent(f, radius) == r);
    assert(ordered(f));
    assert(in_rows(a, top, dy, n) && in_rows(a, upper, dy, n) && in_rows(a, lower, dy, n)
        && in_rows(a, bottom, dy, n));
    lemma_either_band(a, b, dy, n, area, top, f, radius, Side::Top, aa, t0, s0, color);
    let a1 = either_band(a, top, f, radius, Side::Top, aa, t0, s0, color);
    let b1 = either_band(b, top, f, radius, Side::Top, aa, t0, s0, color);
    lemma_outside_facts(a, a1, area);
    lemma_strip_facts(a1, b1, dy, n);
    lemma_either_band(a1, b1, dy, n, area, upper, f, radius, Side::Upper, aa, t1, s1, color);
    let a2 = either_band(a1, upper, f, radius, Side::Upper, aa, t1, s1, color);
    let b2 = either_band(b1, upper, f, radius, Side::Upper, aa, t1, s1, color);
    lemma_same_outside_trans(a, a1, a2, area);
    lemma_outside_facts(a, a2, area);
    lemma_strip_facts(a2, b2, dy, n);
    lemma_strip_facts(a2, b2, dy, n);
    lemma_shift_primitives(a2, b2, dy, n, mid, Point { x: 0, y: 0 }, color, 0);
    lemma_local_primitives(a2, area, mid, Point { x: 0, y: 0 }, color, 0);
    let a3 = a2.fill_rect(mid, color);
    let b3 = b2.fill_rect(mid, color);
    lemma_same_outside_trans(a, a2, a3, area);
    lemma_outside_facts(a, a3, area);
    lemma_strip_facts(a3, b3, dy, n);
    lemma_either_band(a3, b3, dy, n, area, lower, f, radius, Side::Lower, aa, t1, s1, color);
    let a4 = either_band(a3, lower, f, radius, Side::Lower, aa, t1, s1, color);
    let b4 = either_band(b3, lower, f, radius, Side::Lower, aa, t1, s1, color);
    lemma_same_outside_trans(a, a3, a4, area);
    lemma_outside_facts(a, a4, area);
    lemma_strip_facts(a4, b4, dy, n);
    lemma_either_band(a4, b4, dy, n, area, bottom, f, radius, Side::Bottom, aa, t0, s0, color);
    let a5 = either_band(a4, bottom, f, radius, Side::Bottom, aa, t0, s0, color);
    lemma_same_outside_trans(a, a4, a5, area);
}

/// The blur filter is fed the same rows on a surface and on a strip of
/// it, where the blurred rectangle lies in the rows of the strip.
pub proof fn lemma_shift_blur_feed(
    a: Raster,
    b: Raster,
    dy: int,
    n: int,
    va: Rect,
    vb: Rect,
    radius: nat,
    k: nat,
)
    requires
        strip_rel(a, b, dy, n),
        !va.empty(),
        0 <= va.x0,
        va.x1 <= a.size.x,
        dy <= va.y0,
        va.y1 <= dy + n,
        vb.x0 == va.x0,
        vb.x1 == va.x1,
        vb.y0 == va.y0 - dy,
        vb.y1 == va.y1 - dy,
    ensures
        b.blur_feed(vb, radius, k) == a.blur_feed(va, radius, k),
    decreases k,
{
    reveal(strip_rel);
    if k > 0 {
        lemma_shift_blur_feed(a, b, dy, n, va, vb, radius, (k - 1) as nat);
        let ya = clamp_row(va.y0 - radius + (k - 1), va);
        let yb = clamp_row(vb.y0 - radius + (k - 1), vb);
        assert(ya == yb + dy);
        assert forall|i: int| 0 <= i < va.x1 - va.x0 implies #[trigger] b.strip(vb, yb)[i]
            == a.strip(va, ya)[i] by {
            assert(b.rows[yb][vb.x0 + i] == a.rows[yb + dy][vb.x0 + i]);
        }
        assert(b.strip(vb, yb) =~= a.strip(va, ya));
    }
}

/// A rectangle in the rows of a strip, blurred on the surface and on the
/// strip: the strip stays a strip of the surface, and nothing changes
/// outside the rectangle.
pub proof fn lemma_shift_blur(a: Raster, b: Raster, dy: int, n: int, r: Rect, radius: usize)
    requires
        strip_rel(a, b, dy, n),
        both_reach(a, b, r),
        in_rows(a, r, dy, n),
        !r.empty(),
    ensures
        strip_rel(a.blur_rect(r, radius), b.blur_rect(r, radius), dy, n),
        same_outside(a, a.blur_rect(r, radius), r.moved(a.viewport.origin)),
{
    lemma_strip_facts(a, b, dy, n);
    let va = a.visible(r);
    let vb = b.visible(r);
    let a1 = a.blur_rect(r, radius);
    let b1 = b.blur_rect(r, radius);
    assert(same_outside(a, a1, r.moved(a.viewport.origin))) by {
        reveal(same_outside);
    }
    if va.empty() {
        assert(vb.empty());
        assert(a1 == a && b1 == b);
    } else {
        assert(vb.x0 == va.x0 && vb.x1 == va.x1 && vb.y0 == va.y0 - dy && vb.y1 == va.y1 - dy);
        assert(Raster::blur_applies(va, radius) == Raster::blur_applies(vb, radius));
        if Raster::blur_applies(va, radius) {
            assert forall|y: int, x: int| 0 <= y < n && 0 <= x < a.size.x implies #[trigger] b1.rows[y][x]
                == a1.rows[y + dy][x] by {
                if vb.covers(x, y) {
                    lemma_shift_blur_feed(
                        a,
                        b,
                        dy,
                        n,
                        va,
                        vb,
                        radius as nat,
                        (2 * radius + (y - vb.y0) + 1) as nat,
                    );
                } else {
                    reveal(strip_rel);
                }
            }
            assert(strip_rel(a1, b1, dy, n)) by {
                reveal(strip_rel);
            }
        }
    }
}

} // verus!
