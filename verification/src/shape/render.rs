//! The renderers: one draws every shape at once on its surface, the other
//! records the shapes and later draws them strip by strip.

use vstd::prelude::*;
use static_alloc::Bump;
use without_alloc::FixedVec;
use crate::canvas::raster::{lemma_draw_bitmap_is_blit, text_calls, Raster, TextCall, TextCommand};
use crate::canvas::rgb::{BitmapRef, RgbCanvas, RgbCanvasEx};
use crate::canvas::rgb565;
use crate::display::Color;
use crate::gdc::AllocError;
use crate::geometry::{fits, Offset, Point, Rect};
use crate::shape::bar::Bar;
use crate::shape::base::Shape;
use crate::shape::blur::Blurring;
use crate::shape::circle::Circle;
use crate::shape::context::{DrawingContext, Exchange, Recorded};
use crate::shape::jpeg::JpegImage;
use crate::shape::pool::{held, new_shape_list, push_shape, room, shape_at, shape_count, ShapeHolder};
use crate::shape::snake::Snake;
use crate::shape::text::Text;
use crate::shape::toif::ToifImage;
use crate::viewport::Viewport;

verus! {

/// What every renderer offers: a viewport that can be narrowed, and one
/// entry point for shapes.
pub trait Renderer {
    /// The renderer is consistent.
    spec fn inv(&self) -> bool;

    /// The current viewport, as a specification.
    spec fn spec_viewport(&self) -> Viewport;

    /// The bounds of the surface that the renderer draws on.
    spec fn spec_bounds(&self) -> Rect;

    /// True when the renderer can take one more shape.
    spec fn has_room(&self) -> bool;

    /// True when this renderer is what `render_shape` makes of the renderer
    /// `before` and the shape `shape`.
    spec fn took(&self, before: &Self, shape: Shape) -> bool;

    /// True when the renderer can take the shape: what it would draw of it
    /// at once is representable on its surface.
    spec fn suits(&self, shape: Shape) -> bool;

    /// The current viewport.
    fn viewport(&self) -> (v: Viewport)
        requires
            self.inv(),
        ensures
            v == self.spec_viewport(),
    ;

    /// Tells whether the renderer can take no further shape.
    fn is_full(&self) -> (full: bool)
        ensures
            full == !self.has_room(),
    ;

    /// Sets the viewport; the clip is cut to the surface.
    fn set_viewport(&mut self, viewport: Viewport)
        requires
            old(self).inv(),
        ensures
            final(self).inv(),
            final(self).spec_bounds() == old(self).spec_bounds(),
            final(self).has_room() == old(self).has_room(),
            final(self).spec_viewport() == (Viewport {
                clip: old(self).spec_bounds().meet(viewport.clip),
                origin: viewport.origin,
            }),
    ;

    /// Narrows the viewport to the local rectangle `window` and moves the
    /// origin to its top-left corner. Returns the viewport as it was.
    fn set_window(&mut self, window: Rect) -> (before: Viewport)
        requires
            old(self).inv(),
            window.can_translate(old(self).spec_viewport().origin),
        ensures
            before == old(self).spec_viewport(),
            final(self).inv(),
            final(self).spec_bounds() == old(self).spec_bounds(),
            final(self).has_room() == old(self).has_room(),
            final(self).spec_viewport().clip == old(self).spec_bounds().meet(before.visible(window)),
            final(self).spec_viewport().origin.x == before.origin.x + window.x0,
            final(self).spec_viewport().origin.y == before.origin.y + window.y0,
    {
        let viewport = self.viewport();
        self.set_viewport(viewport.relative_window(window));
        viewport
    }

    /// Narrows the clip to the local rectangle `clip`. Returns the viewport
    /// as it was.
    fn set_clip(&mut self, clip: Rect) -> (before: Viewport)
        requires
            old(self).inv(),
            clip.can_translate(old(self).spec_viewport().origin),
        ensures
            before == old(self).spec_viewport(),
            final(self).inv(),
            final(self).spec_bounds() == old(self).spec_bounds(),
            final(self).has_room() == old(self).has_room(),
            final(self).spec_viewport() == (Viewport {
                clip: old(self).spec_bounds().meet(before.visible(clip)),
                origin: before.origin,
            }),
    {
        let viewport = self.viewport();
        self.set_viewport(viewport.relative_clip(clip));
        viewport
    }

    /// Tells whether the renderer can take the shape.
    fn can_take(&self, shape: &Shape) -> (ok: bool)
        requires
            self.inv(),
            shape.fits(),
        ensures
            ok == self.suits(*shape),
    ;

    /// Takes a shape: it is drawn or recorded if its bounds lie wholly
    /// inside the viewport, and dropped otherwise.
    fn render_shape(&mut self, shape: Shape)
        requires
            old(self).inv(),
            shape.fits(),
            old(self).suits(shape),
            old(self).has_room(),
        ensures
            final(self).inv(),
            final(self).spec_viewport() == old(self).spec_viewport(),
            final(self).spec_bounds() == old(self).spec_bounds(),
            final(self).took(old(self), shape),
    ;
}

/// A renderer that draws every shape at once on its surface.
pub struct DirectRenderer<C: RgbCanvasEx, D: DrawingContext> {
    /// Target surface.
    pub canvas: C,
    /// The decoders.
    pub drawing_context: Recorded<D>,
}

impl<C: RgbCanvasEx, D: DrawingContext> DirectRenderer<C, D> {
    /// The surface as it stands.
    pub open spec fn target(&self) -> Raster {
        self.canvas.model()
    }

    /// What was asked of the decoders so far, with the answers.
    pub open spec fn asked(&self) -> Seq<Exchange> {
        self.drawing_context.exchanges()
    }

    /// The shapes that were released so far, oldest first.
    pub open spec fn released(&self) -> Seq<Shape> {
        self.drawing_context.releases()
    }

    /// A renderer for `canvas`. With a background color the canvas
    /// background is filled first.
    pub fn new(canvas: C, bg_color: Option<Color>, context: D) -> (r: Self)
        requires
            canvas.model().wf(),
            bg_color.is_some() ==> canvas.model().viewport.clip.can_translate(
                canvas.model().viewport.origin,
            ),
        ensures
            r.inv(),
            r.target() == match bg_color {
                Some(c) => canvas.model().fill_rect(canvas.model().viewport.clip, c),
                None => canvas.model(),
            },
            r.drawing_context.decoders() == context,
            r.asked() == Seq::<Exchange>::empty(),
            r.released() == Seq::<Shape>::empty(),
    {
        let mut canvas = canvas;
        if let Some(color) = bg_color {
            canvas.fill_background(color);
        }
        DirectRenderer { canvas, drawing_context: Recorded::new(context) }
    }

    /// Gives the surface and the decoders back.
    pub fn finish(self) -> (r: (C, D))
        ensures
            r.0 == self.canvas,
            r.1 == self.drawing_context.decoders(),
    {
        (self.canvas, self.drawing_context.into_inner())
    }

    /// What rendering a shape makes of the surface `s` when `log` begins
    /// with what is asked of the decoders, with the exchanges that follow:
    /// the bounds are taken, and the shape is drawn if they lie wholly
    /// inside the viewport. `None` when `log` does not begin so.
    pub open spec fn direct(s: Raster, shape: Shape, log: Seq<Exchange>) -> Option<
        (Raster, Seq<Exchange>),
    > {
        match shape.measured(log) {
            Some((frame, rest)) => if s.viewport.holds(frame) {
                shape.drawn(s, rest)
            } else {
                Some((s, rest))
            },
            None => None,
        }
    }

    /// Effect of a plain shape on the surface: drawn if its bounds lie
    /// wholly inside the viewport, else nothing.
    pub open spec fn rendered(s: Raster, shape: Shape) -> Raster {
        if s.viewport.holds(shape.frame()) {
            shape.paint(s)
        } else {
            s
        }
    }
}

impl<C: RgbCanvasEx, D: DrawingContext> Renderer for DirectRenderer<C, D> {
    open spec fn inv(&self) -> bool {
        self.canvas.model().wf()
    }

    open spec fn spec_viewport(&self) -> Viewport {
        self.canvas.model().viewport
    }

    open spec fn spec_bounds(&self) -> Rect {
        self.canvas.model().bounds()
    }

    open spec fn has_room(&self) -> bool {
        true
    }

    /// A shape whose bounds lie wholly inside the viewport is drawn at
    /// once, and has to land under the viewport's origin.
    open spec fn suits(&self, shape: Shape) -> bool {
        shape.has_frame() && self.target().viewport.holds(shape.frame()) ==> shape.lands(
            self.target().viewport,
        )
    }

    /// The shape was drawn at once if its bounds lay wholly inside the
    /// viewport, and skipped otherwise; size and viewport of the surface
    /// are as they were, and the record grew by what was asked. A shape
    /// that was drawn was released after it, once; one that was skipped
    /// was not.
    open spec fn took(&self, before: &Self, shape: Shape) -> bool {
        let seg = self.asked().skip(before.asked().len() as int);
        &&& self.target().same_view(before.target())
        &&& shape.is_plain() ==> self.target() == Self::rendered(before.target(), shape)
        &&& before.asked().is_prefix_of(self.asked())
        &&& Self::direct(before.target(), shape, seg) == Some(
            (self.target(), Seq::<Exchange>::empty()),
        )
        &&& self.released() == (if before.target().viewport.holds(shape.measured(seg).unwrap().0) {
            before.released().push(shape)
        } else {
            before.released()
        })
    }

    fn viewport(&self) -> Viewport {
        self.canvas.viewport()
    }

    fn can_take(&self, shape: &Shape) -> bool {
        match shape.plain_frame() {
            Some(frame) => {
                let vp = self.canvas.viewport();
                if vp.contains(frame) {
                    shape.lands_at(vp)
                } else {
                    true
                }
            },
            None => true,
        }
    }

    fn is_full(&self) -> bool {
        false
    }

    fn set_viewport(&mut self, viewport: Viewport) {
        self.canvas.set_viewport(viewport);
    }

    /// Draws a shape at once if its bounds lie wholly inside the viewport,
    /// and releases what it held; any other shape is skipped entirely.
    fn render_shape(&mut self, shape: Shape) {
        let ghost n = self.asked().len() as int;
        let bounds = shape.bounds(&mut self.drawing_context);
        let ghost mid = self.asked();
        proof {
            assert(mid.skip(mid.len() as int) =~= Seq::<Exchange>::empty());
        }
        if self.canvas.viewport().contains(bounds) {
            shape.draw(&mut self.canvas, &mut self.drawing_context);
            shape.cleanup(&mut self.drawing_context);
        }
        proof {
            let first = mid.skip(n);
            let second = self.asked().skip(mid.len() as int);
            assert(self.asked().skip(n) =~= first + second);
            shape.lemma_measured_more(first, second);
        }
    }
}

/// The viewport of a recorded shape on a strip: cut to the strip, and
/// moved so that the strip's top-left corner is the origin of coordinates.
pub open spec fn strip_viewport(holder: Viewport, slice_r: Rect) -> Viewport {
    Viewport {
        clip: Rect {
            x0: (slice_r.meet(holder.clip).x0 - slice_r.x0) as i16,
            y0: (slice_r.meet(holder.clip).y0 - slice_r.y0) as i16,
            x1: (slice_r.meet(holder.clip).x1 - slice_r.x0) as i16,
            y1: (slice_r.meet(holder.clip).y1 - slice_r.y0) as i16,
        },
        origin: Offset {
            x: (holder.origin.x - slice_r.x0) as i16,
            y: (holder.origin.y - slice_r.y0) as i16,
        },
    }
}

/// True when a recorded shape is drawn on a strip: its bounds, moved by
/// its viewport's origin, lie wholly inside the part of its clip on the
/// strip.
pub open spec fn on_strip(holder: ShapeHolder, frame: Rect, slice_r: Rect) -> bool {
    (Viewport { clip: slice_r.meet(holder.viewport.clip), origin: holder.viewport.origin }).holds(
        frame,
    )
}

/// Effect of one recorded plain shape on a strip.
pub open spec fn strip_step(s: Raster, holder: ShapeHolder, slice_r: Rect) -> Raster {
    if on_strip(holder, holder.shape.frame(), slice_r) {
        holder.shape.paint(s.with_viewport(strip_viewport(holder.viewport, slice_r)))
    } else {
        s
    }
}

/// Effect of the recorded plain shapes from number `i` on, in their order,
/// on a strip.
pub open spec fn strip_rest(s: Raster, holders: Seq<ShapeHolder>, slice_r: Rect, i: int) -> Raster
    decreases holders.len() - i,
{
    if i < 0 || i >= holders.len() {
        s
    } else {
        strip_rest(strip_step(s, holders[i], slice_r), holders, slice_r, i + 1)
    }
}

/// The strip before the shapes are drawn on it: with a background color,
/// its viewport shows the strip's rows and these are filled; without, it
/// is as the strip before left it.
pub open spec fn strip_cleared(s: Raster, bg: Option<Color>, slice_r: Rect) -> Raster {
    match bg {
        Some(c) => {
            let v = s.with_viewport(
                Viewport::of_size(
                    Offset { x: slice_r.spec_width() as i16, y: slice_r.spec_height() as i16 },
                ),
            );
            v.fill_rect(v.viewport.clip, c)
        },
        None => s,
    }
}

/// The strip that starts at the absolute row `y`, in the local coordinates
/// of a surface with the viewport `view`: as wide as the clip, `lines` rows
/// high or as many as remain.
pub open spec fn strip_rect(view: Viewport, lines: int, y: int) -> Rect {
    Rect {
        x0: (view.clip.x0 - view.origin.x) as i16,
        y0: (y - view.origin.y) as i16,
        x1: (view.clip.x1 - view.origin.x) as i16,
        y1: (y + crate::geometry::min_int(lines, view.clip.y1 - y) - view.origin.y) as i16,
    }
}

/// Size of the strips of a surface with the viewport `view`: as wide as
/// the clip and `lines` rows high.
pub open spec fn strip_size(view: Viewport, lines: int) -> Offset {
    Offset { x: (view.clip.x1 - view.clip.x0) as i16, y: lines as i16 }
}

/// The surface `t`, whose viewport is `view`, after the strips from the
/// absolute row `y` on were rendered: each strip is cleared, takes the
/// recorded shapes that lie on it, is copied to its place, and hands its
/// text runs on; `s` is the strip as the strip before left it.
pub open spec fn render_rest(
    t: Raster,
    s: Raster,
    holders: Seq<ShapeHolder>,
    bg: Option<Color>,
    lines: int,
    view: Viewport,
    y: int,
) -> Raster
    decreases view.clip.y1 - y,
{
    if view.clip.empty() || y >= view.clip.y1 || lines <= 0 {
        t
    } else {
        let r = strip_rect(view, lines, y);
        let s1 = strip_rest(strip_cleared(s, bg, r), holders, r, 0);
        render_rest(
            forwarded(t.blit(r, s1), s1.texts, Offset { x: r.x0, y: r.y0 }, 0),
            s1.without_texts(),
            holders,
            bg,
            lines,
            view,
            y + crate::geometry::min_int(lines, view.clip.y1 - y),
        )
    }
}

/// What drawing the recorded shapes from number `i` on, in their order,
/// makes of the strip `s` when `log` begins with what they ask of the
/// decoders, with the exchanges that follow. `None` when `log` does not
/// begin so.
pub open spec fn strip_run(s: Raster, holders: Seq<ShapeHolder>, slice_r: Rect, i: int, log: Seq<Exchange>)
    -> Option<(Raster, Seq<Exchange>)>
    decreases holders.len() - i,
{
    if i < 0 || i >= holders.len() {
        Some((s, log))
    } else {
        match strip_shape(s, holders[i], slice_r, log) {
            Some((s1, rest)) => strip_run(s1, holders, slice_r, i + 1, rest),
            None => None,
        }
    }
}

/// The surface `t`, whose viewport is `view`, after the strips from the
/// absolute row `y` on were rendered, when `log` begins with what the
/// recorded shapes ask of the decoders strip after strip, with the
/// exchanges that follow: each strip is cleared, takes the recorded shapes
/// that lie on it, is copied to its place, and hands its text runs on; `s`
/// is the strip as the strip before left it. `None` when `log` does not
/// begin so.
pub open spec fn render_run(
    t: Raster,
    s: Raster,
    holders: Seq<ShapeHolder>,
    bg: Option<Color>,
    lines: int,
    view: Viewport,
    y: int,
    log: Seq<Exchange>,
) -> Option<(Raster, Seq<Exchange>)>
    decreases view.clip.y1 - y,
{
    if view.clip.empty() || y >= view.clip.y1 || lines <= 0 {
        Some((t, log))
    } else {
        let r = strip_rect(view, lines, y);
        match strip_run(strip_cleared(s, bg, r), holders, r, 0, log) {
            Some((s1, rest)) => render_run(
                forwarded(t.blit(r, s1), s1.texts, Offset { x: r.x0, y: r.y0 }, 0),
                s1.without_texts(),
                holders,
                bg,
                lines,
                view,
                y + crate::geometry::min_int(lines, view.clip.y1 - y),
                rest,
            ),
            None => None,
        }
    }
}

/// Plain shapes ask nothing: on a strip they leave the record as it is and
/// the strip as `strip_rest` states.
pub proof fn lemma_plain_strip_run(
    s: Raster,
    holders: Seq<ShapeHolder>,
    slice_r: Rect,
    i: int,
    log: Seq<Exchange>,
)
    requires
        all_plain(holders),
        0 <= i,
    ensures
        strip_run(s, holders, slice_r, i, log) == Some((strip_rest(s, holders, slice_r, i), log)),
    decreases holders.len() - i,
{
    if i < holders.len() {
        assert(holders[i].shape.is_plain());
        lemma_plain_strip_run(strip_step(s, holders[i], slice_r), holders, slice_r, i + 1, log);
    }
}

/// Plain shapes ask nothing: rendering them leaves the record as it is and
/// the surface as `render_rest` states.
pub proof fn lemma_plain_render_run(
    t: Raster,
    s: Raster,
    holders: Seq<ShapeHolder>,
    bg: Option<Color>,
    lines: int,
    view: Viewport,
    y: int,
    log: Seq<Exchange>,
)
    requires
        all_plain(holders),
    ensures
        render_run(t, s, holders, bg, lines, view, y, log) == Some(
            (render_rest(t, s, holders, bg, lines, view, y), log),
        ),
    decreases view.clip.y1 - y,
{
    if !(view.clip.empty() || y >= view.clip.y1 || lines <= 0) {
        let r = strip_rect(view, lines, y);
        lemma_plain_strip_run(strip_cleared(s, bg, r), holders, r, 0, log);
        let s1 = strip_rest(strip_cleared(s, bg, r), holders, r, 0);
        lemma_plain_render_run(
            forwarded(t.blit(r, s1), s1.texts, Offset { x: r.x0, y: r.y0 }, 0),
            s1.without_texts(),
            holders,
            bg,
            lines,
            view,
            y + crate::geometry::min_int(lines, view.clip.y1 - y),
            log,
        );
    }
}

/// One more shape on a strip: if the exchanges `seg` followed by any
/// others lead from the cleared strip to where the others lead from the
/// strip `m` and the shape number `i`, and `more` is what that shape asks,
/// then `seg` with `more` leads to the strip after that shape and the
/// shape number `i + 1`.
#[verifier::spinoff_prover]
#[verifier::rlimit(100)]
pub proof fn lemma_strip_run_step(
    cleared: Raster,
    holders: Seq<ShapeHolder>,
    slice_r: Rect,
    i: int,
    seg: Seq<Exchange>,
    m: Raster,
    more: Seq<Exchange>,
    after: Raster,
)
    requires
        0 <= i < holders.len(),
        forall|rest: Seq<Exchange>| #[trigger]
            strip_run(cleared, holders, slice_r, 0, seg + rest) == strip_run(m, holders, slice_r, i, rest),
        strip_shape(m, holders[i], slice_r, more) == Some((after, Seq::<Exchange>::empty())),
    ensures
        forall|rest: Seq<Exchange>| #[trigger]
            strip_run(cleared, holders, slice_r, 0, (seg + more) + rest) == strip_run(
                after,
                holders,
                slice_r,
                i + 1,
                rest,
            ),
{
    assert forall|rest: Seq<Exchange>| #[trigger]
        strip_run(cleared, holders, slice_r, 0, (seg + more) + rest) == strip_run(
            after,
            holders,
            slice_r,
            i + 1,
            rest,
        ) by {
        let longer = more + rest;
        assert((seg + more) + rest =~= seg + longer);
        assert(strip_run(cleared, holders, slice_r, 0, seg + longer) == strip_run(
            m,
            holders,
            slice_r,
            i,
            longer,
        ));
        lemma_strip_shape_more(m, holders[i], slice_r, more, rest);
    }
}

/// One more strip: if the exchanges `seg` followed by any others lead from
/// the start to where the others lead from the surface `t`, the strip `s`
/// and the row `y`, and `more` is what the shapes ask on the strip at that
/// row, which they leave as `drawn`, then `seg` with `more` leads to the
/// surface and the strip after it and the row of the next strip.
pub proof fn lemma_render_run_step(
    start: Raster,
    blank: Raster,
    holders: Seq<ShapeHolder>,
    bg: Option<Color>,
    lines: int,
    view: Viewport,
    y0: int,
    seg: Seq<Exchange>,
    t: Raster,
    s: Raster,
    y: int,
    more: Seq<Exchange>,
    drawn: Raster,
)
    requires
        !view.clip.empty(),
        y < view.clip.y1,
        lines > 0,
        forall|rest: Seq<Exchange>| #[trigger]
            render_run(start, blank, holders, bg, lines, view, y0, seg + rest) == render_run(
                t,
                s,
                holders,
                bg,
                lines,
                view,
                y,
                rest,
            ),
        forall|rest: Seq<Exchange>| #[trigger]
            strip_run(
                strip_cleared(s, bg, strip_rect(view, lines, y)),
                holders,
                strip_rect(view, lines, y),
                0,
                more + rest,
            ) == Some((drawn, rest)),
    ensures
        forall|rest: Seq<Exchange>| #[trigger]
            render_run(start, blank, holders, bg, lines, view, y0, (seg + more) + rest) == render_run(
                forwarded(
                    t.blit(strip_rect(view, lines, y), drawn),
                    drawn.texts,
                    Offset { x: strip_rect(view, lines, y).x0, y: strip_rect(view, lines, y).y0 },
                    0,
                ),
                drawn.without_texts(),
                holders,
                bg,
                lines,
                view,
                y + crate::geometry::min_int(lines, view.clip.y1 - y),
                rest,
            ),
{
    let r = strip_rect(view, lines, y);
    assert forall|rest: Seq<Exchange>| #[trigger]
        render_run(start, blank, holders, bg, lines, view, y0, (seg + more) + rest) == render_run(
            forwarded(t.blit(r, drawn), drawn.texts, Offset { x: r.x0, y: r.y0 }, 0),
            drawn.without_texts(),
            holders,
            bg,
            lines,
            view,
            y + crate::geometry::min_int(lines, view.clip.y1 - y),
            rest,
        ) by {
        let longer = more + rest;
        assert((seg + more) + rest =~= seg + longer);
        assert(render_run(start, blank, holders, bg, lines, view, y0, seg + longer) == render_run(
            t,
            s,
            holders,
            bg,
            lines,
            view,
            y,
            longer,
        ));
        assert(strip_run(strip_cleared(s, bg, r), holders, r, 0, more + rest) == Some((drawn, rest)));
    }
}

/// True when the bounds of every recorded shape need no decoder.
pub open spec fn all_framed(holders: Seq<ShapeHolder>) -> bool {
    forall|i: int| 0 <= i < holders.len() ==> (#[trigger] holders[i]).shape.has_frame()
}

/// The shapes that are released on a strip, from the holder number `i` on
/// and in the order of the holders: those that lie on the strip. `holders`
/// are shapes whose bounds need no decoder.
pub open spec fn strip_released(holders: Seq<ShapeHolder>, slice_r: Rect, i: int) -> Seq<Shape>
    decreases holders.len() - i,
{
    if i < 0 || i >= holders.len() {
        Seq::empty()
    } else if on_strip(holders[i], holders[i].shape.frame(), slice_r) {
        seq![holders[i].shape] + strip_released(holders, slice_r, i + 1)
    } else {
        strip_released(holders, slice_r, i + 1)
    }
}

/// The shapes that are released while the strips from the absolute row `y`
/// on are rendered, strip after strip.
pub open spec fn render_released(holders: Seq<ShapeHolder>, lines: int, view: Viewport, y: int) -> Seq<
    Shape,
>
    decreases view.clip.y1 - y,
{
    if view.clip.empty() || y >= view.clip.y1 || lines <= 0 {
        Seq::empty()
    } else {
        strip_released(holders, strip_rect(view, lines, y), 0) + render_released(
            holders,
            lines,
            view,
            y + crate::geometry::min_int(lines, view.clip.y1 - y),
        )
    }
}

/// The shapes that are released on a strip, from the holder number `i`
/// on and in the order of the holders, when `log` begins with what the
/// shapes ask of the decoders: those that lie on the strip, a JPEG image
/// by the size that the decoder told.
pub open spec fn strip_freed(
    s: Raster,
    holders: Seq<ShapeHolder>,
    slice_r: Rect,
    i: int,
    log: Seq<Exchange>,
) -> Seq<Shape>
    decreases holders.len() - i,
{
    if i < 0 || i >= holders.len() {
        Seq::empty()
    } else {
        match holders[i].shape.measured(log) {
            Some((frame, _)) => match strip_shape(s, holders[i], slice_r, log) {
                Some((s1, rest)) => freed_here(holders[i], frame, slice_r) + strip_freed(
                    s1,
                    holders,
                    slice_r,
                    i + 1,
                    rest,
                ),
                None => Seq::empty(),
            },
            None => Seq::empty(),
        }
    }
}

/// The shape of a holder if it lies on a strip with the bounds `frame`,
/// as a list of one; else the empty list.
pub open spec fn freed_here(holder: ShapeHolder, frame: Rect, slice_r: Rect) -> Seq<Shape> {
    if on_strip(holder, frame, slice_r) {
        seq![holder.shape]
    } else {
        Seq::empty()
    }
}

/// The shapes that are released while the strips from the absolute row `y`
/// on are rendered, strip after strip, when `log` begins with what the
/// shapes ask of the decoders.
pub open spec fn render_freed(
    t: Raster,
    s: Raster,
    holders: Seq<ShapeHolder>,
    bg: Option<Color>,
    lines: int,
    view: Viewport,
    y: int,
    log: Seq<Exchange>,
) -> Seq<Shape>
    decreases view.clip.y1 - y,
{
    if view.clip.empty() || y >= view.clip.y1 || lines <= 0 {
        Seq::empty()
    } else {
        let r = strip_rect(view, lines, y);
        match strip_run(strip_cleared(s, bg, r), holders, r, 0, log) {
            Some((s1, rest)) => strip_freed(strip_cleared(s, bg, r), holders, r, 0, log)
                + render_freed(
                forwarded(t.blit(r, s1), s1.texts, Offset { x: r.x0, y: r.y0 }, 0),
                s1.without_texts(),
                holders,
                bg,
                lines,
                view,
                y + crate::geometry::min_int(lines, view.clip.y1 - y),
                rest,
            ),
            None => Seq::empty(),
        }
    }
}

/// One more shape on a strip, for the releases: if `gone` with what the
/// others release from the strip `m` and the shape number `i` on is what
/// `before` with the releases on the whole strip is, then so is `gone`
/// with the shape number `i`, if it lies on the strip, and what the
/// others release after it.
pub proof fn lemma_strip_freed_step(
    cleared: Raster,
    holders: Seq<ShapeHolder>,
    slice_r: Rect,
    i: int,
    seg: Seq<Exchange>,
    m: Raster,
    more: Seq<Exchange>,
    after: Raster,
    before: Seq<Shape>,
    gone: Seq<Shape>,
)
    requires
        0 <= i < holders.len(),
        forall|rest: Seq<Exchange>|
            before + #[trigger] strip_freed(cleared, holders, slice_r, 0, seg + rest) == gone
                + strip_freed(m, holders, slice_r, i, rest),
        strip_shape(m, holders[i], slice_r, more) == Some((after, Seq::<Exchange>::empty())),
    ensures
        forall|rest: Seq<Exchange>|
            before + #[trigger] strip_freed(cleared, holders, slice_r, 0, (seg + more) + rest) == (
            gone + freed_here(holders[i], holders[i].shape.measured(more).unwrap().0, slice_r))
                + strip_freed(after, holders, slice_r, i + 1, rest),
{
    let here = freed_here(holders[i], holders[i].shape.measured(more).unwrap().0, slice_r);
    assert forall|rest: Seq<Exchange>|
        before + #[trigger] strip_freed(cleared, holders, slice_r, 0, (seg + more) + rest) == (gone
            + here) + strip_freed(after, holders, slice_r, i + 1, rest) by {
        let longer = more + rest;
        assert((seg + more) + rest =~= seg + longer);
        assert(before + strip_freed(cleared, holders, slice_r, 0, seg + longer) == gone
            + strip_freed(m, holders, slice_r, i, longer));
        holders[i].shape.lemma_measured_first(more, rest);
        lemma_strip_shape_more(m, holders[i], slice_r, more, rest);
        let tail = strip_freed(after, holders, slice_r, i + 1, rest);
        assert(strip_freed(m, holders, slice_r, i, longer) == here + tail);
        assert(gone + (here + tail) =~= (gone + here) + tail);
    }
}

/// One more strip, for the releases: if `gone` with what is released from
/// the surface `t`, the strip `s` and the row `y` on is what `before` with
/// the releases of the whole pass is, and `more` is what the shapes ask on
/// the strip at that row, which releases `here`, then so is `gone` with
/// `here` and what is released from the next strip on.
pub proof fn lemma_render_freed_step(
    start: Raster,
    blank: Raster,
    holders: Seq<ShapeHolder>,
    bg: Option<Color>,
    lines: int,
    view: Viewport,
    y0: int,
    seg: Seq<Exchange>,
    t: Raster,
    s: Raster,
    y: int,
    more: Seq<Exchange>,
    drawn: Raster,
    before: Seq<Shape>,
    gone: Seq<Shape>,
    here: Seq<Shape>,
)
    requires
        !view.clip.empty(),
        y < view.clip.y1,
        lines > 0,
        forall|rest: Seq<Exchange>|
            before + #[trigger] render_freed(start, blank, holders, bg, lines, view, y0, seg + rest)
                == gone + render_freed(t, s, holders, bg, lines, view, y, rest),
        forall|rest: Seq<Exchange>| #[trigger]
            strip_run(
                strip_cleared(s, bg, strip_rect(view, lines, y)),
                holders,
                strip_rect(view, lines, y),
                0,
                more + rest,
            ) == Some((drawn, rest)),
        forall|rest: Seq<Exchange>| #[trigger]
            strip_freed(
                strip_cleared(s, bg, strip_rect(view, lines, y)),
                holders,
                strip_rect(view, lines, y),
                0,
                more + rest,
            ) == here,
    ensures
        forall|rest: Seq<Exchange>|
            before + #[trigger] render_freed(
                start,
                blank,
                holders,
                bg,
                lines,
                view,
                y0,
                (seg + more) + rest,
            ) == (gone + here) + render_freed(
                forwarded(
                    t.blit(strip_rect(view, lines, y), drawn),
                    drawn.texts,
                    Offset { x: strip_rect(view, lines, y).x0, y: strip_rect(view, lines, y).y0 },
                    0,
                ),
                drawn.without_texts(),
                holders,
                bg,
                lines,
                view,
                y + crate::geometry::min_int(lines, view.clip.y1 - y),
                rest,
            ),
{
    let r = strip_rect(view, lines, y);
    let c = strip_cleared(s, bg, r);
    assert forall|rest: Seq<Exchange>|
        before + #[trigger] render_freed(start, blank, holders, bg, lines, view, y0, (seg + more) + rest)
            == (gone + here) + render_freed(
            forwarded(t.blit(r, drawn), drawn.texts, Offset { x: r.x0, y: r.y0 }, 0),
            drawn.without_texts(),
            holders,
            bg,
            lines,
            view,
            y + crate::geometry::min_int(lines, view.clip.y1 - y),
            rest,
        ) by {
        let longer = more + rest;
        assert((seg + more) + rest =~= seg + longer);
        assert(before + render_freed(start, blank, holders, bg, lines, view, y0, seg + longer) == gone
            + render_freed(t, s, holders, bg, lines, view, y, longer));
        assert(strip_run(c, holders, r, 0, more + rest) == Some((drawn, rest)));
        assert(strip_freed(c, holders, r, 0, more + rest) == here);
        let tail = render_freed(
            forwarded(t.blit(r, drawn), drawn.texts, Offset { x: r.x0, y: r.y0 }, 0),
            drawn.without_texts(),
            holders,
            bg,
            lines,
            view,
            y + crate::geometry::min_int(lines, view.clip.y1 - y),
            rest,
        );
        assert(render_freed(t, s, holders, bg, lines, view, y, longer) == here + tail);
        assert(gone + (here + tail) =~= (gone + here) + tail);
    }
}

/// The shapes of a list whose bounds need no decoder are released as
/// `strip_released` says, whatever the decoders answer in drawing them.
pub proof fn lemma_framed_strip_freed(
    s: Raster,
    holders: Seq<ShapeHolder>,
    slice_r: Rect,
    i: int,
    log: Seq<Exchange>,
)
    requires
        all_framed(holders),
        0 <= i,
        strip_run(s, holders, slice_r, i, log).is_some(),
    ensures
        strip_freed(s, holders, slice_r, i, log) == strip_released(holders, slice_r, i),
    decreases holders.len() - i,
{
    if i < holders.len() {
        assert(holders[i].shape.has_frame());
        let step = strip_shape(s, holders[i], slice_r, log).unwrap();
        lemma_framed_strip_freed(step.0, holders, slice_r, i + 1, step.1);
        let tail = strip_released(holders, slice_r, i + 1);
        if !on_strip(holders[i], holders[i].shape.frame(), slice_r) {
            assert(Seq::<Shape>::empty() + tail =~= tail);
        }
    }
}

/// The shapes of a list whose bounds need no decoder are released as
/// `render_released` says, whatever the decoders answer in drawing them.
pub proof fn lemma_framed_render_freed(
    t: Raster,
    s: Raster,
    holders: Seq<ShapeHolder>,
    bg: Option<Color>,
    lines: int,
    view: Viewport,
    y: int,
    log: Seq<Exchange>,
)
    requires
        all_framed(holders),
        render_run(t, s, holders, bg, lines, view, y, log).is_some(),
    ensures
        render_freed(t, s, holders, bg, lines, view, y, log) == render_released(
            holders,
            lines,
            view,
            y,
        ),
    decreases view.clip.y1 - y,
{
    if !(view.clip.empty() || y >= view.clip.y1 || lines <= 0) {
        let r = strip_rect(view, lines, y);
        let c = strip_cleared(s, bg, r);
        let step = strip_run(c, holders, r, 0, log).unwrap();
        lemma_framed_strip_freed(c, holders, r, 0, log);
        lemma_framed_render_freed(
            forwarded(t.blit(r, step.0), step.0.texts, Offset { x: r.x0, y: r.y0 }, 0),
            step.0.without_texts(),
            holders,
            bg,
            lines,
            view,
            y + crate::geometry::min_int(lines, view.clip.y1 - y),
            step.1,
        );
    }
}

/// A shape lies on one strip at most: two strips that a shape lies on
/// share a row. So a shape that is released on a strip is released on no
/// strip below it nor above it.
pub proof fn lemma_on_one_strip_at_most(holder: ShapeHolder, frame: Rect, first: Rect, second: Rect)
    requires
        on_strip(holder, frame, first),
        on_strip(holder, frame, second),
    ensures
        first.y0 < second.y1,
        second.y0 < first.y1,
{
}

/// A shape is released once at most in a render pass: a shape that lies on
/// the strip at the row `y`, where it is drawn and released, lies on no
/// strip below that one.
pub proof fn lemma_released_once(
    holder: ShapeHolder,
    frame: Rect,
    view: Viewport,
    lines: int,
    y: int,
    later: int,
)
    requires
        lines > 0,
        view.clip.y0 <= y < view.clip.y1,
        y + crate::geometry::min_int(lines, view.clip.y1 - y) <= later < view.clip.y1,
        fits(view.clip.y0 - view.origin.y),
        fits(view.clip.y1 - view.origin.y),
        on_strip(holder, frame, strip_rect(view, lines, y)),
    ensures
        !on_strip(holder, frame, strip_rect(view, lines, later)),
{
    if on_strip(holder, frame, strip_rect(view, lines, later)) {
        lemma_on_one_strip_at_most(
            holder,
            frame,
            strip_rect(view, lines, y),
            strip_rect(view, lines, later),
        );
    }
}

/// Where no shape from the holder number `i` on lies on a strip, none is
/// released on it.
pub proof fn lemma_nothing_released_off_strip(holders: Seq<ShapeHolder>, slice_r: Rect, i: int)
    requires
        0 <= i,
        forall|k: int|
            i <= k < holders.len() ==> !on_strip(
                #[trigger] holders[k],
                holders[k].shape.frame(),
                slice_r,
            ),
    ensures
        strip_released(holders, slice_r, i) == Seq::<Shape>::empty(),
    decreases holders.len() - i,
{
    if i < holders.len() {
        assert(!on_strip(holders[i], holders[i].shape.frame(), slice_r));
        lemma_nothing_released_off_strip(holders, slice_r, i + 1);
    }
}

/// On one strip, a shape that does not lie on it counts for nothing among
/// the others: from any holder on, the strip becomes what it becomes
/// without that shape in the list, and the same shapes are released.
pub proof fn lemma_strip_without_shape(
    s: Raster,
    holders: Seq<ShapeHolder>,
    slice_r: Rect,
    i: int,
    j: int,
)
    requires
        0 <= i < holders.len(),
        0 <= j <= holders.len(),
        !on_strip(holders[i], holders[i].shape.frame(), slice_r),
    ensures
        strip_rest(s, holders, slice_r, j) == strip_rest(
            s,
            holders.remove(i),
            slice_r,
            if j <= i {
                j
            } else {
                j - 1
            },
        ),
        strip_released(holders, slice_r, j) == strip_released(
            holders.remove(i),
            slice_r,
            if j <= i {
                j
            } else {
                j - 1
            },
        ),
    decreases holders.len() - j,
{
    let fewer = holders.remove(i);
    if j >= holders.len() {
    } else if j == i {
        lemma_strip_without_shape(s, holders, slice_r, i, j + 1);
    } else if j < i {
        assert(fewer[j] == holders[j]);
        lemma_strip_without_shape(strip_step(s, holders[j], slice_r), holders, slice_r, i, j + 1);
    } else {
        assert(fewer[j - 1] == holders[j]);
        lemma_strip_without_shape(strip_step(s, holders[j], slice_r), holders, slice_r, i, j + 1);
    }
}

/// A recorded shape that lies on no strip of a render pass counts for
/// nothing among the others: it is never drawn and never released. The
/// surface becomes what it becomes without that shape in the list, and the
/// shapes that are released are the same, each as often.
pub proof fn lemma_shape_on_no_strip_counts_for_nothing(
    t: Raster,
    s: Raster,
    holders: Seq<ShapeHolder>,
    bg: Option<Color>,
    lines: int,
    view: Viewport,
    y: int,
    i: int,
)
    requires
        0 <= i < holders.len(),
        forall|row: int|
            !on_strip(holders[i], holders[i].shape.frame(), #[trigger] strip_rect(view, lines, row)),
    ensures
        render_rest(t, s, holders, bg, lines, view, y) == render_rest(
            t,
            s,
            holders.remove(i),
            bg,
            lines,
            view,
            y,
        ),
        render_released(holders, lines, view, y) == render_released(
            holders.remove(i),
            lines,
            view,
            y,
        ),
    decreases view.clip.y1 - y,
{
    if !(view.clip.empty() || y >= view.clip.y1 || lines <= 0) {
        let r = strip_rect(view, lines, y);
        assert(!on_strip(holders[i], holders[i].shape.frame(), r));
        lemma_strip_without_shape(strip_cleared(s, bg, r), holders, r, i, 0);
        let s1 = strip_rest(strip_cleared(s, bg, r), holders, r, 0);
        lemma_shape_on_no_strip_counts_for_nothing(
            forwarded(t.blit(r, s1), s1.texts, Offset { x: r.x0, y: r.y0 }, 0),
            s1.without_texts(),
            holders,
            bg,
            lines,
            view,
            y + crate::geometry::min_int(lines, view.clip.y1 - y),
            i,
        );
    }
}

/// True when every recorded shape is drawn without a decoder.
pub open spec fn all_plain(holders: Seq<ShapeHolder>) -> bool {
    forall|i: int| 0 <= i < holders.len() ==> (#[trigger] holders[i]).shape.is_plain()
}

/// A recorded shape that does not lie on a strip is not drawn on it: the
/// strip stays as it is.
pub proof fn lemma_shape_off_strip_is_not_drawn(s: Raster, holder: ShapeHolder, slice_r: Rect)
    requires
        !on_strip(holder, holder.shape.frame(), slice_r),
    ensures
        strip_step(s, holder, slice_r) == s,
{
}

/// A shape whose bounds are not wholly inside one strip lies on no strip
/// that is lower than the bounds: rendering in such strips leaves it out.
pub proof fn lemma_tall_shape_is_on_no_strip(holder: ShapeHolder, slice_r: Rect)
    requires
        holder.shape.frame().spec_height() > slice_r.spec_height(),
        holder.shape.frame().can_translate(holder.viewport.origin),
    ensures
        !on_strip(holder, holder.shape.frame(), slice_r),
{
}

/// True when a holder can be drawn later: its shape is supported and its
/// own numbers can be computed.
pub open spec fn holder_ok(h: ShapeHolder) -> bool {
    h.shape.fits()
}

/// True when a recorded shape can be drawn on a strip if it lies on it:
/// the origin of its viewport on the strip is representable, and the
/// shape lands under that origin. Of a JPEG image, whose bounds only the
/// decoder tells, the origin is asked wherever its viewport shows part of
/// the strip.
pub open spec fn strip_suits(holder: ShapeHolder, slice_r: Rect) -> bool {
    let reachable = fits(holder.viewport.origin.x - slice_r.x0) && fits(
        holder.viewport.origin.y - slice_r.y0,
    );
    if holder.shape.has_frame() {
        on_strip(holder, holder.shape.frame(), slice_r) ==> reachable && holder.shape.lands(
            strip_viewport(holder.viewport, slice_r),
        )
    } else {
        !slice_r.meet(holder.viewport.clip).empty() ==> reachable
    }
}

/// Tells whether a recorded shape can be drawn on a strip if it lies on
/// it.
pub fn holder_suits(holder: &ShapeHolder, slice_r: Rect) -> (ok: bool)
    requires
        holder_ok(*holder),
        0 < slice_r.x1 - slice_r.x0 <= i16::MAX,
        0 < slice_r.y1 - slice_r.y0 <= i16::MAX,
    ensures
        ok == strip_suits(*holder, slice_r),
{
    let part = slice_r.intersect(holder.viewport.clip);
    let ox: i32 = holder.viewport.origin.x as i32 - slice_r.x0 as i32;
    let oy: i32 = holder.viewport.origin.y as i32 - slice_r.y0 as i32;
    let reachable = crate::geometry::is_16_bit(ox) && crate::geometry::is_16_bit(oy);
    match holder.shape.plain_frame() {
        Some(frame) => {
            let on = (Viewport { clip: part, origin: holder.viewport.origin }).contains(frame);
            if on {
                if reachable {
                    holder.shape.lands_at(
                        Viewport {
                            clip: Rect {
                                x0: part.x0 - slice_r.x0,
                                y0: part.y0 - slice_r.y0,
                                x1: part.x1 - slice_r.x0,
                                y1: part.y1 - slice_r.y0,
                            },
                            origin: Offset { x: ox as i16, y: oy as i16 },
                        },
                    )
                } else {
                    false
                }
            } else {
                true
            }
        },
        None => part.is_empty() || reachable,
    }
}

/// True when every recorded shape can be drawn on every strip that it lies
/// on, of the strips of a render pass from the absolute row `y` on.
pub open spec fn strips_suit(holders: Seq<ShapeHolder>, view: Viewport, lines: int, y: int) -> bool
    decreases view.clip.y1 - y,
{
    if view.clip.empty() || y >= view.clip.y1 || lines <= 0 {
        true
    } else {
        &&& forall|i: int|
            0 <= i < holders.len() ==> strip_suits(
                #[trigger] holders[i],
                strip_rect(view, lines, y),
            )
        &&& strips_suit(
            holders,
            view,
            lines,
            y + crate::geometry::min_int(lines, view.clip.y1 - y),
        )
    }
}

/// What drawing one recorded shape makes of the strip `s` when `log`
/// begins with what is asked of the decoders, with the exchanges that
/// follow: the bounds are taken, and a shape that lies on the strip is
/// drawn with its viewport on the strip. `None` when `log` does not begin
/// so.
pub open spec fn strip_shape(s: Raster, holder: ShapeHolder, slice_r: Rect, log: Seq<Exchange>) -> Option<
    (Raster, Seq<Exchange>),
> {
    match holder.shape.measured(log) {
        Some((frame, rest)) => if on_strip(holder, frame, slice_r) {
            holder.shape.drawn(s.with_viewport(strip_viewport(holder.viewport, slice_r)), rest)
        } else {
            Some((s, rest))
        },
        None => None,
    }
}

/// Exchanges that follow the drawing of a recorded shape are left over.
pub proof fn lemma_strip_shape_more(
    s: Raster,
    holder: ShapeHolder,
    slice_r: Rect,
    log: Seq<Exchange>,
    rest: Seq<Exchange>,
)
    requires
        strip_shape(s, holder, slice_r, log) matches Some(end) && end.1.len() == 0,
    ensures
        strip_shape(s, holder, slice_r, log + rest) == Some(
            (strip_shape(s, holder, slice_r, log).unwrap().0, rest),
        ),
{
    let m = holder.shape.measured(log).unwrap();
    if holder.shape is JpegImage {
        assert((log + rest)[0] == log[0]);
        assert((log + rest).skip(1) =~= log.skip(1) + rest);
    } else {
        assert(m.1 == log);
    }
    assert(holder.shape.measured(log + rest) == Some((m.0, m.1 + rest)));
    if on_strip(holder, m.0, slice_r) {
        holder.shape.lemma_drawn_more(
            s.with_viewport(strip_viewport(holder.viewport, slice_r)),
            m.1,
            rest,
        );
    } else {
        assert(m.1 + rest =~= rest);
    }
}

/// Draws one recorded shape on a strip if it lies on it, and releases it
/// then: a shape lies wholly on the strip that it is drawn on, so that no
/// later strip will show it.
pub fn draw_holder<D: DrawingContext>(
    slice: &mut rgb565::Canvas,
    context: &mut Recorded<D>,
    holder: &ShapeHolder,
    slice_r: Rect,
)
    requires
        old(slice).model().wf(),
        holder_ok(*holder),
        strip_suits(*holder, slice_r),
        0 < slice_r.x1 - slice_r.x0 <= i16::MAX,
        0 < slice_r.y1 - slice_r.y0 <= i16::MAX,
    ensures
        final(slice).model().wf(),
        final(slice).model().size == old(slice).model().size,
        holder.shape.is_plain() ==> final(slice).model() == strip_step(
            old(slice).model(),
            *holder,
            slice_r,
        ),
        old(context).exchanges().is_prefix_of(final(context).exchanges()),
        strip_shape(
            old(slice).model(),
            *holder,
            slice_r,
            final(context).exchanges().skip(old(context).exchanges().len() as int),
        ) == Some((final(slice).model(), Seq::<Exchange>::empty())),
        final(context).releases() == (if on_strip(
            *holder,
            holder.shape.measured(
                final(context).exchanges().skip(old(context).exchanges().len() as int),
            ).unwrap().0,
            slice_r,
        ) {
            old(context).releases().push(holder.shape)
        } else {
            old(context).releases()
        }),
{
    let ghost n = context.exchanges().len() as int;
    assert(strip_viewport(holder.viewport, slice_r).clip == Rect {
        x0: (slice_r.meet(holder.viewport.clip).x0 - slice_r.x0) as i16,
        y0: (slice_r.meet(holder.viewport.clip).y0 - slice_r.y0) as i16,
        x1: (slice_r.meet(holder.viewport.clip).x1 - slice_r.x0) as i16,
        y1: (slice_r.meet(holder.viewport.clip).y1 - slice_r.y0) as i16,
    });
    let shape_viewport = holder.viewport.absolute_clip(slice_r);
    let shape_bounds = holder.shape.bounds(context);
    let ghost mid = context.exchanges();
    if shape_viewport.contains(shape_bounds) {
        let local = Viewport {
            clip: Rect {
                x0: shape_viewport.clip.x0 - slice_r.x0,
                y0: shape_viewport.clip.y0 - slice_r.y0,
                x1: shape_viewport.clip.x1 - slice_r.x0,
                y1: shape_viewport.clip.y1 - slice_r.y0,
            },
            origin: Offset {
                x: shape_viewport.origin.x - slice_r.x0,
                y: shape_viewport.origin.y - slice_r.y0,
            },
        };
        slice.set_viewport(local);
        holder.shape.draw(slice, context);
        if shape_bounds.y1 as i32 + shape_viewport.origin.y as i32 <= shape_viewport.clip.y1 as i32 {
            holder.shape.cleanup(context);
        }
    }
    proof {
        let first = mid.skip(n);
        let second = context.exchanges().skip(mid.len() as int);
        assert(mid.skip(mid.len() as int) =~= Seq::<Exchange>::empty());
        assert(context.exchanges().skip(n) =~= first + second);
        holder.shape.lemma_measured_more(first, second);
    }
}

/// True when the text run `cmd` of a strip whose top-left corner lies at
/// the local position `tl` can be handed on to a surface whose viewport has
/// the origin `origin`: its box, moved by `tl`, is representable and can be
/// placed.
pub open spec fn can_forward(origin: Offset, cmd: TextCall, tl: Offset) -> bool {
    &&& cmd.rect.can_translate(tl)
    &&& cmd.rect.moved(tl).can_translate(origin)
    &&& fits(cmd.rect.moved(tl).spec_width())
    &&& fits(cmd.rect.moved(tl).spec_height())
    &&& fits(cmd.attr.offset.x + cmd.rect.moved(tl).spec_width())
    &&& fits(cmd.attr.offset.y + cmd.rect.moved(tl).spec_height())
}

/// The surface after the text runs of a strip from number `i` on were
/// handed on to it, each moved by `tl`; a run that cannot be handed on is
/// dropped.
pub open spec fn forwarded(t: Raster, cmds: Seq<TextCall>, tl: Offset, i: int) -> Raster
    decreases cmds.len() - i,
{
    if i < 0 || i >= cmds.len() {
        t
    } else if can_forward(t.viewport.origin, cmds[i], tl) {
        forwarded(
            t.draw_text(cmds[i].rect.moved(tl), cmds[i].text, cmds[i].attr, cmds[i].blended),
            cmds,
            tl,
            i + 1,
        )
    } else {
        forwarded(t, cmds, tl, i + 1)
    }
}

/// Tells whether a text box with the attribute offset `offset` can be
/// placed on a surface whose viewport has the given origin.
pub fn can_place_text(origin: Offset, r: Rect, offset: Offset) -> (ok: bool)
    ensures
        ok == (r.can_translate(origin) && fits(r.spec_width()) && fits(r.spec_height()) && fits(
            offset.x + r.spec_width(),
        ) && fits(offset.y + r.spec_height())),
{
    let lo: i32 = -32768;
    let hi: i32 = 32767;
    let w: i32 = r.x1 as i32 - r.x0 as i32;
    let h: i32 = r.y1 as i32 - r.y0 as i32;
    let ox: i32 = origin.x as i32;
    let oy: i32 = origin.y as i32;
    lo <= r.x0 as i32 + ox && r.x0 as i32 + ox <= hi && lo <= r.x1 as i32 + ox && r.x1 as i32 + ox
        <= hi && lo <= r.y0 as i32 + oy && r.y0 as i32 + oy <= hi && lo <= r.y1 as i32 + oy
        && r.y1 as i32 + oy <= hi && lo <= w && w <= hi && lo <= h && h <= hi && lo
        <= offset.x as i32 + w && offset.x as i32 + w <= hi && lo <= offset.y as i32 + h
        && offset.y as i32 + h <= hi
}

/// Hands the text runs of a strip on to the surface behind it, each moved
/// to the strip's place. A run that cannot be placed within 16-bit
/// coordinates is dropped.
pub fn forward_texts<C: RgbCanvas>(
    canvas: &mut C,
    texts: &Vec<TextCommand>,
    slice_r: Rect,
    strip: &BitmapRef,
)
    requires
        old(canvas).model().wf(),
        strip.bitmap.wf(),
    ensures
        final(canvas).model().wf(),
        final(canvas).model().same_view(old(canvas).model()),
        final(canvas).model().rows == old(canvas).model().rows,
        final(canvas).model() == forwarded(
            old(canvas).model(),
            text_calls(texts@),
            Offset { x: slice_r.x0, y: slice_r.y0 },
            0,
        ),
{
    let n = texts.len();
    let ghost cmds = text_calls(texts@);
    let ghost tl = Offset { x: slice_r.x0, y: slice_r.y0 };
    let offset = slice_r.top_left().to_offset();
    let origin = canvas.viewport().origin;
    let mut i: usize = 0;
    while i < n
        invariant
            i <= n,
            n == texts@.len(),
            canvas.model().wf(),
            canvas.model().same_view(old(canvas).model()),
            canvas.model().rows == old(canvas).model().rows,
            origin == canvas.model().viewport.origin,
            offset == (Offset { x: slice_r.x0, y: slice_r.y0 }),
            cmds == text_calls(texts@),
            tl == offset,
            forwarded(canvas.model(), cmds, tl, i as int) == forwarded(
                old(canvas).model(),
                cmds,
                tl,
                0,
            ),
        decreases n - i,
    {
        let cmd = &texts[i];
        proof {
            assert(cmds[i as int] == texts@[i as int]@);
        }
        let x0: i32 = cmd.rect.x0 as i32 + offset.x as i32;
        let y0: i32 = cmd.rect.y0 as i32 + offset.y as i32;
        let x1: i32 = cmd.rect.x1 as i32 + offset.x as i32;
        let y1: i32 = cmd.rect.y1 as i32 + offset.y as i32;
        if -32768 <= x0 && x0 <= 32767 && -32768 <= y0 && y0 <= 32767 && -32768 <= x1 && x1 <= 32767
            && -32768 <= y1 && y1 <= 32767 {
            let r = cmd.rect.translate(offset);
            if can_place_text(origin, r, cmd.attr.offset) {
                if cmd.blended {
                    canvas.draw_blended_text(r, cmd.text.as_str(), &cmd.attr, strip);
                } else {
                    canvas.draw_opaque_text(r, cmd.text.as_str(), &cmd.attr);
                }
            }
        }
        i += 1;
    }
}

/// A renderer that records the shapes and later draws them strip by
/// strip, so that only one strip of pixels is held at a time.
pub struct ProgressiveRenderer<'p, C: RgbCanvas, D: DrawingContext> {
    /// Target surface.
    pub canvas: C,
    /// The recorded shapes, in the order in which they are painted.
    pub shapes: FixedVec<'p, ShapeHolder>,
    /// The current viewport.
    pub viewport: Viewport,
    /// Background color of every strip.
    pub bg_color: Option<Color>,
    /// The decoders.
    pub drawing_context: Recorded<D>,
}

impl<'p, C: RgbCanvas, D: DrawingContext> ProgressiveRenderer<'p, C, D> {
    /// The surface as it stands.
    pub open spec fn target(&self) -> Raster {
        self.canvas.model()
    }

    /// The recorded shapes, oldest first.
    pub open spec fn recorded(&self) -> Seq<ShapeHolder> {
        held(self.shapes)
    }

    /// The number of shapes that can be recorded.
    pub open spec fn capacity(&self) -> nat {
        room(self.shapes)
    }

    /// What was asked of the decoders so far, with the answers.
    pub open spec fn asked(&self) -> Seq<Exchange> {
        self.drawing_context.exchanges()
    }

    /// The shapes that were released so far, oldest first.
    pub open spec fn released(&self) -> Seq<Shape> {
        self.drawing_context.releases()
    }

    /// A renderer for `canvas` that records up to `max_shapes` shapes in a
    /// list carved from `pool`; `None` when the pool cannot hold the list.
    /// A renderer that records nothing takes nothing from the pool and is
    /// always had. The viewport is that of the canvas.
    pub fn new<T>(
        canvas: C,
        bg_color: Option<Color>,
        context: D,
        pool: &'p Bump<T>,
        max_shapes: usize,
    ) -> (r: Option<Self>)
        requires
            canvas.model().wf(),
        ensures
            r matches Some(p) ==> p.inv() && p.target() == canvas.model() && p.recorded().len()
                == 0 && p.capacity() == max_shapes && p.viewport == canvas.model().viewport
                && p.bg_color == bg_color && p.drawing_context.decoders() == context && p.asked()
                == Seq::<Exchange>::empty() && p.released() == Seq::<Shape>::empty(),
            max_shapes == 0 ==> r.is_some(),
    {
        Self::around(canvas, bg_color, context, new_shape_list(pool, max_shapes))
    }

    /// The renderer around the empty list that the pool gave: `None` where
    /// it gave none, else a renderer for `canvas` that records in that
    /// list.
    pub fn around(
        canvas: C,
        bg_color: Option<Color>,
        context: D,
        list: Option<FixedVec<'p, ShapeHolder>>,
    ) -> (r: Option<Self>)
        requires
            canvas.model().wf(),
            list matches Some(l) ==> held(l).len() == 0,
        ensures
            r.is_some() == list.is_some(),
            r matches Some(p) ==> p.inv() && p.target() == canvas.model() && list == Some(p.shapes)
                && p.viewport == canvas.model().viewport && p.bg_color == bg_color
                && p.drawing_context.decoders() == context && p.asked() == Seq::<Exchange>::empty()
                && p.released() == Seq::<Shape>::empty(),
    {
        let viewport = canvas.viewport();
        match list {
            Some(shapes) => Some(
                ProgressiveRenderer {
                    canvas,
                    shapes,
                    viewport,
                    bg_color,
                    drawing_context: Recorded::new(context),
                },
            ),
            None => None,
        }
    }

    /// Gives the surface and the decoders back.
    pub fn finish(self) -> (r: (C, D))
        ensures
            r.0 == self.canvas,
            r.1 == self.drawing_context.decoders(),
    {
        (self.canvas, self.drawing_context.into_inner())
    }

    /// The number of recorded shapes.
    pub fn len(&self) -> (n: usize)
        ensures
            n == self.recorded().len(),
    {
        shape_count(&self.shapes)
    }

    /// Records a shape with the current viewport if its bounds lie wholly
    /// inside the viewport; any other shape is dropped. The bounds of a
    /// JPEG image are those for the size that the decoder tells.
    pub fn record(&mut self, shape: Shape) -> (taken: bool)
        requires
            old(self).inv(),
            shape.fits(),
            old(self).has_room(),
        ensures
            final(self).inv(),
            final(self).target() == old(self).target(),
            final(self).viewport == old(self).viewport,
            final(self).bg_color == old(self).bg_color,
            final(self).capacity() == old(self).capacity(),
            taken ==> final(self).recorded() == old(self).recorded().push(
                ShapeHolder { shape, viewport: old(self).viewport },
            ),
            !taken ==> final(self).recorded() == old(self).recorded(),
            shape.has_frame() ==> taken == old(self).viewport.holds(shape.frame()),
            old(self).asked().is_prefix_of(final(self).asked()),
            shape.measured(final(self).asked().skip(old(self).asked().len() as int)) matches Some(end)
                && end.1.len() == 0 && taken == old(self).viewport.holds(end.0),
            final(self).released() == old(self).released(),
    {
        let bounds = shape.bounds(&mut self.drawing_context);
        if self.viewport.contains(bounds) {
            let holder = ShapeHolder { shape, viewport: self.viewport };
            let rejected = push_shape(&mut self.shapes, holder);
            true
        } else {
            false
        }
    }

    /// True when the recorded shapes can be rendered in strips of `lines`
    /// rows: the number of rows is a positive 16-bit number, the clip is
    /// representable in the local coordinates of the surface, and every
    /// recorded shape can be drawn on every strip that it lies on.
    pub open spec fn renders(&self, lines: usize) -> bool {
        &&& 0 < lines <= i16::MAX
        &&& fits(self.target().viewport.clip.x0 - self.target().viewport.origin.x)
        &&& fits(self.target().viewport.clip.x1 - self.target().viewport.origin.x)
        &&& fits(self.target().viewport.clip.y0 - self.target().viewport.origin.y)
        &&& fits(self.target().viewport.clip.y1 - self.target().viewport.origin.y)
        &&& strips_suit(
            self.recorded(),
            self.target().viewport,
            lines as int,
            self.target().viewport.clip.y0 as int,
        )
    }

    /// Tells whether the recorded shapes can be rendered in strips of
    /// `lines` rows.
    pub fn can_render(&self, lines: usize) -> (ok: bool)
        requires
            self.inv(),
        ensures
            ok == self.renders(lines),
    {
        if lines == 0 || lines > 32767 {
            return false;
        }
        let clip = self.canvas.viewport().clip;
        let origin = self.canvas.viewport().origin;
        if !(crate::geometry::is_16_bit(clip.x0 as i32 - origin.x as i32)
            && crate::geometry::is_16_bit(clip.x1 as i32 - origin.x as i32)
            && crate::geometry::is_16_bit(clip.y0 as i32 - origin.y as i32)
            && crate::geometry::is_16_bit(clip.y1 as i32 - origin.y as i32)) {
            return false;
        }
        if clip.is_empty() {
            return true;
        }
        let ghost holders = self.recorded();
        let ghost view = self.target().viewport;
        let step: i16 = lines as i16;
        let count = shape_count(&self.shapes);
        let mut y: i16 = clip.y0;
        while y < clip.y1
            invariant
                self.inv(),
                holders == self.recorded(),
                view == self.target().viewport,
                clip == view.clip,
                origin == view.origin,
                !clip.empty(),
                count == holders.len(),
                0 < step,
                step == lines,
                clip.y0 <= y,
                fits(clip.x0 - origin.x),
                fits(clip.x1 - origin.x),
                fits(clip.y0 - origin.y),
                fits(clip.y1 - origin.y),
                strips_suit(holders, view, lines as int, clip.y0 as int) == strips_suit(
                    holders,
                    view,
                    lines as int,
                    y as int,
                ),
            decreases clip.y1 - y,
        {
            let rest: i16 = clip.y1 - y;
            let rows: i16 = if rest < step {
                rest
            } else {
                step
            };
            let slice_r = Rect {
                x0: clip.x0 - origin.x,
                y0: y - origin.y,
                x1: clip.x1 - origin.x,
                y1: y + rows - origin.y,
            };
            proof {
                assert(slice_r == strip_rect(view, lines as int, y as int));
            }
            let mut i: usize = 0;
            while i < count
                invariant
                    i <= count,
                    self.inv(),
                    holders == self.recorded(),
                    count == holders.len(),
                    forall|k: int| 0 <= k < i ==> strip_suits(#[trigger] holders[k], slice_r),
                    slice_r == strip_rect(view, lines as int, y as int),
                    0 < slice_r.x1 - slice_r.x0 <= i16::MAX,
                    0 < slice_r.y1 - slice_r.y0 <= i16::MAX,
                    view == self.target().viewport,
                    clip == view.clip,
                    !clip.empty(),
                    y < clip.y1,
                    0 < lines,
                    strips_suit(holders, view, lines as int, clip.y0 as int) == strips_suit(
                        holders,
                        view,
                        lines as int,
                        y as int,
                    ),
                decreases count - i,
            {
                let holder = shape_at(&self.shapes, i);
                if !holder_suits(holder, slice_r) {
                    proof {
                        assert(!strip_suits(holders[i as int], slice_r));
                        assert(!strips_suit(holders, view, lines as int, y as int));
                    }
                    return false;
                }
                i += 1;
            }
            y = y + rows;
        }
        true
    }

    /// Draws the recorded shapes onto the surface, strip by strip of
    /// `lines` rows from the top of the surface's clip down; the last strip
    /// is cut to the rows that remain. Every strip is cleared to the
    /// background color, if there is one, takes the shapes that lie on it in
    /// the order in which they were recorded, and is then copied to its
    /// place on the surface. The text runs of a strip are handed on to the
    /// surface. Images are drawn from what the decoders answer, and the
    /// record grows by what was asked of them. With an empty clip there is
    /// nothing to draw and the pass succeeds; else the strip is asked for,
    /// and where its backing store cannot be had, nothing is drawn and
    /// nothing asked.
    pub fn render(&mut self, lines: usize) -> (r: Result<(), AllocError>)
        requires
            old(self).inv(),
            old(self).renders(lines),
        ensures
            old(self).target().viewport.clip.empty() ==> r.is_ok(),
            final(self).inv(),
            final(self).target().same_view(old(self).target()),
            final(self).recorded() == old(self).recorded(),
            final(self).viewport == old(self).viewport,
            final(self).bg_color == old(self).bg_color,
            final(self).capacity() == old(self).capacity(),
            r matches Err(e) ==> e == AllocError::OutOfMemory && final(self).target() == old(self).target()
                && final(self).asked() == old(self).asked()
                && final(self).released() == old(self).released(),
            r.is_ok() ==> final(self).released() == old(self).released() + render_freed(
                old(self).target(),
                Raster::blank(strip_size(old(self).target().viewport, lines as int)),
                old(self).recorded(),
                old(self).bg_color,
                lines as int,
                old(self).target().viewport,
                old(self).target().viewport.clip.y0 as int,
                final(self).asked().skip(old(self).asked().len() as int),
            ),
            r.is_ok() && all_framed(old(self).recorded()) ==> final(self).released()
                == old(self).released() + render_released(
                old(self).recorded(),
                lines as int,
                old(self).target().viewport,
                old(self).target().viewport.clip.y0 as int,
            ),
            old(self).asked().is_prefix_of(final(self).asked()),
            r.is_ok() ==> render_run(
                old(self).target(),
                Raster::blank(strip_size(old(self).target().viewport, lines as int)),
                old(self).recorded(),
                old(self).bg_color,
                lines as int,
                old(self).target().viewport,
                old(self).target().viewport.clip.y0 as int,
                final(self).asked().skip(old(self).asked().len() as int),
            ) == Some((final(self).target(), Seq::<Exchange>::empty())),
            r.is_ok() && all_plain(old(self).recorded()) ==> final(self).target() == render_rest(
                old(self).target(),
                Raster::blank(strip_size(old(self).target().viewport, lines as int)),
                old(self).recorded(),
                old(self).bg_color,
                lines as int,
                old(self).target().viewport,
                old(self).target().viewport.clip.y0 as int,
            ),
    {
        let canvas_clip = self.canvas.viewport().clip;
        let strip = if canvas_clip.is_empty() {
            Err(AllocError::InvalidSize)
        } else {
            rgb565::Canvas::new(Offset::new(canvas_clip.width(), lines as i16))
        };
        self.render_on(lines, strip)
    }

    /// Draws the recorded shapes onto the surface, strip by strip of
    /// `lines` rows from the top of the surface's clip down; the last strip
    /// is cut to the rows that remain. Every strip is cleared to the
    /// background color, if there is one, takes the shapes that lie on it in
    /// the order in which they were recorded, and is then copied to its
    /// place on the surface. The text runs of a strip are handed on to the
    /// surface. Images are drawn from what the decoders answer, and the
    /// record grows by what was asked of them. `strip` is the blank strip
    /// that was asked for, or the refusal: with an empty clip there is
    /// nothing to draw and the pass succeeds without a strip; else it
    /// succeeds exactly when the strip was had, and where it was refused
    /// nothing is drawn and nothing asked.
    #[verifier::spinoff_prover]
    #[verifier::rlimit(100)]
    pub fn render_on(&mut self, lines: usize, strip: Result<rgb565::Canvas, AllocError>) -> (r: Result<
        (),
        AllocError,
    >)
        requires
            old(self).inv(),
            old(self).renders(lines),
            strip matches Ok(s) ==> s.model() == Raster::blank(
                strip_size(old(self).target().viewport, lines as int),
            ) && s.model().wf(),
        ensures
            r.is_ok() == (old(self).target().viewport.clip.empty() || strip.is_ok()),
            final(self).inv(),
            final(self).target().same_view(old(self).target()),
            final(self).recorded() == old(self).recorded(),
            final(self).viewport == old(self).viewport,
            final(self).bg_color == old(self).bg_color,
            final(self).capacity() == old(self).capacity(),
            r matches Err(e) ==> e == AllocError::OutOfMemory && final(self).target() == old(self).target()
                && final(self).asked() == old(self).asked()
                && final(self).released() == old(self).released(),
            r.is_ok() ==> final(self).released() == old(self).released() + render_freed(
                old(self).target(),
                Raster::blank(strip_size(old(self).target().viewport, lines as int)),
                old(self).recorded(),
                old(self).bg_color,
                lines as int,
                old(self).target().viewport,
                old(self).target().viewport.clip.y0 as int,
                final(self).asked().skip(old(self).asked().len() as int),
            ),
            r.is_ok() && all_framed(old(self).recorded()) ==> final(self).released()
                == old(self).released() + render_released(
                old(self).recorded(),
                lines as int,
                old(self).target().viewport,
                old(self).target().viewport.clip.y0 as int,
            ),
            old(self).asked().is_prefix_of(final(self).asked()),
            r.is_ok() ==> render_run(
                old(self).target(),
                Raster::blank(strip_size(old(self).target().viewport, lines as int)),
                old(self).recorded(),
                old(self).bg_color,
                lines as int,
                old(self).target().viewport,
                old(self).target().viewport.clip.y0 as int,
                final(self).asked().skip(old(self).asked().len() as int),
            ) == Some((final(self).target(), Seq::<Exchange>::empty())),
            r.is_ok() && all_plain(old(self).recorded()) ==> final(self).target() == render_rest(
                old(self).target(),
                Raster::blank(strip_size(old(self).target().viewport, lines as int)),
                old(self).recorded(),
                old(self).bg_color,
                lines as int,
                old(self).target().viewport,
                old(self).target().viewport.clip.y0 as int,
            ),
    {
        let canvas_clip = self.canvas.viewport().clip;
        let canvas_origin = self.canvas.viewport().origin;
        let ghost holders = self.recorded();
        let ghost bg = self.bg_color;
        let ghost start = self.target();
        let ghost view = self.target().viewport;
        let ghost asked = self.asked();
        let ghost freed = self.released();
        let ghost seg: Seq<Exchange> = Seq::empty();
        proof {
            assert(asked.skip(asked.len() as int) =~= seg);
            assert(asked + seg =~= asked);
            assert(freed + Seq::<Shape>::empty() =~= freed);
        }
        if canvas_clip.is_empty() {
            return Ok(());
        }
        let step: i16 = lines as i16;
        let width: i16 = canvas_clip.width();
        let mut slice = match strip {
            Ok(s) => s,
            Err(_) => {
                return Err(AllocError::OutOfMemory);
            },
        };
        let ghost blank = slice.model();
        let count = shape_count(&self.shapes);
        let mut y: i16 = canvas_clip.y0;
        proof {
            assert forall|rest: Seq<Exchange>| #[trigger]
                render_run(
                    start,
                    blank,
                    holders,
                    bg,
                    lines as int,
                    view,
                    canvas_clip.y0 as int,
                    seg + rest,
                ) == render_run(
                    self.target(),
                    slice.model(),
                    holders,
                    bg,
                    lines as int,
                    view,
                    y as int,
                    rest,
                ) by {
                assert(seg + rest =~= rest);
            }
            assert forall|rest: Seq<Exchange>|
                freed + #[trigger] render_freed(
                    start,
                    blank,
                    holders,
                    bg,
                    lines as int,
                    view,
                    canvas_clip.y0 as int,
                    seg + rest,
                ) == self.released() + render_freed(
                    self.target(),
                    slice.model(),
                    holders,
                    bg,
                    lines as int,
                    view,
                    y as int,
                    rest,
                ) by {
                assert(seg + rest =~= rest);
            }
        }
        while y < canvas_clip.y1
            invariant
                self.inv(),
                self.target().same_view(old(self).target()),
                self.recorded() == holders,
                self.viewport == old(self).viewport,
                self.bg_color == bg,
                self.capacity() == old(self).capacity(),
                count == holders.len(),
                view == self.target().viewport,
                start.viewport == view,
                canvas_clip == view.clip,
                canvas_origin == view.origin,
                !canvas_clip.empty(),
                width == canvas_clip.spec_width(),
                strips_suit(holders, view, lines as int, y as int),
                fits(canvas_clip.x0 - canvas_origin.x),
                fits(canvas_clip.x1 - canvas_origin.x),
                fits(canvas_clip.y0 - canvas_origin.y),
                fits(canvas_clip.y1 - canvas_origin.y),
                0 < step,
                step == lines,
                canvas_clip.y0 <= y,
                slice.model().wf(),
                slice.model().size == (Offset { x: width, y: step }),
                slice.model().texts.len() == 0,
                self.asked() == asked + seg,
                forall|rest: Seq<Exchange>|
                    freed + #[trigger] render_freed(
                        start,
                        blank,
                        holders,
                        bg,
                        lines as int,
                        view,
                        canvas_clip.y0 as int,
                        seg + rest,
                    ) == self.released() + render_freed(
                        self.target(),
                        slice.model(),
                        holders,
                        bg,
                        lines as int,
                        view,
                        y as int,
                        rest,
                    ),
                forall|rest: Seq<Exchange>| #[trigger]
                    render_run(
                        start,
                        blank,
                        holders,
                        bg,
                        lines as int,
                        view,
                        canvas_clip.y0 as int,
                        seg + rest,
                    ) == render_run(
                        self.target(),
                        slice.model(),
                        holders,
                        bg,
                        lines as int,
                        view,
                        y as int,
                        rest,
                    ),
            decreases canvas_clip.y1 - y,
        {
            let rest: i16 = canvas_clip.y1 - y;
            let rows: i16 = if rest < step {
                rest
            } else {
                step
            };
            // The strip in the surface's local coordinates.
            let slice_r = Rect {
                x0: canvas_clip.x0 - canvas_origin.x,
                y0: y - canvas_origin.y,
                x1: canvas_clip.x1 - canvas_origin.x,
                y1: y + rows - canvas_origin.y,
            };
            let ghost t_before = self.target();
            let ghost s_before = slice.model();
            proof {
                assert(slice_r == strip_rect(view, lines as int, y as int));
            }
            if let Some(color) = self.bg_color {
                slice.set_viewport(Viewport::from_size(slice_r.size()));
                slice.fill_background(color);
            }
            let ghost s_cleared = slice.model();
            proof {
                assert(s_cleared == strip_cleared(s_before, bg, slice_r));
            }
            let ghost more: Seq<Exchange> = Seq::empty();
            let ghost freed_before = self.released();
            proof {
                assert((asked + seg) + more =~= asked + seg);
                assert forall|rest: Seq<Exchange>| #[trigger]
                    strip_run(s_cleared, holders, slice_r, 0, more + rest) == strip_run(
                        slice.model(),
                        holders,
                        slice_r,
                        0,
                        rest,
                    ) by {
                    assert(more + rest =~= rest);
                }
                assert forall|rest: Seq<Exchange>|
                    freed_before + #[trigger] strip_freed(
                        s_cleared,
                        holders,
                        slice_r,
                        0,
                        more + rest,
                    ) == self.released() + strip_freed(slice.model(), holders, slice_r, 0, rest) by {
                    assert(more + rest =~= rest);
                }
            }
            let mut i: usize = 0;
            while i < count
                invariant
                    i <= count,
                    self.asked() == (asked + seg) + more,
                    forall|rest: Seq<Exchange>|
                        freed_before + #[trigger] strip_freed(
                            s_cleared,
                            holders,
                            slice_r,
                            0,
                            more + rest,
                        ) == self.released() + strip_freed(
                            slice.model(),
                            holders,
                            slice_r,
                            i as int,
                            rest,
                        ),
                    forall|rest: Seq<Exchange>| #[trigger]
                        strip_run(s_cleared, holders, slice_r, 0, more + rest) == strip_run(
                            slice.model(),
                            holders,
                            slice_r,
                            i as int,
                            rest,
                        ),
                    self.inv(),
                    self.target().same_view(old(self).target()),
                    self.target() == t_before,
                    self.recorded() == holders,
                    self.viewport == old(self).viewport,
                    self.bg_color == bg,
                    self.capacity() == old(self).capacity(),
                    count == holders.len(),
                    view == self.target().viewport,
                    0 < slice_r.x1 - slice_r.x0 <= i16::MAX,
                    0 < slice_r.y1 - slice_r.y0 <= i16::MAX,
                    forall|k: int|
                        0 <= k < holders.len() ==> strip_suits(#[trigger] holders[k], slice_r),
                    slice.model().wf(),
                    slice.model().size == (Offset { x: width, y: step }),
                decreases count - i,
            {
                let holder = shape_at(&self.shapes, i);
                let ghost m = slice.model();
                let ghost known = self.asked();
                let ghost gone = self.released();
                draw_holder(&mut slice, &mut self.drawing_context, holder, slice_r);
                proof {
                    let added = self.asked().skip(known.len() as int);
                    lemma_strip_freed_step(
                        s_cleared,
                        holders,
                        slice_r,
                        i as int,
                        more,
                        m,
                        added,
                        slice.model(),
                        freed_before,
                        gone,
                    );
                    assert(self.released() =~= gone + freed_here(
                        *holder,
                        holder.shape.measured(added).unwrap().0,
                        slice_r,
                    ));
                    lemma_strip_run_step(
                        s_cleared,
                        holders,
                        slice_r,
                        i as int,
                        more,
                        m,
                        added,
                        slice.model(),
                    );
                    assert(self.asked() =~= known + added);
                    assert((asked + seg) + (more + added) =~= ((asked + seg) + more) + added);
                    more = more + added;
                }
                i += 1;
            }
            let ghost s_drawn = slice.model();
            proof {
                let whole = self.released();
                let here = whole.skip(freed_before.len() as int);
                assert forall|rest: Seq<Exchange>| #[trigger]
                    strip_freed(
                        strip_cleared(s_before, bg, strip_rect(view, lines as int, y as int)),
                        holders,
                        strip_rect(view, lines as int, y as int),
                        0,
                        more + rest,
                    ) == here by {
                    let part = strip_freed(s_cleared, holders, slice_r, 0, more + rest);
                    assert(freed_before + part == whole + strip_freed(
                        s_drawn,
                        holders,
                        slice_r,
                        count as int,
                        rest,
                    ));
                    assert(whole + Seq::<Shape>::empty() =~= whole);
                    assert((freed_before + part).skip(freed_before.len() as int) =~= part);
                }
                assert(freed_before + here =~= whole) by {
                    let none = Seq::<Exchange>::empty();
                    let part = strip_freed(s_cleared, holders, slice_r, 0, more + none);
                    assert(freed_before + part == whole + strip_freed(
                        s_drawn,
                        holders,
                        slice_r,
                        count as int,
                        none,
                    ));
                    assert(whole + Seq::<Shape>::empty() =~= whole);
                    assert((freed_before + part).skip(freed_before.len() as int) =~= part);
                }
                lemma_render_freed_step(
                    start,
                    blank,
                    holders,
                    bg,
                    lines as int,
                    view,
                    canvas_clip.y0 as int,
                    seg,
                    t_before,
                    s_before,
                    y as int,
                    more,
                    s_drawn,
                    freed,
                    freed_before,
                    here,
                );
                assert forall|rest: Seq<Exchange>| #[trigger]
                    strip_run(
                        strip_cleared(s_before, bg, strip_rect(view, lines as int, y as int)),
                        holders,
                        strip_rect(view, lines as int, y as int),
                        0,
                        more + rest,
                    ) == Some((s_drawn, rest)) by {
                    assert(strip_run(s_cleared, holders, slice_r, 0, more + rest) == strip_run(
                        s_drawn,
                        holders,
                        slice_r,
                        count as int,
                        rest,
                    ));
                }
                lemma_render_run_step(
                    start,
                    blank,
                    holders,
                    bg,
                    lines as int,
                    view,
                    canvas_clip.y0 as int,
                    seg,
                    t_before,
                    s_before,
                    y as int,
                    more,
                    s_drawn,
                );
                assert(asked + (seg + more) =~= (asked + seg) + more);
                seg = seg + more;
            }
            let texts = slice.take_texts();
            let strip = slice.bitmap();
            let ghost t_mid = self.target();
            self.canvas.draw_bitmap(slice_r, &strip);
            proof {
                lemma_draw_bitmap_is_blit(t_mid, slice_r, strip, s_drawn.without_texts());
                assert(t_mid.blit(slice_r, s_drawn.without_texts()) == t_before.blit(
                    slice_r,
                    s_drawn,
                ));
            }
            forward_texts(&mut self.canvas, &texts, slice_r, &strip);
            proof {
                assert(self.target() == forwarded(
                    t_before.blit(slice_r, s_drawn),
                    s_drawn.texts,
                    Offset { x: slice_r.x0, y: slice_r.y0 },
                    0,
                ));
                assert(slice.model() == s_drawn.without_texts());
            }
            y = y + rows;
        }
        proof {
            assert(seg + Seq::<Exchange>::empty() =~= seg);
            assert(self.asked().skip(asked.len() as int) =~= seg);
            assert(self.released() + Seq::<Shape>::empty() =~= self.released());
            if all_framed(holders) {
                lemma_framed_render_freed(
                    start,
                    blank,
                    holders,
                    bg,
                    lines as int,
                    view,
                    canvas_clip.y0 as int,
                    seg,
                );
            }
            if all_plain(holders) {
                lemma_plain_render_run(
                    start,
                    blank,
                    holders,
                    bg,
                    lines as int,
                    view,
                    canvas_clip.y0 as int,
                    seg,
                );
            }
        }
        Ok(())
    }
}

impl<'p, C: RgbCanvas, D: DrawingContext> Renderer for ProgressiveRenderer<'p, C, D> {
    open spec fn inv(&self) -> bool {
        &&& self.canvas.model().wf()
        &&& held(self.shapes).len() <= room(self.shapes)
        &&& forall|i: int| 0 <= i < held(self.shapes).len() ==> holder_ok(#[trigger] held(self.shapes)[i])
    }

    open spec fn spec_viewport(&self) -> Viewport {
        self.viewport
    }

    open spec fn spec_bounds(&self) -> Rect {
        self.canvas.model().bounds()
    }

    open spec fn has_room(&self) -> bool {
        held(self.shapes).len() < room(self.shapes)
    }

    /// Every shape can be recorded: nothing is drawn yet.
    open spec fn suits(&self, shape: Shape) -> bool {
        true
    }

    /// The shape was recorded with the viewport of the moment if its
    /// bounds lay wholly inside that viewport, and dropped otherwise;
    /// nothing was drawn. A JPEG image was asked for its size, which gave
    /// its bounds; no other shape asked anything.
    open spec fn took(&self, before: &Self, shape: Shape) -> bool {
        &&& self.target() == before.target()
        &&& self.viewport == before.viewport
        &&& self.bg_color == before.bg_color
        &&& self.capacity() == before.capacity()
        &&& self.released() == before.released()
        &&& before.asked().is_prefix_of(self.asked())
        &&& shape.measured(self.asked().skip(before.asked().len() as int)) matches Some(end)
            && end.1.len() == 0 && self.recorded() == (if before.viewport.holds(end.0) {
            before.recorded().push(ShapeHolder { shape, viewport: before.viewport })
        } else {
            before.recorded()
        })
    }

    fn viewport(&self) -> Viewport {
        self.viewport
    }

    fn can_take(&self, shape: &Shape) -> bool {
        true
    }

    fn is_full(&self) -> bool {
        shape_count(&self.shapes) >= crate::shape::pool::shape_room(&self.shapes)
    }

    fn set_viewport(&mut self, viewport: Viewport) {
        self.viewport = viewport.absolute_clip(self.canvas.bounds());
    }

    fn render_shape(&mut self, shape: Shape) {
        let taken = self.record(shape);
    }
}

impl Bar {
    /// Hands the bar to a renderer, which takes it as `render_shape` takes any
    /// shape.
    pub fn render<R: Renderer>(self, renderer: &mut R)
        requires
            old(renderer).inv(),
            old(renderer).has_room(),
            self.fits(),
            old(renderer).suits(Shape::Bar(self)),
        ensures
            final(renderer).inv(),
            final(renderer).spec_viewport() == old(renderer).spec_viewport(),
            final(renderer).spec_bounds() == old(renderer).spec_bounds(),
            final(renderer).took(old(renderer), Shape::Bar(self)),
    {
        renderer.render_shape(Shape::Bar(self));
    }
}

impl Circle {
    /// Hands the circle to a renderer, which takes it as `render_shape` takes any
    /// shape.
    pub fn render<R: Renderer>(self, renderer: &mut R)
        requires
            old(renderer).inv(),
            old(renderer).has_room(),
            self.fits(),
            old(renderer).suits(Shape::Circle(self)),
        ensures
            final(renderer).inv(),
            final(renderer).spec_viewport() == old(renderer).spec_viewport(),
            final(renderer).spec_bounds() == old(renderer).spec_bounds(),
            final(renderer).took(old(renderer), Shape::Circle(self)),
    {
        renderer.render_shape(Shape::Circle(self));
    }
}

impl Text {
    /// Hands the text to a renderer, which takes it as `render_shape` takes any
    /// shape.
    pub fn render<R: Renderer>(self, renderer: &mut R)
        requires
            old(renderer).inv(),
            old(renderer).has_room(),
            self.fits(),
            old(renderer).suits(Shape::Text(self)),
        ensures
            final(renderer).inv(),
            final(renderer).spec_viewport() == old(renderer).spec_viewport(),
            final(renderer).spec_bounds() == old(renderer).spec_bounds(),
            final(renderer).took(old(renderer), Shape::Text(self)),
    {
        renderer.render_shape(Shape::Text(self));
    }
}

impl Blurring {
    /// Hands the region to a renderer, which takes it as `render_shape` takes any
    /// shape.
    pub fn render<R: Renderer>(self, renderer: &mut R)
        requires
            old(renderer).inv(),
            old(renderer).has_room(),
            old(renderer).suits(Shape::Blurring(self)),
        ensures
            final(renderer).inv(),
            final(renderer).spec_viewport() == old(renderer).spec_viewport(),
            final(renderer).spec_bounds() == old(renderer).spec_bounds(),
            final(renderer).took(old(renderer), Shape::Blurring(self)),
    {
        renderer.render_shape(Shape::Blurring(self));
    }
}

impl Snake {
    /// Hands the snake to a renderer, which takes it as `render_shape` takes any
    /// shape.
    pub fn render<R: Renderer>(self, renderer: &mut R)
        requires
            old(renderer).inv(),
            old(renderer).has_room(),
            self.fits(),
            old(renderer).suits(Shape::Snake(self)),
        ensures
            final(renderer).inv(),
            final(renderer).spec_viewport() == old(renderer).spec_viewport(),
            final(renderer).spec_bounds() == old(renderer).spec_bounds(),
            final(renderer).took(old(renderer), Shape::Snake(self)),
    {
        renderer.render_shape(Shape::Snake(self));
    }
}

impl ToifImage {
    /// Hands the image to a renderer, which takes it as `render_shape` takes any
    /// shape.
    pub fn render<R: Renderer>(self, renderer: &mut R)
        requires
            old(renderer).inv(),
            old(renderer).has_room(),
            self.fits(),
            old(renderer).suits(Shape::ToifImage(self)),
        ensures
            final(renderer).inv(),
            final(renderer).spec_viewport() == old(renderer).spec_viewport(),
            final(renderer).spec_bounds() == old(renderer).spec_bounds(),
            final(renderer).took(old(renderer), Shape::ToifImage(self)),
    {
        renderer.render_shape(Shape::ToifImage(self));
    }
}

impl JpegImage {
    /// Hands the image to a renderer, which takes it as `render_shape` takes any
    /// shape.
    pub fn render<R: Renderer>(self, renderer: &mut R)
        requires
            old(renderer).inv(),
            old(renderer).has_room(),
            old(renderer).suits(Shape::JpegImage(self)),
        ensures
            final(renderer).inv(),
            final(renderer).spec_viewport() == old(renderer).spec_viewport(),
            final(renderer).spec_bounds() == old(renderer).spec_bounds(),
            final(renderer).took(old(renderer), Shape::JpegImage(self)),
    {
        renderer.render_shape(Shape::JpegImage(self));
    }
}

} // verus!
