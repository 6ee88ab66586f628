//! The model of a color surface: a grid of RGB565 colors, a viewport and
//! the list of text runs handed to the text provider, with the effect of
//! every drawing primitive as a function on that model.

use vstd::prelude::*;
use crate::canvas::bluralgo::{BlurState, MAX_RADIUS, MAX_WIDTH};
use crate::display::Color;
use crate::gdc::{GdcBitmapRef, GdcTextAttr};
use crate::geometry::{fits, Offset, Point, Rect};
use crate::viewport::Viewport;

verus! {

/// A run of text handed to the text provider, as a value.
pub struct TextCall {
    /// Visible part of the text box, in absolute coordinates.
    pub rect: Rect,
    pub text: Seq<char>,
    /// Attributes; the offset tells how much of the box was cut off at the
    /// top-left.
    pub attr: GdcTextAttr,
    /// True when the glyphs are blended over what the surface holds, false
    /// when they are drawn on the background color of the attributes.
    pub blended: bool,
}

/// A run of text handed to the text provider.
pub struct TextCommand {
    pub rect: Rect,
    pub text: String,
    pub attr: GdcTextAttr,
    pub blended: bool,
}

impl View for TextCommand {
    type V = TextCall;

    open spec fn view(&self) -> TextCall {
        TextCall { rect: self.rect, text: self.text@, attr: self.attr, blended: self.blended }
    }
}

/// The text runs of a list of commands.
pub open spec fn text_calls(v: Seq<TextCommand>) -> Seq<TextCall> {
    Seq::new(v.len(), |i: int| v[i]@)
}

/// What is painted on the pixels of a rectangle.
#[derive(Copy, Clone)]
pub enum Paint<'a> {
    /// A solid color.
    Fill(Color),
    /// A color blended over the pixel with a weight out of 255.
    Blend(Color, u8),
    /// A bitmap drawn opaquely; the point is where its pixel at the drawing
    /// offset lands.
    Copy(GdcBitmapRef<'a>, Point),
    /// A foreground bitmap blended over a background bitmap.
    Over(GdcBitmapRef<'a>, GdcBitmapRef<'a>, Point),
    /// A bitmap blended over the pixel.
    Mask(GdcBitmapRef<'a>, Point),
}

/// Source coordinate for the absolute coordinate `v`, given where the
/// source is anchored and its drawing offset.
pub open spec fn source_coord(v: int, anchor: int, offset: int) -> int {
    v - anchor + offset
}

impl<'a> Paint<'a> {
    /// All bitmaps of the paint are consistent.
    pub open spec fn wf(self) -> bool {
        match self {
            Paint::Fill(_) => true,
            Paint::Blend(_, _) => true,
            Paint::Copy(b, _) => b.bitmap.wf(),
            Paint::Over(f, b, _) => f.bitmap.wf() && b.bitmap.wf(),
            Paint::Mask(b, _) => b.bitmap.wf(),
        }
    }

    /// The color of the pixel `(x, y)` after painting, given its color
    /// before. A bitmap leaves the pixels that it does not reach as they
    /// are.
    pub open spec fn result(self, x: int, y: int, before: Color) -> Color {
        match self {
            Paint::Fill(c) => c,
            Paint::Blend(c, a) => before.blended(c, a),
            Paint::Copy(b, at) => {
                let sx = source_coord(x, at.x as int, b.offset.x as int);
                let sy = source_coord(y, at.y as int, b.offset.y as int);
                if b.bitmap.has(sx, sy) {
                    b.opaque(sx, sy)
                } else {
                    before
                }
            },
            Paint::Over(f, b, at) => {
                let fx = source_coord(x, at.x as int, f.offset.x as int);
                let fy = source_coord(y, at.y as int, f.offset.y as int);
                let bx = source_coord(x, at.x as int, b.offset.x as int);
                let by = source_coord(y, at.y as int, b.offset.y as int);
                if f.bitmap.has(fx, fy) && b.bitmap.has(bx, by) {
                    b.opaque(bx, by).blended(f.ink(fx, fy), f.bitmap.source_alpha(fx, fy))
                } else {
                    before
                }
            },
            Paint::Mask(b, at) => {
                let sx = source_coord(x, at.x as int, b.offset.x as int);
                let sy = source_coord(y, at.y as int, b.offset.y as int);
                if b.bitmap.has(sx, sy) {
                    before.blended(b.ink(sx, sy), b.bitmap.source_alpha(sx, sy))
                } else {
                    before
                }
            },
        }
    }

    /// Computes the color of the pixel `(x, y)` after painting.
    pub fn apply(&self, x: i16, y: i16, before: Color) -> (c: Color)
        requires
            self.wf(),
        ensures
            c == self.result(x as int, y as int, before),
    {
        match self {
            Paint::Fill(c) => *c,
            Paint::Blend(c, a) => before.blend(*c, *a),
            Paint::Copy(b, at) => {
                match locate(b, x, y, *at) {
                    Some((sx, sy)) => {
                        let (ink, a) = b.sample(sx, sy);
                        b.bg_color.blend(ink, a)
                    },
                    None => before,
                }
            },
            Paint::Over(f, b, at) => {
                match locate(f, x, y, *at) {
                    Some((fx, fy)) => {
                        match locate(b, x, y, *at) {
                            Some((bx, by)) => {
                                let (ink, a) = f.sample(fx, fy);
                                let (bink, ba) = b.sample(bx, by);
                                b.bg_color.blend(bink, ba).blend(ink, a)
                            },
                            None => before,
                        }
                    },
                    None => before,
                }
            },
            Paint::Mask(b, at) => {
                match locate(b, x, y, *at) {
                    Some((sx, sy)) => {
                        let (ink, a) = b.sample(sx, sy);
                        before.blend(ink, a)
                    },
                    None => before,
                }
            },
        }
    }
}

/// Finds the source pixel of `b` that lands on the absolute pixel
/// `(x, y)`, if `b` reaches it.
pub fn locate(b: &GdcBitmapRef, x: i16, y: i16, at: Point) -> (r: Option<(i16, i16)>)
    ensures
        r.is_some() <==> b.bitmap.has(
            source_coord(x as int, at.x as int, b.offset.x as int),
            source_coord(y as int, at.y as int, b.offset.y as int),
        ),
        r matches Some(p) ==> p.0 == source_coord(x as int, at.x as int, b.offset.x as int) && p.1
            == source_coord(y as int, at.y as int, b.offset.y as int),
{
    let sx: i32 = x as i32 - at.x as i32 + b.offset.x as i32;
    let sy: i32 = y as i32 - at.y as i32 + b.offset.y as i32;
    if 0 <= sx && sx < b.bitmap.size.x as i32 && 0 <= sy && sy < b.bitmap.size.y as i32 {
        Some((sx as i16, sy as i16))
    } else {
        None
    }
}

/// The model of a color surface.
pub struct Raster {
    pub size: Offset,
    pub viewport: Viewport,
    /// `rows[y][x]` is the color of the pixel `(x, y)`.
    pub rows: Seq<Seq<Color>>,
    /// The text runs handed to the text provider so far, oldest first.
    pub texts: Seq<TextCall>,
}

/// The rectangle that covers exactly the pixel `pt`.
pub open spec fn pixel_rect(pt: Point) -> Rect {
    Rect { x0: pt.x, y0: pt.y, x1: (pt.x + 1) as i16, y1: (pt.y + 1) as i16 }
}

impl Raster {
    /// The surface is consistent: a positive size, a full grid of pixels,
    /// a clip inside the surface and an origin within the coordinate
    /// limit.
    pub open spec fn wf(self) -> bool {
        &&& self.size.x > 0
        &&& self.size.y > 0
        &&& self.rows.len() == self.size.y
        &&& forall|y: int| 0 <= y < self.size.y ==> (#[trigger] self.rows[y]).len() == self.size.x
        &&& self.clip_inside()
    }

    /// The clip shows no pixel outside the surface.
    pub open spec fn clip_inside(self) -> bool {
        &&& 0 <= self.viewport.clip.x0
        &&& 0 <= self.viewport.clip.y0
        &&& self.viewport.clip.x1 <= self.size.x
        &&& self.viewport.clip.y1 <= self.size.y
    }

    /// True when two surfaces have the same size, viewport and text runs.
    pub open spec fn same_frame(self, other: Raster) -> bool {
        self.size == other.size && self.viewport == other.viewport && self.texts == other.texts
    }

    /// True when two surfaces have the same size and the same viewport.
    pub open spec fn same_view(self, other: Raster) -> bool {
        self.size == other.size && self.viewport == other.viewport
    }

    /// The surface as a rectangle with its top-left corner at the origin.
    pub open spec fn bounds(self) -> Rect {
        Rect::of_size(self.size)
    }

    /// The color of the pixel `(x, y)`.
    pub open spec fn at(self, x: int, y: int) -> Color {
        self.rows[y][x]
    }

    /// The visible part of the local rectangle `r`, in absolute
    /// coordinates.
    pub open spec fn visible(self, r: Rect) -> Rect {
        self.viewport.visible(r)
    }

    /// A fresh surface of the given size: every pixel black, the viewport
    /// showing all of it, no text.
    pub open spec fn blank(size: Offset) -> Raster {
        Raster {
            size,
            viewport: Viewport::of_size(size),
            rows: Seq::new(size.y as nat, |y: int| Seq::new(size.x as nat, |x: int| Color(0))),
            texts: Seq::empty(),
        }
    }

    /// The surface after `p` was painted on the pixels of the absolute
    /// rectangle `a`.
    pub open spec fn painted(self, a: Rect, p: Paint) -> Raster {
        Raster {
            rows: Seq::new(
                self.size.y as nat,
                |y: int|
                    Seq::new(
                        self.size.x as nat,
                        |x: int|
                            if a.covers(x, y) {
                                p.result(x, y, self.rows[y][x])
                            } else {
                                self.rows[y][x]
                            },
                    ),
            ),
            ..self
        }
    }

    /// The surface with the viewport `vp`, cut to the surface's bounds.
    pub open spec fn with_viewport(self, vp: Viewport) -> Raster {
        Raster {
            viewport: Viewport { clip: self.bounds().meet(vp.clip), origin: vp.origin },
            ..self
        }
    }

    /// The surface after its window was set to the local rectangle `r`.
    pub open spec fn windowed(self, r: Rect) -> Raster {
        self.with_viewport(
            Viewport {
                clip: self.viewport.visible(r),
                origin: Offset {
                    x: (self.viewport.origin.x + r.x0) as i16,
                    y: (self.viewport.origin.y + r.y0) as i16,
                },
            },
        )
    }

    /// The surface after its clip was narrowed to the local rectangle `r`.
    pub open spec fn clipped(self, r: Rect) -> Raster {
        self.with_viewport(
            Viewport { clip: self.viewport.visible(r), origin: self.viewport.origin },
        )
    }

    /// Effect of filling the local rectangle `r` with `color`.
    pub open spec fn fill_rect(self, r: Rect, color: Color) -> Raster {
        self.painted(self.visible(r), Paint::Fill(color))
    }

    /// Effect of setting the local pixel `pt` to `color`.
    pub open spec fn draw_pixel(self, pt: Point, color: Color) -> Raster {
        self.fill_rect(pixel_rect(pt), color)
    }

    /// Effect of blending `color` into the local pixel `pt`.
    pub open spec fn blend_pixel(self, pt: Point, color: Color, alpha: u8) -> Raster {
        self.painted(self.visible(pixel_rect(pt)), Paint::Blend(color, alpha))
    }

    /// Effect of drawing a bitmap into the local rectangle `r`.
    pub open spec fn draw_bitmap(self, r: Rect, b: GdcBitmapRef) -> Raster {
        self.painted(self.visible(r), Paint::Copy(b, self.viewport.absolute(r).top_left_spec()))
    }

    /// Effect of drawing `fg` blended over `bg` into the local rectangle
    /// `r`.
    pub open spec fn draw_blended(self, r: Rect, fg: GdcBitmapRef, bg: GdcBitmapRef) -> Raster {
        self.painted(
            self.visible(r),
            Paint::Over(fg, bg, self.viewport.absolute(r).top_left_spec()),
        )
    }

    /// Effect of blending a bitmap over the local rectangle `r`.
    pub open spec fn blend_bitmap(self, r: Rect, b: GdcBitmapRef) -> Raster {
        self.painted(self.visible(r), Paint::Mask(b, self.viewport.absolute(r).top_left_spec()))
    }

    /// The text run that a text primitive hands on for the local box `r`.
    pub open spec fn text_call(self, r: Rect, text: Seq<char>, attr: GdcTextAttr, blended: bool)
        -> TextCall {
        TextCall {
            rect: self.visible(r),
            text,
            attr: GdcTextAttr {
                offset: Offset {
                    x: (attr.offset.x + self.visible(r).x0 - self.viewport.absolute(r).x0) as i16,
                    y: (attr.offset.y + self.visible(r).y0 - self.viewport.absolute(r).y0) as i16,
                },
                ..attr
            },
            blended,
        }
    }

    /// Effect of a text primitive: a box that is clipped away leaves the
    /// surface as it is, any other adds one run.
    pub open spec fn draw_text(self, r: Rect, text: Seq<char>, attr: GdcTextAttr, blended: bool)
        -> Raster {
        if self.visible(r).empty() {
            self
        } else {
            Raster { texts: self.texts.push(self.text_call(r, text, attr, blended)), ..self }
        }
    }

    /// True when a text box `r` with the attribute offset `offset` can be
    /// placed: moving it by the origin and adding the part cut off to the
    /// offset stay representable.
    pub open spec fn can_place(self, r: Rect, offset: Offset) -> bool {
        &&& r.can_translate(self.viewport.origin)
        &&& fits(r.spec_width())
        &&& fits(r.spec_height())
        &&& fits(offset.x + r.spec_width())
        &&& fits(offset.y + r.spec_height())
    }
}

/// The row index `y` cut to the rows of the rectangle `a`.
pub open spec fn clamp_row(y: int, a: Rect) -> int {
    if y < a.y0 {
        a.y0 as int
    } else if y >= a.y1 {
        a.y1 - 1
    } else {
        y
    }
}

impl Raster {
    /// The raw pixels of row `y` between the left and right edges of `a`.
    pub open spec fn strip(self, a: Rect, y: int) -> Seq<u16> {
        Seq::new((a.x1 - a.x0) as nat, |i: int| self.rows[y][a.x0 + i].0)
    }

    /// The row that is pushed into the blur filter as number `k`: the rows
    /// of `a` from `radius` above its top on, those outside `a` replaced by
    /// its first and last row.
    pub open spec fn blur_source(self, a: Rect, radius: nat, k: int) -> Seq<u16> {
        self.strip(a, clamp_row(a.y0 - radius + k, a))
    }

    /// The state of a fresh blur filter after the first `n` rows were
    /// pushed.
    pub open spec fn blur_feed(self, a: Rect, radius: nat, n: nat) -> BlurState
        decreases n,
    {
        if n == 0 {
            BlurState::fresh((a.x1 - a.x0) as nat, radius)
        } else {
            self.blur_feed(a, radius, (n - 1) as nat).pushed(
                self.blur_source(a, radius, n - 1),
            )
        }
    }

    /// True when the absolute rectangle `a` can be blurred: the kernel is
    /// no larger than the filter allows and fits into `a`, and `a` is no
    /// wider than the filter allows.
    pub open spec fn blur_applies(a: Rect, radius: usize) -> bool {
        &&& !a.empty()
        &&& radius <= MAX_RADIUS
        &&& a.x1 - a.x0 <= MAX_WIDTH
        &&& a.x1 - a.x0 > 2 * radius - 1
        &&& a.y1 - a.y0 > 2 * radius - 1
    }

    /// True when blurring the absolute rectangle `a` asks nothing of the
    /// filter that it refuses: where the kernel fits into `a`, the kernel
    /// is no larger and `a` no wider than the filter allows. (Where the
    /// kernel does not fit, nothing is blurred.)
    pub open spec fn blur_allowed(a: Rect, radius: usize) -> bool {
        a.x1 - a.x0 > 2 * radius - 1 && a.y1 - a.y0 > 2 * radius - 1 ==> radius <= MAX_RADIUS && a.x1
            - a.x0 <= MAX_WIDTH
    }

    /// The blurred pixel `(x, y)` of the rectangle `a`: what the filter
    /// yields after the rows down to `radius` below `y` were pushed.
    pub open spec fn blurred_at(self, a: Rect, radius: nat, x: int, y: int) -> Color {
        Color(
            self.blur_feed(a, radius, (2 * radius + (y - a.y0) + 1) as nat).popped()[x - a.x0],
        )
    }

    /// Effect of blurring the local rectangle `r`: every visible pixel is
    /// replaced by its blurred value, computed from the pixels before the
    /// call. A rectangle that the kernel does not fit into is left as it
    /// is.
    pub open spec fn blur_rect(self, r: Rect, radius: usize) -> Raster {
        let a = self.visible(r);
        if Raster::blur_applies(a, radius) {
            Raster {
                rows: Seq::new(
                    self.size.y as nat,
                    |y: int|
                        Seq::new(
                            self.size.x as nat,
                            |x: int|
                                if a.covers(x, y) {
                                    self.blurred_at(a, radius as nat, x, y)
                                } else {
                                    self.rows[y][x]
                                },
                        ),
                ),
                ..self
            }
        } else {
            self
        }
    }
}

impl Rect {
    /// The top-left corner, as a specification.
    pub open spec fn top_left_spec(self) -> Point {
        Point { x: self.x0, y: self.y0 }
    }
}

impl Raster {
    /// The surface without its text runs.
    pub open spec fn without_texts(self) -> Raster {
        Raster { texts: Seq::empty(), ..self }
    }

    /// The surface after the pixels of another surface were copied into
    /// the local rectangle `r`, the other surface's top-left corner landing
    /// on that of `r`. Pixels that are clipped away or that the other
    /// surface does not reach stay as they are.
    pub open spec fn blit(self, r: Rect, src: Raster) -> Raster {
        let a = self.visible(r);
        let at = self.viewport.absolute(r);
        Raster {
            rows: Seq::new(
                self.size.y as nat,
                |y: int|
                    Seq::new(
                        self.size.x as nat,
                        |x: int|
                            if a.covers(x, y) && 0 <= x - at.x0 < src.size.x && 0 <= y - at.y0
                                < src.size.y {
                                src.rows[y - at.y0][x - at.x0]
                            } else {
                                self.rows[y][x]
                            },
                    ),
            ),
            ..self
        }
    }
}

/// Drawing the bitmap of a surface is copying the surface's pixels.
pub proof fn lemma_draw_bitmap_is_blit(s: Raster, r: Rect, b: GdcBitmapRef, src: Raster)
    requires
        s.wf(),
        b.bitmap.size == src.size,
        b.offset == (Offset { x: 0, y: 0 }),
        !b.is_mono(),
        forall|x: int, y: int|
            b.bitmap.has(x, y) ==> #[trigger] b.bitmap.source_color(x, y) == src.at(x, y)
                && b.bitmap.source_alpha(x, y) == 255,
    ensures
        s.draw_bitmap(r, b) == s.blit(r, src),
{
    let a = s.visible(r);
    let at = s.viewport.absolute(r);
    let p = Paint::Copy(b, at.top_left_spec());
    assert forall|y: int, x: int| 0 <= y < s.size.y && 0 <= x < s.size.x implies #[trigger] s.draw_bitmap(
        r,
        b,
    ).rows[y][x] == s.blit(r, src).rows[y][x] by {
        if a.covers(x, y) {
            let sx = source_coord(x, at.x0 as int, 0);
            let sy = source_coord(y, at.y0 as int, 0);
            if b.bitmap.has(sx, sy) {
                assert(b.bitmap.source_color(sx, sy) == src.at(sx, sy));
                crate::display::lemma_blended_ends(b.bg_color, b.bitmap.source_color(sx, sy));
            }
        }
    }
    assert(s.draw_bitmap(r, b).rows =~~= s.blit(r, src).rows);
}

/// Painting keeps a surface consistent and touches nothing but the pixels
/// of the rectangle.
pub proof fn lemma_painted_wf(s: Raster, a: Rect, p: Paint)
    requires
        s.wf(),
    ensures
        s.painted(a, p).wf(),
        s.painted(a, p).size == s.size,
        s.painted(a, p).viewport == s.viewport,
        s.painted(a, p).texts == s.texts,
        forall|x: int, y: int|
            0 <= x < s.size.x && 0 <= y < s.size.y && !a.covers(x, y) ==> s.painted(a, p).at(x, y)
                == s.at(x, y),
{
}

/// Painting an empty rectangle changes nothing.
pub proof fn lemma_painted_empty(s: Raster, a: Rect, p: Paint)
    requires
        s.wf(),
        a.empty(),
    ensures
        s.painted(a, p) == s,
{
    assert(s.painted(a, p).rows =~~= s.rows);
}

} // verus!
