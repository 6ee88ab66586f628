//! A chain of square cells on a grid.

use vstd::prelude::*;
use crate::canvas::raster::Raster;
use crate::canvas::rgb::RgbCanvas;
use crate::display::Color;
use crate::geometry::{fits, is_16_bit, Offset, Point, Rect};
use crate::viewport::Viewport;

verus! {

pub struct Snake {
    /// Position of the cell `(0, 0)`.
    pub pos: Point,
    /// The cells of the snake, in grid coordinates.
    pub snake: &'static [(i16, i16)],
    pub color: Color,
    /// Side of a cell in pixels.
    pub scale: i16,
}

impl Snake {
    /// A white snake with cells of two pixels.
    pub fn new(pos: Point, snake: &'static [(i16, i16)]) -> (s: Self)
        ensures
            s == (Snake { pos, snake, color: Color(0xFFFF), scale: 2 }),
    {
        Snake { pos, snake, color: Color::white(), scale: 2 }
    }

    pub fn with_color(self, color: Color) -> (s: Self)
        ensures
            s == (Snake { color, ..self }),
    {
        Snake { color, ..self }
    }

    pub fn with_scale(self, scale: i16) -> (s: Self)
        ensures
            s == (Snake { scale, ..self }),
    {
        Snake { scale, ..self }
    }

    /// Left or top edge of a cell: the position plus the grid coordinate
    /// times the scale, less half the scale.
    pub open spec fn cell_edge(self, pos: int, cell: int) -> int {
        pos + cell * self.scale - self.scale / 2
    }

    /// The square of the cell `pt`, as a specification.
    pub open spec fn cell(self, pt: (i16, i16)) -> Rect {
        Rect {
            x0: self.cell_edge(self.pos.x as int, pt.0 as int) as i16,
            y0: self.cell_edge(self.pos.y as int, pt.1 as int) as i16,
            x1: (self.cell_edge(self.pos.x as int, pt.0 as int) + self.scale) as i16,
            y1: (self.cell_edge(self.pos.y as int, pt.1 as int) + self.scale) as i16,
        }
    }

    /// True when the edges of the square of the cell `pt` are 16-bit
    /// numbers.
    pub open spec fn cell_fits(self, pt: (i16, i16)) -> bool {
        &&& fits(self.cell_edge(self.pos.x as int, pt.0 as int))
        &&& fits(self.cell_edge(self.pos.y as int, pt.1 as int))
        &&& fits(self.cell_edge(self.pos.x as int, pt.0 as int) + self.scale)
        &&& fits(self.cell_edge(self.pos.y as int, pt.1 as int) + self.scale)
    }

    /// The snake's own numbers can be computed in 16 bits: the scale is
    /// not negative and the square of every cell is representable.
    pub open spec fn fits(self) -> bool {
        &&& 0 <= self.scale
        &&& forall|i: int| 0 <= i < self.snake@.len() ==> self.cell_fits(#[trigger] self.snake@[i])
    }

    /// The snake can be drawn under the viewport `vp`: the square of
    /// every cell is representable once moved by the origin.
    pub open spec fn lands(self, vp: Viewport) -> bool {
        let origin = vp.origin;
        forall|i: int|
            0 <= i < self.snake@.len() ==> self.cell(#[trigger] self.snake@[i]).can_translate(origin)
    }

    /// Tells whether the edges of the square of the cell `pt` are 16-bit
    /// numbers.
    pub fn cell_is_drawable(&self, pt: (i16, i16)) -> (ok: bool)
        requires
            0 <= self.scale,
        ensures
            ok == self.cell_fits(pt),
    {
        let s: i32 = self.scale as i32;
        assert(-1073741824 <= (pt.0 as int) * (self.scale as int) <= 1073741824
            && -1073741824 <= (pt.1 as int) * (self.scale as int) <= 1073741824) by (nonlinear_arith)
            requires
                -32768 <= pt.0 <= 32767,
                -32768 <= pt.1 <= 32767,
                0 <= self.scale <= 32767,
        ;
        let x: i32 = self.pos.x as i32 + (pt.0 as i32) * s - s / 2;
        let y: i32 = self.pos.y as i32 + (pt.1 as i32) * s - s / 2;
        is_16_bit(x) && is_16_bit(y) && is_16_bit(x + s) && is_16_bit(y + s)
    }

    /// Tells whether the snake's own numbers can be computed.
    pub fn is_drawable(&self) -> (ok: bool)
        ensures
            ok == self.fits(),
    {
        if self.scale < 0 {
            return false;
        }
        let n = self.snake.len();
        let mut i: usize = 0;
        while i < n
            invariant
                i <= n,
                n == self.snake@.len(),
                0 <= self.scale,
                forall|j: int| 0 <= j < i ==> self.cell_fits(#[trigger] self.snake@[j]),
            decreases n - i,
        {
            if !self.cell_is_drawable(self.snake[i]) {
                return false;
            }
            i += 1;
        }
        true
    }

    /// Tells whether the snake can be drawn under the viewport `vp`.
    pub fn lands_at(&self, vp: Viewport) -> (ok: bool)
        requires
            self.fits(),
        ensures
            ok == self.lands(vp),
    {
        let origin = vp.origin;
        let n = self.snake.len();
        let mut i: usize = 0;
        while i < n
            invariant
                i <= n,
                n == self.snake@.len(),
                self.fits(),
                origin == vp.origin,
                forall|j: int|
                    0 <= j < i ==> self.cell(#[trigger] self.snake@[j]).can_translate(origin),
            decreases n - i,
        {
            if !self.cell_rect(self.snake[i]).translatable(origin) {
                return false;
            }
            i += 1;
        }
        true
    }

    /// The square of the cell `pt`.
    pub fn cell_rect(&self, pt: (i16, i16)) -> (r: Rect)
        requires
            0 <= self.scale,
            self.cell_fits(pt),
        ensures
            r == self.cell(pt),
    {
        assert(-1073741824 <= (pt.0 as int) * (self.scale as int) <= 1073741824
            && -1073741824 <= (pt.1 as int) * (self.scale as int) <= 1073741824) by (nonlinear_arith)
            requires
                -32768 <= pt.0 <= 32767,
                -32768 <= pt.1 <= 32767,
                0 <= self.scale <= 32767,
        ;
        let s: i32 = self.scale as i32;
        let x: i32 = self.pos.x as i32 + (pt.0 as i32) * s - s / 2;
        let y: i32 = self.pos.y as i32 + (pt.1 as i32) * s - s / 2;
        let p = Point::new(x as i16, y as i16);
        Rect::from_top_left_and_size(p, Offset::uniform(self.scale))
    }

    /// The common part of the squares of the first `n` cells.
    pub open spec fn common(self, n: int) -> Rect
        decreases n,
    {
        if n <= 0 {
            Rect { x0: 0, y0: 0, x1: 0, y1: 0 }
        } else if n == 1 {
            self.cell(self.snake@[0])
        } else {
            self.common(n - 1).meet(self.cell(self.snake@[n - 1]))
        }
    }

    /// The rectangle that the renderers test the snake by: the common part
    /// of the squares of all its cells, the empty rectangle at the origin
    /// for a snake without cells.
    pub fn bounds(&self) -> (r: Rect)
        requires
            self.fits(),
        ensures
            r == self.common(self.snake@.len() as int),
    {
        let n = self.snake.len();
        if n == 0 {
            Rect::zero()
        } else {
            let mut b = self.cell_rect(self.snake[0]);
            let mut i: usize = 1;
            while i < n
                invariant
                    1 <= i <= n,
                    n == self.snake@.len(),
                    self.fits(),
                    b == self.common(i as int),
                decreases n - i,
            {
                b = b.intersect(self.cell_rect(self.snake[i]));
                i += 1;
            }
            b
        }
    }

    /// Effect of the cells from number `i` on, filled in their order.
    pub open spec fn paint_from(self, s: Raster, i: int) -> Raster
        decreases self.snake@.len() - i,
    {
        if i < 0 || i >= self.snake@.len() {
            s
        } else {
            self.paint_from(s.fill_rect(self.cell(self.snake@[i]), self.color), i + 1)
        }
    }

    /// Effect of drawing the snake on a surface.
    pub open spec fn paint(self, s: Raster) -> Raster {
        self.paint_from(s, 0)
    }

    /// Fills the square of every cell.
    pub fn draw<C: RgbCanvas>(&self, canvas: &mut C)
        requires
            old(canvas).model().wf(),
            self.fits(),
            self.lands(old(canvas).model().viewport),
        ensures
            final(canvas).model() == self.paint(old(canvas).model()),
            final(canvas).model().wf(),
            final(canvas).model().same_frame(old(canvas).model()),
    {
        let n = self.snake.len();
        let mut i: usize = 0;
        while i < n
            invariant
                i <= n,
                n == self.snake@.len(),
                self.fits(),
                self.lands(old(canvas).model().viewport),
                canvas.model().wf(),
                canvas.model().same_frame(old(canvas).model()),
                self.paint_from(canvas.model(), i as int) == self.paint(old(canvas).model()),
            decreases n - i,
        {
            canvas.fill_rect(self.cell_rect(self.snake[i]), self.color);
            i += 1;
        }
    }
}

} // verus!
