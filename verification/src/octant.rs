//! Generator of the points of one eighth of a circle: an integer midpoint
//! walk from `(radius, 0)` up to the diagonal, each point with the share
//! of its pixel that lies inside the circle.

use vstd::prelude::*;

verus! {

/// Largest radius for which the walk stays within 16-bit arithmetic.
pub const MAX_RADIUS: i16 = 16383;

/// One point of the octant: `x`, `y`, coverage (0 to 255), whether it is
/// the first point of its column, whether it is the last point of its row
/// of constant `x`.
pub type OctantPoint = (i16, i16, u8, bool, bool);

/// State of the walk.
pub struct OctantPoints {
    pub radius: i16,
    pub x: i16,
    pub y: i16,
    pub t1: i16,
    pub first: bool,
}

/// Coverage of a pixel whose error term is `t1` on a circle of radius
/// `r1`: 255 for the degenerate circle of radius zero, else 255 minus the
/// error term scaled by 255 / radius.
pub open spec fn coverage(t1: int, r1: int) -> int {
    if r1 == 0 {
        255
    } else {
        255 - (t1 * 255) / r1
    }
}

/// Computes the coverage of a pixel from its error term.
pub fn alpha(t1: i16, r1: i16) -> (a: u8)
    requires
        0 <= t1 <= r1,
    ensures
        a == coverage(t1 as int, r1 as int),
{
    if r1 == 0 {
        255
    } else {
        let scaled: i32 = t1 as i32 * 255;
        let q: i32 = scaled / r1 as i32;
        assert(0 <= q <= 255) by (nonlinear_arith)
            requires
                q == (t1 * 255) / (r1 as int),
                0 <= t1 <= r1,
                r1 > 0,
        ;
        255 - (q as u8)
    }
}

impl OctantPoints {
    /// The invariant of the walk: while points remain, the error term is
    /// non-negative and below `x`, and `x` has not passed the radius.
    pub open spec fn wf(self) -> bool {
        &&& self.radius <= MAX_RADIUS
        &&& self.x <= self.radius
        &&& 0 <= self.y
        &&& 0 <= self.t1
        &&& self.x >= self.y ==> (self.t1 < self.x || (self.radius == 0 && self.x == 0 && self.y
            == 0 && self.t1 == 0))
    }

    /// True when the walk has a point left.
    pub open spec fn has_next(self) -> bool {
        self.x >= self.y
    }

    /// True when the step from this state lowers `x`.
    pub open spec fn steps_in(self) -> bool {
        self.t1 + self.y + 1 - self.x >= 0
    }

    /// The state that follows this one.
    pub open spec fn advanced(self) -> OctantPoints {
        if self.steps_in() {
            OctantPoints {
                radius: self.radius,
                x: (self.x - 1) as i16,
                y: (self.y + 1) as i16,
                t1: (self.t1 + self.y + 1 - self.x) as i16,
                first: true,
            }
        } else {
            OctantPoints {
                radius: self.radius,
                x: self.x,
                y: (self.y + 1) as i16,
                t1: (self.t1 + self.y + 1) as i16,
                first: false,
            }
        }
    }

    /// The point that this state yields.
    pub open spec fn current(self) -> OctantPoint {
        (
            self.x,
            self.y,
            coverage(self.t1 as int, self.radius as int) as u8,
            self.first,
            self.steps_in(),
        )
    }

    /// The points still to come, in order.
    pub open spec fn view(self) -> Seq<OctantPoint>
        decreases self.x - self.y + 2,
    {
        if self.x >= self.y && self.wf() {
            seq![self.current()] + self.advanced().view()
        } else {
            Seq::empty()
        }
    }

    /// One step keeps the invariant.
    pub proof fn lemma_advanced_wf(self)
        requires
            self.wf(),
            self.has_next(),
        ensures
            self.advanced().wf(),
            self.advanced().y == self.y + 1,
            self.advanced().x == self.x || self.advanced().x == self.x - 1,
            self.advanced().radius == self.radius,
    {
    }

    /// Yields the next point and advances, or reports the end: the point is
    /// the head of the remaining sequence and the state moves to its tail.
    pub fn next(&mut self) -> (r: Option<OctantPoint>)
        requires
            old(self).wf(),
        ensures
            final(self).wf(),
            final(self).radius == old(self).radius,
            old(self)@.len() == 0 ==> r.is_none() && *final(self) == *old(self),
            old(self)@.len() > 0 ==> r == Some(old(self)@[0]) && final(self)@ == old(self)@.skip(1),
            r.is_some() ==> *final(self) == old(self).advanced(),
            r matches Some(p) ==> p.0 >= p.1 && p.1 >= 0 && p.0 <= old(self).radius && p
                == old(self).current(),
    {
        if self.x >= self.y {
            let cur_x = self.x;
            let cur_y = self.y;
            let cur_t1 = self.t1;
            let first = self.first;
            proof {
                old(self).lemma_advanced_wf();
                assert(old(self)@ =~= seq![old(self).current()] + old(self).advanced()@);
                assert(old(self)@.skip(1) =~= old(self).advanced()@);
            }
            self.first = false;
            self.y += 1;
            self.t1 = self.t1 + self.y;
            let t2 = self.t1 - self.x;
            if t2 >= 0 {
                self.t1 = t2;
                self.x -= 1;
                self.first = true;
            }
            let last = cur_x != self.x;
            Some((cur_x, cur_y, alpha(cur_t1, self.radius), first, last))
        } else {
            None
        }
    }

    /// The `x` of the last point of the remaining sequence, where the two
    /// halves of a quadrant meet; `None` when no point remains.
    pub fn last_x(self) -> (r: Option<i16>)
        requires
            self.wf(),
        ensures
            self@.len() == 0 ==> r.is_none(),
            self@.len() > 0 ==> r == Some(self@[self@.len() - 1].0),
    {
        let ghost all = self@;
        let mut it = self;
        let mut found: Option<i16> = None;
        let ghost mut done: int = 0;
        assert(all.skip(0) =~= all);
        loop
            invariant
                it.wf(),
                0 <= done <= all.len(),
                it@ == all.skip(done),
                done == 0 ==> found.is_none(),
                done > 0 ==> found == Some(all[done - 1].0),
            ensures
                done == all.len(),
            decreases it.x - it.y + 2,
        {
            let ghost before = it;
            match it.next() {
                Some(p) => {
                    proof {
                        assert(all.skip(done)[0] == all[done]);
                        assert(all.skip(done).skip(1) =~= all.skip(done + 1));
                        done = done + 1;
                        before.lemma_advanced_wf();
                    }
                    found = Some(p.0);
                },
                None => {
                    break ;
                },
            }
        }
        found
    }
}

/// The whole sequence of points for a radius.
pub open spec fn octant_seq(radius: i16) -> Seq<OctantPoint> {
    (OctantPoints {
        radius,
        x: radius,
        y: 0,
        t1: if radius >= 0 {
            (radius / 16) as i16
        } else {
            0
        },
        first: true,
    })@
}

/// Starts the walk for a circle of the given radius. A negative radius
/// gives the empty sequence.
pub fn octant_points(radius: i16) -> (it: OctantPoints)
    requires
        radius <= MAX_RADIUS,
    ensures
        it.wf(),
        it.radius == radius,
        it@ == octant_seq(radius),
{
    OctantPoints {
        radius,
        x: radius,
        y: 0,
        t1: if radius >= 0 {
            radius / 16
        } else {
            0
        },
        first: true,
    }
}

/// The `x` at which the octant ends on the diagonal: the `x` of its last
/// point, or 0 for the empty sequence.
pub open spec fn octant_split(radius: i16) -> i16 {
    let pts = octant_seq(radius);
    if pts.len() > 0 {
        pts[pts.len() - 1].0
    } else {
        0
    }
}

/// Computes the `x` of the last point of the octant.
pub fn split_of(radius: i16) -> (s: i16)
    requires
        radius <= MAX_RADIUS,
    ensures
        s == octant_split(radius),
{
    match octant_points(radius).last_x() {
        Some(x) => x,
        None => 0,
    }
}

/// The shape of the remaining sequence of any state of the walk: the `y`
/// values count up by one from the current `y`, every point has
/// `y <= x <= radius`, `x` never grows, and there are at most
/// `x - y + 1` points.
pub proof fn lemma_walk_shape(s: OctantPoints)
    requires
        s.wf(),
    ensures
        s@.len() <= max_len(s),
        s.has_next() ==> s@.len() >= 1,
        forall|i: int| 0 <= i < s@.len() ==> #[trigger] s@[i].1 == s.y + i,
        forall|i: int| 0 <= i < s@.len() ==> (#[trigger] s@[i]).0 >= s@[i].1 && s@[i].0 <= s.x,
        forall|i: int, j: int| 0 <= i <= j < s@.len() ==> (#[trigger] s@[j]).0 <= (#[trigger] s@[i]).0,
    decreases s.x - s.y + 2,
{
    if s.x >= s.y {
        let n = s.advanced();
        s.lemma_advanced_wf();
        lemma_walk_shape(n);
        assert(s@ =~= seq![s.current()] + n@);
        assert forall|i: int| 0 <= i < s@.len() implies #[trigger] s@[i].1 == s.y + i by {
            if i > 0 {
                assert(s@[i] == n@[i - 1]);
            }
        }
        assert forall|i: int| 0 <= i < s@.len() implies (#[trigger] s@[i]).0 >= s@[i].1 && s@[i].0
            <= s.x by {
            if i > 0 {
                assert(s@[i] == n@[i - 1]);
            }
        }
        assert forall|i: int, j: int| 0 <= i <= j < s@.len() implies (#[trigger] s@[j]).0 <= (
        #[trigger] s@[i]).0 by {
            if i > 0 {
                assert(s@[i] == n@[i - 1]);
                assert(s@[j] == n@[j - 1]);
            } else if j > 0 {
                assert(s@[j] == n@[j - 1]);
            }
        }
    }
}

/// Upper bound on the number of points that a state still yields.
pub open spec fn max_len(s: OctantPoints) -> int {
    if s.x >= s.y {
        s.x - s.y + 1
    } else {
        0
    }
}

/// For a radius from 0 up: the octant has at least one and at most
/// `radius + 1` points, point `i` has `y == i` and `i <= x <= radius`, the
/// first point is `(radius, 0)`, and `x` never grows along the sequence.
pub proof fn lemma_octant_shape(radius: i16)
    requires
        0 <= radius <= MAX_RADIUS,
    ensures
        1 <= octant_seq(radius).len() <= radius + 1,
        octant_seq(radius)[0].0 == radius,
        forall|i: int|
            0 <= i < octant_seq(radius).len() ==> (#[trigger] octant_seq(radius)[i]).1 == i
                && octant_seq(radius)[i].0 >= i && octant_seq(radius)[i].0 <= radius,
        forall|i: int, j: int|
            0 <= i <= j < octant_seq(radius).len() ==> (#[trigger] octant_seq(radius)[j]).0 <= (
            #[trigger] octant_seq(radius)[i]).0,
        0 <= octant_split(radius) <= radius,
        octant_split(radius) >= octant_seq(radius).len() - 1,
{
    let s = OctantPoints { radius, x: radius, y: 0, t1: (radius / 16) as i16, first: true };
    assert(0 <= radius / 16 <= radius);
    assert(radius > 0 ==> radius / 16 < radius);
    lemma_walk_shape(s);
    assert(s@ =~= seq![s.current()] + s.advanced()@);
    let pts = octant_seq(radius);
    assert(pts[pts.len() - 1].1 == pts.len() - 1);
}

/// The circle of radius zero is the single point `(0, 0)` with full
/// coverage, first of its column and last of its row.
pub proof fn lemma_octant_radius_zero()
    ensures
        octant_seq(0) =~= seq![(0i16, 0i16, 255u8, true, true)],
{
    let s = OctantPoints { radius: 0, x: 0, y: 0, t1: 0, first: true };
    let n = s.advanced();
    assert(s.steps_in());
    assert(n.x == -1 && n.y == 1);
    assert(n@ =~= Seq::<OctantPoint>::empty());
    assert(s@ =~= seq![s.current()] + n@);
    assert(s.current() == (0i16, 0i16, 255u8, true, true));
}

/// No point of the octant is fully outside the circle: for a radius from
/// 1 up the coverage of every point is at least 1, and the first point has
/// coverage `255 - (radius / 16) * 255 / radius`.
pub proof fn lemma_octant_coverage(s: OctantPoints)
    requires
        s.wf(),
        s.radius >= 1,
    ensures
        forall|i: int| 0 <= i < s@.len() ==> 1 <= #[trigger] s@[i].2 <= 255,
    decreases s.x - s.y + 2,
{
    if s.x >= s.y {
        let n = s.advanced();
        s.lemma_advanced_wf();
        lemma_octant_coverage(n);
        assert(s@ =~= seq![s.current()] + n@);
        let q = (s.t1 * 255) / (s.radius as int);
        assert(0 <= q < 255) by (nonlinear_arith)
            requires
                q == (s.t1 * 255) / (s.radius as int),
                0 <= s.t1 < s.radius,
        ;
        assert forall|i: int| 0 <= i < s@.len() implies 1 <= #[trigger] s@[i].2 <= 255 by {
            if i > 0 {
                assert(s@[i] == n@[i - 1]);
            }
        }
    }
}

} // verus!
