//! Straight line segments, one pixel wide.
//!
//! A segment takes as many steps as its longer axis is long. After `i` steps
//! each coordinate has moved by `i * |delta| / steps`, rounded to the nearest
//! integer. The iterator carries the remainders of these divisions from
//! step to step, so it neither multiplies nor divides.

use vstd::prelude::*;
use vstd::arithmetic::div_mod::{
    lemma_fundamental_div_mod, lemma_fundamental_div_mod_converse, lemma_mod_bound,
};
use crate::geometry::Point;

verus! {

/// The segment from `start` to `end`, both included.
#[derive(Copy, Clone, PartialEq, Eq, Hash, Debug, Default, Structural)]
pub struct Line {
    pub start: Point,
    pub end: Point,
}

/// Distance between two coordinates.
pub open spec fn distance(from: int, to: int) -> int {
    if to >= from {
        to - from
    } else {
        from - to
    }
}

/// Number of steps from `start` to `end`: the length of the longer axis.
pub open spec fn steps(start: Point, end: Point) -> int {
    let dx = distance(start.x as int, end.x as int);
    let dy = distance(start.y as int, end.y as int);
    if dx >= dy {
        dx
    } else {
        dy
    }
}

/// How far a coordinate has moved after `i` of `n` steps on its way over
/// `span`: `i * span / n`, rounded to the nearest integer, halves upwards.
pub open spec fn travelled(i: int, span: int, n: int) -> int {
    if n == 0 {
        0
    } else {
        (2 * i * span + n) / (2 * n)
    }
}

/// The coordinate reached after `i` of `n` steps from `from` towards `to`.
pub open spec fn coordinate_at(from: int, to: int, i: int, n: int) -> int {
    if to >= from {
        from + travelled(i, to - from, n)
    } else {
        from - travelled(i, from - to, n)
    }
}

/// The point reached after `i` steps from `start` towards `end`.
pub open spec fn line_point(start: Point, end: Point, i: int) -> Point {
    let n = steps(start, end);
    Point {
        x: coordinate_at(start.x as int, end.x as int, i, n) as i32,
        y: coordinate_at(start.y as int, end.y as int, i, n) as i32,
    }
}

/// The points of the segment from `start` to `end`, in that direction.
pub open spec fn line_points(start: Point, end: Point) -> Seq<Point> {
    Seq::new((steps(start, end) + 1) as nat, |i: int| line_point(start, end, i))
}

/// A quotient and a remainder of `2 * i * span + n` by `2 * n` pin down how
/// far the coordinate has travelled, which is never further than `span`.
pub proof fn lemma_travelled(i: int, span: int, n: int, q: int, r: int)
    requires
        0 <= i <= n,
        0 <= span <= n,
        0 < n,
        0 <= r < 2 * n,
        2 * i * span + n == q * (2 * n) + r,
    ensures
        travelled(i, span, n) == q,
        0 <= q <= span,
        q <= i,
{
    lemma_fundamental_div_mod_converse(2 * i * span + n, 2 * n, q, r);
    assert(q <= span) by (nonlinear_arith)
        requires
            0 <= i <= n,
            0 <= span,
            0 < n,
            0 <= r,
            2 * i * span + n == q * (2 * n) + r,
    ;
    assert(q <= i) by (nonlinear_arith)
        requires
            0 <= i,
            0 <= span <= n,
            0 < n,
            0 <= r,
            2 * i * span + n == q * (2 * n) + r,
    ;
    assert(q >= 0) by (nonlinear_arith)
        requires
            0 <= i,
            0 <= span,
            0 < n,
            r < 2 * n,
            2 * i * span + n == q * (2 * n) + r,
    ;
}

/// One more step adds `2 * span` to the dividend, which moves the quotient
/// by one exactly when the remainder passes `2 * n`.
pub proof fn lemma_step(i: int, span: int, n: int, q: int, r: int)
    requires
        2 * i * span + n == q * (2 * n) + r,
    ensures
        2 * (i + 1) * span + n == q * (2 * n) + (r + 2 * span),
        2 * (i + 1) * span + n == (q + 1) * (2 * n) + (r + 2 * span - 2 * n),
{
    assert(2 * (i + 1) * span == 2 * i * span + 2 * span) by (nonlinear_arith);
    assert((q + 1) * (2 * n) == q * (2 * n) + 2 * n) by (nonlinear_arith);
}

/// A coordinate never travels further than its span, nor further than the
/// number of steps taken.
pub proof fn lemma_travelled_bounds(i: int, span: int, n: int)
    requires
        0 <= i <= n,
        0 <= span <= n,
        0 < n,
    ensures
        0 <= travelled(i, span, n) <= span,
        travelled(i, span, n) <= i,
{
    let a = 2 * i * span + n;
    let q = a / (2 * n);
    let r = a % (2 * n);
    lemma_fundamental_div_mod(a, 2 * n);
    lemma_mod_bound(a, 2 * n);
    assert((2 * n) * q == q * (2 * n)) by (nonlinear_arith);
    lemma_travelled(i, span, n, q, r);
}

/// From one step to the next a coordinate stays or moves on by one, and it
/// moves on by one where its span is the number of steps.
pub proof fn lemma_travelled_steps(i: int, span: int, n: int)
    requires
        0 <= i < n,
        0 <= span <= n,
    ensures
        travelled(i, span, n) <= travelled(i + 1, span, n) <= travelled(i, span, n) + 1,
        span == n ==> travelled(i + 1, span, n) == travelled(i, span, n) + 1,
{
    let a = 2 * i * span + n;
    let q = a / (2 * n);
    let r = a % (2 * n);
    lemma_fundamental_div_mod(a, 2 * n);
    lemma_mod_bound(a, 2 * n);
    assert((2 * n) * q == q * (2 * n)) by (nonlinear_arith);
    lemma_step(i, span, n, q, r);
    if r + 2 * span < 2 * n {
        lemma_travelled(i + 1, span, n, q, r + 2 * span);
    } else {
        lemma_travelled(i + 1, span, n, q + 1, r + 2 * span - 2 * n);
    }
    if span == n {
        assert(2 * i * n + n == i * (2 * n) + n) by (nonlinear_arith);
        assert(2 * (i + 1) * n + n == (i + 1) * (2 * n) + n) by (nonlinear_arith);
        lemma_travelled(i, n, n, i, n);
        lemma_travelled(i + 1, n, n, i + 1, n);
    }
}

/// A segment has no gap: from each of its points to the next, either
/// coordinate changes by at most one, and one of them does change.
pub proof fn lemma_line_is_connected(start: Point, end: Point, i: int)
    requires
        0 <= i < steps(start, end),
    ensures
        ({
            let p = line_points(start, end)[i];
            let q = line_points(start, end)[i + 1];
            &&& -1 <= q.x - p.x <= 1
            &&& -1 <= q.y - p.y <= 1
            &&& p != q
        }),
{
    let n = steps(start, end);
    let dx = distance(start.x as int, end.x as int);
    let dy = distance(start.y as int, end.y as int);
    lemma_travelled_bounds(i, dx, n);
    lemma_travelled_bounds(i + 1, dx, n);
    lemma_travelled_bounds(i, dy, n);
    lemma_travelled_bounds(i + 1, dy, n);
    lemma_travelled_steps(i, dx, n);
    lemma_travelled_steps(i, dy, n);
}

/// Every point of a segment lies in the box spanned by its end points.
pub proof fn lemma_line_points_spanned(start: Point, end: Point, i: int)
    requires
        0 <= i <= steps(start, end),
    ensures
        (Line { start, end }).spans(line_points(start, end)[i]),
{
    let n = steps(start, end);
    if n > 0 {
        lemma_travelled_bounds(i, distance(start.x as int, end.x as int), n);
        lemma_travelled_bounds(i, distance(start.y as int, end.y as int), n);
    }
}

/// A segment starts at its start and ends at its end.
pub proof fn lemma_line_endpoints(start: Point, end: Point)
    ensures
        line_points(start, end).len() == steps(start, end) + 1,
        line_points(start, end).first() == start,
        line_points(start, end).last() == end,
{
    let n = steps(start, end);
    let dx = distance(start.x as int, end.x as int);
    let dy = distance(start.y as int, end.y as int);
    if n > 0 {
        assert(0 * (2 * n) == 0) by (nonlinear_arith);
        assert(2 * 0 * dx == 0 && 2 * 0 * dy == 0) by (nonlinear_arith);
        lemma_travelled(0, dx, n, 0, n);
        lemma_travelled(0, dy, n, 0, n);
        assert(2 * n * dx + n == dx * (2 * n) + n) by (nonlinear_arith);
        assert(2 * n * dy + n == dy * (2 * n) + n) by (nonlinear_arith);
        lemma_travelled(n, dx, n, dx, n);
        lemma_travelled(n, dy, n, dy, n);
    }
    assert(line_points(start, end)[0] == line_point(start, end, 0));
    assert(line_points(start, end)[n] == line_point(start, end, n));
}

impl Line {
    /// Whether `p` lies in the box spanned by the two end points.
    pub open spec fn spans(self, p: Point) -> bool {
        &&& self.start.x <= p.x <= self.end.x || self.end.x <= p.x <= self.start.x
        &&& self.start.y <= p.y <= self.end.y || self.end.y <= p.y <= self.start.y
    }

    pub open spec fn points_spec(self) -> Seq<Point> {
        line_points(self.start, self.end)
    }

    pub fn new(start: Point, end: Point) -> (l: Line)
        ensures
            l == (Line { start, end }),
    {
        Line { start, end }
    }

    /// Starts a pass over the points of the segment, from `start` to `end`.
    pub fn points(&self) -> (it: LineIterator)
        ensures
            it.wf(),
            it.line() == *self,
            it.remaining() == self.points_spec(),
    {
        LineIterator::new(self)
    }
}

/// A single forward pass over the points of a segment.
#[derive(Copy, Clone, PartialEq, Eq, Hash, Debug)]
pub struct LineIterator {
    start: Point,
    end: Point,
    /// Lengths of the two axes, and the longer of them.
    span_x: u64,
    span_y: u64,
    steps: u64,
    /// Steps taken so far.
    taken: u64,
    /// How far each coordinate has travelled, and the remainder it carries.
    moved_x: u64,
    moved_y: u64,
    carry_x: u64,
    carry_y: u64,
    done: bool,
}

impl LineIterator {
    pub closed spec fn wf(self) -> bool {
        &&& self.span_x == distance(self.start.x as int, self.end.x as int)
        &&& self.span_y == distance(self.start.y as int, self.end.y as int)
        &&& self.steps == steps(self.start, self.end)
        &&& self.taken <= self.steps
        &&& self.steps == 0 ==> self.moved_x == 0 && self.moved_y == 0
        &&& self.steps > 0 ==> {
            &&& self.carry_x < 2 * self.steps
            &&& self.carry_y < 2 * self.steps
            &&& 2 * self.taken * self.span_x + self.steps == self.moved_x * (2 * self.steps)
                + self.carry_x
            &&& 2 * self.taken * self.span_y + self.steps == self.moved_y * (2 * self.steps)
                + self.carry_y
        }
    }

    /// The segment that the pass runs along.
    pub closed spec fn line(self) -> Line {
        Line { start: self.start, end: self.end }
    }

    /// The points still to come, in the order in which `next` hands them out.
    pub closed spec fn remaining(self) -> Seq<Point> {
        if self.done {
            Seq::empty()
        } else {
            Seq::new(
                (self.steps - self.taken + 1) as nat,
                |k: int| line_point(self.start, self.end, self.taken + k),
            )
        }
    }

    /// A pass over all points of `line`.
    pub fn new(line: &Line) -> (it: LineIterator)
        ensures
            it.wf(),
            it.line() == *line,
            it.remaining() == line.points_spec(),
    {
        let span_x: u64 = span(line.start.x, line.end.x);
        let span_y: u64 = span(line.start.y, line.end.y);
        let steps: u64 = if span_x >= span_y { span_x } else { span_y };
        let it = LineIterator {
            start: line.start,
            end: line.end,
            span_x,
            span_y,
            steps,
            taken: 0,
            moved_x: 0,
            moved_y: 0,
            carry_x: steps,
            carry_y: steps,
            done: false,
        };
        proof {
            assert(2 * 0 * span_x == 0 && 2 * 0 * span_y == 0) by (nonlinear_arith);
            assert(0 * (2 * steps) == 0) by (nonlinear_arith);
            assert(it.remaining() =~= line.points_spec());
        }
        it
    }

    /// Hands out the next point of the segment, if any is left.
    pub fn next(&mut self) -> (r: Option<Point>)
        requires
            old(self).wf(),
        ensures
            final(self).wf(),
            final(self).line() == old(self).line(),
            r matches Some(p) ==> old(self).line().spans(p),
            old(self).remaining().len() == 0 ==> r.is_none() && final(self).remaining().len() == 0,
            old(self).remaining().len() > 0 ==> r == Some(old(self).remaining()[0])
                && final(self).remaining() == old(self).remaining().skip(1),
    {
        if self.done {
            return None;
        }
        proof {
            if self.steps > 0 {
                lemma_travelled(
                    self.taken as int,
                    self.span_x as int,
                    self.steps as int,
                    self.moved_x as int,
                    self.carry_x as int,
                );
                lemma_travelled(
                    self.taken as int,
                    self.span_y as int,
                    self.steps as int,
                    self.moved_y as int,
                    self.carry_y as int,
                );
                lemma_step(
                    self.taken as int,
                    self.span_x as int,
                    self.steps as int,
                    self.moved_x as int,
                    self.carry_x as int,
                );
                lemma_step(
                    self.taken as int,
                    self.span_y as int,
                    self.steps as int,
                    self.moved_y as int,
                    self.carry_y as int,
                );
            }
        }
        let point = Point {
            x: advance(self.start.x, self.end.x, self.moved_x),
            y: advance(self.start.y, self.end.y, self.moved_y),
        };
        assert(point == line_point(self.start, self.end, self.taken as int));
        if self.taken >= self.steps {
            self.done = true;
        } else {
            self.taken = self.taken + 1;
            self.carry_x = self.carry_x + 2 * self.span_x;
            if self.carry_x >= 2 * self.steps {
                self.carry_x = self.carry_x - 2 * self.steps;
                self.moved_x = self.moved_x + 1;
            }
            self.carry_y = self.carry_y + 2 * self.span_y;
            if self.carry_y >= 2 * self.steps {
                self.carry_y = self.carry_y - 2 * self.steps;
                self.moved_y = self.moved_y + 1;
            }
        }
        assert(self.remaining() =~= old(self).remaining().skip(1));
        Some(point)
    }
}

/// Distance between two coordinates.
pub fn span(from: i32, to: i32) -> (d: u64)
    ensures
        d == distance(from as int, to as int),
{
    if to >= from {
        (to as i64 - from as i64) as u64
    } else {
        (from as i64 - to as i64) as u64
    }
}

/// The coordinate that lies `moved` away from `from` in the direction of
/// `to`.
fn advance(from: i32, to: i32, moved: u64) -> (c: i32)
    requires
        moved <= distance(from as int, to as int),
    ensures
        c == (if to >= from { from + moved } else { from - moved }),
{
    if to >= from {
        (from as i64 + moved as i64) as i32
    } else {
        (from as i64 - moved as i64) as i32
    }
}

} // verus!
