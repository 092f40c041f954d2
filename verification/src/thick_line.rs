//! Line segments with a stroke width.
//!
//! A thick segment is its one pixel wide centre line with a sweep of `width`
//! pixels laid across every centre point. The sweep runs along the shorter
//! axis of the segment, so that neighbouring sweeps always touch.

use vstd::prelude::*;
use crate::geometry::Point;
use crate::line::{
    distance, lemma_line_is_connected, lemma_line_points_spanned, line_points, span, steps, Line,
    LineIterator,
};

verus! {

/// The width that is swept: widths 0 and 1 both give the centre line.
pub open spec fn swept_width(width: u32) -> int {
    if width == 0 {
        1
    } else {
        width as int
    }
}

/// Whether the sweep across the segment runs along the y axis, which it does
/// when the segment is at least as long in x as in y.
pub open spec fn sweeps_vertically(line: Line) -> bool {
    distance(line.start.x as int, line.end.x as int) >= distance(
        line.start.y as int,
        line.end.y as int,
    )
}

/// The `j`-th point of the sweep of `width` pixels across the centre point
/// `c`. The sweep starts `(width - 1) / 2` before `c`.
pub open spec fn sweep_point(c: Point, vertical: bool, width: int, j: int) -> Point {
    let shift = j - (width - 1) / 2;
    if vertical {
        Point { x: c.x, y: (c.y + shift) as i32 }
    } else {
        Point { x: (c.x + shift) as i32, y: c.y }
    }
}

/// The sweep across `c` from its `from`-th point on.
pub open spec fn sweep(c: Point, vertical: bool, width: int, from: int) -> Seq<Point> {
    Seq::new((width - from) as nat, |j: int| sweep_point(c, vertical, width, from + j))
}

/// The sweeps across the points of `centre`, one after the other.
pub open spec fn swept(centre: Seq<Point>, vertical: bool, width: int) -> Seq<Point>
    decreases centre.len(),
{
    if centre.len() == 0 {
        Seq::empty()
    } else {
        sweep(centre[0], vertical, width, 0) + swept(centre.skip(1), vertical, width)
    }
}

/// The points of the segment `line` drawn `width` pixels wide.
pub open spec fn thick_line_points(line: Line, width: u32) -> Seq<Point> {
    swept(line_points(line.start, line.end), sweeps_vertically(line), swept_width(width))
}

/// A sweep of one pixel leaves the centre line as it is.
pub proof fn lemma_swept_once(centre: Seq<Point>, vertical: bool)
    ensures
        swept(centre, vertical, 1) == centre,
    decreases centre.len(),
{
    if centre.len() > 0 {
        lemma_swept_once(centre.skip(1), vertical);
        assert(sweep(centre[0], vertical, 1, 0) =~= seq![centre[0]]);
        assert(seq![centre[0]] + centre.skip(1) =~= centre);
    } else {
        assert(centre =~= Seq::<Point>::empty());
    }
}

/// With a width of 0 or 1 a thick segment is the one pixel wide segment.
pub proof fn lemma_thin_is_line(line: Line, width: u32)
    requires
        width <= 1,
    ensures
        thick_line_points(line, width) == line.points_spec(),
{
    lemma_swept_once(line_points(line.start, line.end), sweeps_vertically(line));
}

/// Every point of the centre line is among the swept points.
pub proof fn lemma_swept_covers_centre(centre: Seq<Point>, vertical: bool, width: int, i: int)
    requires
        width >= 1,
        0 <= i < centre.len(),
    ensures
        swept(centre, vertical, width).contains(centre[i]),
    decreases centre.len(),
{
    let first = sweep(centre[0], vertical, width, 0);
    let later = swept(centre.skip(1), vertical, width);
    if i == 0 {
        let middle = (width - 1) / 2;
        assert(first[middle] == centre[0]);
        assert((first + later)[middle] == centre[0]);
    } else {
        lemma_swept_covers_centre(centre.skip(1), vertical, width, i - 1);
        let j = choose|j: int| 0 <= j < later.len() && later[j] == centre[i];
        assert((first + later)[first.len() + j] == centre[i]);
    }
}

/// A thick segment covers the one pixel wide segment between the same end
/// points, whatever its width.
pub proof fn lemma_thick_covers_line(line: Line, width: u32, i: int)
    requires
        0 <= i < line.points_spec().len(),
    ensures
        thick_line_points(line, width).contains(line.points_spec()[i]),
{
    lemma_swept_covers_centre(
        line_points(line.start, line.end),
        sweeps_vertically(line),
        swept_width(width),
        i,
    );
}

/// A thick segment has no gap. Along a sweep each point is one pixel from the
/// next, and from one centre point to the next the sweeps move as the centre
/// points do: by at most one pixel in either coordinate.
pub proof fn lemma_thick_line_is_connected(line: Line, width: u32, i: int, j: int)
    requires
        ThickLineIterator::admits(line, width),
        0 <= i < steps(line.start, line.end),
        0 <= j < swept_width(width),
    ensures
        ({
            let vertical = sweeps_vertically(line);
            let w = swept_width(width);
            let p = sweep_point(line.points_spec()[i], vertical, w, j);
            let q = sweep_point(line.points_spec()[i + 1], vertical, w, j);
            let next = sweep_point(line.points_spec()[i], vertical, w, j + 1);
            &&& -1 <= q.x - p.x <= 1
            &&& -1 <= q.y - p.y <= 1
            &&& p != q
            &&& j + 1 < w ==> (if vertical {
                next.x == p.x && next.y == p.y + 1
            } else {
                next.x == p.x + 1 && next.y == p.y
            })
        }),
{
    lemma_line_is_connected(line.start, line.end, i);
    lemma_line_points_spanned(line.start, line.end, i);
    lemma_line_points_spanned(line.start, line.end, i + 1);
}

/// A single forward pass over the points of a thick segment.
#[derive(Copy, Clone, PartialEq, Eq, Hash, Debug)]
pub struct ThickLineIterator {
    /// The centre points after `current`.
    centre: LineIterator,
    /// The centre point whose sweep is under way.
    current: Point,
    vertical: bool,
    width: u32,
    /// Index in the sweep of the point that comes next.
    offset: u32,
    done: bool,
}

impl ThickLineIterator {
    /// The widths and coordinates for which no swept point leaves the range
    /// of `i32`: any segment at a width of 0 or 1, else end points in range
    /// and a width of at most 2^28.
    pub open spec fn admits(line: Line, width: u32) -> bool {
        width <= 1 || (line.start.in_range() && line.end.in_range() && width <= 0x1000_0000)
    }

    pub closed spec fn wf(self) -> bool {
        &&& self.centre.wf()
        &&& self.width >= 1
        &&& Self::admits(self.centre.line(), self.width)
        &&& self.vertical == sweeps_vertically(self.centre.line())
        &&& !self.done ==> self.offset < self.width && self.centre.line().spans(self.current)
    }

    /// The points still to come, in the order in which `next` hands them out.
    pub closed spec fn remaining(self) -> Seq<Point> {
        if self.done {
            Seq::empty()
        } else {
            sweep(self.current, self.vertical, self.width as int, self.offset as int) + swept(
                self.centre.remaining(),
                self.vertical,
                self.width as int,
            )
        }
    }

    /// A pass over the points of `line` drawn `width` pixels wide.
    pub fn new(line: &Line, width: u32) -> (it: ThickLineIterator)
        requires
            Self::admits(*line, width),
        ensures
            it.wf(),
            it.remaining() == thick_line_points(*line, width),
    {
        let mut centre = LineIterator::new(line);
        let vertical = span(line.start.x, line.end.x) >= span(line.start.y, line.end.y);
        let width: u32 = if width == 0 { 1 } else { width };
        proof {
            crate::line::lemma_line_endpoints(line.start, line.end);
        }
        match centre.next() {
            Some(current) => ThickLineIterator { centre, current, vertical, width, offset: 0, done: false },
            None => ThickLineIterator {
                centre,
                current: line.start,
                vertical,
                width,
                offset: 0,
                done: true,
            },
        }
    }

    /// Hands out the next point of the thick segment, if any is left.
    pub fn next(&mut self) -> (r: Option<Point>)
        requires
            old(self).wf(),
        ensures
            final(self).wf(),
            old(self).remaining().len() == 0 ==> r.is_none() && final(self).remaining().len() == 0,
            old(self).remaining().len() > 0 ==> r == Some(old(self).remaining()[0])
                && final(self).remaining() == old(self).remaining().skip(1),
    {
        if self.done {
            return None;
        }
        let shift: i64 = self.offset as i64 - ((self.width - 1) / 2) as i64;
        let point = if self.vertical {
            Point { x: self.current.x, y: (self.current.y as i64 + shift) as i32 }
        } else {
            Point { x: (self.current.x as i64 + shift) as i32, y: self.current.y }
        };
        let ghost width = self.width as int;
        let ghost later = swept(self.centre.remaining(), self.vertical, width);
        let ghost before = self.centre.remaining();
        assert(point == sweep_point(self.current, self.vertical, width, self.offset as int));
        self.offset = self.offset + 1;
        if self.offset >= self.width {
            match self.centre.next() {
                Some(current) => {
                    self.current = current;
                    self.offset = 0;
                },
                None => {
                    self.done = true;
                },
            }
        }
        assert(self.remaining() =~= old(self).remaining().skip(1));
        Some(point)
    }
}

} // verus!
