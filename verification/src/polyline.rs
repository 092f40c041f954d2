//! The polyline: an open chain of segments through a list of vertices.

use vstd::prelude::*;
use vstd::slice::slice_subrange;
use crate::geometry::Point;
use crate::line::{lemma_line_endpoints, line_points, Line};
use crate::style::{Pixel, PrimitiveStyle, Styled};
use crate::thick_line::{lemma_thin_is_line, ThickLineIterator};

verus! {

/// An open chain of segments. The vertices stay with the caller; fewer than
/// two of them make no segment.
#[derive(Copy, Clone, PartialEq, Eq, Hash, Debug, Default)]
pub struct Polyline<'a> {
    /// All vertices of the chain, in order.
    pub vertices: &'a [Point],
}

/// The points of the chain through `vertices`: the one pixel wide segments
/// between consecutive vertices, one after the other. A vertex that two
/// segments share occurs once for each of them.
pub open spec fn chain_points(vertices: Seq<Point>) -> Seq<Point>
    decreases vertices.len(),
{
    if vertices.len() < 2 {
        Seq::empty()
    } else {
        line_points(vertices[0], vertices[1]) + chain_points(vertices.skip(1))
    }
}

/// The points `points`, each as a pixel of the colour `color`.
pub open spec fn colored<C>(points: Seq<Point>, color: C) -> Seq<Pixel<C>> {
    Seq::new(points.len(), |i: int| Pixel(points[i], color))
}

impl<'a> Polyline<'a> {
    /// The points of the polyline, segment by segment.
    pub open spec fn points_spec(self) -> Seq<Point> {
        chain_points(self.vertices@)
    }

    /// A polyline through `vertices`.
    pub fn new(vertices: &'a [Point]) -> (p: Self)
        ensures
            p.vertices == vertices,
    {
        Polyline { vertices }
    }

    /// Starts a pass over the points of the polyline.
    pub fn into_iter(self) -> (it: PolylineIterator<'a>)
        ensures
            it.wf(),
            it.remaining() == self.points_spec(),
    {
        if self.vertices.len() >= 2 {
            let start = self.vertices[0];
            let end = self.vertices[1];
            let rest = slice_subrange(self.vertices, 1, self.vertices.len());
            let line = Line::new(start, end);
            proof {
                lemma_thin_is_line(line, 1);
                assert(rest@ =~= self.vertices@.skip(1));
            }
            PolylineIterator {
                stop: false,
                vertices: rest,
                segment_iter: ThickLineIterator::new(&line, 1),
            }
        } else {
            // Too short for a segment: a pass that is over from the start.
            PolylineIterator {
                stop: true,
                vertices: self.vertices,
                segment_iter: ThickLineIterator::new(&Line::new(Point::zero(), Point::zero()), 1),
            }
        }
    }
}

/// A single forward pass over the points of a polyline.
#[derive(Copy, Clone, PartialEq, Eq, Hash, Debug)]
pub struct PolylineIterator<'a> {
    stop: bool,
    /// The vertices still ahead, from the end of the current segment on.
    vertices: &'a [Point],
    segment_iter: ThickLineIterator,
}

impl<'a> PolylineIterator<'a> {
    pub closed spec fn wf(self) -> bool {
        self.segment_iter.wf()
    }

    /// The points still to come, in the order in which `next` hands them out.
    pub closed spec fn remaining(self) -> Seq<Point> {
        if self.stop {
            Seq::empty()
        } else {
            self.segment_iter.remaining() + chain_points(self.vertices@)
        }
    }

    /// Hands out the next point of the polyline, if any is left. When a
    /// segment is used up the pass moves on to the next pair of vertices.
    pub fn next(&mut self) -> (r: Option<Point>)
        requires
            old(self).wf(),
        ensures
            final(self).wf(),
            old(self).remaining().len() == 0 ==> r.is_none() && final(self).remaining().len() == 0,
            old(self).remaining().len() > 0 ==> r == Some(old(self).remaining()[0])
                && final(self).remaining() == old(self).remaining().skip(1),
    {
        if self.stop {
            return None;
        }
        loop
            invariant
                self.wf(),
                !self.stop,
                self.remaining() == old(self).remaining(),
            decreases self.vertices@.len(),
        {
            let ghost segment = self.segment_iter.remaining();
            if let Some(point) = self.segment_iter.next() {
                assert(self.remaining() =~= old(self).remaining().skip(1));
                return Some(point);
            }
            if self.vertices.len() < 2 {
                return None;
            }
            let line = Line::new(self.vertices[0], self.vertices[1]);
            let ghost ahead = self.vertices@;
            self.vertices = slice_subrange(self.vertices, 1, self.vertices.len());
            self.segment_iter = ThickLineIterator::new(&line, 1);
            proof {
                lemma_thin_is_line(line, 1);
                assert(self.vertices@ =~= ahead.skip(1));
                assert(segment + chain_points(ahead) =~= chain_points(ahead));
            }
        }
    }
}

impl<'a, C: Copy> Styled<Polyline<'a>, PrimitiveStyle<C>> {
    /// The pixels of the styled polyline: every point of the polyline in the
    /// stroke colour, and none at all when the stroke has no width or no
    /// colour. The width says only whether the polyline is drawn: the
    /// segments are one pixel wide whatever it is.
    pub open spec fn pixels_spec(self) -> Seq<Pixel<C>> {
        match self.style.stroke_color {
            Some(color) if self.style.stroke_width != 0 => colored(self.primitive.points_spec(), color),
            _ => Seq::empty(),
        }
    }

    /// Starts a pass over the pixels of the styled polyline. Whether the
    /// stroke draws at all is settled here, once, and not for every point.
    pub fn into_iter(&self) -> (it: StyledPolylineIterator<'a, C>)
        ensures
            it.wf(),
            it.remaining() == self.pixels_spec(),
    {
        let color = if self.style.effective_stroke_width() == 0 {
            None
        } else {
            self.style.stroke_color
        };
        StyledPolylineIterator { color, line_iter: self.primitive.into_iter() }
    }
}

/// A single forward pass over the pixels of a styled polyline.
#[derive(Copy, Clone, PartialEq, Eq, Hash, Debug)]
pub struct StyledPolylineIterator<'a, C> {
    /// The colour that every point is drawn in; none when nothing is drawn.
    color: Option<C>,
    line_iter: PolylineIterator<'a>,
}

impl<'a, C: Copy> StyledPolylineIterator<'a, C> {
    pub closed spec fn wf(self) -> bool {
        self.line_iter.wf()
    }

    /// The pixels still to come, in the order in which `next` hands them out.
    pub closed spec fn remaining(self) -> Seq<Pixel<C>> {
        match self.color {
            Some(color) => colored(self.line_iter.remaining(), color),
            None => Seq::empty(),
        }
    }

    /// Hands out the next pixel, if any is left.
    pub fn next(&mut self) -> (r: Option<Pixel<C>>)
        requires
            old(self).wf(),
        ensures
            final(self).wf(),
            old(self).remaining().len() == 0 ==> r.is_none() && final(self).remaining().len() == 0,
            old(self).remaining().len() > 0 ==> r == Some(old(self).remaining()[0])
                && final(self).remaining() == old(self).remaining().skip(1),
    {
        let color = match self.color {
            Some(color) => color,
            None => {
                return None;
            },
        };
        match self.line_iter.next() {
            Some(point) => {
                assert(self.remaining() =~= old(self).remaining().skip(1));
                Some(Pixel(point, color))
            },
            None => None,
        }
    }
}

/// A polyline with fewer than two vertices has no points, and no pixels in
/// any style.
pub proof fn lemma_short_polyline_is_empty<C: Copy>(styled: Styled<Polyline, PrimitiveStyle<C>>)
    requires
        styled.primitive.vertices@.len() < 2,
    ensures
        styled.primitive.points_spec() == Seq::<Point>::empty(),
        styled.pixels_spec() == Seq::<Pixel<C>>::empty(),
{
    assert(colored(Seq::<Point>::empty(), arbitrary::<C>()) =~= Seq::<Pixel<C>>::empty());
    match styled.style.stroke_color {
        Some(color) => {
            assert(colored(Seq::<Point>::empty(), color) =~= Seq::<Pixel<C>>::empty());
        },
        None => {},
    }
}

/// A stroke without width or without colour gives no pixels, whatever the
/// vertices.
pub proof fn lemma_unstroked_polyline_is_empty<C: Copy>(styled: Styled<Polyline, PrimitiveStyle<C>>)
    requires
        styled.style.stroke_width == 0 || styled.style.stroke_color.is_none(),
    ensures
        styled.pixels_spec() ==Seq::<Pixel<C>>::empty(),
{
}

/// Consecutive segments of a polyline meet: the chain through three vertices
/// is the segment to the middle vertex, which ends there, followed by the
/// segment from the middle vertex, which starts there.
pub proof fn lemma_segments_meet(a: Point, b: Point, c: Point)
    ensures
        chain_points(seq![a, b, c]) == line_points(a, b) + line_points(b, c),
        line_points(a, b).last() == b,
        line_points(b, c).first() == b,
{
    let v = seq![a, b, c];
    assert(v.skip(1) =~= seq![b, c]);
    assert(seq![b, c].skip(1) =~= seq![c]);
    assert(chain_points(seq![c]) =~= Seq::<Point>::empty());
    assert(chain_points(seq![b, c]) =~= line_points(b, c));
    assert(chain_points(v) =~= line_points(a, b) + line_points(b, c));
    lemma_line_endpoints(a, b);
    lemma_line_endpoints(b, c);
}

} // verus!
