//! The ellipse: containment test, point enumeration and styled pixels.

use vstd::prelude::*;
use crate::geometry::{Point, Size, MAX_COORDINATE, MAX_DIMENSION};
use crate::rectangle::{lemma_points_cover, Rectangle};
use crate::style::{Pixel, PrimitiveStyle, Styled};

verus! {

/// An ellipse given by its bounding box `[top_left, top_left + size)`.
#[derive(Copy, Clone, PartialEq, Eq, Hash, Debug, Default, Structural)]
pub struct Ellipse {
    /// Top-left corner of the bounding box.
    pub top_left: Point,
    /// Full width and height of the ellipse.
    pub size: Size,
}

/// Squared-distance threshold of a circle of the given diameter, measured at
/// doubled resolution. Diameters up to 4 are tightened by half the diameter
/// so that the smallest circles come out round.
pub open spec fn circle_threshold(diameter: int) -> int {
    if diameter <= 4 {
        diameter * diameter - diameter / 2
    } else {
        diameter * diameter
    }
}

/// Whether the doubled offset `(dx, dy)` from the centre lies inside an
/// ellipse of full width `w` and full height `h`.
pub open spec fn inside_spec(w: int, h: int, dx: int, dy: int) -> bool {
    if w == h {
        dx * dx + dy * dy < circle_threshold(w)
    } else {
        (h * h) * (dx * dx) + (w * w) * (dy * dy) - (h * h) * (w * w) <= 0
    }
}

/// The threshold test on squared dimensions: `size` holds the squares of
/// the width and the height, `point` the doubled offset from the centre,
/// and `diameter` the width itself.
pub open spec fn size_to_threshold_spec(size: Size, point: Point, diameter: u32) -> bool {
    let x = point.x * point.x;
    let y = point.y * point.y;
    if size.width == size.height {
        x + y < circle_threshold(diameter as int)
    } else {
        size.height * x + size.width * y - size.height * size.width <= 0
    }
}

/// Decides whether a point lies inside an ellipse centred on the origin.
///
/// `size` holds the squared width and height, `point` is the offset from
/// the centre at doubled resolution and `diameter` is the width, which the
/// circle case compares against. The arithmetic is wide enough for every
/// input.
pub fn size_to_threshold(size: Size, point: Point, diameter: u32) -> (inside: bool)
    ensures
        inside == size_to_threshold_spec(size, point, diameter),
{
    let a: i128 = size.width as i128;
    let b: i128 = size.height as i128;
    let px: i128 = point.x as i128;
    let py: i128 = point.y as i128;
    let d: i128 = diameter as i128;
    assert(0 <= px * px <= 0x4000_0000_0000_0000) by (nonlinear_arith)
        requires
            -0x8000_0000 <= px <= 0x8000_0000,
    ;
    assert(0 <= py * py <= 0x4000_0000_0000_0000) by (nonlinear_arith)
        requires
            -0x8000_0000 <= py <= 0x8000_0000,
    ;
    assert(0 <= d * d <= 0x1_0000_0000_0000_0000) by (nonlinear_arith)
        requires
            0 <= d <= 0x1_0000_0000,
    ;
    let x: i128 = px * px;
    let y: i128 = py * py;
    if a == b {
        let threshold: i128 = if diameter <= 4 {
            d * d - d / 2
        } else {
            d * d
        };
        x + y < threshold
    } else {
        assert(0 <= b * x <= 0x4000_0000_0000_0000_0000_0000) by (nonlinear_arith)
            requires
                0 <= b <= 0x1_0000_0000,
                0 <= x <= 0x4000_0000_0000_0000,
        ;
        assert(0 <= a * y <= 0x4000_0000_0000_0000_0000_0000) by (nonlinear_arith)
            requires
                0 <= a <= 0x1_0000_0000,
                0 <= y <= 0x4000_0000_0000_0000,
        ;
        assert(0 <= b * a <= 0x1_0000_0000_0000_0000) by (nonlinear_arith)
            requires
                0 <= b <= 0x1_0000_0000,
                0 <= a <= 0x1_0000_0000,
        ;
        b * x + a * y - b * a <= 0
    }
}

/// The threshold test on squared dimensions agrees with the inside test on
/// the dimensions themselves.
pub proof fn lemma_threshold_on_squares(w: u32, h: u32, point: Point)
    requires
        w <= 0xFFFF,
        h <= 0xFFFF,
    ensures
        w * w <= u32::MAX,
        h * h <= u32::MAX,
        size_to_threshold_spec(
            Size { width: (w * w) as u32, height: (h * h) as u32 },
            point,
            w,
        ) == inside_spec(w as int, h as int, point.x as int, point.y as int),
{
    assert(w * w <= u32::MAX) by (nonlinear_arith)
        requires
            w <= 0xFFFF,
    ;
    assert(h * h <= u32::MAX) by (nonlinear_arith)
        requires
            h <= 0xFFFF,
    ;
    assert((w * w == h * h) <==> (w == h)) by (nonlinear_arith);
}

impl Ellipse {
    /// The safe input range: both dimensions are at most `MAX_DIMENSION`
    /// and the whole bounding box lies within `MAX_COORDINATE` of the
    /// origin, so that squared and doubled quantities do not overflow.
    pub open spec fn well_formed(self) -> bool {
        &&& self.size.in_range()
        &&& self.top_left.in_range()
        &&& self.top_left.x + self.size.width <= MAX_COORDINATE
        &&& self.top_left.y + self.size.height <= MAX_COORDINATE
    }

    pub open spec fn bounding_box_spec(self) -> Rectangle {
        Rectangle { top_left: self.top_left, size: self.size }
    }

    /// Twice the centre, exactly: `2 * top_left + (size - 1)`, with the
    /// subtraction clamped at zero. Not the rounded centre doubled.
    pub open spec fn center_2x_spec(self) -> (int, int) {
        (
            2 * self.top_left.x + (if self.size.width == 0 { 0int } else { self.size.width - 1 }),
            2 * self.top_left.y + (if self.size.height == 0 { 0int } else { self.size.height - 1 }),
        )
    }

    /// Whether `p` lies inside the ellipse.
    pub open spec fn contains_spec(self, p: Point) -> bool {
        let c = self.center_2x_spec();
        inside_spec(self.size.width as int, self.size.height as int, 2 * p.x - c.0, 2 * p.y - c.1)
    }

    /// The points inside the ellipse, in the row-major order of its
    /// bounding box.
    pub open spec fn points_spec(self) -> Seq<Point> {
        inside_points(self, self.bounding_box_spec().points_spec())
    }

    /// Tells whether the ellipse lies in the safe input range.
    pub fn is_well_formed(&self) -> (b: bool)
        ensures
            b == self.well_formed(),
    {
        self.size.width <= MAX_DIMENSION && self.size.height <= MAX_DIMENSION
            && self.top_left.is_in_range()
            && self.top_left.x as i64 + self.size.width as i64 <= MAX_COORDINATE as i64
            && self.top_left.y as i64 + self.size.height as i64 <= MAX_COORDINATE as i64
    }

    /// An ellipse from the top-left corner and the size of its bounding box.
    pub fn new(top_left: Point, size: Size) -> (e: Ellipse)
        ensures
            e == (Ellipse { top_left, size }),
    {
        Ellipse { top_left, size }
    }

    /// An ellipse of the given size around `center`. The top-left corner is
    /// `center - (size - 1) / 2`, with the subtraction of one clamped at zero.
    pub fn with_center(center: Point, size: Size) -> (e: Ellipse)
        requires
            center.x - (if size.width == 0 { 0int } else { (size.width - 1) / 2 }) >= i32::MIN,
            center.y - (if size.height == 0 { 0int } else { (size.height - 1) / 2 }) >= i32::MIN,
        ensures
            e.size == size,
            e.top_left.x == center.x - (if size.width == 0 { 0int } else { (size.width - 1) / 2 }),
            e.top_left.y == center.y - (if size.height == 0 { 0int } else { (size.height - 1) / 2 }),
    {
        let offset = size.saturating_sub(Size::new(1, 1));
        let x: i64 = center.x as i64 - (offset.width / 2) as i64;
        let y: i64 = center.y as i64 - (offset.height / 2) as i64;
        Ellipse { top_left: Point { x: x as i32, y: y as i32 }, size }
    }

    /// The centre of the bounding box, rounded towards the top-left corner.
    pub fn center(&self) -> (c: Point)
        requires
            self.bounding_box_spec().fits(),
        ensures
            (c.x as int, c.y as int) == self.bounding_box_spec().center_spec(),
    {
        self.bounding_box().center()
    }

    /// The centre at doubled resolution, which is exact for even sizes too.
    pub fn center_2x(&self) -> (c: Point)
        requires
            self.well_formed(),
        ensures
            (c.x as int, c.y as int) == self.center_2x_spec(),
    {
        let radius = self.size.saturating_sub(Size::new(1, 1));
        let x: i64 = 2 * (self.top_left.x as i64) + radius.width as i64;
        let y: i64 = 2 * (self.top_left.y as i64) + radius.height as i64;
        Point { x: x as i32, y: y as i32 }
    }

    pub fn bounding_box(&self) -> (r: Rectangle)
        ensures
            r == self.bounding_box_spec(),
    {
        Rectangle::new(self.top_left, self.size)
    }

    /// Whether `point` lies inside the ellipse.
    pub fn contains(&self, point: Point) -> (inside: bool)
        requires
            self.well_formed(),
            point.in_range(),
        ensures
            inside == self.contains_spec(point),
    {
        let center = self.center_2x();
        let delta = Point { x: point.x * 2 - center.x, y: point.y * 2 - center.y };
        proof {
            lemma_threshold_on_squares(self.size.width, self.size.height, delta);
        }
        size_to_threshold(
            Size::new(self.size.width * self.size.width, self.size.height * self.size.height),
            delta,
            self.size.width,
        )
    }

    /// Starts a pass over the points inside the ellipse.
    pub fn points(&self) -> (it: Points)
        requires
            self.well_formed(),
        ensures
            it.wf(),
            it.ellipse() == *self,
            it.remaining() == self.points_spec(),
    {
        Points::new(self)
    }

    /// The same ellipse moved by `by`.
    pub fn translate(&self, by: Point) -> (e: Ellipse)
        requires
            i32::MIN <= self.top_left.x + by.x <= i32::MAX,
            i32::MIN <= self.top_left.y + by.y <= i32::MAX,
        ensures
            e.size == self.size,
            e.top_left.x == self.top_left.x + by.x,
            e.top_left.y == self.top_left.y + by.y,
    {
        Ellipse {
            top_left: Point { x: self.top_left.x + by.x, y: self.top_left.y + by.y },
            size: self.size,
        }
    }

    /// Moves the ellipse by `by` in place, and hands the ellipse back.
    pub fn translate_mut(&mut self, by: Point) -> (moved: &mut Self)
        requires
            i32::MIN <= old(self).top_left.x + by.x <= i32::MAX,
            i32::MIN <= old(self).top_left.y + by.y <= i32::MAX,
        ensures
            moved.size == old(self).size,
            moved.top_left.x == old(self).top_left.x + by.x,
            moved.top_left.y == old(self).top_left.y + by.y,
            *final(self) == *final(moved),
    {
        self.top_left = Point { x: self.top_left.x + by.x, y: self.top_left.y + by.y };
        self
    }
}

/// Those of `points` that lie inside `e`, in the same order.
pub open spec fn inside_points(e: Ellipse, points: Seq<Point>) -> Seq<Point>
    decreases points.len(),
{
    if points.len() == 0 {
        Seq::empty()
    } else if e.contains_spec(points[0]) {
        seq![points[0]] + inside_points(e, points.skip(1))
    } else {
        inside_points(e, points.skip(1))
    }
}

/// A single forward pass over the points inside an ellipse.
#[derive(Copy, Clone, PartialEq, Eq, Hash, Debug)]
pub struct Points {
    ellipse: Ellipse,
    iter: crate::rectangle::Points,
}

impl Points {
    pub closed spec fn wf(self) -> bool {
        &&& self.ellipse.well_formed()
        &&& self.iter.wf()
        &&& self.iter.bounds() == self.ellipse.bounding_box_spec()
    }

    /// The ellipse whose points are enumerated.
    pub closed spec fn ellipse(self) -> Ellipse {
        self.ellipse
    }

    /// The points still to come, in the order in which `next` hands them out.
    pub closed spec fn remaining(self) -> Seq<Point> {
        inside_points(self.ellipse, self.iter.remaining())
    }

    /// A pass over all points inside `ellipse`.
    pub fn new(ellipse: &Ellipse) -> (it: Points)
        requires
            ellipse.well_formed(),
        ensures
            it.wf(),
            it.ellipse() == *ellipse,
            it.remaining() == ellipse.points_spec(),
    {
        Points { ellipse: *ellipse, iter: ellipse.bounding_box().points() }
    }

    /// A pass that is exhausted from the start.
    pub fn empty() -> (it: Points)
        ensures
            it.wf(),
            it.ellipse() == (Ellipse { top_left: Point { x: 0, y: 0 }, size: Size { width: 0, height: 0 } }),
            it.remaining() == Seq::<Point>::empty(),
    {
        let ellipse = Ellipse::new(Point::zero(), Size::zero());
        let it = Points { ellipse, iter: Rectangle::new(Point::zero(), Size::zero()).points() };
        assert(it.iter.remaining().len() == 0);
        it
    }

    /// Hands out the next point inside the ellipse, if any is left.
    pub fn next(&mut self) -> (r: Option<Point>)
        requires
            old(self).wf(),
        ensures
            final(self).wf(),
            final(self).ellipse() == old(self).ellipse(),
            r matches Some(p) ==> old(self).ellipse().bounding_box_spec().contains_spec(p),
            old(self).remaining().len() == 0 ==> r.is_none() && final(self).remaining().len() == 0,
            old(self).remaining().len() > 0 ==> r == Some(old(self).remaining()[0])
                && final(self).remaining() == old(self).remaining().skip(1),
    {
        let ellipse = self.ellipse;
        let ghost start = *self;
        loop
            invariant
                self.wf(),
                self.ellipse == ellipse,
                start == *old(self),
                start.ellipse == ellipse,
                self.remaining() == start.remaining(),
            decreases self.iter.remaining().len(),
        {
            let ghost before = self.iter.remaining();
            match self.iter.next() {
                None => {
                    return None;
                },
                Some(p) => {
                    if ellipse.contains(p) {
                        proof {
                            let rest = inside_points(ellipse, before.skip(1));
                            assert((seq![p] + rest).skip(1) =~= rest);
                        }
                        return Some(p);
                    }
                },
            }
        }
    }
}

/// A point is among the points kept by `inside_points` exactly when it is
/// among the candidates and inside the ellipse.
pub proof fn lemma_inside_points_members(e: Ellipse, points: Seq<Point>, p: Point)
    ensures
        inside_points(e, points).contains(p) <==> points.contains(p) && e.contains_spec(p),
    decreases points.len(),
{
    if points.len() > 0 {
        let rest = points.skip(1);
        lemma_inside_points_members(e, rest, p);
        let kept = inside_points(e, rest);
        if points.contains(p) {
            let i = choose|i: int| 0 <= i < points.len() && points[i] == p;
            if i > 0 {
                assert(rest[i - 1] == p);
            }
        }
        if rest.contains(p) {
            let i = choose|i: int| 0 <= i < rest.len() && rest[i] == p;
            assert(points[i + 1] == p);
        }
        if e.contains_spec(points[0]) {
            let all = seq![points[0]] + kept;
            assert(all[0] == points[0]);
            if kept.contains(p) {
                let i = choose|i: int| 0 <= i < kept.len() && kept[i] == p;
                assert(all[i + 1] == p);
            }
            if all.contains(p) {
                let i = choose|i: int| 0 <= i < all.len() && all[i] == p;
                if i > 0 {
                    assert(kept[i - 1] == p);
                }
            }
        }
    }
}

/// The containment test and the point enumeration agree: a point of the
/// bounding box is inside the ellipse exactly when the enumeration yields
/// it.
pub proof fn lemma_contains_iff_enumerated(e: Ellipse, p: Point)
    requires
        e.bounding_box_spec().contains_spec(p),
    ensures
        e.contains_spec(p) <==> e.points_spec().contains(p),
{
    lemma_points_cover(e.bounding_box_spec(), p);
    lemma_inside_points_members(e, e.bounding_box_spec().points_spec(), p);
}

/// The colour that a point of the outer ellipse is painted in: the fill
/// colour inside the inner ellipse, the stroke colour in the band around
/// it. `inner` is the size of the inner ellipse and `center` the doubled
/// centre that both ellipses share.
pub open spec fn band_color<C>(
    inner: Size,
    center: (int, int),
    fill: Option<C>,
    stroke: Option<C>,
    p: Point,
) -> Option<C> {
    if inside_spec(inner.width as int, inner.height as int, 2 * p.x - center.0, 2 * p.y - center.1) {
        fill
    } else {
        stroke
    }
}

/// The pixels that `points` give rise to, in order: each point in its band
/// colour, and no pixel where that colour is absent.
pub open spec fn band_pixels<C>(
    inner: Size,
    center: (int, int),
    fill: Option<C>,
    stroke: Option<C>,
    points: Seq<Point>,
) -> Seq<Pixel<C>>
    decreases points.len(),
{
    if points.len() == 0 {
        Seq::empty()
    } else {
        let rest = band_pixels(inner, center, fill, stroke, points.skip(1));
        match band_color(inner, center, fill, stroke, points[0]) {
            Some(color) => seq![Pixel(points[0], color)] + rest,
            None => rest,
        }
    }
}

/// Without a fill colour and a stroke colour no point becomes a pixel.
pub proof fn lemma_transparent_has_no_pixels<C>(inner: Size, center: (int, int), points: Seq<Point>)
    ensures
        band_pixels(inner, center, None::<C>, None::<C>, points) == Seq::<Pixel<C>>::empty(),
    decreases points.len(),
{
    if points.len() > 0 {
        lemma_transparent_has_no_pixels::<C>(inner, center, points.skip(1));
    }
}

impl<C: Copy> Styled<Ellipse, PrimitiveStyle<C>> {
    /// The size of the inner ellipse: the outer size less twice the
    /// effective stroke width on each axis, clamped at zero.
    pub open spec fn inner_size_spec(self) -> Size {
        let shrink = 2 * self.style.effective_stroke_width_spec();
        Size {
            width: if self.primitive.size.width >= shrink {
                (self.primitive.size.width - shrink) as u32
            } else {
                0
            },
            height: if self.primitive.size.height >= shrink {
                (self.primitive.size.height - shrink) as u32
            } else {
                0
            },
        }
    }

    /// The pixels of the styled ellipse, in the row-major order of its
    /// bounding box.
    pub open spec fn pixels_spec(self) -> Seq<Pixel<C>> {
        band_pixels(
            self.inner_size_spec(),
            self.primitive.center_2x_spec(),
            self.style.fill_color,
            self.style.stroke_color,
            self.primitive.points_spec(),
        )
    }

    /// Starts a pass over the pixels of the styled ellipse.
    pub fn into_iter(&self) -> (it: StyledEllipseIterator<C>)
        requires
            self.primitive.well_formed(),
        ensures
            it.wf(),
            it.remaining() == self.pixels_spec(),
    {
        StyledEllipseIterator::new(self)
    }
}

/// A single forward pass over the pixels of a styled ellipse.
#[derive(Copy, Clone, PartialEq, Eq, Hash, Debug)]
pub struct StyledEllipseIterator<C> {
    iter: Points,
    outer_color: Option<C>,
    /// Squares of `inner_width` and `inner_height`.
    inner_size: Size,
    inner_color: Option<C>,
    /// Doubled centre of the ellipse.
    center: Point,
    inner_width: u32,
    inner_height: u32,
}

impl<C: Copy> StyledEllipseIterator<C> {
    pub closed spec fn wf(self) -> bool {
        &&& self.iter.wf()
        &&& self.inner_width <= 0xFFFF
        &&& self.inner_height <= 0xFFFF
        &&& self.inner_size.width == self.inner_width * self.inner_width
        &&& self.inner_size.height == self.inner_height * self.inner_height
        &&& -0x2001_0000 <= self.center.x <= 0x2001_0000
        &&& -0x2001_0000 <= self.center.y <= 0x2001_0000
    }

    /// The pixels still to come, in the order in which `next` hands them out.
    pub closed spec fn remaining(self) -> Seq<Pixel<C>> {
        band_pixels(
            Size { width: self.inner_width, height: self.inner_height },
            (self.center.x as int, self.center.y as int),
            self.inner_color,
            self.outer_color,
            self.iter.remaining(),
        )
    }

    /// A pass over the pixels of `styled`. A style without any colour gives
    /// a pass that is exhausted from the start and never looks at a point.
    pub fn new(styled: &Styled<Ellipse, PrimitiveStyle<C>>) -> (it: Self)
        requires
            styled.primitive.well_formed(),
        ensures
            it.wf(),
            it.remaining() == styled.pixels_spec(),
    {
        // Without a stroke colour the stroke has no width.
        let stroke_width = styled.style.effective_stroke_width();
        let shrink: u32 = if stroke_width > 0x7FFF_FFFF {
            u32::MAX
        } else {
            2 * stroke_width
        };
        let outer_size = styled.primitive.size;
        let inner = outer_size.saturating_sub(Size::new(shrink, shrink));
        assert(inner == styled.inner_size_spec());
        assert(inner.width * inner.width <= u32::MAX) by (nonlinear_arith)
            requires
                inner.width <= 0xFFFF,
        ;
        assert(inner.height * inner.height <= u32::MAX) by (nonlinear_arith)
            requires
                inner.height <= 0xFFFF,
        ;
        let inner_size = Size::new(inner.width * inner.width, inner.height * inner.height);
        let iter = if !styled.style.is_transparent() {
            Points::new(&styled.primitive)
        } else {
            proof {
                lemma_transparent_has_no_pixels::<C>(
                    inner,
                    styled.primitive.center_2x_spec(),
                    styled.primitive.points_spec(),
                );
            }
            Points::empty()
        };
        StyledEllipseIterator {
            iter,
            outer_color: styled.style.stroke_color,
            inner_size,
            inner_color: styled.style.fill_color,
            center: styled.primitive.center_2x(),
            inner_width: inner.width,
            inner_height: inner.height,
        }
    }

    /// Hands out the next pixel, if any is left.
    pub fn next(&mut self) -> (r: Option<Pixel<C>>)
        requires
            old(self).wf(),
        ensures
            final(self).wf(),
            old(self).remaining().len() == 0 ==> r.is_none() && final(self).remaining().len() == 0,
            old(self).remaining().len() > 0 ==> r == Some(old(self).remaining()[0])
                && final(self).remaining() == old(self).remaining().skip(1),
    {
        let inner_size = self.inner_size;
        let inner_color = self.inner_color;
        let outer_color = self.outer_color;
        let center = self.center;
        let inner_width = self.inner_width;
        let ghost start = *self;
        loop
            invariant
                self.wf(),
                start == *old(self),
                self.remaining() == start.remaining(),
                inner_size == self.inner_size,
                inner_color == self.inner_color,
                outer_color == self.outer_color,
                center == self.center,
                inner_width == self.inner_width,
            decreases self.iter.remaining().len(),
        {
            let ghost before = self.iter.remaining();
            match self.iter.next() {
                None => {
                    return None;
                },
                Some(point) => {
                    let delta = Point { x: point.x * 2 - center.x, y: point.y * 2 - center.y };
                    proof {
                        lemma_threshold_on_squares(self.inner_width, self.inner_height, delta);
                    }
                    let color = if size_to_threshold(inner_size, delta, inner_width) {
                        inner_color
                    } else {
                        outer_color
                    };
                    match color {
                        Some(color) => {
                            proof {
                                let rest = band_pixels(
                                    Size { width: self.inner_width, height: self.inner_height },
                                    (center.x as int, center.y as int),
                                    inner_color,
                                    outer_color,
                                    before.skip(1),
                                );
                                assert((seq![Pixel(point, color)] + rest).skip(1) =~= rest);
                            }
                            return Some(Pixel(point, color));
                        },
                        None => {},
                    }
                },
            }
        }
    }
}

/// An ellipse without width or without height has no points, and no pixels
/// in any style.
pub proof fn lemma_degenerate_ellipse_is_empty<C: Copy>(styled: Styled<Ellipse, PrimitiveStyle<C>>)
    requires
        styled.primitive.size.width == 0 || styled.primitive.size.height == 0,
    ensures
        styled.primitive.points_spec() == Seq::<Point>::empty(),
        styled.pixels_spec() == Seq::<Pixel<C>>::empty(),
{
    let size = styled.primitive.size;
    assert(size.width * size.height == 0) by (nonlinear_arith)
        requires
            size.width == 0 || size.height == 0,
    ;
    assert(styled.primitive.bounding_box_spec().points_spec().len() == 0);
}

/// A style without a stroke colour and without a fill colour gives no
/// pixels.
pub proof fn lemma_transparent_ellipse_is_empty<C: Copy>(styled: Styled<Ellipse, PrimitiveStyle<C>>)
    requires
        styled.style.is_transparent_spec(),
    ensures
        styled.pixels_spec() == Seq::<Pixel<C>>::empty(),
{
    lemma_transparent_has_no_pixels::<C>(
        styled.inner_size_spec(),
        styled.primitive.center_2x_spec(),
        styled.primitive.points_spec(),
    );
}

/// Moving an ellipse moves its points along: the moved ellipse contains a
/// moved point exactly when the ellipse contains the point.
pub proof fn lemma_translate_moves_points(e: Ellipse, moved: Ellipse, by: Point, p: Point, q: Point)
    requires
        moved.size == e.size,
        moved.top_left.x == e.top_left.x + by.x,
        moved.top_left.y == e.top_left.y + by.y,
        q.x == p.x + by.x,
        q.y == p.y + by.y,
    ensures
        moved.contains_spec(q) == e.contains_spec(p),
        moved.bounding_box_spec().contains_spec(q) == e.bounding_box_spec().contains_spec(p),
{
}

/// An ellipse made around a centre has that centre.
pub proof fn lemma_with_center_is_centered(center: Point, e: Ellipse)
    requires
        e.top_left.x == center.x - (if e.size.width == 0 { 0int } else { (e.size.width - 1) / 2 }),
        e.top_left.y == center.y - (if e.size.height == 0 { 0int } else { (e.size.height - 1) / 2 }),
    ensures
        e.bounding_box_spec().center_spec() == (center.x as int, center.y as int),
{
}

/// Whether `p` lies inside the circle of the given diameter whose bounding
/// box starts at `top_left`: the squared distance from the doubled centre
/// is below the circle's threshold.
pub open spec fn circle_contains_spec(top_left: Point, diameter: u32, p: Point) -> bool {
    let radius = if diameter == 0 { 0int } else { diameter - 1 };
    let dx = 2 * top_left.x + radius - 2 * p.x;
    let dy = 2 * top_left.y + radius - 2 * p.y;
    dx * dx + dy * dy < circle_threshold(diameter as int)
}

/// The colour that a styled circle gives `p`: the fill colour inside the
/// circle shrunk by the stroke, the stroke colour in the rest of the circle
/// and none outside it.
pub open spec fn circle_band_color<C>(
    top_left: Point,
    diameter: u32,
    style: PrimitiveStyle<C>,
    p: Point,
) -> Option<C> {
    let radius = if diameter == 0 { 0int } else { diameter - 1 };
    let dx = 2 * top_left.x + radius - 2 * p.x;
    let dy = 2 * top_left.y + radius - 2 * p.y;
    let shrink = 2 * (if style.stroke_color.is_none() { 0int } else { style.stroke_width as int });
    let inner = if diameter >= shrink { diameter - shrink } else { 0int };
    if dx * dx + dy * dy < circle_threshold(inner) {
        style.fill_color
    } else if dx * dx + dy * dy < circle_threshold(diameter as int) {
        style.stroke_color
    } else {
        None
    }
}

/// An ellipse as wide as it is high contains exactly the points of the
/// circle of that diameter, and paints each of them as the circle does.
pub proof fn lemma_square_ellipse_is_circle<C: Copy>(
    top_left: Point,
    diameter: u32,
    style: PrimitiveStyle<C>,
    p: Point,
)
    ensures
        ({
            let e = Ellipse { top_left, size: Size { width: diameter, height: diameter } };
            let styled = Styled { primitive: e, style };
            &&& e.contains_spec(p) == circle_contains_spec(top_left, diameter, p)
            &&& e.contains_spec(p) ==> band_color(
                styled.inner_size_spec(),
                e.center_2x_spec(),
                style.fill_color,
                style.stroke_color,
                p,
            ) == circle_band_color(top_left, diameter, style, p)
        }),
{
    let radius = if diameter == 0 { 0int } else { diameter - 1 };
    let dx = 2 * top_left.x + radius - 2 * p.x;
    let dy = 2 * top_left.y + radius - 2 * p.y;
    assert((-dx) * (-dx) == dx * dx) by (nonlinear_arith);
    assert((-dy) * (-dy) == dy * dy) by (nonlinear_arith);
    assert(2 * p.x - (2 * top_left.x + radius) == -dx);
    assert(2 * p.y - (2 * top_left.y + radius) == -dy);
}

/// Those of `points` that lie inside the circle, in the same order.
pub open spec fn circle_points(top_left: Point, diameter: u32, points: Seq<Point>) -> Seq<Point>
    decreases points.len(),
{
    if points.len() == 0 {
        Seq::empty()
    } else if circle_contains_spec(top_left, diameter, points[0]) {
        seq![points[0]] + circle_points(top_left, diameter, points.skip(1))
    } else {
        circle_points(top_left, diameter, points.skip(1))
    }
}

/// The pixels that a styled circle makes of `points`, in order.
pub open spec fn circle_pixels<C>(
    top_left: Point,
    diameter: u32,
    style: PrimitiveStyle<C>,
    points: Seq<Point>,
) -> Seq<Pixel<C>>
    decreases points.len(),
{
    if points.len() == 0 {
        Seq::empty()
    } else {
        let rest = circle_pixels(top_left, diameter, style, points.skip(1));
        match circle_band_color(top_left, diameter, style, points[0]) {
            Some(color) => seq![Pixel(points[0], color)] + rest,
            None => rest,
        }
    }
}

/// A smaller circle has a smaller threshold.
pub proof fn lemma_circle_threshold_grows(inner: int, outer: int)
    requires
        0 <= inner <= outer,
    ensures
        circle_threshold(inner) <= circle_threshold(outer),
{
    assert(inner * inner <= outer * outer) by (nonlinear_arith)
        requires
            0 <= inner <= outer,
    ;
    if inner <= 4 && outer > 4 {
        assert(inner * inner >= 0) by (nonlinear_arith);
    }
    if outer <= 4 {
        assert(inner == 0 || inner == 1 || inner == 2 || inner == 3 || inner == 4);
        assert(outer == 0 || outer == 1 || outer == 2 || outer == 3 || outer == 4);
    }
}

/// Point by point, and pixel by pixel, an ellipse as wide as it is high
/// gives what the circle of that diameter gives in the same style, whatever
/// candidates the two are handed.
pub proof fn lemma_square_ellipse_sequences<C: Copy>(
    top_left: Point,
    diameter: u32,
    style: PrimitiveStyle<C>,
    points: Seq<Point>,
)
    ensures
        ({
            let e = Ellipse { top_left, size: Size { width: diameter, height: diameter } };
            let styled = Styled { primitive: e, style };
            &&& inside_points(e, points) == circle_points(top_left, diameter, points)
            &&& band_pixels(
                styled.inner_size_spec(),
                e.center_2x_spec(),
                style.fill_color,
                style.stroke_color,
                inside_points(e, points),
            ) == circle_pixels(top_left, diameter, style, points)
        }),
    decreases points.len(),
{
    let e = Ellipse { top_left, size: Size { width: diameter, height: diameter } };
    let styled = Styled { primitive: e, style };
    if points.len() > 0 {
        let p = points[0];
        let rest = points.skip(1);
        lemma_square_ellipse_sequences(top_left, diameter, style, rest);
        lemma_square_ellipse_is_circle(top_left, diameter, style, p);
        if e.contains_spec(p) {
            let kept = seq![p] + inside_points(e, rest);
            assert(kept[0] == p);
            assert(kept.skip(1) =~= inside_points(e, rest));
        } else {
            lemma_circle_threshold_grows(styled.inner_size_spec().width as int, diameter as int);
        }
    }
}

/// The points and the pixels of an ellipse as wide as it is high are those
/// of the circle of that diameter over the same bounding box, in any style.
pub proof fn lemma_square_ellipse_equals_circle<C: Copy>(
    top_left: Point,
    diameter: u32,
    style: PrimitiveStyle<C>,
)
    ensures
        ({
            let e = Ellipse { top_left, size: Size { width: diameter, height: diameter } };
            let styled = Styled { primitive: e, style };
            let candidates = e.bounding_box_spec().points_spec();
            &&& e.points_spec() == circle_points(top_left, diameter, candidates)
            &&& styled.pixels_spec() == circle_pixels(top_left, diameter, style, candidates)
        }),
{
    let e = Ellipse { top_left, size: Size { width: diameter, height: diameter } };
    lemma_square_ellipse_sequences(top_left, diameter, style, e.bounding_box_spec().points_spec());
}

} // verus!
