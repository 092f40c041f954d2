//! Axis-aligned rectangles and the row-major enumeration of their points.

use vstd::prelude::*;
use vstd::arithmetic::div_mod::lemma_fundamental_div_mod_converse;
use vstd::arithmetic::mul::lemma_mul_is_distributive_add_other_way;
use crate::geometry::{Point, Size};

verus! {

/// The half-open box `[top_left, top_left + size)`.
#[derive(Copy, Clone, PartialEq, Eq, Hash, Debug, Default, Structural)]
pub struct Rectangle {
    pub top_left: Point,
    pub size: Size,
}

/// The `index`-th point, in row-major order, of a box `width` wide whose
/// top-left corner is `(left, top)`.
pub open spec fn point_at(left: int, top: int, width: int, index: int) -> Point {
    Point { x: (left + index % width) as i32, y: (top + index / width) as i32 }
}

impl Rectangle {
    /// Every point of the box is addressable with `i32` coordinates.
    pub open spec fn fits(self) -> bool {
        &&& self.top_left.x + self.size.width <= 0x8000_0000
        &&& self.top_left.y + self.size.height <= 0x8000_0000
    }

    /// Whether `p` lies inside the box.
    pub open spec fn contains_spec(self, p: Point) -> bool {
        &&& self.top_left.x <= p.x < self.top_left.x + self.size.width
        &&& self.top_left.y <= p.y < self.top_left.y + self.size.height
    }

    /// Number of points in the box.
    pub open spec fn area(self) -> int {
        self.size.width * self.size.height
    }

    /// All points of the box: top to bottom, and left to right within a row.
    /// Empty when the width or the height is zero.
    pub open spec fn points_spec(self) -> Seq<Point> {
        Seq::new(
            self.area() as nat,
            |k: int| point_at(self.top_left.x as int, self.top_left.y as int, self.size.width as int, k),
        )
    }

    /// The centre of the box, rounded towards the top-left corner.
    pub open spec fn center_spec(self) -> (int, int) {
        (
            self.top_left.x + (if self.size.width == 0 { 0int } else { (self.size.width - 1) / 2 }),
            self.top_left.y + (if self.size.height == 0 { 0int } else { (self.size.height - 1) / 2 }),
        )
    }

    pub fn new(top_left: Point, size: Size) -> (r: Rectangle)
        ensures
            r == (Rectangle { top_left, size }),
    {
        Rectangle { top_left, size }
    }

    /// The centre of the box, rounded towards the top-left corner.
    pub fn center(&self) -> (c: Point)
        requires
            self.fits(),
        ensures
            (c.x as int, c.y as int) == self.center_spec(),
    {
        let off_x: u32 = if self.size.width == 0 { 0 } else { (self.size.width - 1) / 2 };
        let off_y: u32 = if self.size.height == 0 { 0 } else { (self.size.height - 1) / 2 };
        let x: i64 = self.top_left.x as i64 + off_x as i64;
        let y: i64 = self.top_left.y as i64 + off_y as i64;
        Point { x: x as i32, y: y as i32 }
    }

    /// Starts a row-major pass over the points of the box.
    pub fn points(&self) -> (it: Points)
        requires
            self.fits(),
        ensures
            it.wf(),
            it.bounds() == *self,
            it.remaining() == self.points_spec(),
    {
        let empty = self.size.width == 0 || self.size.height == 0;
        proof {
            if self.size.width == 0 {
                assert(self.size.height * 0 == 0) by (nonlinear_arith);
            }
            assert(self.size.width * self.size.height == self.size.height * self.size.width)
                by (nonlinear_arith);
        }
        Points {
            left: self.top_left.x,
            top: self.top_left.y,
            width: self.size.width,
            height: self.size.height,
            column: 0,
            row: if empty { self.size.height } else { 0 },
        }
    }
}

/// A single forward pass over the points of a rectangle, row by row.
#[derive(Copy, Clone, PartialEq, Eq, Hash, Debug)]
pub struct Points {
    left: i32,
    top: i32,
    width: u32,
    height: u32,
    column: u32,
    row: u32,
}

impl Points {
    /// The cursor is either on a point of the box or just past its last row.
    pub closed spec fn wf(self) -> bool {
        &&& self.left + self.width <= 0x8000_0000
        &&& self.top + self.height <= 0x8000_0000
        &&& (self.row < self.height && self.column < self.width) || (self.row == self.height
            && self.column == 0)
    }

    /// The rectangle that the pass runs over.
    pub closed spec fn bounds(self) -> Rectangle {
        Rectangle {
            top_left: Point { x: self.left, y: self.top },
            size: Size { width: self.width, height: self.height },
        }
    }

    /// Row-major index of the cursor.
    pub closed spec fn index(self) -> int {
        self.row * self.width + self.column
    }

    /// The points still to come, in the order in which `next` hands them out.
    pub closed spec fn remaining(self) -> Seq<Point> {
        Seq::new(
            (self.height * self.width - self.index()) as nat,
            |k: int| point_at(self.left as int, self.top as int, self.width as int, self.index() + k),
        )
    }

    /// Hands out the next point of the pass, if any is left.
    pub fn next(&mut self) -> (r: Option<Point>)
        requires
            old(self).wf(),
        ensures
            final(self).wf(),
            final(self).bounds() == old(self).bounds(),
            r matches Some(p) ==> old(self).bounds().contains_spec(p),
            old(self).remaining().len() == 0 ==> r.is_none() && final(self).remaining().len() == 0,
            old(self).remaining().len() > 0 ==> r == Some(old(self).remaining()[0])
                && final(self).remaining() == old(self).remaining().skip(1),
    {
        let ghost w = self.width as int;
        let ghost row = self.row as int;
        let ghost col = self.column as int;
        if self.row >= self.height {
            return None;
        }
        proof {
            lemma_mul_is_distributive_add_other_way(w, row, 1);
            lemma_mul_is_distributive_add_other_way(w, self.height - row - 1, row + 1);
            assert((self.height - row - 1) * w >= 0) by (nonlinear_arith)
                requires
                    self.height - row - 1 >= 0,
                    w >= 0,
            ;
            lemma_fundamental_div_mod_converse(row * w + col, w, row, col);
        }
        let x: i64 = self.left as i64 + self.column as i64;
        let y: i64 = self.top as i64 + self.row as i64;
        let p = Point { x: x as i32, y: y as i32 };
        if self.column + 1 >= self.width {
            self.column = 0;
            self.row = self.row + 1;
        } else {
            self.column = self.column + 1;
        }
        proof {
            assert(self.index() == old(self).index() + 1);
            assert(self.remaining() =~= old(self).remaining().skip(1));
        }
        Some(p)
    }
}

/// Every point inside a rectangle occurs in its row-major enumeration.
pub proof fn lemma_points_cover(r: Rectangle, p: Point)
    requires
        r.contains_spec(p),
    ensures
        r.points_spec().contains(p),
{
    let w = r.size.width as int;
    let col = p.x - r.top_left.x;
    let row = p.y - r.top_left.y;
    let k = row * w + col;
    lemma_fundamental_div_mod_converse(k, w, row, col);
    let h = r.size.height as int;
    assert(0 <= row * w + col < w * h) by (nonlinear_arith)
        requires
            0 <= row < h,
            0 <= col < w,
    ;
    assert(0 <= k < r.area());
    assert(r.points_spec()[k] == p);
}

/// Every point of the row-major enumeration lies inside the rectangle.
pub proof fn lemma_points_inside(r: Rectangle, k: int)
    requires
        r.fits(),
        0 <= k < r.points_spec().len(),
    ensures
        r.contains_spec(r.points_spec()[k]),
{
    let w = r.size.width as int;
    let h = r.size.height as int;
    assert(w > 0) by (nonlinear_arith)
        requires
            0 <= k < w * h,
            w >= 0,
    ;
    vstd::arithmetic::div_mod::lemma_fundamental_div_mod(k, w);
    vstd::arithmetic::div_mod::lemma_mod_bound(k, w);
    assert(0 <= k / w < h) by (nonlinear_arith)
        requires
            0 <= k < w * h,
            w > 0,
            k == w * (k / w) + k % w,
            0 <= k % w < w,
    ;
}

} // verus!
