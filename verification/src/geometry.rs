//! Points and sizes on the integer pixel grid.

use vstd::prelude::*;

verus! {

/// Largest absolute coordinate for which doubled-resolution arithmetic on
/// points stays inside `i32` (2^28).
pub const MAX_COORDINATE: i32 = 0x1000_0000;

/// Largest width or height whose square still fits in `u32`.
pub const MAX_DIMENSION: u32 = 0xFFFF;

/// A signed 2D coordinate, used both for geometry and as a pixel address.
#[derive(Copy, Clone, PartialEq, Eq, Hash, Debug, Default, Structural)]
pub struct Point {
    pub x: i32,
    pub y: i32,
}

/// An unsigned extent. Zero is a valid width or height and denotes an empty
/// extent.
#[derive(Copy, Clone, PartialEq, Eq, Hash, Debug, Default, Structural)]
pub struct Size {
    pub width: u32,
    pub height: u32,
}

impl Point {
    /// Both coordinates lie within `MAX_COORDINATE` of the origin.
    pub open spec fn in_range(self) -> bool {
        &&& -MAX_COORDINATE <= self.x <= MAX_COORDINATE
        &&& -MAX_COORDINATE <= self.y <= MAX_COORDINATE
    }

    pub fn new(x: i32, y: i32) -> (p: Point)
        ensures
            p == (Point { x, y }),
    {
        Point { x, y }
    }

    /// Tells whether both coordinates lie within `MAX_COORDINATE` of the
    /// origin.
    pub fn is_in_range(&self) -> (b: bool)
        ensures
            b == self.in_range(),
    {
        -MAX_COORDINATE <= self.x && self.x <= MAX_COORDINATE && -MAX_COORDINATE <= self.y
            && self.y <= MAX_COORDINATE
    }

    /// The origin.
    pub fn zero() -> (p: Point)
        ensures
            p == (Point { x: 0, y: 0 }),
    {
        Point { x: 0, y: 0 }
    }
}

impl Size {
    /// Both extents are at most `MAX_DIMENSION`.
    pub open spec fn in_range(self) -> bool {
        self.width <= MAX_DIMENSION && self.height <= MAX_DIMENSION
    }

    pub fn new(width: u32, height: u32) -> (s: Size)
        ensures
            s == (Size { width, height }),
    {
        Size { width, height }
    }

    /// The empty extent.
    pub fn zero() -> (s: Size)
        ensures
            s == (Size { width: 0, height: 0 }),
    {
        Size { width: 0, height: 0 }
    }

    /// Component-wise subtraction that clamps at zero.
    pub open spec fn saturating_sub_spec(self, other: Size) -> Size {
        Size {
            width: if self.width >= other.width {
                (self.width - other.width) as u32
            } else {
                0
            },
            height: if self.height >= other.height {
                (self.height - other.height) as u32
            } else {
                0
            },
        }
    }

    /// Component-wise subtraction that clamps at zero instead of
    /// underflowing.
    pub fn saturating_sub(self, other: Size) -> (s: Size)
        ensures
            s == self.saturating_sub_spec(other),
    {
        Size {
            width: if self.width >= other.width {
                self.width - other.width
            } else {
                0
            },
            height: if self.height >= other.height {
                self.height - other.height
            } else {
                0
            },
        }
    }
}

} // verus!
