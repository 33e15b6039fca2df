//! Map-space points and axis-aligned rectangles spanned by two corners.
use vstd::prelude::*;

verus! {

/// A point in map or screen coordinates.
#[derive(Clone, Copy, Debug, PartialEq, Eq, Structural)]
pub struct Point {
    pub x: i32,
    pub y: i32,
}

impl Point {
    /// The point `(x, y)`.
    pub fn new(x: i32, y: i32) -> (p: Point)
        ensures
            p == (Point { x, y }),
    {
        Point { x, y }
    }
}

/// The rectangle spanned by the corners `(x1, y1)` and `(x2, y2)`.
#[derive(Clone, Copy, Debug, PartialEq, Eq, Structural)]
pub struct Rectangle {
    pub x1: i32,
    pub y1: i32,
    pub x2: i32,
    pub y2: i32,
}

impl Rectangle {
    /// Whether `(x, y)` lies in the rectangle, both corners included.
    pub open spec fn spec_contains(self, x: int, y: int) -> bool {
        self.x1 <= x <= self.x2 && self.y1 <= y <= self.y2
    }

    /// The rectangle with first corner `p1` and second corner `p2`.
    pub fn new_from_points(p1: (i32, i32), p2: (i32, i32)) -> (r: Rectangle)
        ensures
            r == (Rectangle { x1: p1.0, y1: p1.1, x2: p2.0, y2: p2.1 }),
    {
        Rectangle { x1: p1.0, y1: p1.1, x2: p2.0, y2: p2.1 }
    }

    /// Whether `p` lies in the rectangle, its edges included.
    pub fn contains_point(&self, p: &Point) -> (r: bool)
        ensures
            r == self.spec_contains(p.x as int, p.y as int),
    {
        self.x1 <= p.x && p.x <= self.x2 && self.y1 <= p.y && p.y <= self.y2
    }
}

} // verus!
