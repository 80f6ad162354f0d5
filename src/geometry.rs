//! Axis-aligned rectangles and points in integer world space.
use vstd::prelude::*;

verus! {

/// A point in world space.
#[derive(Clone, Copy, Debug, PartialEq, Eq, Structural)]
pub struct Point {
    pub x: i64,
    pub y: i64,
}

/// An axis-aligned rectangle; both edges belong to it.
#[derive(Clone, Copy, Debug, PartialEq, Eq, Structural)]
pub struct Rect {
    pub min_x: i64,
    pub min_y: i64,
    pub max_x: i64,
    pub max_y: i64,
}

impl Rect {
    /// `p` lies in the closed rectangle.
    pub open spec fn contains_spec(self, p: Point) -> bool {
        &&& self.min_x <= p.x <= self.max_x
        &&& self.min_y <= p.y <= self.max_y
    }

    /// `p` lies strictly inside the rectangle, off its edges.
    pub open spec fn interior_contains(self, p: Point) -> bool {
        &&& self.min_x < p.x < self.max_x
        &&& self.min_y < p.y < self.max_y
    }

    /// The area of a rectangle whose corners are ordered.
    pub open spec fn area(self) -> int {
        (self.max_x - self.min_x) * (self.max_y - self.min_y)
    }

    /// Whether `p` lies in the rectangle, edges included.
    pub fn contains(&self, p: Point) -> (r: bool)
        ensures
            r == self.contains_spec(p),
    {
        self.min_x <= p.x && p.x <= self.max_x && self.min_y <= p.y && p.y <= self.max_y
    }
}

} // verus!
