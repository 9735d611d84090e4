//! World-space geometry of the canvas.
//!
//! Coordinates are whole logical units held in `i64`. Every coordinate that the
//! library accepts lies within `COORD_LIMIT` in magnitude, the range in which a
//! double also holds each integer exactly, so sums and differences of two
//! coordinates never leave the range of `i64`.
use vstd::prelude::*;

verus! {

/// Largest magnitude of a coordinate or extent that the library accepts (2^52).
pub const COORD_LIMIT: i64 = 4503599627370496;

/// A coordinate or extent that the library's arithmetic accepts.
pub open spec fn coord_ok(v: int) -> bool {
    -COORD_LIMIT <= v <= COORD_LIMIT
}

/// A point in world or screen space.
#[derive(Debug, Clone, Copy, PartialEq, Eq, Structural)]
pub struct Point {
    pub x: i64,
    pub y: i64,
}

/// A displacement between two points.
#[derive(Debug, Clone, Copy, PartialEq, Eq, Structural)]
pub struct Vec2 {
    pub x: i64,
    pub y: i64,
}

/// A width and a height.
#[derive(Debug, Clone, Copy, PartialEq, Eq, Structural)]
pub struct Size {
    pub w: i64,
    pub h: i64,
}

/// An axis-aligned rectangle given by its top-left corner and its size.
#[derive(Debug, Clone, Copy, PartialEq, Eq, Structural)]
pub struct Rect {
    pub origin: Point,
    pub size: Size,
}

impl Point {
    pub open spec fn ok(self) -> bool {
        coord_ok(self.x as int) && coord_ok(self.y as int)
    }

    pub fn new(x: i64, y: i64) -> (p: Point)
        ensures
            p.x == x,
            p.y == y,
    {
        Point { x, y }
    }

    /// The displacement that leads from `other` to `self`.
    pub fn minus(self, other: Point) -> (d: Vec2)
        requires
            self.ok(),
            other.ok(),
        ensures
            d.x == self.x - other.x,
            d.y == self.y - other.y,
    {
        Vec2 { x: self.x - other.x, y: self.y - other.y }
    }
}

impl Vec2 {
    pub open spec fn ok(self) -> bool {
        coord_ok(self.x as int) && coord_ok(self.y as int)
    }

    pub fn new(x: i64, y: i64) -> (v: Vec2)
        ensures
            v.x == x,
            v.y == y,
    {
        Vec2 { x, y }
    }
}

impl Size {
    pub open spec fn ok(self) -> bool {
        coord_ok(self.w as int) && coord_ok(self.h as int)
    }

    pub fn new(w: i64, h: i64) -> (s: Size)
        ensures
            s.w == w,
            s.h == h,
    {
        Size { w, h }
    }
}

impl Rect {
    pub open spec fn ok(self) -> bool {
        self.origin.ok() && self.size.ok()
    }

    /// Right edge (exclusive) of the rectangle.
    pub open spec fn right(self) -> int {
        self.origin.x + self.size.w
    }

    /// Bottom edge (exclusive) of the rectangle.
    pub open spec fn bottom(self) -> int {
        self.origin.y + self.size.h
    }

    pub fn new(x: i64, y: i64, w: i64, h: i64) -> (r: Rect)
        ensures
            r.origin.x == x,
            r.origin.y == y,
            r.size.w == w,
            r.size.h == h,
    {
        Rect { origin: Point { x, y }, size: Size { w, h } }
    }
}

} // verus!
