use vstd::prelude::*;

verus! {

/// An integer point in widget coordinates.
#[derive(Debug, Clone, Copy, PartialEq, Eq, Structural)]
pub struct Point {
    pub x: i32,
    pub y: i32,
}

/// An integer size.
#[derive(Debug, Clone, Copy, PartialEq, Eq, Structural)]
pub struct Size {
    pub width: i32,
    pub height: i32,
}

/// Space kept free inside a rectangle's edges.
#[derive(Debug, Clone, Copy, PartialEq, Eq, Structural)]
pub struct Margins {
    pub left: i32,
    pub top: i32,
    pub right: i32,
    pub bottom: i32,
}

impl Margins {
    /// The margins `left`, `top`, `right`, `bottom`.
    pub fn new(left: i32, top: i32, right: i32, bottom: i32) -> (r: Self)
        ensures
            r == (Margins { left, top, right, bottom }),
    {
        Margins { left, top, right, bottom }
    }
}

/// An integer rectangle: origin plus extent.
#[derive(Debug, Clone, Copy, PartialEq, Eq, Structural)]
pub struct Rect {
    pub x: i32,
    pub y: i32,
    pub width: i32,
    pub height: i32,
}

impl Point {
    /// The point `(x, y)`.
    pub fn new(x: i32, y: i32) -> (r: Self)
        ensures
            r == (Point { x, y }),
    {
        Point { x, y }
    }
}

impl Size {
    /// The size `width` by `height`.
    pub fn new(width: i32, height: i32) -> (r: Self)
        ensures
            r == (Size { width, height }),
    {
        Size { width, height }
    }
}

impl Rect {
    /// The rectangle at `(x, y)` of the given extent.
    pub fn new(x: i32, y: i32, width: i32, height: i32) -> (r: Self)
        ensures
            r == (Rect { x, y, width, height }),
    {
        Rect { x, y, width, height }
    }

    /// Whether `p` lies inside the rectangle (right and bottom edges excluded).
    pub open spec fn spec_contains(&self, p: Point) -> bool {
        self.x <= p.x < self.x + self.width && self.y <= p.y < self.y + self.height
    }

    /// Whether `p` lies inside the rectangle (right and bottom edges excluded).
    pub fn contains(&self, p: Point) -> (r: bool)
        ensures
            r == self.spec_contains(p),
    {
        let px = p.x as i64;
        let py = p.y as i64;
        (self.x as i64) <= px && px < self.x as i64 + self.width as i64 && (self.y as i64) <= py
            && py < self.y as i64 + self.height as i64
    }
}

} // verus!
