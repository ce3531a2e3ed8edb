use vstd::prelude::*;

verus! {

/// A point of the world, in world units.
#[derive(Clone, Copy, PartialEq, Eq, Structural, Debug, Default)]
pub struct Point2D {
    pub x: i32,
    pub y: i32,
}

/// A displacement between two points of the world.
#[derive(Clone, Copy, PartialEq, Eq, Structural, Debug, Default)]
pub struct Vector2D {
    pub x: i32,
    pub y: i32,
}

/// A width and a height.
#[derive(Clone, Copy, PartialEq, Eq, Structural, Debug, Default)]
pub struct Size2D {
    pub width: i32,
    pub height: i32,
}

/// An axis-aligned rectangle: its top-left corner and its size.
#[derive(Clone, Copy, PartialEq, Eq, Structural, Debug, Default)]
pub struct Rect {
    pub origin: Point2D,
    pub size: Size2D,
}

impl Point2D {
    pub fn new(x: i32, y: i32) -> (p: Point2D)
        ensures
            p.x == x,
            p.y == y,
    {
        Point2D { x, y }
    }
}

impl Vector2D {
    pub fn new(x: i32, y: i32) -> (v: Vector2D)
        ensures
            v.x == x,
            v.y == y,
    {
        Vector2D { x, y }
    }
}

impl Size2D {
    pub fn new(width: i32, height: i32) -> (s: Size2D)
        ensures
            s.width == width,
            s.height == height,
    {
        Size2D { width, height }
    }
}

impl Rect {
    /// The right edge (excluded).
    pub open spec fn max_x_spec(self) -> int {
        self.origin.x + self.size.width
    }

    /// The bottom edge (excluded).
    pub open spec fn max_y_spec(self) -> int {
        self.origin.y + self.size.height
    }

    /// Both edges fit in an `i32`.
    pub open spec fn fits(self) -> bool {
        i32::MIN <= self.max_x_spec() <= i32::MAX && i32::MIN <= self.max_y_spec() <= i32::MAX
    }

    /// The two rectangles overlap on an area of non-zero width and height.
    pub open spec fn intersects_spec(self, other: Rect) -> bool {
        &&& self.origin.x < other.max_x_spec()
        &&& self.max_x_spec() > other.origin.x
        &&& self.origin.y < other.max_y_spec()
        &&& self.max_y_spec() > other.origin.y
    }

    /// The point lies inside, the left and top edges included, the right
    /// and bottom edges excluded.
    pub open spec fn contains_spec(self, p: Point2D) -> bool {
        &&& self.origin.x <= p.x < self.max_x_spec()
        &&& self.origin.y <= p.y < self.max_y_spec()
    }

    pub fn new(origin: Point2D, size: Size2D) -> (r: Rect)
        ensures
            r.origin == origin,
            r.size == size,
    {
        Rect { origin, size }
    }

    /// The smallest rectangle with both points as corners.
    pub fn from_points(a: Point2D, b: Point2D) -> (r: Rect)
        requires
            i32::MIN <= b.x - a.x <= i32::MAX,
            i32::MIN <= a.x - b.x <= i32::MAX,
            i32::MIN <= b.y - a.y <= i32::MAX,
            i32::MIN <= a.y - b.y <= i32::MAX,
        ensures
            r.origin.x == if a.x <= b.x { a.x } else { b.x },
            r.origin.y == if a.y <= b.y { a.y } else { b.y },
            r.max_x_spec() == if a.x <= b.x { b.x } else { a.x },
            r.max_y_spec() == if a.y <= b.y { b.y } else { a.y },
    {
        let min_x = if b.x < a.x { b.x } else { a.x };
        let max_x = if b.x > a.x { b.x } else { a.x };
        let min_y = if b.y < a.y { b.y } else { a.y };
        let max_y = if b.y > a.y { b.y } else { a.y };
        Rect { origin: Point2D { x: min_x, y: min_y }, size: Size2D { width: max_x - min_x, height: max_y - min_y } }
    }

    pub fn max_x(&self) -> (x: i32)
        requires
            self.fits(),
        ensures
            x == self.max_x_spec(),
    {
        self.origin.x + self.size.width
    }

    pub fn max_y(&self) -> (y: i32)
        requires
            self.fits(),
        ensures
            y == self.max_y_spec(),
    {
        self.origin.y + self.size.height
    }

    pub fn intersects(&self, other: &Rect) -> (b: bool)
        requires
            self.fits(),
            other.fits(),
        ensures
            b == self.intersects_spec(*other),
    {
        (self.origin.x < other.max_x()) && (self.max_x() > other.origin.x) && (self.origin.y
            < other.max_y()) && (self.max_y() > other.origin.y)
    }

    pub fn contains(&self, p: Point2D) -> (b: bool)
        requires
            self.fits(),
        ensures
            b == self.contains_spec(p),
    {
        (self.origin.x <= p.x) && (p.x < self.max_x()) && (self.origin.y <= p.y) && (p.y
            < self.max_y())
    }
}

} // verus!
