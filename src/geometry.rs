use vstd::prelude::*;

verus! {

/// Screen positions are fixed-point: one pixel is this many units on each axis.
pub const SUBPIXEL_UNITS: i64 = 16;

/// Largest magnitude a screen coordinate may have, in subpixel units.
pub const COORD_LIMIT: i64 = 1048576;

/// Largest magnitude a component of a difference of two screen points may have.
pub const DIFF_LIMIT: i64 = 2097152;

/// |a * b| <= la * lb whenever |a| <= la and |b| <= lb.
pub proof fn lemma_mul_abs_bound(a: int, b: int, la: int, lb: int)
    requires
        -la <= a <= la,
        -lb <= b <= lb,
    ensures
        -(la * lb) <= a * b <= la * lb,
{
    assert(-(la * lb) <= a * b <= la * lb) by (nonlinear_arith)
        requires
            -la <= a <= la,
            -lb <= b <= lb,
    ;
}

/// A point (or offset) on the screen, in subpixel units.
#[derive(Debug, Clone, Copy, PartialEq, Eq, Structural)]
pub struct Point2 {
    pub x: i64,
    pub y: i64,
}

impl Point2 {
    /// Both coordinates are within the range a screen position may take.
    pub open spec fn in_range(&self) -> bool {
        -COORD_LIMIT <= self.x <= COORD_LIMIT && -COORD_LIMIT <= self.y <= COORD_LIMIT
    }

    /// Both components are within the range of a difference of two screen positions.
    pub open spec fn is_offset(&self) -> bool {
        -DIFF_LIMIT <= self.x <= DIFF_LIMIT && -DIFF_LIMIT <= self.y <= DIFF_LIMIT
    }

    pub open spec fn dot_spec(&self, other: Point2) -> int {
        self.x * other.x + self.y * other.y
    }

    pub fn new(x: i64, y: i64) -> (p: Point2)
        ensures
            p == (Point2 { x, y }),
    {
        Point2 { x, y }
    }

    /// The point at the corner of pixel `(x, y)`, i.e. where that pixel is sampled.
    pub fn of_pixel(x: u32, y: u32) -> (p: Point2)
        requires
            x * SUBPIXEL_UNITS <= COORD_LIMIT,
            y * SUBPIXEL_UNITS <= COORD_LIMIT,
        ensures
            p.x == x * SUBPIXEL_UNITS,
            p.y == y * SUBPIXEL_UNITS,
            p.in_range(),
    {
        Point2 { x: x as i64 * SUBPIXEL_UNITS, y: y as i64 * SUBPIXEL_UNITS }
    }

    pub fn add(&self, other: &Point2) -> (r: Point2)
        requires
            self.in_range(),
            other.in_range(),
        ensures
            r.x == self.x + other.x,
            r.y == self.y + other.y,
            r.is_offset(),
    {
        Point2 { x: self.x + other.x, y: self.y + other.y }
    }

    pub fn sub(&self, other: &Point2) -> (r: Point2)
        requires
            self.in_range(),
            other.in_range(),
        ensures
            r.x == self.x - other.x,
            r.y == self.y - other.y,
            r.is_offset(),
    {
        Point2 { x: self.x - other.x, y: self.y - other.y }
    }

    pub fn dot(&self, other: &Point2) -> (r: i128)
        requires
            self.is_offset(),
            other.is_offset(),
        ensures
            r == self.dot_spec(*other),
    {
        proof {
            lemma_mul_abs_bound(self.x as int, other.x as int, DIFF_LIMIT as int, DIFF_LIMIT as int);
            lemma_mul_abs_bound(self.y as int, other.y as int, DIFF_LIMIT as int, DIFF_LIMIT as int);
        }
        self.x as i128 * other.x as i128 + self.y as i128 * other.y as i128
    }

    /// The vector turned by 90 degrees clockwise: `(x, y) -> (y, -x)`.
    pub fn rotate_clockwise(&self) -> (r: Point2)
        requires
            self.is_offset(),
        ensures
            r.x == self.y,
            r.y == -self.x,
            r.is_offset(),
    {
        Point2 { x: self.y, y: -self.x }
    }
}

} // verus!
