use vstd::prelude::*;

use crate::shapes::Point;

verus! {

/// A directed boundary segment between two integer points, used as a
/// classification aid for slope geometry.
#[derive(Debug, Clone, Copy, PartialEq, Eq, Structural)]
pub struct Vector {
    pub start: Point,
    pub end: Point,
}

/// The dot product of two segments' displacement vectors.
pub open spec fn spec_dot(a: Vector, b: Vector) -> int {
    (a.end.x - a.start.x) * (b.end.x - b.start.x) + (a.end.y - a.start.y) * (b.end.y - b.start.y)
}

/// Coordinate bound under which the dot product cannot overflow a 32-bit
/// signed integer.
pub open spec fn vector_in_range(v: Vector) -> bool {
    &&& -16384 <= v.start.x <= 16383
    &&& -16384 <= v.start.y <= 16383
    &&& -16384 <= v.end.x <= 16383
    &&& -16384 <= v.end.y <= 16383
}

impl Vector {
    pub fn new(start: Point, end: Point) -> (v: Vector)
        ensures
            v == (Vector { start, end }),
    {
        Vector { start, end }
    }

    pub fn dot(&self, other: &Vector) -> (r: i32)
        requires
            vector_in_range(*self),
            vector_in_range(*other),
        ensures
            r == spec_dot(*self, *other),
    {
        let x1 = self.end.x - self.start.x;
        let y1 = self.end.y - self.start.y;
        let x2 = other.end.x - other.start.x;
        let y2 = other.end.y - other.start.y;
        proof {
            assert(x1 * x2 <= 32767 * 32767 && x1 * x2 >= -(32767 * 32767)) by (nonlinear_arith)
                requires
                    -32767 <= x1 <= 32767,
                    -32767 <= x2 <= 32767,
            ;
            assert(y1 * y2 <= 32767 * 32767 && y1 * y2 >= -(32767 * 32767)) by (nonlinear_arith)
                requires
                    -32767 <= y1 <= 32767,
                    -32767 <= y2 <= 32767,
            ;
        }
        x1 * x2 + y1 * y2
    }
}

} // verus!
