//! The 2-D coordinate value that the plot works on.

use vstd::prelude::*;

verus! {

/// An immutable 2-D coordinate.
///
/// Coordinates are exact integers on a grid whose unit the caller chooses
/// (for fractional data, a fixed-point scale). A canvas takes its bounds in
/// the same unit; since a point is placed by ratios of differences, any
/// common scale leads to the same cell.
#[derive(Debug, Clone, Copy, PartialEq, Eq, Structural)]
pub struct Point {
    pub x: i64,
    pub y: i64,
}

impl Point {
    /// The point with the given coordinates.
    pub fn new(x: i64, y: i64) -> (p: Self)
        ensures
            p.x == x,
            p.y == y,
    {
        Point { x, y }
    }

    /// The horizontal coordinate.
    pub fn x(&self) -> (x: i64)
        ensures
            x == self.x,
    {
        self.x
    }

    /// The vertical coordinate.
    pub fn y(&self) -> (y: i64)
        ensures
            y == self.y,
    {
        self.y
    }
}

impl From<(i64, i64)> for Point {
    /// The point with the coordinates `(x, y)`.
    fn from(value: (i64, i64)) -> (p: Self)
        ensures
            p == (Point { x: value.0, y: value.1 }),
    {
        Point { x: value.0, y: value.1 }
    }
}

impl vstd::std_specs::convert::FromSpecImpl<(i64, i64)> for Point {
    open spec fn obeys_from_spec() -> bool {
        true
    }

    open spec fn from_spec(value: (i64, i64)) -> Self {
        Point { x: value.0, y: value.1 }
    }
}

impl From<&Point> for (i64, i64) {
    /// The coordinates of the point, as `(x, y)`.
    fn from(value: &Point) -> (pair: Self)
        ensures
            pair == (value.x, value.y),
    {
        (value.x, value.y)
    }
}

impl vstd::std_specs::convert::FromSpecImpl<&Point> for (i64, i64) {
    open spec fn obeys_from_spec() -> bool {
        true
    }

    open spec fn from_spec(value: &Point) -> Self {
        (value.x, value.y)
    }
}

impl Default for Point {
    /// The origin.
    fn default() -> (p: Self)
        ensures
            p.x == 0,
            p.y == 0,
    {
        Point { x: 0, y: 0 }
    }
}

} // verus!
