use vstd::prelude::*;

verus! {

/// A coordinate in grid-cell space: column `x`, row `y`.
#[derive(Clone, Copy, Debug, PartialEq, Eq, Structural)]
pub struct Point {
    pub x: u16,
    pub y: u16,
}

impl Point {
    pub fn new(x: u16, y: u16) -> (p: Point)
        ensures
            p == (Point { x, y }),
    {
        Point { x, y }
    }

    /// The top-left corner of the grid.
    pub open spec fn spec_origin() -> Point {
        Point { x: 0, y: 0 }
    }

    pub fn origin() -> (p: Point)
        ensures
            p == Self::spec_origin(),
    {
        Point { x: 0, y: 0 }
    }
}

} // verus!
