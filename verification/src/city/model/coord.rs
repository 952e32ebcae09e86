use vstd::prelude::*;

verus! {

/// A cell of the grid: `x` is the row, `y` the column.
#[derive(Clone, Copy, Debug, PartialEq, Eq, Structural)]
pub struct Coord {
    pub x: u32,
    pub y: u32,
}

impl Coord {
    pub fn new(x: u32, y: u32) -> (c: Self)
        ensures
            c.x == x,
            c.y == y,
    {
        Coord { x, y }
    }
}

} // verus!
