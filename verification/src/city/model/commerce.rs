use vstd::prelude::*;
use crate::city::model::coord::Coord;

verus! {

/// A shop of the city.
#[derive(Clone, Debug)]
pub struct Commerce {
    pub id: u32,
    pub location: Coord,
}

impl Commerce {
    pub fn new(id: u32, location: Coord) -> (c: Self)
        ensures
            c.id == id,
            c.location == location,
    {
        Commerce { id, location }
    }
}

} // verus!
