use vstd::prelude::*;

verus! {

/// A traffic light.
#[derive(Clone, Copy, Debug, PartialEq, Eq, Structural)]
pub enum TrafficLightState {
    Red,
    Green,
}

/// A yield sign.
#[derive(Debug)]
pub struct YieldSign {}

impl Default for YieldSign {
    fn default() -> (r: Self)
        ensures
            r == (YieldSign {}),
    {
        YieldSign {}
    }
}

} // verus!
