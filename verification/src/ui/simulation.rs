//! The agents the viewer follows while the simulation runs.

use vstd::prelude::*;
use crate::city::model::coord::Coord;

verus! {

/// Which kind of agent the viewer follows.
#[derive(Debug, Clone, Copy, PartialEq, Eq, Structural)]
pub enum VisualAgentType {
    Car,
    Ambulance,
    Truck,
    Boat,
}

/// An agent the viewer follows: where it is and where it goes.
#[derive(Debug, Clone)]
pub struct VisualAgent {
    pub id: u32,
    pub agent_type: VisualAgentType,
    pub pos: Coord,
    pub dest: Coord,
}

} // verus!
