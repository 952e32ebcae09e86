//! What the viewer needs to draw one moment of the simulation.

use vstd::prelude::*;
use crate::city::model::nuclear::PlantStatus;

verus! {

/// Which kind of agent to draw.
#[derive(Debug, Clone, Copy)]
pub enum AgentKind {
    Car,
    Ambulance,
    CargoTruck,
    Boat,
}

/// An agent to draw: who it is, what it is, where it is.
#[derive(Debug, Clone, Copy)]
pub struct RenderableAgent {
    pub id: u32,
    pub kind: AgentKind,
    pub pos: (u32, u32),
}

/// A plant to draw, with its status.
#[derive(Debug, Clone, Copy)]
pub struct RenderablePlant {
    pub id: u32,
    pub pos: (u32, u32),
    pub status: PlantStatus,
}

/// One moment of the simulation as the viewer draws it.
#[derive(Debug, Clone)]
pub struct SimulationState {
    pub tick: u32,
    pub time_ms: u64,
    pub agents: Vec<RenderableAgent>,
    pub plants: Vec<RenderablePlant>,
}

} // verus!
