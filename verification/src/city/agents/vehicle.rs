use vstd::prelude::*;
use crate::city::model::coord::Coord;
use crate::city::model::nuclear::SupplyKind;
use crate::mypthreads::thread::ThreadId;

verus! {

/// What every agent of the city offers.
pub trait Agent {
    /// Where the agent is.
    spec fn at(&self) -> Coord;

    fn id(&self) -> u32;

    fn step(&mut self, dt_ms: u32);

    fn pos(&self) -> (r: Coord)
        ensures
            r == self.at(),
    ;

    fn set_pos(&mut self, new_pos: Coord)
        ensures
            final(self).at() == new_pos,
    ;

    fn priority(&self) -> u8;
}

/// An agent that can tell which kind of agent it is.
pub trait AgentDowncast: Agent {
    /// Which kind of agent this is.
    spec fn kind(&self) -> AgentType;

    fn agent_type(&self) -> (t: AgentType)
        ensures
            t == self.kind(),
    ;
}

/// Where an agent is in its trip.
#[derive(Debug, Clone, Copy, PartialEq, Eq, Structural)]
pub enum AgentState {
    Traveling,
    WaitingForBridge,
    CrossingBridge,
    Arrived,
}

/// The kinds of agents.
#[derive(Debug, Clone, Copy, PartialEq, Eq, Structural)]
pub enum AgentType {
    Car,
    Ambulance,
    Boat,
    CargoTruck(SupplyKind),
}

/// A vehicle: where it is, where it goes, and its priority.
#[derive(Debug, Clone, Copy)]
pub struct Vehicle {
    pub id: u32,
    pub tid: ThreadId,
    pub pos: Coord,
    pub origin: Coord,
    pub destination: Coord,
    pub priority: u8,
    pub stage: AgentState,
}

/// What the city records of an agent.
#[derive(Debug, Clone, Copy)]
pub struct AgentInfo {
    pub vehicle: Vehicle,
    pub agent_type: AgentType,
}

/// One step of a vehicle towards `dest`: rows first, then columns.
pub open spec fn move_one_spec(pos: Coord, dest: Coord) -> Coord {
    if pos.x < dest.x {
        Coord { x: (pos.x + 1) as u32, ..pos }
    } else if pos.x > dest.x {
        Coord { x: (pos.x - 1) as u32, ..pos }
    } else if pos.y < dest.y {
        Coord { y: (pos.y + 1) as u32, ..pos }
    } else if pos.y > dest.y {
        Coord { y: (pos.y - 1) as u32, ..pos }
    } else {
        pos
    }
}

/// The distance along the grid between two cells.
pub open spec fn manhattan(a: Coord, b: Coord) -> nat {
    ((if a.x >= b.x { a.x - b.x } else { b.x - a.x }) + (if a.y >= b.y { a.y - b.y } else { b.y - a.y })) as nat
}

impl Vehicle {
    /// A vehicle of thread `tid` at `origin`, heading for `destination`,
    /// traveling with priority 0.
    pub fn new(id: u32, tid: ThreadId, origin: Coord, destination: Coord) -> (v: Self)
        ensures
            v == (Vehicle {
                id,
                tid,
                pos: origin,
                origin,
                destination,
                priority: 0,
                stage: AgentState::Traveling,
            }),
    {
        Vehicle { id, tid, pos: origin, origin, destination, priority: 0, stage: AgentState::Traveling }
    }

    /// Moves one cell towards the destination, rows first.
    pub fn move_one(&mut self)
        ensures
            *final(self) == (Vehicle { pos: move_one_spec(old(self).pos, old(self).destination), ..*old(self) }),
    {
        if self.pos.x < self.destination.x {
            self.pos.x = self.pos.x + 1;
        } else if self.pos.x > self.destination.x {
            self.pos.x = self.pos.x - 1;
        } else if self.pos.y < self.destination.y {
            self.pos.y = self.pos.y + 1;
        } else if self.pos.y > self.destination.y {
            self.pos.y = self.pos.y - 1;
        }
    }
}

impl Agent for Vehicle {
    open spec fn at(&self) -> Coord {
        self.pos
    }

    fn id(&self) -> (r: u32)
        ensures
            r == self.id,
    {
        self.id
    }

    fn step(&mut self, _dt_ms: u32)
        ensures
            *final(self) == (Vehicle { pos: move_one_spec(old(self).pos, old(self).destination), ..*old(self) }),
    {
        self.move_one();
    }

    fn pos(&self) -> (r: Coord)
        ensures
            r == self.pos,
    {
        self.pos
    }

    fn set_pos(&mut self, new_pos: Coord)
        ensures
            *final(self) == (Vehicle { pos: new_pos, ..*old(self) }),
    {
        self.pos = new_pos;
    }

    fn priority(&self) -> (r: u8)
        ensures
            r == self.priority,
    {
        self.priority
    }
}

impl AgentDowncast for Vehicle {
    open spec fn kind(&self) -> AgentType {
        AgentType::Car
    }

    fn agent_type(&self) -> (t: AgentType)
        ensures
            t == AgentType::Car,
    {
        AgentType::Car
    }
}

/// Law: each step of a vehicle that has not arrived brings it one cell
/// closer to its destination; at the destination it stays.
pub proof fn law_move_one_closer(pos: Coord, dest: Coord)
    ensures
        pos != dest ==> manhattan(move_one_spec(pos, dest), dest) + 1 == manhattan(pos, dest),
        pos == dest ==> move_one_spec(pos, dest) == pos,
{
}

} // verus!
