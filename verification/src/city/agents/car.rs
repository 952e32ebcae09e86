use vstd::prelude::*;
use crate::city::agents::vehicle::{Agent, AgentDowncast, AgentType, AgentState, Vehicle, move_one_spec};
use crate::city::model::coord::Coord;
use crate::mypthreads::thread::ThreadId;

verus! {

/// An ordinary car.
#[derive(Debug, Clone, Copy)]
pub struct Car {
    pub inner: Vehicle,
}

impl Car {
    pub fn new(id: u32, tid: ThreadId, origin: (u32, u32), dest: (u32, u32)) -> (a: Self)
        ensures
            a.inner == (Vehicle {
                id,
                tid,
                pos: Coord { x: origin.0, y: origin.1 },
                origin: Coord { x: origin.0, y: origin.1 },
                destination: Coord { x: dest.0, y: dest.1 },
                priority: 0,
                stage: AgentState::Traveling,
            }),
    {
        Car { inner: Vehicle::new(id, tid, Coord::new(origin.0, origin.1), Coord::new(dest.0, dest.1)) }
    }
}

impl Agent for Car {
    open spec fn at(&self) -> Coord {
        self.inner.pos
    }

    fn id(&self) -> (r: u32)
        ensures
            r == self.inner.id,
    {
        self.inner.id()
    }

    fn step(&mut self, dt_ms: u32)
        ensures
            final(self).inner == (Vehicle { pos: move_one_spec(old(self).inner.pos, old(self).inner.destination), ..old(self).inner }),
    {
        self.inner.step(dt_ms);
    }

    fn pos(&self) -> (r: Coord)
        ensures
            r == self.inner.pos,
    {
        self.inner.pos()
    }

    fn set_pos(&mut self, new_pos: Coord)
        ensures
            final(self).inner == (Vehicle { pos: new_pos, ..old(self).inner }),
    {
        self.inner.set_pos(new_pos);
    }

    fn priority(&self) -> (r: u8)
        ensures
            r == self.inner.priority,
    {
        self.inner.priority()
    }
}

impl AgentDowncast for Car {
    open spec fn kind(&self) -> AgentType {
        AgentType::Car
    }

    fn agent_type(&self) -> (t: AgentType)
        ensures
            t == AgentType::Car,
    {
        AgentType::Car
    }
}

} // verus!
