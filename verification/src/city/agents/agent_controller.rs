//! The context of one agent as it travels: its phase, its destination and
//! the bridges it may take.

use vstd::prelude::*;
use crate::city::agents::vehicle::{AgentDowncast, AgentType};
use crate::city::model::bridge::{Bridge, BridgeState, TrafficDirection};
use crate::mypthreads::signals::ThreadSignal;
use crate::city::model::coord::Coord;

verus! {

/// Where an agent is in its trip.
#[derive(Debug, Clone, Copy, PartialEq, Eq, Structural)]
pub enum AgentPhase {
    Traveling,
    ApproachingBridge,
    WaitingForBridge,
    /// On a bridge, with the number of steps spent on it.
    CrossingBridge(u32),
    Arrived,
}

/// An agent with what it needs to travel.
pub struct AgentContext<A: AgentDowncast> {
    pub agent: A,
    pub phase: AgentPhase,
    pub destination: Coord,
    pub river_column: u32,
    pub bridges: Vec<Bridge>,
}

/// One step towards `dest`: along the columns first, then the rows.
pub open spec fn step_towards(pos: Coord, dest: Coord) -> Coord {
    if pos.y < dest.y {
        Coord { y: (pos.y + 1) as u32, ..pos }
    } else if pos.y > dest.y {
        Coord { y: (pos.y - 1) as u32, ..pos }
    } else if pos.x < dest.x {
        Coord { x: (pos.x + 1) as u32, ..pos }
    } else if pos.x > dest.x {
        Coord { x: (pos.x - 1) as u32, ..pos }
    } else {
        pos
    }
}

/// How far row `a` is from row `b`.
pub open spec fn row_gap(a: u32, b: u32) -> int {
    if a >= b { a - b } else { b - a }
}

/// Bridge `i` is the first of `bs` whose row is nearest row `x`.
pub open spec fn is_nearest(bs: Seq<Bridge>, x: u32, i: int) -> bool {
    &&& 0 <= i < bs.len()
    &&& forall|k: int| 0 <= k < bs.len() ==> row_gap(x, bs[i].row) <= row_gap(x, #[trigger] bs[k].row)
    &&& forall|k: int| 0 <= k < i ==> row_gap(x, bs[i].row) < row_gap(x, #[trigger] bs[k].row)
}

/// The index of the first bridge whose row is nearest row `x`.
pub open spec fn nearest_index(bs: Seq<Bridge>, x: u32) -> int {
    choose|i: int| is_nearest(bs, x, i)
}

/// Only one bridge is the first nearest.
proof fn lemma_nearest_unique(bs: Seq<Bridge>, x: u32, i: int)
    requires
        is_nearest(bs, x, i),
    ensures
        nearest_index(bs, x) == i,
{
    let j = nearest_index(bs, x);
    assert(is_nearest(bs, x, j));
    if j < i {
        assert(row_gap(x, bs[i].row) < row_gap(x, bs[j].row));
        assert(row_gap(x, bs[j].row) <= row_gap(x, bs[i].row));
    } else if i < j {
        assert(row_gap(x, bs[j].row) < row_gap(x, bs[i].row));
        assert(row_gap(x, bs[i].row) <= row_gap(x, bs[j].row));
    }
}

/// The agent's route crosses the river.
pub open spec fn needs_bridge(pos: Coord, dest: Coord, river: u32) -> bool {
    (pos.y < river && dest.y > river) || (pos.y > river && dest.y < river)
}

/// The agent stands at the bank, next to the river, on the side it leaves.
pub open spec fn at_entrance(pos: Coord, dest: Coord, river: u32) -> bool {
    if dest.y > river { pos.y + 1 == river } else { pos.y == river + 1 }
}

/// The steps an agent spends on a bridge: five for a boat, three otherwise.
pub open spec fn crossing_time(kind: AgentType) -> u32 {
    if kind == AgentType::Boat { 5 } else { 3 }
}

/// The priority with which a vehicle asks to cross: an ambulance has the
/// highest, the others the lowest, so that they follow the bridge's rules.
pub open spec fn request_priority(kind: AgentType) -> u8 {
    if kind == AgentType::Ambulance { 255 } else { 0 }
}

/// Where an agent comes down after crossing: a boat one row further along
/// the river; a vehicle on the bank across from where it went up.
pub open spec fn after_crossing(pos: Coord, river: u32, kind: AgentType) -> Coord {
    if kind == AgentType::Boat {
        Coord { x: (pos.x + 1) as u32, ..pos }
    } else if pos.y < river {
        Coord { y: (river + 1) as u32, ..pos }
    } else {
        Coord { y: (river - 1) as u32, ..pos }
    }
}

/// Bridge `i` of `bs` with state `st`.
pub open spec fn with_state(bs: Seq<Bridge>, i: int, st: BridgeState) -> Seq<Bridge> {
    bs.update(i, Bridge { state: st, ..bs[i] })
}

/// One step of an agent in phase `phase` at `pos`, going to `dest`, with
/// the bridges `bs`: its phase, its position and the bridges afterwards,
/// and the signal it reports.
/// - Travelling: at the destination it arrives (`Exit`); at the bank where
///   its route crosses the river it approaches the bridge; otherwise it
///   moves one step (`Yield`).
/// - Approaching or waiting: it asks the nearest bridge (a boat to have the
///   drawbridge raised; a vehicle to get on, an ambulance with the highest
///   priority). Let through, it starts crossing (`Continue`); otherwise it
///   waits (`Block`).
/// - Crossing: after its crossing time it leaves the nearest bridge, comes
///   down on the other side and travels on; before, it counts one more
///   step (`Yield`).
/// - Arrived: `Exit`.
pub open spec fn step_spec(
    phase: AgentPhase,
    kind: AgentType,
    pos: Coord,
    dest: Coord,
    river: u32,
    bs: Seq<Bridge>,
) -> (AgentPhase, Coord, Seq<Bridge>, ThreadSignal) {
    match phase {
        AgentPhase::Traveling => if pos == dest {
            (AgentPhase::Arrived, pos, bs, ThreadSignal::Exit)
        } else if needs_bridge(pos, dest, river) && at_entrance(pos, dest, river) {
            (AgentPhase::ApproachingBridge, pos, bs, ThreadSignal::Yield)
        } else {
            (AgentPhase::Traveling, step_towards(pos, dest), bs, ThreadSignal::Yield)
        },
        AgentPhase::ApproachingBridge | AgentPhase::WaitingForBridge => {
            let i = nearest_index(bs, pos.x);
            let dir = if pos.y < river { TrafficDirection::NorthToSouth } else { TrafficDirection::SouthToNorth };
            let (st, ok) = if kind == AgentType::Boat {
                bs[i].boat_request_spec()
            } else {
                bs[i].cross_spec(request_priority(kind), dir)
            };
            if ok {
                (AgentPhase::CrossingBridge(0), pos, with_state(bs, i, st), ThreadSignal::Continue)
            } else {
                (AgentPhase::WaitingForBridge, pos, with_state(bs, i, st), ThreadSignal::Block)
            }
        },
        AgentPhase::CrossingBridge(p) => if p >= crossing_time(kind) {
            let i = nearest_index(bs, pos.x);
            let st = if kind == AgentType::Boat {
                BridgeState { boat_passing: false, ..bs[i].state }
            } else {
                bs[i].exit_spec()
            };
            (AgentPhase::Traveling, after_crossing(pos, river, kind), with_state(bs, i, st), ThreadSignal::Yield)
        } else {
            (AgentPhase::CrossingBridge((p + 1) as u32), pos, bs, ThreadSignal::Yield)
        },
        AgentPhase::Arrived => (AgentPhase::Arrived, pos, bs, ThreadSignal::Exit),
    }
}

/// Whether the step from `phase` asks a bridge or leaves one.
pub open spec fn uses_bridge(phase: AgentPhase, kind: AgentType) -> bool {
    match phase {
        AgentPhase::ApproachingBridge | AgentPhase::WaitingForBridge => true,
        AgentPhase::CrossingBridge(p) => p >= crossing_time(kind),
        _ => false,
    }
}

impl<A: AgentDowncast> AgentContext<A> {
    /// An agent setting out for `destination`.
    pub fn new(agent: A, destination: Coord, river_column: u32, bridges: Vec<Bridge>) -> (c: Self)
        ensures
            c.agent == agent,
            c.phase == AgentPhase::Traveling,
            c.destination == destination,
            c.river_column == river_column,
            c.bridges@ == bridges@,
    {
        AgentContext { agent, phase: AgentPhase::Traveling, destination, river_column, bridges }
    }

    /// Moves the agent one step towards its destination, columns first.
    pub fn move_towards_destination(&mut self)
        ensures
            final(self).agent.at() == step_towards(old(self).agent.at(), old(self).destination),
            final(self).phase == old(self).phase,
            final(self).destination == old(self).destination,
            final(self).river_column == old(self).river_column,
            final(self).bridges == old(self).bridges,
    {
        let pos = self.agent.pos();
        let dest = self.destination;
        let mut new_pos = pos;
        if pos.y < dest.y {
            new_pos.y = new_pos.y + 1;
        } else if pos.y > dest.y {
            new_pos.y = new_pos.y - 1;
        } else if pos.x < dest.x {
            new_pos.x = new_pos.x + 1;
        } else if pos.x > dest.x {
            new_pos.x = new_pos.x - 1;
        }
        self.agent.set_pos(new_pos);
    }

    /// The direction in which the agent would cross: from the side of the
    /// river it is on.
    pub fn get_crossing_direction(&self) -> (d: TrafficDirection)
        ensures
            d == if self.agent.at().y < self.river_column {
                TrafficDirection::NorthToSouth
            } else {
                TrafficDirection::SouthToNorth
            },
    {
        let pos = self.agent.pos();
        if pos.y < self.river_column {
            TrafficDirection::NorthToSouth
        } else {
            TrafficDirection::SouthToNorth
        }
    }

    /// The index of the first bridge whose row is nearest the agent's row.
    pub fn nearest_bridge_index(&self) -> (i: usize)
        requires
            self.bridges@.len() > 0,
        ensures
            i == nearest_index(self.bridges@, self.agent.at().x),
            is_nearest(self.bridges@, self.agent.at().x, i as int),
    {
        let x = self.agent.pos().x;
        let mut best: usize = 0;
        let mut best_gap: u32 = if x >= self.bridges[0].row { x - self.bridges[0].row } else { self.bridges[0].row - x };
        let mut i: usize = 1;
        while i < self.bridges.len()
            invariant
                1 <= i <= self.bridges@.len(),
                0 <= best < i,
                x == self.agent.at().x,
                best_gap == row_gap(x, self.bridges@[best as int].row),
                forall|k: int| 0 <= k < i ==> best_gap <= row_gap(x, #[trigger] self.bridges@[k].row),
                forall|k: int| 0 <= k < best ==> best_gap < row_gap(x, #[trigger] self.bridges@[k].row),
            decreases self.bridges@.len() - i,
        {
            let row = self.bridges[i].row;
            let gap = if x >= row { x - row } else { row - x };
            if gap < best_gap {
                best = i;
                best_gap = gap;
            }
            i = i + 1;
        }
        proof {
            assert(is_nearest(self.bridges@, x, best as int));
            lemma_nearest_unique(self.bridges@, x, best as int);
        }
        best
    }

    /// The first bridge whose row is nearest the agent's row.
    pub fn select_nearest_bridge(&self) -> (b: &Bridge)
        requires
            self.bridges@.len() > 0,
        ensures
            *b == self.bridges@[nearest_index(self.bridges@, self.agent.at().x)],
            is_nearest(self.bridges@, self.agent.at().x, nearest_index(self.bridges@, self.agent.at().x)),
    {
        let i = self.nearest_bridge_index();
        &self.bridges[i]
    }

    /// One step of the agent, as `step_spec` describes; the bridges stay
    /// consistent.
    pub fn step(&mut self) -> (s: ThreadSignal)
        requires
            forall|i: int| 0 <= i < old(self).bridges@.len() ==> (#[trigger] old(self).bridges@[i]).wf(),
            uses_bridge(old(self).phase, old(self).agent.kind()) ==> old(self).bridges@.len() > 0,
            old(self).phase matches AgentPhase::CrossingBridge(p) && p >= crossing_time(old(self).agent.kind()) ==> {
                let pos = old(self).agent.at();
                let r = old(self).river_column;
                &&& old(self).agent.kind() == AgentType::Boat ==> pos.x < u32::MAX
                &&& old(self).agent.kind() != AgentType::Boat && pos.y < r ==> r < u32::MAX
                &&& old(self).agent.kind() != AgentType::Boat && pos.y >= r ==> r > 0
            },
        ensures
            (final(self).phase, final(self).agent.at(), final(self).bridges@, s) == step_spec(
                old(self).phase,
                old(self).agent.kind(),
                old(self).agent.at(),
                old(self).destination,
                old(self).river_column,
                old(self).bridges@,
            ),
            final(self).destination == old(self).destination,
            final(self).river_column == old(self).river_column,
            forall|i: int| 0 <= i < final(self).bridges@.len() ==> (#[trigger] final(self).bridges@[i]).wf(),
    {
        let pos = self.agent.pos();
        let dest = self.destination;
        let river = self.river_column;
        let ghost bs = self.bridges@;
        let ghost kind = self.agent.kind();
        match self.phase {
            AgentPhase::Traveling => {
                if pos.x == dest.x && pos.y == dest.y {
                    self.phase = AgentPhase::Arrived;
                    return ThreadSignal::Exit;
                }
                let needs = (pos.y < river && dest.y > river) || (pos.y > river && dest.y < river);
                if needs {
                    let entrance = if dest.y > river { pos.y + 1 == river } else { pos.y == river + 1 };
                    if entrance {
                        self.phase = AgentPhase::ApproachingBridge;
                        return ThreadSignal::Yield;
                    }
                }
                self.move_towards_destination();
                ThreadSignal::Yield
            },
            AgentPhase::ApproachingBridge | AgentPhase::WaitingForBridge => {
                let i = self.nearest_bridge_index();
                let direction = self.get_crossing_direction();
                let ok = if self.is_boat() {
                    self.bridges[i].boat_request_pass()
                } else {
                    let priority: u8 = if self.is_ambulance() { 255 } else { 0 };
                    let id = self.agent.id();
                    self.bridges[i].try_cross(id, priority, direction)
                };
                proof {
                    assert(self.bridges@ =~= with_state(bs, i as int, self.bridges@[i as int].state));
                }
                if ok {
                    self.phase = AgentPhase::CrossingBridge(0);
                    ThreadSignal::Continue
                } else {
                    self.phase = AgentPhase::WaitingForBridge;
                    ThreadSignal::Block
                }
            },
            AgentPhase::CrossingBridge(progress) => {
                let boat = self.is_boat();
                let crossing: u32 = if boat { 5 } else { 3 };
                if progress >= crossing {
                    let i = self.nearest_bridge_index();
                    if boat {
                        self.bridges[i].boat_exit();
                    } else {
                        let id = self.agent.id();
                        self.bridges[i].exit_bridge(id);
                    }
                    proof {
                        assert(self.bridges@ =~= with_state(bs, i as int, self.bridges@[i as int].state));
                    }
                    let mut new_pos = pos;
                    if boat {
                        new_pos.x = new_pos.x + 1;
                    } else if new_pos.y < river {
                        new_pos.y = river + 1;
                    } else {
                        new_pos.y = river - 1;
                    }
                    self.agent.set_pos(new_pos);
                    self.phase = AgentPhase::Traveling;
                } else {
                    self.phase = AgentPhase::CrossingBridge(progress + 1);
                }
                ThreadSignal::Yield
            },
            AgentPhase::Arrived => ThreadSignal::Exit,
        }
    }

    /// Whether the agent is a boat.
    pub fn is_boat(&self) -> (r: bool)
        ensures
            r == (self.agent.kind() == AgentType::Boat),
    {
        self.agent.agent_type() == AgentType::Boat
    }

    /// Whether the agent is an ambulance.
    pub fn is_ambulance(&self) -> (r: bool)
        ensures
            r == (self.agent.kind() == AgentType::Ambulance),
    {
        self.agent.agent_type() == AgentType::Ambulance
    }
}

} // verus!
