//! The bridges over the river: a traffic light that lets one direction pass
//! at a time, a yield bridge, and a two-lane drawbridge that boats raise.
//! Vehicles with priority above 50 only need a free lane.

use vstd::prelude::*;
use crate::mypthreads::thread::ThreadId;

verus! {

/// The direction in which a vehicle crosses.
#[derive(Debug, Clone, Copy, PartialEq, Eq, Structural)]
pub enum TrafficDirection {
    NorthToSouth,
    SouthToNorth,
}

/// The kind of a bridge.
#[derive(Debug, Clone, Copy, PartialEq, Eq, Structural)]
pub enum BridgeType {
    TrafficLight,
    Yield,
    Drawbridge,
}

/// Which direction the light of a traffic-light bridge lets pass.
#[derive(Debug, Clone, Copy, PartialEq, Eq, Structural)]
pub enum TrafficLightState {
    NorthGreen,
    SouthGreen,
}

/// What is on a bridge now.
#[derive(Debug, Clone, Copy, PartialEq, Eq, Structural)]
pub struct BridgeState {
    pub vehicles_crossing: u32,
    pub current_direction: Option<TrafficDirection>,
    pub boat_passing: bool,
    pub light_state: TrafficLightState,
    pub last_light_change_ms: u64,
}

pub struct Bridge {
    pub id: u32,
    pub bridge_type: BridgeType,
    pub row: u32,
    pub capacity: u32,
    pub state: BridgeState,
    pub light_cycle_ms: u64,
    pub priority_direction: TrafficDirection,
}

/// The priority above which a vehicle only needs a free lane.
pub open spec fn priority_threshold() -> u8 {
    50
}

impl Bridge {
    /// Never more vehicles than lanes; a direction exactly while vehicles
    /// are on it; a boat only on an empty bridge.
    pub open spec fn wf(&self) -> bool {
        &&& self.state.vehicles_crossing <= self.capacity
        &&& (self.state.vehicles_crossing == 0) == (self.state.current_direction is None)
        &&& self.state.boat_passing ==> self.state.vehicles_crossing == 0
    }

    /// Whether a vehicle of ordinary priority going in `direction` may enter.
    pub open spec fn may_enter(&self, direction: TrafficDirection) -> bool {
        let st = self.state;
        match self.bridge_type {
            BridgeType::TrafficLight => {
                let light_allows = match st.light_state {
                    TrafficLightState::NorthGreen => direction == TrafficDirection::NorthToSouth,
                    TrafficLightState::SouthGreen => direction == TrafficDirection::SouthToNorth,
                };
                light_allows && st.vehicles_crossing < self.capacity
            },
            BridgeType::Yield => {
                if st.vehicles_crossing >= self.capacity {
                    false
                } else if st.vehicles_crossing == 0 {
                    true
                } else {
                    st.current_direction == Some(direction)
                }
            },
            BridgeType::Drawbridge => st.vehicles_crossing < self.capacity && (st.vehicles_crossing
                == 0 || st.current_direction == Some(direction)),
        }
    }

    /// The state after a vehicle tries to cross, and whether it got on.
    pub open spec fn cross_spec(&self, priority: u8, direction: TrafficDirection) -> (BridgeState, bool) {
        let st = self.state;
        if st.boat_passing {
            (st, false)
        } else if priority > priority_threshold() {
            if st.vehicles_crossing < self.capacity {
                let n = (st.vehicles_crossing + 1) as u32;
                (BridgeState {
                    vehicles_crossing: n,
                    current_direction: if n == 1 { Some(direction) } else { st.current_direction },
                    ..st
                }, true)
            } else {
                (st, false)
            }
        } else if self.may_enter(direction) {
            (BridgeState {
                vehicles_crossing: (st.vehicles_crossing + 1) as u32,
                current_direction: Some(direction),
                ..st
            }, true)
        } else {
            (st, false)
        }
    }

    /// The state after a vehicle leaves.
    pub open spec fn exit_spec(&self) -> BridgeState {
        let st = self.state;
        if st.vehicles_crossing > 0 {
            let n = (st.vehicles_crossing - 1) as u32;
            BridgeState {
                vehicles_crossing: n,
                current_direction: if n == 0 { None } else { st.current_direction },
                ..st
            }
        } else {
            st
        }
    }

    /// The state after a boat asks to pass, and whether it may.
    pub open spec fn boat_request_spec(&self) -> (BridgeState, bool) {
        let st = self.state;
        if self.bridge_type == BridgeType::Drawbridge && st.vehicles_crossing == 0 && !st.boat_passing {
            (BridgeState { boat_passing: true, ..st }, true)
        } else {
            (st, false)
        }
    }

    /// The state of the light at time `now_ms`: it switches once a cycle has
    /// passed since the last switch.
    pub open spec fn update_spec(&self, now_ms: u64) -> BridgeState {
        let st = self.state;
        if self.bridge_type == BridgeType::TrafficLight && now_ms - st.last_light_change_ms >= self.light_cycle_ms {
            BridgeState {
                light_state: match st.light_state {
                    TrafficLightState::NorthGreen => TrafficLightState::SouthGreen,
                    TrafficLightState::SouthGreen => TrafficLightState::NorthGreen,
                },
                last_light_change_ms: now_ms,
                ..st
            }
        } else {
            st
        }
    }

    /// The fields other than the state are those of `old`.
    pub open spec fn same_layout(&self, old: &Bridge) -> bool {
        &&& self.id == old.id
        &&& self.bridge_type == old.bridge_type
        &&& self.row == old.row
        &&& self.capacity == old.capacity
        &&& self.light_cycle_ms == old.light_cycle_ms
        &&& self.priority_direction == old.priority_direction
    }

    /// An empty bridge with the light green for north-to-south at time 0.
    pub open spec fn initial_state() -> BridgeState {
        BridgeState {
            vehicles_crossing: 0,
            current_direction: None,
            boat_passing: false,
            light_state: TrafficLightState::NorthGreen,
            last_light_change_ms: 0,
        }
    }

    fn empty_state() -> (s: BridgeState)
        ensures
            s == Self::initial_state(),
    {
        BridgeState {
            vehicles_crossing: 0,
            current_direction: None,
            boat_passing: false,
            light_state: TrafficLightState::NorthGreen,
            last_light_change_ms: 0,
        }
    }

    /// A one-lane bridge with a traffic light switching every `cycle_ms`.
    pub fn new_traffic_light(id: u32, row: u32, cycle_ms: u64) -> (b: Self)
        ensures
            b.id == id,
            b.row == row,
            b.bridge_type == BridgeType::TrafficLight,
            b.capacity == 1,
            b.light_cycle_ms == cycle_ms,
            b.priority_direction == TrafficDirection::NorthToSouth,
            b.state == Self::initial_state(),
            b.wf(),
    {
        Bridge {
            id,
            bridge_type: BridgeType::TrafficLight,
            row,
            capacity: 1,
            state: Self::empty_state(),
            light_cycle_ms: cycle_ms,
            priority_direction: TrafficDirection::NorthToSouth,
        }
    }

    /// A one-lane yield bridge.
    pub fn new_yield(id: u32, row: u32, priority_dir: TrafficDirection) -> (b: Self)
        ensures
            b.id == id,
            b.row == row,
            b.bridge_type == BridgeType::Yield,
            b.capacity == 1,
            b.light_cycle_ms == 0,
            b.priority_direction == priority_dir,
            b.state == Self::initial_state(),
            b.wf(),
    {
        Bridge {
            id,
            bridge_type: BridgeType::Yield,
            row,
            capacity: 1,
            state: Self::empty_state(),
            light_cycle_ms: 0,
            priority_direction: priority_dir,
        }
    }

    /// A two-lane drawbridge.
    pub fn new_drawbridge(id: u32, row: u32) -> (b: Self)
        ensures
            b.id == id,
            b.row == row,
            b.bridge_type == BridgeType::Drawbridge,
            b.capacity == 2,
            b.light_cycle_ms == 0,
            b.priority_direction == TrafficDirection::NorthToSouth,
            b.state == Self::initial_state(),
            b.wf(),
    {
        Bridge {
            id,
            bridge_type: BridgeType::Drawbridge,
            row,
            capacity: 2,
            state: Self::empty_state(),
            light_cycle_ms: 0,
            priority_direction: TrafficDirection::NorthToSouth,
        }
    }

    /// Switches the light of a traffic-light bridge once a cycle has passed
    /// since the last switch; reports whether it switched.
    pub fn update(&mut self, current_time_ms: u64) -> (switched: bool)
        requires
            old(self).bridge_type == BridgeType::TrafficLight ==> old(self).state.last_light_change_ms
                <= current_time_ms,
        ensures
            final(self).state == old(self).update_spec(current_time_ms),
            final(self).same_layout(old(self)),
            switched == (final(self).state != old(self).state),
            old(self).wf() ==> final(self).wf(),
    {
        if self.bridge_type != BridgeType::TrafficLight {
            return false;
        }
        if current_time_ms - self.state.last_light_change_ms >= self.light_cycle_ms {
            self.state.light_state = match self.state.light_state {
                TrafficLightState::NorthGreen => TrafficLightState::SouthGreen,
                TrafficLightState::SouthGreen => TrafficLightState::NorthGreen,
            };
            self.state.last_light_change_ms = current_time_ms;
            return true;
        }
        false
    }

    /// Vehicle `tid` with `priority` tries to get on, going in `direction`:
    /// never while a boat passes; with priority above 50 whenever a lane is
    /// free; otherwise as the kind of bridge allows. Reports whether it got on.
    pub fn try_cross(&mut self, tid: ThreadId, priority: u8, direction: TrafficDirection) -> (crossed: bool)
        requires
            old(self).wf(),
        ensures
            (final(self).state, crossed) == old(self).cross_spec(priority, direction),
            final(self).same_layout(old(self)),
            final(self).wf(),
    {
        if self.state.boat_passing {
            return false;
        }
        if priority > 50 {
            if self.state.vehicles_crossing < self.capacity {
                self.state.vehicles_crossing = self.state.vehicles_crossing + 1;
                if self.state.vehicles_crossing == 1 {
                    self.state.current_direction = Some(direction);
                }
                return true;
            } else {
                return false;
            }
        }
        let st = self.state;
        let can_cross = match self.bridge_type {
            BridgeType::TrafficLight => {
                let light_allows = match st.light_state {
                    TrafficLightState::NorthGreen => direction == TrafficDirection::NorthToSouth,
                    TrafficLightState::SouthGreen => direction == TrafficDirection::SouthToNorth,
                };
                light_allows && st.vehicles_crossing < self.capacity
            },
            BridgeType::Yield => {
                if st.vehicles_crossing >= self.capacity {
                    false
                } else if st.vehicles_crossing == 0 {
                    true
                } else {
                    st.current_direction == Some(direction)
                }
            },
            BridgeType::Drawbridge => {
                st.vehicles_crossing < self.capacity && (st.vehicles_crossing == 0
                    || st.current_direction == Some(direction))
            },
        };
        if can_cross {
            self.state.vehicles_crossing = self.state.vehicles_crossing + 1;
            self.state.current_direction = Some(direction);
            true
        } else {
            false
        }
    }

    /// Vehicle `tid` leaves the bridge.
    pub fn exit_bridge(&mut self, tid: ThreadId)
        requires
            old(self).wf(),
        ensures
            final(self).state == old(self).exit_spec(),
            final(self).same_layout(old(self)),
            final(self).wf(),
    {
        if self.state.vehicles_crossing > 0 {
            self.state.vehicles_crossing = self.state.vehicles_crossing - 1;
            if self.state.vehicles_crossing == 0 {
                self.state.current_direction = None;
            }
        }
    }

    /// A boat asks to pass: a drawbridge with nobody on it is raised.
    /// Reports whether the boat may pass.
    pub fn boat_request_pass(&mut self) -> (ok: bool)
        requires
            old(self).wf(),
        ensures
            (final(self).state, ok) == old(self).boat_request_spec(),
            final(self).same_layout(old(self)),
            final(self).wf(),
    {
        if self.bridge_type != BridgeType::Drawbridge {
            return false;
        }
        if self.state.vehicles_crossing == 0 && !self.state.boat_passing {
            self.state.boat_passing = true;
            true
        } else {
            false
        }
    }

    /// The boat has passed; the drawbridge comes down.
    pub fn boat_exit(&mut self)
        requires
            old(self).wf(),
        ensures
            final(self).state == (BridgeState { boat_passing: false, ..old(self).state }),
            final(self).same_layout(old(self)),
            final(self).wf(),
    {
        self.state.boat_passing = false;
    }
}

/// Law: vehicles keep to the rules of the bridge. No vehicle gets on while
/// a boat passes or when every lane is taken, and one that gets on takes a
/// lane. An ordinary vehicle (priority at most the threshold) gets on a
/// yield bridge or a drawbridge that others are crossing only in their
/// direction, and on a traffic-light bridge only when the light lets its
/// direction pass. A vehicle that does not get on changes nothing.
pub proof fn law_cross_keeps_direction(b: Bridge, priority: u8, direction: TrafficDirection)
    requires
        b.wf(),
    ensures
        b.cross_spec(priority, direction).1 ==> !b.state.boat_passing && b.state.vehicles_crossing < b.capacity
            && b.cross_spec(priority, direction).0.vehicles_crossing == b.state.vehicles_crossing + 1,
        b.cross_spec(priority, direction).1 && priority <= priority_threshold() && b.bridge_type
            != BridgeType::TrafficLight && b.state.vehicles_crossing > 0 ==> b.state.current_direction == Some(
            direction,
        ),
        b.cross_spec(priority, direction).1 && priority <= priority_threshold() && b.bridge_type
            == BridgeType::TrafficLight ==> ((b.state.light_state == TrafficLightState::NorthGreen) == (direction
            == TrafficDirection::NorthToSouth)),
        !b.cross_spec(priority, direction).1 ==> b.cross_spec(priority, direction).0 == b.state,
{
}

/// Law: a vehicle that got on and then leaves restores what was on the
/// bridge, except the direction it recorded when it was alone.
pub proof fn law_cross_then_exit(b: Bridge, priority: u8, direction: TrafficDirection)
    requires
        b.wf(),
        b.cross_spec(priority, direction).1,
    ensures
        ({
            let after = Bridge { state: b.cross_spec(priority, direction).0, ..b };
            &&& after.exit_spec().vehicles_crossing == b.state.vehicles_crossing
            &&& after.exit_spec().boat_passing == b.state.boat_passing
            &&& b.state.vehicles_crossing == 0 ==> after.exit_spec() == b.state
        }),
{
}

/// Law: a boat and vehicles are never on a bridge together, and a bridge
/// never holds more vehicles than it has lanes, whatever the operations.
pub proof fn law_bridge_safe(b: Bridge, priority: u8, direction: TrafficDirection, now: u64)
    requires
        b.wf(),
    ensures
        (Bridge { state: b.cross_spec(priority, direction).0, ..b }).wf(),
        (Bridge { state: b.exit_spec(), ..b }).wf(),
        (Bridge { state: b.boat_request_spec().0, ..b }).wf(),
        (Bridge { state: BridgeState { boat_passing: false, ..b.state }, ..b }).wf(),
        b.bridge_type == BridgeType::TrafficLight && b.state.last_light_change_ms <= now
            ==> (Bridge { state: b.update_spec(now), ..b }).wf(),
{
}

/// Law: a boat on the drawbridge keeps every vehicle off it, even one with
/// priority.
pub proof fn law_boat_blocks_vehicles(b: Bridge, priority: u8, direction: TrafficDirection)
    requires
        b.state.boat_passing,
    ensures
        b.cross_spec(priority, direction) == (b.state, false),
{
}

/// Law: the light of a traffic-light bridge alternates: two switches bring
/// it back to the same colour.
pub proof fn law_light_alternates(b: Bridge, t1: u64, t2: u64)
    requires
        b.bridge_type == BridgeType::TrafficLight,
        b.state.last_light_change_ms + b.light_cycle_ms <= t1,
        t1 + b.light_cycle_ms <= t2,
    ensures
        b.update_spec(t1).light_state != b.state.light_state,
        (Bridge { state: b.update_spec(t1), ..b }).update_spec(t2).light_state == b.state.light_state,
{
}

} // verus!
