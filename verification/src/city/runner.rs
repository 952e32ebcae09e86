//! What the agents of the city do at each step they are scheduled, and the
//! decisions of the simulation around them: where new agents start and go,
//! which trucks are hurried, and how the city's clock advances.
//!
//! Each agent keeps its position, its stage and a counter of the steps it
//! has spent on a bridge; the city is shared between agents behind a
//! runtime mutex, which an agent only ever tries to take.

use vstd::prelude::*;
use crate::city::agents::vehicle::{AgentInfo, AgentState, AgentType, Vehicle};
use crate::city::agents::ambulance::Ambulance;
use crate::city::agents::boat::Boat;
use crate::city::agents::cargotruck::CargoTruck;
use crate::city::config::{CityLayout, nearest_bridge, nearest_bridge_spec};
use crate::city::model::bridge::{Bridge, BridgeState, TrafficDirection};
use crate::city::model::coord::Coord;
use crate::city::model::nuclear::{NuclearPlant, PlantStatus, SupplyKind, SupplySpec, active_risk, after_delivery, supply_index};
use crate::city::sim::{City, SharedCity, registered, lemma_wf_bridge_update, lemma_bridge_index, lemma_plant_index, lemma_supply_index};
use crate::mypthreads::signals::ThreadSignal;
use crate::mypthreads::thread::ThreadId;
use crate::mypthreads::runtime::{RuntimeView, ThreadRuntimeV2};
use crate::mypthreads::mypthreads_api::{SchedulerParams, my_thread_chsched, with_params};
use crate::random::{random_below, random_chance};

verus! {

/// The layout an agent can find its way in: the river is neither the first
/// column nor the last possible one, and every row fits an `i32`.
pub open spec fn navigable(l: CityLayout) -> bool {
    &&& 1 <= l.river_column < u32::MAX
    &&& l.bridge1_row <= i32::MAX && l.bridge2_row <= i32::MAX && l.bridge3_row <= i32::MAX
}

/// One step of a vehicle towards `dest` without entering the river: sideways
/// first when the next column is not the river, else along the rows.
pub open spec fn move_towards_spec(pos: Coord, dest: Coord, l: CityLayout) -> Coord {
    if pos.y < dest.y && pos.y + 1 != l.river_column {
        Coord { y: (pos.y + 1) as u32, ..pos }
    } else if pos.y > dest.y && pos.y - 1 != l.river_column {
        Coord { y: (pos.y - 1) as u32, ..pos }
    } else if pos.x < dest.x {
        Coord { x: (pos.x + 1) as u32, ..pos }
    } else if pos.x > dest.x {
        Coord { x: (pos.x - 1) as u32, ..pos }
    } else {
        pos
    }
}

/// Whether the trip from `pos` to `dest` crosses the river.
pub open spec fn needs_bridge(pos: Coord, dest: Coord, l: CityLayout) -> bool {
    (pos.y < l.river_column && dest.y > l.river_column) || (pos.y > l.river_column && dest.y < l.river_column)
}

/// Whether `pos` is on the bank, next to the river, on the way to `dest`.
pub open spec fn at_bridge_entrance(pos: Coord, dest: Coord, l: CityLayout) -> bool {
    (pos.y == l.river_column - 1 && dest.y > l.river_column) || (pos.y == l.river_column + 1 && dest.y
        < l.river_column)
}

/// The direction of a vehicle crossing from `pos`.
pub open spec fn crossing_direction(pos: Coord, l: CityLayout) -> TrafficDirection {
    if pos.y < l.river_column {
        TrafficDirection::NorthToSouth
    } else {
        TrafficDirection::SouthToNorth
    }
}

/// Where a vehicle that crossed from `pos` comes down: the other bank.
pub open spec fn other_bank(pos: Coord, l: CityLayout) -> Coord {
    Coord { y: (if pos.y < l.river_column { l.river_column + 1 } else { l.river_column - 1 }) as u32, ..pos }
}

/// The priority a vehicle asks a bridge for: its tickets, cut to a byte.
pub open spec fn ticket_priority(tickets: u32) -> u8 {
    (tickets % 256) as u8
}

/// The index of the bridge nearest `pos`.
pub open spec fn nearest_index(city: City, pos: Coord, l: CityLayout) -> int {
    city.bridge_index(nearest_bridge_spec(l, pos.x))->0
}

/// Whether a vehicle of `kind` waiting at `pos` gets on the nearest bridge:
/// an ambulance always does, others as the bridge allows.
pub open spec fn gets_on(city: City, kind: AgentType, tickets: u32, pos: Coord, l: CityLayout) -> bool {
    kind == AgentType::Ambulance || city.bridges@[nearest_index(city, pos, l)].cross_spec(
        ticket_priority(tickets),
        crossing_direction(pos, l),
    ).1
}

/// A vehicle's position, stage, bridge-step counter and signal after one
/// step, given whether the city was free (`granted`) and whether the bridge
/// let it on (`on`).
pub open spec fn vehicle_step(
    pos: Coord,
    dest: Coord,
    state: AgentState,
    steps: u32,
    l: CityLayout,
    granted: bool,
    on: bool,
) -> (Coord, AgentState, u32, ThreadSignal) {
    match state {
        AgentState::Traveling => {
            if pos == dest {
                (pos, AgentState::Arrived, steps, ThreadSignal::Exit)
            } else if needs_bridge(pos, dest, l) && at_bridge_entrance(pos, dest, l) {
                (pos, AgentState::WaitingForBridge, steps, ThreadSignal::Yield)
            } else {
                (move_towards_spec(pos, dest, l), AgentState::Traveling, steps, ThreadSignal::Yield)
            }
        },
        AgentState::WaitingForBridge => {
            if !granted {
                (pos, state, steps, ThreadSignal::Block)
            } else if on {
                (pos, AgentState::CrossingBridge, 0, ThreadSignal::Yield)
            } else {
                (pos, state, steps, ThreadSignal::Yield)
            }
        },
        AgentState::CrossingBridge => {
            if steps + 1 >= 3 {
                (other_bank(pos, l), AgentState::Traveling, (steps + 1) as u32, ThreadSignal::Yield)
            } else {
                (pos, state, (steps + 1) as u32, ThreadSignal::Yield)
            }
        },
        AgentState::Arrived => (pos, AgentState::Arrived, steps, ThreadSignal::Exit),
    }
}

/// What one step of a vehicle of `kind` does to the city: a vehicle other
/// than an ambulance that was let on the nearest bridge takes a place on it,
/// and one that came down on the other bank leaves it; nothing else changes.
pub open spec fn vehicle_city_step(
    c: City,
    d: City,
    kind: AgentType,
    tickets: u32,
    pos: Coord,
    state: AgentState,
    steps: u32,
    l: CityLayout,
    granted: bool,
) -> bool {
    let i = nearest_index(c, pos, l);
    let b = c.bridges@[i];
    let boards = state == AgentState::WaitingForBridge;
    let leaves = state == AgentState::CrossingBridge && steps + 1 >= 3 && c.bridge_index(
        nearest_bridge_spec(l, pos.x),
    ) is Some;
    if granted && kind != AgentType::Ambulance && (boards || leaves) {
        let st = if boards {
            b.cross_spec(ticket_priority(tickets), crossing_direction(pos, l)).0
        } else {
            b.exit_spec()
        };
        &&& d.bridges@ == c.bridges@.update(i, Bridge { state: st, ..b })
        &&& d == City { bridges: d.bridges, ..c }
    } else {
        d == c
    }
}

/// Moves `pos` one step towards `dest` without entering the river: sideways
/// when the next column is not the river, else along the rows.
pub fn move_towards(pos: &mut Coord, dest: Coord, layout: &CityLayout)
    ensures
        *final(pos) == move_towards_spec(*old(pos), dest, *layout),
{
    if pos.y != dest.y {
        if pos.y < dest.y && pos.y + 1 != layout.river_column {
            pos.y = pos.y + 1;
            return;
        } else if pos.y > dest.y && pos.y - 1 != layout.river_column {
            pos.y = pos.y - 1;
            return;
        }
    }
    if pos.x < dest.x {
        pos.x = pos.x + 1;
    } else if pos.x > dest.x {
        pos.x = pos.x - 1;
    }
}

/// Whether a vehicle step from `state`, with `steps` crossing steps done,
/// needs the city: waiting at a bridge, or coming down from one.
pub open spec fn vehicle_needs_city(state: AgentState, steps: u32) -> bool {
    state == AgentState::WaitingForBridge || (state == AgentState::CrossingBridge && steps + 1 >= 3)
}

/// Whether a boat step from `state`, with `steps` passing steps done, needs
/// the city: waiting below the drawbridge, or leaving it.
pub open spec fn boat_needs_city(state: AgentState, steps: u32) -> bool {
    state == AgentState::WaitingForBridge || (state == AgentState::CrossingBridge && steps + 1 >= 5)
}

/// One step of vehicle `id`, run by thread `tid` with `current_tickets`:
/// travel towards `dest`; wait on the bank for the nearest bridge (an
/// ambulance passes at once, others ask the bridge with their tickets as
/// priority); spend three steps crossing, then come down on the other bank
/// and leave the bridge. Waiting and leaving need the city: when it is
/// taken, a waiting vehicle blocks and a leaving one keeps its place.
pub fn vehicle_logic(
    tid: ThreadId,
    id: u32,
    agent_type: AgentType,
    current_tickets: u32,
    pos: &mut Coord,
    dest: Coord,
    state: &mut AgentState,
    crossing_steps: &mut u32,
    city: &mut SharedCity,
    layout: &CityLayout,
) -> (r: ThreadSignal)
    requires
        navigable(*layout),
        old(pos).x <= i32::MAX,
        old(city).value().wf(),
        *old(state) == AgentState::WaitingForBridge ==> old(city).value().bridge_index(
            nearest_bridge_spec(*layout, old(pos).x),
        ) is Some,
        *old(state) == AgentState::CrossingBridge ==> *old(crossing_steps) < u32::MAX,
    ensures
        exists|granted: bool|
            {
                let (p, s, n, sig) = vehicle_step(
                    *old(pos),
                    dest,
                    *old(state),
                    *old(crossing_steps),
                    *layout,
                    granted,
                    gets_on(old(city).value(), agent_type, current_tickets, *old(pos), *layout),
                );
                &&& vehicle_needs_city(*old(state), *old(crossing_steps)) ==> (granted <==> !old(city).is_locked())
                &&& *final(pos) == p
                &&& *final(state) == s
                &&& *final(crossing_steps) == n
                &&& r == sig
                &&& #[trigger] vehicle_city_step(
                    old(city).value(),
                    final(city).value(),
                    agent_type,
                    current_tickets,
                    *old(pos),
                    *old(state),
                    *old(crossing_steps),
                    *layout,
                    granted,
                )
            },
        final(city).value().wf(),
        final(city).is_locked() == old(city).is_locked(),
{
    match *state {
        AgentState::Traveling => {
            if pos.x == dest.x && pos.y == dest.y {
                *state = AgentState::Arrived;
                proof {
                    assert(vehicle_city_step(old(city).value(), city.value(), agent_type, current_tickets,
                        *old(pos), *old(state), *old(crossing_steps), *layout, false));
                }
                return ThreadSignal::Exit;
            }
            let needs = (pos.y < layout.river_column && dest.y > layout.river_column) || (pos.y
                > layout.river_column && dest.y < layout.river_column);
            let at_entrance = (pos.y == layout.river_column - 1 && dest.y > layout.river_column) || (pos.y
                == layout.river_column + 1 && dest.y < layout.river_column);
            if needs && at_entrance {
                *state = AgentState::WaitingForBridge;
            } else {
                move_towards(pos, dest, layout);
            }
            proof {
                assert(vehicle_city_step(old(city).value(), city.value(), agent_type, current_tickets,
                    *old(pos), *old(state), *old(crossing_steps), *layout, false));
            }
            ThreadSignal::Yield
        },
        AgentState::WaitingForBridge => {
            let ghost c = city.value();
            let bridge_id = nearest_bridge(layout, pos.x);
            let direction = if pos.y < layout.river_column {
                TrafficDirection::NorthToSouth
            } else {
                TrafficDirection::SouthToNorth
            };
            let mut on = false;
            match city.try_enter() {
                None => {
                    proof {
                        assert(vehicle_city_step(c, city.value(), agent_type, current_tickets, *old(pos),
                            *old(state), *old(crossing_steps), *layout, false));
                    }
                    return ThreadSignal::Block;
                },
                Some(city_lock) => {
                    let ghost i = c.bridge_index(bridge_id)->0;
                    proof {
                        lemma_bridge_index(c, bridge_id);
                    }
                    if city_lock.find_bridge(bridge_id).is_none() {
                        proof {
                            assert(false);
                        }
                    }
                    if agent_type == AgentType::Ambulance {
                        on = true;
                    } else {
                        match city_lock.get_bridge_mut(bridge_id) {
                            None => {},
                            Some(bridge) => {
                                proof {
                                    assert(c.bridges@[i].wf());
                                }
                                let final_priority = (current_tickets % 256) as u8;
                                on = bridge.try_cross(tid, final_priority, direction);
                            },
                        }
                        proof {
                            lemma_wf_bridge_update(c, *city_lock, i, city_lock.bridges@[i]);
                        }
                    }
                },
            }
            if on {
                *state = AgentState::CrossingBridge;
                *crossing_steps = 0;
            }
            city.force_unlock_for_main();
            proof {
                assert(vehicle_city_step(c, city.value(), agent_type, current_tickets, *old(pos),
                    *old(state), *old(crossing_steps), *layout, true));
            }
            ThreadSignal::Yield
        },
        AgentState::CrossingBridge => {
            *crossing_steps = *crossing_steps + 1;
            if *crossing_steps >= 3 {
                if pos.y < layout.river_column {
                    pos.y = layout.river_column + 1;
                } else {
                    pos.y = layout.river_column - 1;
                }
                *state = AgentState::Traveling;
                let ghost c = city.value();
                let bridge_id = nearest_bridge(layout, pos.x);
                match city.try_enter() {
                    None => {
                        proof {
                            assert(vehicle_city_step(c, city.value(), agent_type, current_tickets,
                                *old(pos), *old(state), *old(crossing_steps), *layout, false));
                        }
                        return ThreadSignal::Yield;
                    },
                    Some(city_lock) => {
                        let ghost i = c.bridge_index(bridge_id)->0;
                        proof {
                            lemma_bridge_index(c, bridge_id);
                        }
                        if agent_type != AgentType::Ambulance && city_lock.find_bridge(bridge_id).is_some() {
                            match city_lock.get_bridge_mut(bridge_id) {
                                None => {},
                                Some(bridge) => {
                                    proof {
                                        assert(c.bridges@[i].wf());
                                    }
                                    bridge.exit_bridge(tid);
                                },
                            }
                            proof {
                                lemma_wf_bridge_update(c, *city_lock, i, city_lock.bridges@[i]);
                            }
                        }
                    },
                }
                city.force_unlock_for_main();
                proof {
                    assert(vehicle_city_step(c, city.value(), agent_type, current_tickets, *old(pos),
                        *old(state), *old(crossing_steps), *layout, true));
                }
                return ThreadSignal::Yield;
            }
            proof {
                assert(vehicle_city_step(old(city).value(), city.value(), agent_type, current_tickets,
                    *old(pos), *old(state), *old(crossing_steps), *layout, false));
            }
            ThreadSignal::Yield
        },
        AgentState::Arrived => {
            proof {
                assert(vehicle_city_step(old(city).value(), city.value(), agent_type, current_tickets,
                    *old(pos), *old(state), *old(crossing_steps), *layout, false));
            }
            ThreadSignal::Exit
        },
    }
}

/// What a truck's delivery at `dest` does to the city: the first plant
/// there records `cargo` at the city's time; without a plant nothing changes.
pub open spec fn delivery_city_step(c: City, d: City, dest: Coord, cargo: SupplyKind) -> bool {
    match c.plant_index_at(dest) {
        Some(i) => {
            &&& d.plants@ == c.plants@.update(i, after_delivery(c.plants@[i], cargo, c.time_ms))
            &&& d == City { plants: d.plants, ..c }
        },
        None => d == c,
    }
}

/// The first required supply of `kind` of a plant.
fn find_supply(plant: &NuclearPlant, kind: SupplyKind) -> (r: Option<SupplySpec>)
    ensures
        r is Some <==> supply_index(*plant, kind) is Some,
        r is Some ==> r->0 == plant.required@[supply_index(*plant, kind)->0] && r->0.kind == kind,
{
    proof {
        lemma_supply_index(*plant, kind);
    }
    let mut j: usize = 0;
    while j < plant.required.len()
        invariant
            0 <= j <= plant.required@.len(),
            forall|k: int| 0 <= k < j ==> #[trigger] plant.required@[k].kind != kind,
        decreases plant.required@.len() - j,
    {
        if plant.required[j].kind == kind {
            proof {
                let f = supply_index(*plant, kind)->0;
                if f < j {
                } else if f > j {
                    assert(plant.required@[j as int].kind == kind);
                }
            }
            return Some(plant.required[j]);
        }
        j = j + 1;
    }
    None
}

/// One step of cargo truck `id` carrying `cargo`: once at its destination
/// it delivers to the plant there, at the city's time, and is done (when
/// the city is taken it blocks and tries again); otherwise it drives like
/// any vehicle.
pub fn cargo_truck_logic(
    tid: ThreadId,
    id: u32,
    cargo: SupplyKind,
    current_tickets: u32,
    pos: &mut Coord,
    dest: Coord,
    state: &mut AgentState,
    crossing_steps: &mut u32,
    city: &mut SharedCity,
    layout: &CityLayout,
) -> (r: ThreadSignal)
    requires
        navigable(*layout),
        old(pos).x <= i32::MAX,
        old(city).value().wf(),
        *old(state) == AgentState::WaitingForBridge ==> old(city).value().bridge_index(
            nearest_bridge_spec(*layout, old(pos).x),
        ) is Some,
        *old(state) == AgentState::CrossingBridge ==> *old(crossing_steps) < u32::MAX,
        *old(state) != AgentState::Arrived && *old(pos) == dest && old(city).value().plant_index_at(dest) is Some
            ==> supply_index(old(city).value().plants@[old(city).value().plant_index_at(dest)->0], cargo) is Some,
    ensures
        *old(state) != AgentState::Arrived && *old(pos) == dest ==> {
            &&& *final(pos) == *old(pos)
            &&& *final(crossing_steps) == *old(crossing_steps)
            &&& r is Block ==> *final(state) == *old(state) && final(city).value() == old(city).value()
            &&& r is Exit ==> *final(state) == AgentState::Arrived && delivery_city_step(
                old(city).value(),
                final(city).value(),
                dest,
                cargo,
            )
            &&& r is Block || r is Exit
            &&& r is Exit <==> !old(city).is_locked()
        },
        !(*old(state) != AgentState::Arrived && *old(pos) == dest) ==> exists|granted: bool|
            {
                let (p, s, n, sig) = vehicle_step(
                    *old(pos),
                    dest,
                    *old(state),
                    *old(crossing_steps),
                    *layout,
                    granted,
                    gets_on(old(city).value(), AgentType::CargoTruck(cargo), current_tickets, *old(pos), *layout),
                );
                &&& vehicle_needs_city(*old(state), *old(crossing_steps)) ==> (granted <==> !old(city).is_locked())
                &&& *final(pos) == p
                &&& *final(state) == s
                &&& *final(crossing_steps) == n
                &&& r == sig
                &&& #[trigger] vehicle_city_step(
                    old(city).value(),
                    final(city).value(),
                    AgentType::CargoTruck(cargo),
                    current_tickets,
                    *old(pos),
                    *old(state),
                    *old(crossing_steps),
                    *layout,
                    granted,
                )
            },
        final(city).value().wf(),
        final(city).is_locked() == old(city).is_locked(),
{
    if *state != AgentState::Arrived && pos.x == dest.x && pos.y == dest.y {
        let ghost c = city.value();
        match city.try_enter() {
            None => {
                return ThreadSignal::Block;
            },
            Some(city_lock) => {
                let current_time = city_lock.current_time();
                proof {
                    lemma_plant_index(c, dest);
                }
                if city_lock.find_plant_index(dest).is_some() {
                    match city_lock.find_plant_at(dest) {
                        None => {},
                        Some(plant) => {
                            proof {
                                let f = c.plant_index_at(dest)->0;
                                let w = choose|i: int| 0 <= i < c.plants@.len() && c.plants@[i].loc == dest
                                    && *plant == c.plants@[i]
                                    && forall|k: int| 0 <= k < i ==> #[trigger] c.plants@[k].loc != dest;
                                if w < f {
                                    assert(c.plants@[w].loc == dest);
                                } else if w > f {
                                    assert(c.plants@[f].loc != dest);
                                }
                            }
                            match find_supply(plant, cargo) {
                                None => {
                                    proof {
                                        assert(false);
                                    }
                                },
                                Some(supply) => {
                                    plant.commit_delivery(supply, current_time);
                                },
                            }
                        },
                    }
                }
            },
        }
        *state = AgentState::Arrived;
        city.force_unlock_for_main();
        return ThreadSignal::Exit;
    }
    match *state {
        AgentState::Arrived => {
            proof {
                assert(vehicle_city_step(old(city).value(), city.value(), AgentType::CargoTruck(cargo),
                    current_tickets, *old(pos), *old(state), *old(crossing_steps), *layout, false));
            }
            ThreadSignal::Exit
        },
        _ => vehicle_logic(
            tid,
            id,
            AgentType::CargoTruck(cargo),
            current_tickets,
            pos,
            dest,
            state,
            crossing_steps,
            city,
            layout,
        ),
    }
}

/// The drawbridge, which boats raise.
pub open spec fn drawbridge_id() -> u32 {
    3
}

/// A boat's position, stage, bridge-step counter and signal after one step,
/// given whether the city was free (`granted`) and whether the drawbridge
/// let it pass (`ok`). A boat sails up the river, stops below the
/// drawbridge's row, and spends five steps passing it.
pub open spec fn boat_step(
    pos: Coord,
    dest: Coord,
    state: AgentState,
    steps: u32,
    l: CityLayout,
    granted: bool,
    ok: bool,
) -> (Coord, AgentState, u32, ThreadSignal) {
    match state {
        AgentState::Traveling => {
            if pos == dest {
                (pos, AgentState::Arrived, steps, ThreadSignal::Exit)
            } else if pos.x == l.bridge3_row {
                (pos, AgentState::WaitingForBridge, steps, ThreadSignal::Yield)
            } else if pos.x > dest.x {
                (Coord { x: (pos.x - 1) as u32, ..pos }, AgentState::Traveling, steps, ThreadSignal::Yield)
            } else {
                (pos, AgentState::Traveling, steps, ThreadSignal::Yield)
            }
        },
        AgentState::WaitingForBridge => {
            if !granted {
                (pos, state, steps, ThreadSignal::Block)
            } else if ok {
                (pos, AgentState::CrossingBridge, 0, ThreadSignal::Yield)
            } else {
                (pos, state, steps, ThreadSignal::Yield)
            }
        },
        AgentState::CrossingBridge => {
            if steps + 1 >= 5 {
                (Coord { x: (pos.x - 1) as u32, ..pos }, AgentState::Traveling, (steps + 1) as u32, ThreadSignal::Yield)
            } else {
                (pos, state, (steps + 1) as u32, ThreadSignal::Yield)
            }
        },
        AgentState::Arrived => (pos, AgentState::Arrived, steps, ThreadSignal::Exit),
    }
}

/// What one step of a boat does to the city: a waiting boat asks the
/// drawbridge to rise, and one that has passed lowers it; nothing else
/// changes.
pub open spec fn boat_city_step(c: City, d: City, state: AgentState, steps: u32, granted: bool) -> bool {
    let i = c.bridge_index(drawbridge_id())->0;
    let b = c.bridges@[i];
    let asks = state == AgentState::WaitingForBridge;
    let leaves = state == AgentState::CrossingBridge && steps + 1 >= 5;
    if granted && (asks || leaves) {
        let st = if asks {
            b.boat_request_spec().0
        } else {
            BridgeState { boat_passing: false, ..b.state }
        };
        &&& d.bridges@ == c.bridges@.update(i, Bridge { state: st, ..b })
        &&& d == City { bridges: d.bridges, ..c }
    } else {
        d == c
    }
}

/// One step of boat `id`: sail up the river towards `dest`; below the
/// drawbridge, ask it to rise (when the city is taken, block); pass it in
/// five steps, then lower it.
pub fn boat_logic(
    _tid: ThreadId,
    id: u32,
    _current_tickets: u32,
    pos: &mut Coord,
    dest: Coord,
    state: &mut AgentState,
    crossing_steps: &mut u32,
    city: &mut SharedCity,
    layout: &CityLayout,
) -> (r: ThreadSignal)
    requires
        old(city).value().wf(),
        *old(state) == AgentState::WaitingForBridge ==> old(city).value().bridge_index(drawbridge_id()) is Some,
        *old(state) == AgentState::CrossingBridge ==> *old(crossing_steps) < u32::MAX,
        *old(state) == AgentState::CrossingBridge && *old(crossing_steps) + 1 >= 5 ==> old(pos).x >= 1
            && old(city).value().bridge_index(drawbridge_id()) is Some,
    ensures
        exists|granted: bool|
            {
                let (p, s, n, sig) = boat_step(
                    *old(pos),
                    dest,
                    *old(state),
                    *old(crossing_steps),
                    *layout,
                    granted,
                    old(city).value().bridges@[old(city).value().bridge_index(
                        drawbridge_id(),
                    )->0].boat_request_spec().1,
                );
                &&& boat_needs_city(*old(state), *old(crossing_steps)) ==> (granted <==> !old(city).is_locked())
                &&& *final(pos) == p
                &&& *final(state) == s
                &&& *final(crossing_steps) == n
                &&& r == sig
                &&& #[trigger] boat_city_step(
                    old(city).value(),
                    final(city).value(),
                    *old(state),
                    *old(crossing_steps),
                    granted,
                )
            },
        final(city).value().wf(),
        final(city).is_locked() == old(city).is_locked(),
{
    match *state {
        AgentState::Traveling => {
            if pos.x == dest.x && pos.y == dest.y {
                *state = AgentState::Arrived;
                proof {
                    assert(boat_city_step(old(city).value(), city.value(), *old(state), *old(crossing_steps), false));
                }
                return ThreadSignal::Exit;
            }
            if pos.x == layout.bridge3_row {
                *state = AgentState::WaitingForBridge;
            } else if pos.x > dest.x {
                pos.x = pos.x - 1;
            }
            proof {
                assert(boat_city_step(old(city).value(), city.value(), *old(state), *old(crossing_steps), false));
            }
            ThreadSignal::Yield
        },
        AgentState::WaitingForBridge => {
            let ghost c = city.value();
            let mut can_cross = false;
            match city.try_enter() {
                None => {
                    proof {
                        assert(boat_city_step(c, city.value(), *old(state), *old(crossing_steps), false));
                    }
                    return ThreadSignal::Block;
                },
                Some(city_lock) => {
                    let ghost i = c.bridge_index(3)->0;
                    proof {
                        lemma_bridge_index(c, 3);
                    }
                    match city_lock.get_bridge_mut(3) {
                        None => {
                            proof {
                                assert(false);
                            }
                        },
                        Some(bridge) => {
                            proof {
                                assert(c.bridges@[i].wf());
                            }
                            can_cross = bridge.boat_request_pass();
                        },
                    }
                    proof {
                        lemma_wf_bridge_update(c, *city_lock, i, city_lock.bridges@[i]);
                    }
                },
            }
            if can_cross {
                *state = AgentState::CrossingBridge;
                *crossing_steps = 0;
            }
            city.force_unlock_for_main();
            proof {
                assert(boat_city_step(c, city.value(), *old(state), *old(crossing_steps), true));
            }
            ThreadSignal::Yield
        },
        AgentState::CrossingBridge => {
            *crossing_steps = *crossing_steps + 1;
            if *crossing_steps >= 5 {
                pos.x = pos.x - 1;
                *state = AgentState::Traveling;
                let ghost c = city.value();
                match city.try_enter() {
                    None => {
                        proof {
                            assert(boat_city_step(c, city.value(), *old(state), *old(crossing_steps), false));
                        }
                        return ThreadSignal::Yield;
                    },
                    Some(city_lock) => {
                        let ghost i = c.bridge_index(3)->0;
                        proof {
                            lemma_bridge_index(c, 3);
                        }
                        match city_lock.get_bridge_mut(3) {
                            None => {
                                proof {
                                    assert(false);
                                }
                            },
                            Some(bridge) => {
                                proof {
                                    assert(c.bridges@[i].wf());
                                }
                                bridge.boat_exit();
                            },
                        }
                        proof {
                            lemma_wf_bridge_update(c, *city_lock, i, city_lock.bridges@[i]);
                        }
                    },
                }
                city.force_unlock_for_main();
                proof {
                    assert(boat_city_step(c, city.value(), *old(state), *old(crossing_steps), true));
                }
                return ThreadSignal::Yield;
            }
            proof {
                assert(boat_city_step(old(city).value(), city.value(), *old(state), *old(crossing_steps), false));
            }
            ThreadSignal::Yield
        },
        AgentState::Arrived => {
            proof {
                assert(boat_city_step(old(city).value(), city.value(), *old(state), *old(crossing_steps), false));
            }
            ThreadSignal::Exit
        },
    }
}

/// A layout with a street on each side of the river.
pub open spec fn routable(l: CityLayout) -> bool {
    &&& 0 < l.grid_rows
    &&& 0 < l.river_column
    &&& l.river_column + 1 < l.grid_cols
}

/// A block of the city that is not the river.
pub open spec fn on_land(c: Coord, l: CityLayout) -> bool {
    c.x < l.grid_rows && c.y < l.grid_cols && c.y != l.river_column
}

/// A random block that is not the river: any row; a column on either side
/// of the river, each side with even chance.
pub fn random_position(layout: &CityLayout) -> (c: Coord)
    requires
        routable(*layout),
    ensures
        on_land(c, *layout),
{
    let row = random_below(0, layout.grid_rows as u64) as u32;
    let col = if random_chance(1, 2) {
        random_below(0, layout.river_column as u64) as u32
    } else {
        random_below((layout.river_column + 1) as u64, layout.grid_cols as u64) as u32
    };
    Coord::new(row, col)
}

/// A random block that is not the river and not `origin`: positions are
/// drawn until one differs from the origin (after a thousand equal draws,
/// the first street block that differs is taken).
pub fn random_destination(layout: &CityLayout, origin: Coord) -> (d: Coord)
    requires
        routable(*layout),
    ensures
        on_land(d, *layout),
        d != origin,
{
    let mut tries: u32 = 0;
    while tries < 1000
        invariant
            routable(*layout),
        decreases 1000 - tries,
    {
        let dest = random_position(layout);
        if dest.x != origin.x || dest.y != origin.y {
            return dest;
        }
        tries = tries + 1;
    }
    if origin.x != 0 || origin.y != 0 {
        Coord::new(0, 0)
    } else {
        Coord::new(0, layout.river_column + 1)
    }
}

/// A random supply for a truck to carry, each kind with even chance.
pub fn random_supply_kind() -> (k: SupplyKind) {
    if random_chance(1, 2) {
        SupplyKind::Radioactive
    } else {
        SupplyKind::Water
    }
}

/// Where a new boat starts and where it goes: it enters at the last row of
/// the river, and goes to a random row from two below the lower of the
/// second and third bridges' rows up to the upper one's (one below the
/// lower one when that range is empty).
pub fn boat_route(layout: &CityLayout) -> (r: (Coord, Coord))
    requires
        0 < layout.grid_rows,
        layout.bridge2_row + 2 <= u32::MAX,
        layout.bridge3_row + 2 <= u32::MAX,
    ensures
        ({
            let lower = if layout.bridge2_row <= layout.bridge3_row { layout.bridge2_row } else { layout.bridge3_row };
            let upper = if layout.bridge2_row <= layout.bridge3_row { layout.bridge3_row } else { layout.bridge2_row };
            let (origin, dest) = r;
            &&& origin == Coord { x: (layout.grid_rows - 1) as u32, y: layout.river_column }
            &&& dest.y == layout.river_column
            &&& upper + 1 > lower + 2 ==> lower + 2 <= dest.x < upper + 1
            &&& upper + 1 <= lower + 2 ==> dest.x == lower + 1
        }),
{
    let origin = Coord::new(layout.grid_rows - 1, layout.river_column);
    let lower_bound_row = if layout.bridge2_row <= layout.bridge3_row { layout.bridge2_row } else { layout.bridge3_row };
    let upper_bound_row = if layout.bridge2_row <= layout.bridge3_row { layout.bridge3_row } else { layout.bridge2_row };
    let start_range = lower_bound_row + 2;
    let end_range = upper_bound_row + 1;
    let dest_row = if end_range > start_range {
        random_below(start_range as u64, end_range as u64) as u32
    } else {
        lower_bound_row + 1
    };
    (origin, Coord::new(dest_row, layout.river_column))
}

/// Where a new truck with `cargo` goes and by when: a random plant, and the
/// city's time plus the deadline of that plant's first supply of the cargo.
pub fn cargo_route(city: &City, cargo: SupplyKind) -> (r: (Coord, u64))
    requires
        city.plants@.len() > 0,
        forall|i: int| 0 <= i < city.plants@.len() ==> {
            let p = #[trigger] city.plants@[i];
            &&& supply_index(p, cargo) is Some
            &&& city.time_ms + p.required@[supply_index(p, cargo)->0].deadline_ms <= u64::MAX
        },
    ensures
        exists|i: int|
            0 <= i < city.plants@.len() && r.0 == (#[trigger] city.plants@[i]).loc && r.1 == city.time_ms
                + city.plants@[i].required@[supply_index(city.plants@[i], cargo)->0].deadline_ms,
{
    let i = random_below(0, city.plants.len() as u64) as usize;
    let plant = &city.plants[i];
    match find_supply(plant, cargo) {
        None => {
            proof {
                assert(supply_index(city.plants@[i as int], cargo) is Some);
            }
            (plant.loc, 0)
        },
        Some(supply) => {
            proof {
                assert(supply_index(city.plants@[i as int], cargo) is Some);
            }
            (plant.loc, city.current_time() + supply.deadline_ms)
        },
    }
}

/// What the city records of a new agent of `kind`: its vehicle at `origin`
/// heading for `dest`, traveling, with priority 10 for an ambulance and 0
/// otherwise.
pub fn agent_info_for(kind: AgentType, id: u32, tid: ThreadId, origin: Coord, dest: Coord) -> (a: AgentInfo)
    ensures
        a == (AgentInfo {
            vehicle: Vehicle {
                id,
                tid,
                pos: origin,
                origin,
                destination: dest,
                priority: if kind == AgentType::Ambulance { 10 } else { 0 },
                stage: AgentState::Traveling,
            },
            agent_type: kind,
        }),
{
    let o = (origin.x, origin.y);
    let d = (dest.x, dest.y);
    let vehicle = match kind {
        AgentType::Car => Vehicle::new(id, tid, origin, dest),
        AgentType::Ambulance => Ambulance::new(id, tid, o, d).inner,
        AgentType::Boat => Boat::new(id, tid, o, d).inner,
        AgentType::CargoTruck(cargo) => CargoTruck::new(id, tid, o, d, cargo).inner,
    };
    AgentInfo { vehicle, agent_type: kind }
}

/// Records agent `info` of thread `tid` in the city when the city is free;
/// reports whether it did.
pub fn try_register(city: &mut SharedCity, tid: ThreadId, info: AgentInfo) -> (done: bool)
    ensures
        done <==> !old(city).is_locked(),
        final(city).is_locked() == old(city).is_locked(),
        done ==> registered(old(city).value(), final(city).value(), tid, info),
        !done ==> final(city).value() == old(city).value(),
{
    match city.try_enter() {
        None => false,
        Some(city_lock) => {
            city_lock.register_agent(tid, info);
            city.force_unlock_for_main();
            true
        },
    }
}

/// The threads of the trucks, in the order the city lists its agents, that
/// carry `kind`.
pub open spec fn trucks_carrying(agents: Seq<(ThreadId, AgentInfo)>, kind: SupplyKind) -> Seq<ThreadId>
    decreases agents.len(),
{
    if agents.len() == 0 {
        Seq::empty()
    } else {
        let rest = trucks_carrying(agents.drop_last(), kind);
        let a = agents.last().1;
        if a.agent_type == AgentType::CargoTruck(kind) {
            rest.push(a.vehicle.tid)
        } else {
            rest
        }
    }
}

/// For each plant at risk in turn that needs a supply at `now_ms`, the
/// threads of the trucks carrying that supply.
pub open spec fn trucks_to_hurry(plants: Seq<NuclearPlant>, agents: Seq<(ThreadId, AgentInfo)>, now_ms: u64) -> Seq<
    ThreadId,
>
    decreases plants.len(),
{
    if plants.len() == 0 {
        Seq::empty()
    } else {
        let rest = trucks_to_hurry(plants.drop_last(), agents, now_ms);
        let p = plants.last();
        if p.status == PlantStatus::AtRisk && active_risk(p, now_ms) is Some {
            rest + trucks_carrying(agents, active_risk(p, now_ms)->0)
        } else {
            rest
        }
    }
}

/// The threads of the trucks carrying `kind`.
fn trucks_with(city: &City, kind: SupplyKind) -> (r: Vec<ThreadId>)
    ensures
        r@ == trucks_carrying(city.agents@, kind),
{
    let mut r: Vec<ThreadId> = Vec::new();
    let mut k: usize = 0;
    while k < city.agents.len()
        invariant
            0 <= k <= city.agents@.len(),
            r@ == trucks_carrying(city.agents@.take(k as int), kind),
        decreases city.agents@.len() - k,
    {
        let a = city.agents[k].1;
        proof {
            assert(city.agents@.take(k + 1).drop_last() =~= city.agents@.take(k as int));
        }
        if a.agent_type == AgentType::CargoTruck(kind) {
            r.push(a.vehicle.tid);
        }
        k = k + 1;
    }
    proof {
        assert(city.agents@.take(city.agents@.len() as int) =~= city.agents@);
    }
    r
}

/// The trucks to hurry now: for each plant at risk in turn that needs a
/// supply, the threads of the trucks carrying it.
pub fn trucks_to_promote(city: &City) -> (r: Vec<ThreadId>)
    ensures
        r@ == trucks_to_hurry(city.plants@, city.agents@, city.time_ms),
{
    let now = city.current_time();
    let mut r: Vec<ThreadId> = Vec::new();
    let mut i: usize = 0;
    while i < city.plants.len()
        invariant
            0 <= i <= city.plants@.len(),
            now == city.time_ms,
            r@ == trucks_to_hurry(city.plants@.take(i as int), city.agents@, now),
        decreases city.plants@.len() - i,
    {
        let plant = &city.plants[i];
        proof {
            assert(city.plants@.take(i + 1).drop_last() =~= city.plants@.take(i as int));
            assert(city.plants@.take(i + 1).last() == city.plants@[i as int]);
        }
        if plant.status == PlantStatus::AtRisk {
            match plant.active_risk_kind(now) {
                Some(needed) => {
                    let found = trucks_with(city, needed);
                    let mut k: usize = 0;
                    let ghost before = r@;
                    while k < found.len()
                        invariant
                            0 <= k <= found@.len(),
                            r@ == before + found@.take(k as int),
                        decreases found@.len() - k,
                    {
                        r.push(found[k]);
                        proof {
                            assert(found@.take(k + 1) =~= found@.take(k as int).push(found@[k as int]));
                        }
                        k = k + 1;
                    }
                    proof {
                        assert(found@.take(found@.len() as int) =~= found@);
                    }
                },
                None => {},
            }
        }
        i = i + 1;
    }
    proof {
        assert(city.plants@.take(city.plants@.len() as int) =~= city.plants@);
    }
    r
}

/// The runtime after the threads `tids` are given, one by one, a thousand
/// lottery tickets; a number that names no thread changes nothing.
pub open spec fn promoted(v: RuntimeView, tids: Seq<ThreadId>) -> RuntimeView
    decreases tids.len(),
{
    if tids.len() == 0 {
        v
    } else {
        let w = promoted(v, tids.drop_last());
        if w.valid_tid(tids.last()) {
            with_params(w, tids.last(), SchedulerParams::Lottery { tickets: 1000 })
        } else {
            w
        }
    }
}

/// Hurries the trucks `tids`: each is scheduled by lottery with a thousand
/// tickets.
pub fn promote_trucks<E>(rt: &mut ThreadRuntimeV2<E>, tids: &Vec<ThreadId>)
    requires
        old(rt)@.wf(),
    ensures
        final(rt)@ == promoted(old(rt)@, tids@),
        final(rt)@.wf(),
        final(rt).same_bodies(*old(rt)),
{
    let mut i: usize = 0;
    while i < tids.len()
        invariant
            0 <= i <= tids@.len(),
            rt@ == promoted(old(rt)@, tids@.take(i as int)),
            rt@.wf(),
            rt.same_bodies(*old(rt)),
        decreases tids@.len() - i,
    {
        proof {
            assert(tids@.take(i + 1).drop_last() =~= tids@.take(i as int));
        }
        my_thread_chsched(rt, tids[i], SchedulerParams::Lottery { tickets: 1000 });
        i = i + 1;
    }
    proof {
        assert(tids@.take(tids@.len() as int) =~= tids@);
    }
}

/// Law: a vehicle never drives into the river: from a block off the
/// river's column, whatever its stage and whether or not it gets the city
/// or a bridge, its next position is off the river's column too.
pub proof fn law_vehicles_stay_off_the_river(
    pos: Coord,
    dest: Coord,
    state: AgentState,
    steps: u32,
    l: CityLayout,
    granted: bool,
    on: bool,
)
    requires
        navigable(l),
        pos.y != l.river_column,
    ensures
        vehicle_step(pos, dest, state, steps, l, granted, on).0.y != l.river_column,
        move_towards_spec(pos, dest, l).y != l.river_column,
{
}

} // verus!
