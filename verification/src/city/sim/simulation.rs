//! A tick-driven setting of the city: its bridges, two plants and a
//! spawner, before any agent runs.

use vstd::prelude::*;
use crate::city::config::CityLayout;
use crate::city::model::bridge::{Bridge, BridgeType, TrafficDirection};
use crate::city::model::coord::Coord;
use crate::city::model::nuclear::{DeadlinePolicy, NuclearPlant, PlantStatus, SupplyKind, SupplySpec};
use crate::city::sim::spawner::{VehicleSpawner, SpawnPlan, drawable};
use crate::mypthreads::thread::ThreadId;

verus! {

/// What one tick of the simulation spawns: a vehicle, a boat, and a truck
/// with the deadline of its real-time thread.
pub struct TickSpawns {
    pub vehicle: Option<SpawnPlan>,
    pub boat: Option<SpawnPlan>,
    pub truck: Option<(SpawnPlan, u64)>,
}

/// Whether the simulation goes on at `tick` with `spawned` vehicles: ticks
/// are left and fewer vehicles than wanted have appeared.
pub open spec fn goes_on(tick: u32, spawned: u32, max_ticks: u32, min_vehicles: u32) -> bool {
    tick < max_ticks && spawned < min_vehicles
}

/// The setting of a tick-driven simulation.
pub struct ThreadCitySimulation {
    pub layout: CityLayout,
    pub bridges: Vec<Bridge>,
    pub plants: Vec<NuclearPlant>,
    pub spawner: VehicleSpawner,
    pub truck_threads: Vec<(ThreadId, SupplyKind)>,
    pub tick: u32,
}

impl ThreadCitySimulation {
    /// The default layout with a traffic-light bridge (5 s cycle), a yield
    /// bridge favouring vehicles leaving the west bank and a drawbridge;
    /// plant 1 at (0, 1) and plant 2 at (1, 3), each needing radioactive
    /// material and water; a fresh spawner; tick 0.
    pub fn new() -> (s: Self)
        ensures
            s.layout == crate::city::config::default_layout(),
            s.bridges@.len() == 3,
            s.bridges@[0].id == 1 && s.bridges@[0].bridge_type == BridgeType::TrafficLight && s.bridges@[0].row == 1
                && s.bridges@[0].light_cycle_ms == 5000,
            s.bridges@[1].id == 2 && s.bridges@[1].bridge_type == BridgeType::Yield && s.bridges@[1].row == 2
                && s.bridges@[1].priority_direction == TrafficDirection::NorthToSouth,
            s.bridges@[2].id == 3 && s.bridges@[2].bridge_type == BridgeType::Drawbridge && s.bridges@[2].row == 3,
            forall|i: int| 0 <= i < 3 ==> (#[trigger] s.bridges@[i]).state == Bridge::initial_state(),
            s.plants@.len() == 2,
            s.plants@[0].id == 1 && s.plants@[0].loc == (Coord { x: 0, y: 1 }),
            s.plants@[0].required@.len() == 2,
            s.plants@[0].required@[0] == (SupplySpec { kind: SupplyKind::Radioactive, deadline_ms: 10_000, period_ms: 20_000 }),
            s.plants@[0].required@[1] == (SupplySpec { kind: SupplyKind::Water, deadline_ms: 8_000, period_ms: 16_000 }),
            s.plants@[0].deadline_policy == (DeadlinePolicy { max_lateness_ms: 2_000 }),
            s.plants@[1].id == 2 && s.plants@[1].loc == (Coord { x: 1, y: 3 }),
            s.plants@[1].required@.len() == 2,
            s.plants@[1].required@[0] == (SupplySpec { kind: SupplyKind::Radioactive, deadline_ms: 12_000, period_ms: 24_000 }),
            s.plants@[1].required@[1] == (SupplySpec { kind: SupplyKind::Water, deadline_ms: 10_000, period_ms: 20_000 }),
            s.plants@[1].deadline_policy == (DeadlinePolicy { max_lateness_ms: 2_500 }),
            forall|i: int| 0 <= i < 2 ==> (#[trigger] s.plants@[i]).status == PlantStatus::Normal
                && s.plants@[i].last_radioactive_ms == 0 && s.plants@[i].last_water_ms == 0,
            s.spawner == VehicleSpawner::initial(),
            s.truck_threads@.len() == 0,
            s.tick == 0,
    {
        let layout = CityLayout::default();
        let bridges = vec![
            Bridge::new_traffic_light(1, layout.bridge1_row, 5000),
            Bridge::new_yield(2, layout.bridge2_row, TrafficDirection::NorthToSouth),
            Bridge::new_drawbridge(3, layout.bridge3_row),
        ];
        let plant1 = NuclearPlant::new(
            1,
            Coord::new(0, 1),
            vec![
                SupplySpec { kind: SupplyKind::Radioactive, deadline_ms: 10_000, period_ms: 20_000 },
                SupplySpec { kind: SupplyKind::Water, deadline_ms: 8_000, period_ms: 16_000 },
            ],
            DeadlinePolicy { max_lateness_ms: 2_000 },
        );
        let plant2 = NuclearPlant::new(
            2,
            Coord::new(1, 3),
            vec![
                SupplySpec { kind: SupplyKind::Radioactive, deadline_ms: 12_000, period_ms: 24_000 },
                SupplySpec { kind: SupplyKind::Water, deadline_ms: 10_000, period_ms: 20_000 },
            ],
            DeadlinePolicy { max_lateness_ms: 2_500 },
        );
        let plants = vec![plant1, plant2];
        ThreadCitySimulation {
            layout,
            bridges,
            plants,
            spawner: VehicleSpawner::new(),
            truck_threads: Vec::new(),
            tick: 0,
        }
    }

    /// The decisions of one tick. When no tick is left or enough vehicles
    /// have appeared, nothing happens (`None`). Otherwise a vehicle appears
    /// when `vehicle_drawn` (the tick's random draw) says so; a boat when a
    /// hundred ticks have passed since the last; a truck, whose thread must
    /// finish within 10 000 ticks, when fifty ticks have passed since the
    /// last and there are plants; and the tick advances.
    pub fn run_tick(&mut self, vehicle_drawn: bool, max_ticks: u32, min_vehicles: u32) -> (r: Option<TickSpawns>)
        requires
            drawable(old(self).layout, true),
            old(self).layout.bridge1_row <= old(self).layout.bridge2_row,
            old(self).layout.bridge2_row < u32::MAX,
            old(self).layout.bridge3_row < u32::MAX,
            old(self).spawner.next_vehicle_id < u32::MAX,
            old(self).spawner.next_boat_id < u32::MAX,
            old(self).spawner.boats_spawned < u32::MAX,
            old(self).spawner.next_truck_id < u32::MAX,
            old(self).spawner.trucks_spawned < u32::MAX,
            old(self).spawner.last_boat_spawn_tick <= old(self).tick,
            old(self).spawner.last_truck_spawn_tick <= old(self).tick,
            forall|i: int| 0 <= i < old(self).plants@.len() ==> (#[trigger] old(self).plants@[i]).required@.len() > 0,
        ensures
            !goes_on(old(self).tick, old(self).spawner.vehicles_spawned, max_ticks, min_vehicles) ==> r is None
                && *final(self) == *old(self),
            goes_on(old(self).tick, old(self).spawner.vehicles_spawned, max_ticks, min_vehicles) ==> {
                let o = old(self).spawner;
                let t = old(self).tick;
                let v = vehicle_drawn;
                let b = t - o.last_boat_spawn_tick >= 100;
                let k = t - o.last_truck_spawn_tick >= 50 && old(self).plants@.len() > 0;
                &&& r is Some
                &&& r->0.vehicle is Some == v
                &&& r->0.boat is Some == b
                &&& r->0.truck is Some == k
                &&& v ==> r->0.vehicle->0.id == o.next_vehicle_id
                &&& b ==> r->0.boat->0.id == o.next_boat_id
                &&& k ==> (r->0.truck->0).0.id == o.next_truck_id && (r->0.truck->0).1 == t + 10_000
                &&& final(self).tick == t + 1
                &&& final(self).spawner == (VehicleSpawner {
                    vehicles_spawned: if v { (o.vehicles_spawned + 1) as u32 } else { o.vehicles_spawned },
                    next_vehicle_id: if v { (o.next_vehicle_id + 1) as u32 } else { o.next_vehicle_id },
                    boats_spawned: if b { (o.boats_spawned + 1) as u32 } else { o.boats_spawned },
                    next_boat_id: if b { (o.next_boat_id + 1) as u32 } else { o.next_boat_id },
                    last_boat_spawn_tick: if b { t } else { o.last_boat_spawn_tick },
                    trucks_spawned: if k { (o.trucks_spawned + 1) as u32 } else { o.trucks_spawned },
                    next_truck_id: if k { (o.next_truck_id + 1) as u32 } else { o.next_truck_id },
                    last_truck_spawn_tick: if k { t } else { o.last_truck_spawn_tick },
                })
                &&& final(self).layout == old(self).layout
                &&& final(self).plants@ == old(self).plants@
                &&& final(self).bridges@ == old(self).bridges@
            },
    {
        if !(self.tick < max_ticks && self.spawner.vehicles_spawned < min_vehicles) {
            return None;
        }
        let tick = self.tick;
        let layout = self.layout;
        let vehicle = if vehicle_drawn {
            Some(self.spawner.spawn_vehicle(&layout))
        } else {
            None
        };
        let boat = if self.spawner.should_spawn_boat(tick) {
            Some(self.spawner.spawn_boat(&layout, tick))
        } else {
            None
        };
        let truck = if self.spawner.should_spawn_truck(tick) && self.plants.len() > 0 {
            let plan = self.spawner.spawn_cargo_truck(&layout, tick, &self.plants);
            Some((plan, tick as u64 + 10_000))
        } else {
            None
        };
        self.tick = tick + 1;
        Some(TickSpawns { vehicle, boat, truck })
    }
}

} // verus!
