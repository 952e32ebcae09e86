//! A spawner that decides the agents of a tick-driven simulation: vehicles
//! at random places, boats every hundred ticks, trucks every fifty.

use vstd::prelude::*;
use crate::city::agents::vehicle::AgentType;
use crate::city::model::coord::Coord;
use crate::city::model::nuclear::NuclearPlant;
use crate::random::{random_below, random_chance};

verus! {

/// The layout of the city.
pub type CityLayout = crate::city::config::CityLayout;

/// What the spawner counts and when it last sent a boat and a truck.
pub struct VehicleSpawner {
    pub vehicles_spawned: u32,
    pub boats_spawned: u32,
    pub trucks_spawned: u32,
    pub next_vehicle_id: u32,
    pub next_boat_id: u32,
    pub next_truck_id: u32,
    pub last_boat_spawn_tick: u32,
    pub last_truck_spawn_tick: u32,
}

/// A new agent: its kind, its number, where it starts and where it goes.
#[derive(Debug, Clone, Copy)]
pub struct SpawnPlan {
    pub kind: AgentType,
    pub id: u32,
    pub origin: (u32, u32),
    pub destination: (u32, u32),
}

/// A block of the layout; with `avoid_river`, not in the river's column.
pub open spec fn in_layout(p: (u32, u32), l: CityLayout, avoid_river: bool) -> bool {
    &&& p.0 < l.grid_rows
    &&& p.1 < l.grid_cols
    &&& avoid_river ==> p.1 != l.river_column
}

/// Whether random blocks can be drawn: some row, and with `avoid_river` a
/// column on each side of the river, else some column.
pub open spec fn drawable(l: CityLayout, avoid_river: bool) -> bool {
    &&& 0 < l.grid_rows
    &&& avoid_river ==> 0 < l.river_column && l.river_column + 1 < l.grid_cols
    &&& !avoid_river ==> 0 < l.grid_cols
}

impl VehicleSpawner {
    /// A spawner that has sent nothing: vehicles are numbered from 1000,
    /// trucks from 5000, boats from 6000.
    pub open spec fn initial() -> Self {
        VehicleSpawner {
            vehicles_spawned: 0,
            boats_spawned: 0,
            trucks_spawned: 0,
            next_vehicle_id: 1000,
            next_boat_id: 6000,
            next_truck_id: 5000,
            last_boat_spawn_tick: 0,
            last_truck_spawn_tick: 0,
        }
    }

    /// A fresh spawner.
    pub fn new() -> (s: Self)
        ensures
            s == Self::initial(),
    {
        VehicleSpawner {
            vehicles_spawned: 0,
            boats_spawned: 0,
            trucks_spawned: 0,
            next_vehicle_id: 1000,
            next_boat_id: 6000,
            next_truck_id: 5000,
            last_boat_spawn_tick: 0,
            last_truck_spawn_tick: 0,
        }
    }

    /// A random block: any row; with `avoid_river` a column on either side
    /// of the river with even chance, else any column.
    pub fn random_position(&mut self, layout: &CityLayout, avoid_river: bool) -> (p: (u32, u32))
        requires
            drawable(*layout, avoid_river),
        ensures
            in_layout(p, *layout, avoid_river),
            *final(self) == *old(self),
    {
        let row = random_below(0, layout.grid_rows as u64) as u32;
        let col = if avoid_river {
            if random_chance(1, 2) {
                random_below(0, layout.river_column as u64) as u32
            } else {
                random_below((layout.river_column + 1) as u64, layout.grid_cols as u64) as u32
            }
        } else {
            random_below(0, layout.grid_cols as u64) as u32
        };
        (row, col)
    }

    /// A random block other than `origin`: blocks are drawn until one
    /// differs (after a thousand equal draws, the first block of the first
    /// row that differs is taken).
    pub fn random_destination(&mut self, origin: (u32, u32), layout: &CityLayout, avoid_river: bool) -> (d: (u32, u32))
        requires
            drawable(*layout, avoid_river),
            avoid_river || 1 < layout.grid_cols,
        ensures
            in_layout(d, *layout, avoid_river),
            d != origin,
            *final(self) == *old(self),
    {
        let mut tries: u32 = 0;
        while tries < 1000
            invariant
                drawable(*layout, avoid_river),
                *self == *old(self),
            decreases 1000 - tries,
        {
            let dest = self.random_position(layout, avoid_river);
            if dest.0 != origin.0 || dest.1 != origin.1 {
                return dest;
            }
            tries = tries + 1;
        }
        let second: u32 = if avoid_river { layout.river_column + 1 } else { 1 };
        if origin.0 != 0 || origin.1 != 0 {
            (0, 0)
        } else {
            (0, second)
        }
    }

    /// Whether a hundred ticks have passed since the last boat.
    pub fn should_spawn_boat(&mut self, current_tick: u32) -> (r: bool)
        requires
            old(self).last_boat_spawn_tick <= current_tick,
        ensures
            r == (current_tick - old(self).last_boat_spawn_tick >= 100),
            *final(self) == *old(self),
    {
        current_tick - self.last_boat_spawn_tick >= 100
    }

    /// Whether fifty ticks have passed since the last truck.
    pub fn should_spawn_truck(&mut self, current_tick: u32) -> (r: bool)
        requires
            old(self).last_truck_spawn_tick <= current_tick,
        ensures
            r == (current_tick - old(self).last_truck_spawn_tick >= 50),
            *final(self) == *old(self),
    {
        current_tick - self.last_truck_spawn_tick >= 50
    }

    /// A new vehicle between two random street blocks: an ambulance one
    /// time in ten, else a car, with the next vehicle number.
    pub fn spawn_vehicle(&mut self, layout: &CityLayout) -> (p: SpawnPlan)
        requires
            drawable(*layout, true),
            old(self).next_vehicle_id < u32::MAX,
            old(self).vehicles_spawned < u32::MAX,
        ensures
            p.kind == AgentType::Car || p.kind == AgentType::Ambulance,
            p.id == old(self).next_vehicle_id,
            in_layout(p.origin, *layout, true),
            in_layout(p.destination, *layout, true),
            p.origin != p.destination,
            *final(self) == (VehicleSpawner {
                next_vehicle_id: (old(self).next_vehicle_id + 1) as u32,
                vehicles_spawned: (old(self).vehicles_spawned + 1) as u32,
                ..*old(self)
            }),
    {
        let origin = self.random_position(layout, true);
        let destination = self.random_destination(origin, layout, true);
        let vehicle_type = random_below(0, 10);
        let id = self.next_vehicle_id;
        self.next_vehicle_id = self.next_vehicle_id + 1;
        self.vehicles_spawned = self.vehicles_spawned + 1;
        let kind = if vehicle_type == 0 { AgentType::Ambulance } else { AgentType::Car };
        SpawnPlan { kind, id, origin, destination }
    }

    /// A new boat at tick `current_tick`: it starts in the river at a
    /// random row from the first bridge's to the second's, and sails to the
    /// row after the third bridge.
    pub fn spawn_boat(&mut self, layout: &CityLayout, current_tick: u32) -> (p: SpawnPlan)
        requires
            layout.bridge1_row <= layout.bridge2_row,
            layout.bridge2_row < u32::MAX,
            layout.bridge3_row < u32::MAX,
            old(self).next_boat_id < u32::MAX,
            old(self).boats_spawned < u32::MAX,
        ensures
            p.kind == AgentType::Boat,
            p.id == old(self).next_boat_id,
            layout.bridge1_row <= p.origin.0 <= layout.bridge2_row,
            p.origin.1 == layout.river_column,
            p.destination == ((layout.bridge3_row + 1) as u32, layout.river_column),
            *final(self) == (VehicleSpawner {
                next_boat_id: (old(self).next_boat_id + 1) as u32,
                boats_spawned: (old(self).boats_spawned + 1) as u32,
                last_boat_spawn_tick: current_tick,
                ..*old(self)
            }),
    {
        let id = self.next_boat_id;
        self.next_boat_id = self.next_boat_id + 1;
        self.boats_spawned = self.boats_spawned + 1;
        self.last_boat_spawn_tick = current_tick;
        let start_row = random_below(layout.bridge1_row as u64, layout.bridge2_row as u64 + 1) as u32;
        let origin = (start_row, layout.river_column);
        let destination = (layout.bridge3_row + 1, layout.river_column);
        SpawnPlan { kind: AgentType::Boat, id, origin, destination }
    }

    /// A new truck at tick `current_tick`: it goes to a random plant with a
    /// random one of the supplies that plant requires, from a random block
    /// on the other side of the river.
    pub fn spawn_cargo_truck(&mut self, layout: &CityLayout, current_tick: u32, plants: &Vec<NuclearPlant>) -> (p:
        SpawnPlan)
        requires
            plants@.len() > 0,
            forall|i: int| 0 <= i < plants@.len() ==> (#[trigger] plants@[i]).required@.len() > 0,
            drawable(*layout, true),
            old(self).next_truck_id < u32::MAX,
            old(self).trucks_spawned < u32::MAX,
        ensures
            exists|i: int, j: int|
                0 <= i < plants@.len() && 0 <= j < plants@[i].required@.len() && p.kind == AgentType::CargoTruck(
                    (#[trigger] plants@[i].required@[j]).kind,
                ) && p.destination == (plants@[i].loc.x, plants@[i].loc.y),
            p.id == old(self).next_truck_id,
            p.origin.0 < layout.grid_rows,
            p.destination.1 < layout.river_column ==> layout.river_column < p.origin.1 < layout.grid_cols,
            p.destination.1 >= layout.river_column ==> p.origin.1 < layout.river_column,
            *final(self) == (VehicleSpawner {
                next_truck_id: (old(self).next_truck_id + 1) as u32,
                trucks_spawned: (old(self).trucks_spawned + 1) as u32,
                last_truck_spawn_tick: current_tick,
                ..*old(self)
            }),
    {
        let id = self.next_truck_id;
        self.next_truck_id = self.next_truck_id + 1;
        self.trucks_spawned = self.trucks_spawned + 1;
        self.last_truck_spawn_tick = current_tick;
        let plant_idx = random_below(0, plants.len() as u64) as usize;
        let plant = &plants[plant_idx];
        let destination = (plant.loc.x, plant.loc.y);
        proof {
            assert(plants@[plant_idx as int].required@.len() > 0);
        }
        let supply_idx = random_below(0, plant.required.len() as u64) as usize;
        let cargo = plant.required[supply_idx].kind;
        let origin = if destination.1 < layout.river_column {
            let row = random_below(0, layout.grid_rows as u64) as u32;
            let col = random_below((layout.river_column + 1) as u64, layout.grid_cols as u64) as u32;
            (row, col)
        } else {
            let row = random_below(0, layout.grid_rows as u64) as u32;
            let col = random_below(0, layout.river_column as u64) as u32;
            (row, col)
        };
        proof {
            assert(plants@[plant_idx as int].required@[supply_idx as int].kind == cargo);
        }
        SpawnPlan { kind: AgentType::CargoTruck(cargo), id, origin, destination }
    }
}

} // verus!
