//! The layout of the city and how it is built.

use vstd::prelude::*;
use crate::city::model::bridge::{Bridge, BridgeType, TrafficDirection};
use crate::city::model::coord::Coord;
use crate::city::model::nuclear::{SupplySpec, SupplyKind, DeadlinePolicy, PlantStatus};
use crate::city::sim::City;

verus! {

/// Where the river and the bridges are.
#[derive(Debug, Clone, Copy, PartialEq, Eq, Structural)]
pub struct CityLayout {
    pub grid_rows: u32,
    pub grid_cols: u32,
    pub river_column: u32,
    pub bridge1_row: u32,
    pub bridge2_row: u32,
    pub bridge3_row: u32,
}

/// The city of the simulation: 5 by 5 blocks, the river in column 2,
/// bridges in rows 1, 2 and 3.
pub open spec fn default_layout() -> CityLayout {
    CityLayout { grid_rows: 5, grid_cols: 5, river_column: 2, bridge1_row: 1, bridge2_row: 2, bridge3_row: 3 }
}

impl Default for CityLayout {
    fn default() -> (l: Self)
        ensures
            l == default_layout(),
    {
        CityLayout { grid_rows: 5, grid_cols: 5, river_column: 2, bridge1_row: 1, bridge2_row: 2, bridge3_row: 3 }
    }
}

/// The shops of a city: one per block outside the river column, numbered
/// from 1 row by row.
pub open spec fn shop_at(l: CityLayout, k: int) -> Coord {
    let per_row = l.grid_cols - 1;
    let row = k / per_row;
    let c = k % per_row;
    Coord { x: row as u32, y: (if c < l.river_column { c } else { c + 1 }) as u32 }
}

/// Builds the city of the simulation: the river, a traffic-light bridge
/// (5 s cycle), a yield bridge (north to south first) and a drawbridge; a
/// shop on every block outside the river; plant 1 at (1, 0) and plant 2 at
/// (2, 4), each needing radioactive material and water.
pub fn create_city() -> (r: (City, CityLayout))
    ensures
        ({
            let (city, layout) = r;
            &&& layout == default_layout()
            &&& city.time_ms == 0
            &&& city.grid.rows == 5 && city.grid.cols == 5
            &&& city.river is Some
            &&& city.bridges@.len() == 3
            &&& city.bridges@[0].id == 1 && city.bridges@[0].bridge_type == BridgeType::TrafficLight
                && city.bridges@[0].row == 1 && city.bridges@[0].light_cycle_ms == 5000
            &&& city.bridges@[1].id == 2 && city.bridges@[1].bridge_type == BridgeType::Yield
                && city.bridges@[1].row == 2 && city.bridges@[1].priority_direction == TrafficDirection::NorthToSouth
            &&& city.bridges@[2].id == 3 && city.bridges@[2].bridge_type == BridgeType::Drawbridge
                && city.bridges@[2].row == 3
            &&& forall|i: int| 0 <= i < 3 ==> city.bridges@[i].state == Bridge::initial_state()
            &&& city.commerces@.len() == 20
            &&& forall|k: int| 0 <= k < 20 ==> (#[trigger] city.commerces@[k]).id == k + 1
                && city.commerces@[k].location == shop_at(layout, k)
            &&& city.plants@.len() == 2
            &&& city.plants@[0].id == 1 && city.plants@[0].loc == Coord { x: 1, y: 0 }
            &&& city.plants@[0].required@.len() == 2
            &&& city.plants@[0].required@[0].kind == SupplyKind::Radioactive
                && city.plants@[0].required@[0].deadline_ms == 15000 && city.plants@[0].required@[0].period_ms == 30000
            &&& city.plants@[0].required@[1].kind == SupplyKind::Water
                && city.plants@[0].required@[1].deadline_ms == 12000 && city.plants@[0].required@[1].period_ms == 24000
            &&& city.plants@[0].deadline_policy.max_lateness_ms == 3000
            &&& city.plants@[1].id == 2 && city.plants@[1].loc == Coord { x: 2, y: 4 }
            &&& city.plants@[1].required@.len() == 2
            &&& city.plants@[1].required@[0].kind == SupplyKind::Radioactive
                && city.plants@[1].required@[0].deadline_ms == 18000 && city.plants@[1].required@[0].period_ms == 36000
            &&& city.plants@[1].required@[1].kind == SupplyKind::Water
                && city.plants@[1].required@[1].deadline_ms == 15000 && city.plants@[1].required@[1].period_ms == 30000
            &&& city.plants@[1].deadline_policy.max_lateness_ms == 3500
            &&& forall|i: int| 0 <= i < 2 ==> (#[trigger] city.plants@[i]).status == PlantStatus::Normal
                && city.plants@[i].last_radioactive_ms == 0 && city.plants@[i].last_water_ms == 0
                && !city.plants@[i].risk_radioactive && !city.plants@[i].risk_water
            &&& city.agents@.len() == 0
            &&& city.wf()
        }),
{
    let layout = CityLayout::default();
    let mut city = City::new(layout.grid_rows, layout.grid_cols);
    city.add_river();
    city.add_bridge(Bridge::new_traffic_light(1, layout.bridge1_row, 5000));
    city.add_bridge(Bridge::new_yield(2, layout.bridge2_row, TrafficDirection::NorthToSouth));
    city.add_bridge(Bridge::new_drawbridge(3, layout.bridge3_row));
    let ghost base = city;
    let mut commerce_id: u32 = 1;
    let mut row: u32 = 0;
    while row < layout.grid_rows
        invariant
            layout == default_layout(),
            0 <= row <= 5,
            commerce_id == 1 + 4 * row,
            city.commerces@.len() == 4 * row,
            forall|k: int| 0 <= k < city.commerces@.len() ==> (#[trigger] city.commerces@[k]).id == k + 1
                && city.commerces@[k].location == shop_at(layout, k),
            city == (City { commerces: city.commerces, ..base }),
        decreases 5 - row,
    {
        let ghost before = city;
        let mut col: u32 = 0;
        while col < layout.grid_cols
            invariant
                layout == default_layout(),
                0 <= row < 5,
                0 <= col <= 5,
                commerce_id == 1 + 4 * row + (if col <= 2 { col as int } else { col - 1 }),
                city.commerces@.len() == commerce_id - 1,
                forall|k: int| 0 <= k < city.commerces@.len() ==> (#[trigger] city.commerces@[k]).id == k + 1
                    && city.commerces@[k].location == shop_at(layout, k),
                city == (City { commerces: city.commerces, ..before }),
            decreases 5 - col,
        {
            if col == layout.river_column {
                col = col + 1;
                continue;
            }
            proof {
                let k = (commerce_id - 1) as int;
                assert(k / 4 == row as int && k % 4 == (if col < 2 { col as int } else { col - 1 })) by (nonlinear_arith)
                    requires
                        k == 4 * row + (if col <= 2 { col as int } else { col - 1 }),
                        0 <= col < 5,
                        col != 2,
                        0 <= row,
                ;
            }
            city.add_commerce(commerce_id, (row, col));
            commerce_id = commerce_id + 1;
            col = col + 1;
        }
        row = row + 1;
    }
    let plant1_supplies = vec![
        SupplySpec { kind: SupplyKind::Radioactive, deadline_ms: 15_000, period_ms: 30_000 },
        SupplySpec { kind: SupplyKind::Water, deadline_ms: 12_000, period_ms: 24_000 },
    ];
    city.add_nuclear_plant(1, (1, 0), plant1_supplies, DeadlinePolicy { max_lateness_ms: 3_000 });
    let plant2_supplies = vec![
        SupplySpec { kind: SupplyKind::Radioactive, deadline_ms: 18_000, period_ms: 36_000 },
        SupplySpec { kind: SupplyKind::Water, deadline_ms: 15_000, period_ms: 30_000 },
    ];
    city.add_nuclear_plant(2, (2, 4), plant2_supplies, DeadlinePolicy { max_lateness_ms: 3_500 });
    (city, layout)
}

/// Whether column `col` lies west of the river.
pub fn is_west_zone(layout: &CityLayout, col: u32) -> (r: bool)
    ensures
        r == (col < layout.river_column),
{
    col < layout.river_column
}

/// Whether column `col` lies east of the river.
pub fn is_east_zone(layout: &CityLayout, col: u32) -> (r: bool)
    ensures
        r == (col > layout.river_column),
{
    col > layout.river_column
}

/// The distance between two rows.
pub open spec fn row_dist(a: u32, b: u32) -> int {
    if a >= b { a - b } else { b - a }
}

/// The number (1 to 3) of the bridge whose row is nearest `from_row`; the
/// lower number wins a tie.
pub open spec fn nearest_bridge_spec(layout: CityLayout, from_row: u32) -> u32 {
    let d1 = row_dist(from_row, layout.bridge1_row);
    let d2 = row_dist(from_row, layout.bridge2_row);
    let d3 = row_dist(from_row, layout.bridge3_row);
    if d1 <= d2 && d1 <= d3 {
        1
    } else if d2 <= d3 {
        2
    } else {
        3
    }
}

/// The number (1 to 3) of the bridge whose row is nearest `from_row`; the
/// lower number wins a tie.
pub fn nearest_bridge(layout: &CityLayout, from_row: u32) -> (n: u32)
    requires
        from_row <= i32::MAX,
        layout.bridge1_row <= i32::MAX,
        layout.bridge2_row <= i32::MAX,
        layout.bridge3_row <= i32::MAX,
    ensures
        n == nearest_bridge_spec(*layout, from_row),
{
    let bridges = [layout.bridge1_row, layout.bridge2_row, layout.bridge3_row];
    let mut nearest: u32 = 1;
    let mut min_dist: u32 = u32::MAX;
    let mut idx: usize = 0;
    while idx < 3
        invariant
            0 <= idx <= 3,
            bridges@ == seq![layout.bridge1_row, layout.bridge2_row, layout.bridge3_row],
            from_row <= i32::MAX,
            idx == 0 ==> min_dist == u32::MAX && nearest == 1,
            idx >= 1 ==> {
                let d1 = row_dist(from_row, layout.bridge1_row);
                let d2 = row_dist(from_row, layout.bridge2_row);
                let d3 = row_dist(from_row, layout.bridge3_row);
                &&& idx == 1 ==> nearest == 1 && min_dist == d1
                &&& idx == 2 ==> (if d2 < d1 { nearest == 2 && min_dist == d2 } else { nearest == 1 && min_dist == d1 })
                &&& idx == 3 ==> nearest == nearest_bridge_spec(*layout, from_row)
            },
        decreases 3 - idx,
    {
        let bridge_row = bridges[idx];
        let dist = if from_row >= bridge_row { from_row - bridge_row } else { bridge_row - from_row };
        if dist < min_dist {
            min_dist = dist;
            nearest = (idx + 1) as u32;
        }
        idx = idx + 1;
    }
    nearest
}

} // verus!
