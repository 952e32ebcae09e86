use threadcity::city::sim::simulation::ThreadCitySimulation;
use threadcity::city::agents::vehicle::{AgentState, AgentType, Vehicle};
use threadcity::city::config::{create_city, is_east_zone, is_west_zone, nearest_bridge, CityLayout};
use threadcity::city::model::bridge::{Bridge, TrafficDirection, TrafficLightState};
use threadcity::city::model::coord::Coord;
use threadcity::city::model::nuclear::{DeadlinePolicy, NuclearPlant, PlantStatus, SupplyKind, SupplySpec};
use threadcity::city::runner::{
    agent_info_for, boat_logic, boat_route, cargo_route, cargo_truck_logic, move_towards, random_destination,
    random_position, trucks_to_promote, try_register, vehicle_logic,
};
use threadcity::city::sim::{create_shared_city, City, PlantEvent, SharedCity};
use threadcity::mypthreads::signals::ThreadSignal;

fn bridge_state(city: &mut SharedCity, i: usize) -> (u32, bool) {
    let r = {
        let c = city.try_enter().expect("city free");
        (c.bridges[i].state.vehicles_crossing, c.bridges[i].state.boat_passing)
    };
    city.force_unlock_for_main();
    r
}

#[test]
fn default_layout_values() {
    let l = CityLayout::default();
    assert_eq!((l.grid_rows, l.grid_cols, l.river_column), (5, 5, 2));
    assert_eq!((l.bridge1_row, l.bridge2_row, l.bridge3_row), (1, 2, 3));
}

#[test]
fn city_has_twenty_shops_numbered_row_by_row_around_the_river() {
    let (city, _) = create_city();
    assert_eq!(city.commerces.len(), 20);
    assert_eq!(city.commerces[0].id, 1);
    assert_eq!((city.commerces[0].location.x, city.commerces[0].location.y), (0, 0));
    assert_eq!((city.commerces[2].location.x, city.commerces[2].location.y), (0, 3));
    assert_eq!((city.commerces[19].location.x, city.commerces[19].location.y), (4, 4));
    assert_eq!(city.plants[0].loc, Coord::new(1, 0));
    assert_eq!(city.plants[1].loc, Coord::new(2, 4));
}

#[test]
fn zones_and_nearest_bridge() {
    let l = CityLayout::default();
    assert!(is_west_zone(&l, 1));
    assert!(!is_west_zone(&l, 2));
    assert!(is_east_zone(&l, 3));
    assert!(!is_east_zone(&l, 2));
    assert_eq!(nearest_bridge(&l, 0), 1);
    assert_eq!(nearest_bridge(&l, 2), 2);
    assert_eq!(nearest_bridge(&l, 4), 3);
}

#[test]
fn move_towards_goes_sideways_but_not_into_the_river() {
    let l = CityLayout::default();
    let mut p = Coord::new(0, 0);
    move_towards(&mut p, Coord::new(3, 4), &l);
    assert_eq!(p, Coord::new(0, 1));
    move_towards(&mut p, Coord::new(3, 4), &l);
    assert_eq!(p, Coord::new(1, 1));
}

#[test]
fn car_crosses_the_nearest_bridge_and_arrives() {
    let (city, layout) = create_city();
    let mut shared = create_shared_city(city);
    let mut pos = Coord::new(0, 0);
    let dest = Coord::new(0, 3);
    let mut state = AgentState::Traveling;
    let mut steps = 0u32;

    let s = vehicle_logic(1, 1, AgentType::Car, 10, &mut pos, dest, &mut state, &mut steps, &mut shared, &layout);
    assert!(matches!(s, ThreadSignal::Yield));
    assert_eq!(pos, Coord::new(0, 1));

    let s = vehicle_logic(1, 1, AgentType::Car, 10, &mut pos, dest, &mut state, &mut steps, &mut shared, &layout);
    assert!(matches!(s, ThreadSignal::Yield));
    assert_eq!(state, AgentState::WaitingForBridge);

    let s = vehicle_logic(1, 1, AgentType::Car, 10, &mut pos, dest, &mut state, &mut steps, &mut shared, &layout);
    assert!(matches!(s, ThreadSignal::Yield));
    assert_eq!(state, AgentState::CrossingBridge);
    assert_eq!(bridge_state(&mut shared, 0), (1, false));

    for _ in 0..2 {
        vehicle_logic(1, 1, AgentType::Car, 10, &mut pos, dest, &mut state, &mut steps, &mut shared, &layout);
        assert_eq!(state, AgentState::CrossingBridge);
    }
    vehicle_logic(1, 1, AgentType::Car, 10, &mut pos, dest, &mut state, &mut steps, &mut shared, &layout);
    assert_eq!(state, AgentState::Traveling);
    assert_eq!(pos, Coord::new(0, 3));
    assert_eq!(bridge_state(&mut shared, 0), (0, false));

    let s = vehicle_logic(1, 1, AgentType::Car, 10, &mut pos, dest, &mut state, &mut steps, &mut shared, &layout);
    assert!(matches!(s, ThreadSignal::Exit));
    assert_eq!(state, AgentState::Arrived);
}

#[test]
fn waiting_vehicle_blocks_while_the_city_is_taken() {
    let (city, layout) = create_city();
    let mut shared = create_shared_city(city);
    let _held = shared.try_enter().expect("free");
    let mut pos = Coord::new(0, 1);
    let mut state = AgentState::WaitingForBridge;
    let mut steps = 0u32;
    let s = vehicle_logic(1, 1, AgentType::Car, 10, &mut pos, Coord::new(0, 3), &mut state, &mut steps, &mut shared, &layout);
    assert!(matches!(s, ThreadSignal::Block));
    assert_eq!(state, AgentState::WaitingForBridge);
}

#[test]
fn second_car_waits_for_the_one_lane_bridge_but_ambulance_passes() {
    let (city, layout) = create_city();
    let mut shared = create_shared_city(city);
    let dest = Coord::new(0, 3);
    let (mut p1, mut s1, mut n1) = (Coord::new(0, 1), AgentState::WaitingForBridge, 0u32);
    vehicle_logic(1, 1, AgentType::Car, 10, &mut p1, dest, &mut s1, &mut n1, &mut shared, &layout);
    assert_eq!(s1, AgentState::CrossingBridge);
    let (mut p2, mut s2, mut n2) = (Coord::new(0, 1), AgentState::WaitingForBridge, 0u32);
    vehicle_logic(2, 2, AgentType::Car, 10, &mut p2, dest, &mut s2, &mut n2, &mut shared, &layout);
    assert_eq!(s2, AgentState::WaitingForBridge);
    let (mut p3, mut s3, mut n3) = (Coord::new(0, 1), AgentState::WaitingForBridge, 0u32);
    vehicle_logic(3, 3, AgentType::Ambulance, 100, &mut p3, dest, &mut s3, &mut n3, &mut shared, &layout);
    assert_eq!(s3, AgentState::CrossingBridge);
    assert_eq!(bridge_state(&mut shared, 0), (1, false));
}

#[test]
fn truck_delivers_at_its_plant() {
    let (mut city, layout) = create_city();
    city.update(1000);
    let mut shared = create_shared_city(city);
    let mut pos = Coord::new(1, 0);
    let mut state = AgentState::Traveling;
    let mut steps = 0u32;
    let s = cargo_truck_logic(9, 9, SupplyKind::Water, 0, &mut pos, Coord::new(1, 0), &mut state, &mut steps, &mut shared, &layout);
    assert!(matches!(s, ThreadSignal::Exit));
    assert_eq!(state, AgentState::Arrived);
    let c = shared.try_enter().expect("free");
    assert_eq!(c.plants[0].get_last_delivery_time(&SupplyKind::Water), 1000);
    assert_eq!(c.plants[0].get_last_delivery_time(&SupplyKind::Radioactive), 0);
}

#[test]
fn boat_raises_the_drawbridge_and_lowers_it_after_passing() {
    let (city, layout) = create_city();
    let mut shared = create_shared_city(city);
    let mut pos = Coord::new(4, 2);
    let dest = Coord::new(1, 2);
    let mut state = AgentState::Traveling;
    let mut steps = 0u32;
    boat_logic(5, 5, 1, &mut pos, dest, &mut state, &mut steps, &mut shared, &layout);
    assert_eq!(pos, Coord::new(3, 2));
    boat_logic(5, 5, 1, &mut pos, dest, &mut state, &mut steps, &mut shared, &layout);
    assert_eq!(state, AgentState::WaitingForBridge);
    boat_logic(5, 5, 1, &mut pos, dest, &mut state, &mut steps, &mut shared, &layout);
    assert_eq!(state, AgentState::CrossingBridge);
    assert_eq!(bridge_state(&mut shared, 2), (0, true));
    for _ in 0..5 {
        boat_logic(5, 5, 1, &mut pos, dest, &mut state, &mut steps, &mut shared, &layout);
    }
    assert_eq!(state, AgentState::Traveling);
    assert_eq!(pos, Coord::new(2, 2));
    assert_eq!(bridge_state(&mut shared, 2), (0, false));
    boat_logic(5, 5, 1, &mut pos, dest, &mut state, &mut steps, &mut shared, &layout);
    let s = boat_logic(5, 5, 1, &mut pos, dest, &mut state, &mut steps, &mut shared, &layout);
    assert!(matches!(s, ThreadSignal::Exit));
}

#[test]
fn random_positions_avoid_the_river() {
    let l = CityLayout::default();
    for _ in 0..200 {
        let p = random_position(&l);
        assert!(p.x < 5 && p.y < 5 && p.y != 2);
        let d = random_destination(&l, p);
        assert!(d != p && d.y != 2 && d.x < 5 && d.y < 5);
    }
}

#[test]
fn boat_route_starts_at_the_last_river_row() {
    let l = CityLayout::default();
    let (o, d) = boat_route(&l);
    assert_eq!(o, Coord::new(4, 2));
    // lower = 2, upper = 3: the range [4, 4) is empty, so row 3
    assert_eq!(d, Coord::new(3, 2));
}

#[test]
fn cargo_route_goes_to_a_plant_with_its_deadline() {
    let (city, _) = create_city();
    for _ in 0..20 {
        let (loc, deadline) = cargo_route(&city, SupplyKind::Water);
        assert!((loc == Coord::new(1, 0) && deadline == 12_000) || (loc == Coord::new(2, 4) && deadline == 15_000));
    }
}

#[test]
fn agent_info_gives_ambulances_priority() {
    let a = agent_info_for(AgentType::Ambulance, 7, 3, Coord::new(0, 0), Coord::new(4, 4));
    assert_eq!(a.vehicle.priority, 10);
    assert_eq!(a.vehicle.tid, 3);
    let c = agent_info_for(AgentType::Car, 8, 4, Coord::new(0, 0), Coord::new(4, 4));
    assert_eq!(c.vehicle.priority, 0);
    assert_eq!(c.vehicle.pos, Coord::new(0, 0));
}

#[test]
fn trucks_with_the_missing_supply_are_promoted() {
    let (mut city, _) = create_city();
    let w = agent_info_for(AgentType::CargoTruck(SupplyKind::Water), 1, 11, Coord::new(0, 0), Coord::new(1, 0));
    let r = agent_info_for(AgentType::CargoTruck(SupplyKind::Radioactive), 2, 12, Coord::new(0, 0), Coord::new(1, 0));
    city.register_agent(11, w);
    city.register_agent(12, r);
    assert!(trucks_to_promote(&city).is_empty());
    city.plants[0].status = PlantStatus::AtRisk;
    city.plants[0].risk_water = true;
    assert_eq!(trucks_to_promote(&city), vec![11]);
}

#[test]
fn registering_an_agent_needs_the_city_free() {
    let (city, _) = create_city();
    let mut shared = create_shared_city(city);
    let info = agent_info_for(AgentType::Car, 1, 1, Coord::new(0, 0), Coord::new(0, 1));
    assert!(try_register(&mut shared, 1, info));
    {
        let _g = shared.try_enter().expect("free");
    }
    assert!(!try_register(&mut shared, 2, info));
    shared.force_unlock_for_main();
    let c = shared.try_enter().expect("free");
    assert_eq!(c.agents.len(), 1);
}

#[test]
fn bridge_cross_then_exit_restores_it() {
    let mut b = Bridge::new_yield(2, 2, TrafficDirection::NorthToSouth);
    assert!(b.try_cross(1, 10, TrafficDirection::SouthToNorth));
    assert!(!b.try_cross(2, 10, TrafficDirection::SouthToNorth));
    b.exit_bridge(1);
    assert_eq!(b.state.vehicles_crossing, 0);
    assert_eq!(b.state.current_direction, None);
}

#[test]
fn boat_keeps_vehicles_off_even_with_priority() {
    let mut b = Bridge::new_drawbridge(3, 3);
    assert!(b.boat_request_pass());
    assert!(!b.try_cross(1, 200, TrafficDirection::NorthToSouth));
    b.boat_exit();
    assert!(b.try_cross(1, 200, TrafficDirection::NorthToSouth));
    assert!(!b.boat_request_pass());
}

#[test]
fn traffic_light_alternates() {
    let mut b = Bridge::new_traffic_light(1, 1, 5000);
    assert_eq!(b.state.light_state, TrafficLightState::NorthGreen);
    assert!(!b.try_cross(1, 10, TrafficDirection::SouthToNorth));
    assert!(!b.update(4999));
    assert!(b.update(5000));
    assert_eq!(b.state.light_state, TrafficLightState::SouthGreen);
    assert!(b.update(10000));
    assert_eq!(b.state.light_state, TrafficLightState::NorthGreen);
}

fn plant() -> NuclearPlant {
    NuclearPlant::new(
        1,
        Coord::new(1, 0),
        vec![
            SupplySpec { kind: SupplyKind::Radioactive, deadline_ms: 15_000, period_ms: 30_000 },
            SupplySpec { kind: SupplyKind::Water, deadline_ms: 12_000, period_ms: 24_000 },
        ],
        DeadlinePolicy { max_lateness_ms: 3_000 },
    )
}

#[test]
fn delivery_is_read_back() {
    let mut p = plant();
    let water = p.required[1];
    p.commit_delivery(water, 777);
    assert_eq!(p.get_last_delivery_time(&SupplyKind::Water), 777);
    assert_eq!(p.get_last_delivery_time(&SupplyKind::Radioactive), 0);
}

#[test]
fn emergency_is_raised_once() {
    let mut p = plant();
    // water is due at 24 000 and its hard limit is 12 000 + 3 000 later
    let first = p.maybe_raise_emergency(24_000 + 12_000 + 3_000);
    assert!(first.is_some());
    assert_eq!(p.maybe_raise_emergency(39_000), None);
}

#[test]
fn reset_quiets_the_plant() {
    let mut p = plant();
    p.status = PlantStatus::Exploded;
    p.reset(50_000);
    assert_eq!(p.status, PlantStatus::Normal);
    assert_eq!(p.current_deficit(50_001, false), None);
    assert_eq!(p.active_risk_kind(50_001), None);
}

#[test]
fn late_plant_explodes_on_deadline_check() {
    let (mut city, _) = create_city();
    assert!(city.clock_fits(20_000));
    city.update(20_000);
    let events = city.check_plant_deadlines();
    assert!(events.iter().any(|e| matches!(e, PlantEvent::Exploded { plant: 1, .. })));
}

#[test]
fn vehicle_moves_one_cell_closer() {
    let mut v = Vehicle::new(1, 1, Coord::new(0, 0), Coord::new(2, 1));
    v.move_one();
    assert_eq!(v.pos, Coord::new(1, 0));
    v.move_one();
    v.move_one();
    assert_eq!(v.pos, Coord::new(2, 1));
    v.move_one();
    assert_eq!(v.pos, Coord::new(2, 1));
}

#[test]
fn clock_check_refuses_overflow() {
    let mut c = City::new(5, 5);
    assert!(c.clock_fits(500));
    assert!(!c.clock_fits(u64::MAX));
    c.update(1000);
    assert_eq!(c.current_time(), 1000);
}

#[test]
fn simulation_tick_spawns_by_draw_and_period_and_stops() {
    let mut sim = ThreadCitySimulation::new();
    // tick 0: no boat or truck period has passed yet
    let t = sim.run_tick(true, 200, 2).expect("goes on");
    assert!(t.vehicle.is_some() && t.boat.is_none() && t.truck.is_none());
    assert_eq!(sim.tick, 1);
    let t = sim.run_tick(false, 200, 2).expect("goes on");
    assert!(t.vehicle.is_none());
    sim.tick = 60;
    let t = sim.run_tick(false, 200, 2).expect("goes on");
    let (truck, deadline) = t.truck.expect("fifty ticks passed");
    assert_eq!(truck.id, 5000);
    assert_eq!(deadline, 10_060);
    assert!(t.boat.is_none());
    sim.tick = 120;
    assert!(sim.run_tick(true, 200, 2).expect("goes on").boat.is_some());
    // two vehicles have appeared: the simulation stops
    assert!(sim.run_tick(true, 200, 2).is_none());
}
