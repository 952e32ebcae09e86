use threadcity::mypthreads::signals::ThreadSignal;
use threadcity::city::agents::agent_controller::{AgentContext, AgentPhase};
use threadcity::city::agents::boat::Boat;
use threadcity::city::agents::car::Car;
use threadcity::city::agents::vehicle::{Agent, AgentType};
use threadcity::city::config::CityLayout;
use threadcity::city::model::bridge::{Bridge, TrafficDirection};
use threadcity::city::model::coord::Coord;
use threadcity::city::model::nuclear::{DeadlinePolicy, NuclearPlant, SupplyKind, SupplySpec};
use threadcity::city::sim::spawner::VehicleSpawner;
use threadcity::ui::drawing::{EntityKind as DrawKind, SceneState};
use threadcity::ui::event_queue::{EntityKind, EventQueue, UiEvent};

#[test]
fn events_come_out_in_order() {
    let mut q = EventQueue::new();
    assert!(q.is_empty());
    q.push(UiEvent::Spawn { id: 1, kind: EntityKind::Car, pos: (0, 0) });
    q.push(UiEvent::Move { id: 1, to: (0, 1) });
    q.push(UiEvent::Log("hello".to_string()));
    assert!(matches!(q.pop(), Some(UiEvent::Spawn { id: 1, .. })));
    assert!(matches!(q.pop(), Some(UiEvent::Move { id: 1, to: (0, 1) })));
    assert!(matches!(q.pop(), Some(UiEvent::Log(ref s)) if s == "hello"));
    assert!(q.pop().is_none());
    assert!(q.is_empty());
}

#[test]
fn scene_sets_moves_and_removes_entities() {
    let mut s = SceneState::default();
    s.set_entity(7, DrawKind::Boat, (4, 2));
    s.move_entity(7, (3, 2));
    assert_eq!(s.entities.get(&7).map(|e| e.pos), Some((3, 2)));
    assert!(matches!(s.entities.get(&7).map(|e| e.kind), Some(DrawKind::Boat)));
    s.move_entity(8, (1, 1));
    assert!(s.entities.get(&8).is_none());
    s.remove_entity(7);
    assert!(s.entities.is_empty());
}

#[test]
fn spawner_waits_its_turn_for_boats_and_trucks() {
    let mut sp = VehicleSpawner::new();
    assert!(!sp.should_spawn_boat(99));
    assert!(sp.should_spawn_boat(100));
    assert!(!sp.should_spawn_truck(49));
    assert!(sp.should_spawn_truck(50));
}

#[test]
fn spawner_numbers_and_places_agents() {
    let l = CityLayout::default();
    let mut sp = VehicleSpawner::new();
    let v = sp.spawn_vehicle(&l);
    assert_eq!(v.id, 1000);
    assert!(v.kind == AgentType::Car || v.kind == AgentType::Ambulance);
    assert!(v.origin != v.destination && v.origin.1 != 2 && v.destination.1 != 2);
    assert_eq!(sp.vehicles_spawned, 1);
    assert_eq!(sp.next_vehicle_id, 1001);

    let b = sp.spawn_boat(&l, 120);
    assert_eq!(b.id, 6000);
    assert_eq!(b.destination, (4, 2));
    assert!(b.origin.0 >= 1 && b.origin.0 <= 2 && b.origin.1 == 2);
    assert_eq!(sp.last_boat_spawn_tick, 120);
    assert!(!sp.should_spawn_boat(150));

    let plants = vec![NuclearPlant::new(
        1,
        Coord::new(1, 0),
        vec![SupplySpec { kind: SupplyKind::Water, deadline_ms: 1, period_ms: 2 }],
        DeadlinePolicy { max_lateness_ms: 3 },
    )];
    let t = sp.spawn_cargo_truck(&l, 60, &plants);
    assert_eq!(t.id, 5000);
    assert_eq!(t.kind, AgentType::CargoTruck(SupplyKind::Water));
    assert_eq!(t.destination, (1, 0));
    // the plant is west of the river: the truck starts east of it
    assert!(t.origin.1 > 2 && t.origin.1 < 5);
}

#[test]
fn agent_context_steps_and_picks_the_nearest_bridge() {
    let car = Car::new(1, 1, (0, 0), (2, 1));
    let bridges = vec![
        Bridge::new_traffic_light(1, 1, 5000),
        Bridge::new_yield(2, 2, TrafficDirection::NorthToSouth),
        Bridge::new_drawbridge(3, 3),
    ];
    let mut ctx = AgentContext::new(car, Coord::new(2, 1), 2, bridges);
    assert_eq!(ctx.phase, AgentPhase::Traveling);
    ctx.move_towards_destination();
    assert_eq!(ctx.agent.pos(), Coord::new(0, 1));
    ctx.move_towards_destination();
    assert_eq!(ctx.agent.pos(), Coord::new(1, 1));
    assert_eq!(ctx.get_crossing_direction(), TrafficDirection::NorthToSouth);
    assert_eq!(ctx.select_nearest_bridge().id, 1);
    assert!(!ctx.is_boat());
    assert!(!ctx.is_ambulance());

    let boat = Boat::new(2, 2, (4, 2), (0, 2));
    let bctx = AgentContext::new(boat, Coord::new(0, 2), 2, vec![Bridge::new_drawbridge(3, 3)]);
    assert!(bctx.is_boat());
    assert_eq!(bctx.select_nearest_bridge().id, 3);
}

#[test]
fn agent_context_step_crosses_the_river_and_arrives() {
    // a car on the west bank, one step from the river, going east
    let car = Car::new(1, 1, (1, 1), (1, 3));
    let bridges = vec![
        Bridge::new_traffic_light(1, 1, 5000),
        Bridge::new_yield(2, 2, TrafficDirection::NorthToSouth),
        Bridge::new_drawbridge(3, 3),
    ];
    let mut ctx = AgentContext::new(car, Coord::new(1, 3), 2, bridges);
    assert!(matches!(ctx.step(), ThreadSignal::Yield));
    assert_eq!(ctx.phase, AgentPhase::ApproachingBridge);
    // the light is green north to south, the car's direction: it gets on
    assert!(matches!(ctx.step(), ThreadSignal::Continue));
    assert_eq!(ctx.phase, AgentPhase::CrossingBridge(0));
    assert_eq!(ctx.bridges[0].state.vehicles_crossing, 1);
    for k in 0..3 {
        assert!(matches!(ctx.step(), ThreadSignal::Yield));
        assert_eq!(ctx.phase, AgentPhase::CrossingBridge(k + 1));
    }
    assert!(matches!(ctx.step(), ThreadSignal::Yield));
    assert_eq!(ctx.phase, AgentPhase::Traveling);
    assert_eq!(ctx.agent.pos(), Coord::new(1, 3));
    assert_eq!(ctx.bridges[0].state.vehicles_crossing, 0);
    assert!(matches!(ctx.step(), ThreadSignal::Exit));
    assert_eq!(ctx.phase, AgentPhase::Arrived);
}

#[test]
fn agent_context_boat_waits_while_the_drawbridge_is_busy() {
    let boat = Boat::new(2, 2, (3, 2), (0, 2));
    let mut bridge = Bridge::new_drawbridge(3, 3);
    assert!(bridge.try_cross(9, 0, TrafficDirection::NorthToSouth));
    let mut ctx = AgentContext::new(boat, Coord::new(0, 2), 2, vec![bridge]);
    ctx.phase = AgentPhase::WaitingForBridge;
    assert!(matches!(ctx.step(), ThreadSignal::Block));
    assert_eq!(ctx.phase, AgentPhase::WaitingForBridge);
    ctx.bridges[0].exit_bridge(9);
    assert!(matches!(ctx.step(), ThreadSignal::Continue));
    assert!(ctx.bridges[0].state.boat_passing);
}
