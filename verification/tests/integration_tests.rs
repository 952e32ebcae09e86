use threadcity::city::config::create_city;
use threadcity::city::model::bridge::BridgeType;
use threadcity::city::model::coord::Coord;
use threadcity::city::sim::create_shared_city;
use threadcity::mypthreads::mypthreads_api::{my_thread_create, run_simulation, runtime_init, SchedulerParams};
use threadcity::mypthreads::runtime::ThreadRuntimeV2;
use threadcity::mypthreads::signals::ThreadSignal;

type Body = Box<dyn FnMut(u32, u32) -> ThreadSignal>;

#[test]
fn test_city_creation() {
    let (city, layout) = create_city();
    assert!(city.grid.size() >= 25, "La ciudad debe tener al menos 25 cuadras");
    assert!(city.river.is_some(), "La ciudad debe tener un río");
    assert_eq!(city.bridges.len(), 3, "Debe haber exactamente 3 puentes");
    assert!(city.commerces.len() >= 20, "Debe haber al menos 20 comercios");
    assert_eq!(city.plants.len(), 2, "Debe haber 2 plantas nucleares");
    println!("  - Grid: {}x{} = {} cuadras", layout.grid_rows, layout.grid_cols, city.grid.size());
}

#[test]
fn test_bridge_types() {
    let (city, _layout) = create_city();
    assert_eq!(city.bridges[0].bridge_type, BridgeType::TrafficLight);
    assert_eq!(city.bridges[1].bridge_type, BridgeType::Yield);
    assert_eq!(city.bridges[2].bridge_type, BridgeType::Drawbridge);
}

#[test]
fn test_simple_car_movement() {
    let mut rt: ThreadRuntimeV2<Body> = runtime_init();
    let (city, _layout) = create_city();
    let _shared_city = create_shared_city(city);
    let origin = Coord::new(0, 0);
    let dest = Coord::new(0, 1);
    let mut pos = origin;
    let mut arrived = false;
    my_thread_create(
        &mut rt,
        "TestCar",
        SchedulerParams::RoundRobin,
        Box::new(move |_, _| {
            if pos.x == dest.x && pos.y == dest.y {
                if !arrived {
                    println!("Carro llegó a destino!");
                    arrived = true;
                }
                return ThreadSignal::Exit;
            }
            if pos.y < dest.y {
                pos.y += 1;
            } else if pos.y > dest.y {
                pos.y -= 1;
            } else if pos.x < dest.x {
                pos.x += 1;
            } else if pos.x > dest.x {
                pos.x -= 1;
            }
            ThreadSignal::Yield
        }),
    );
    run_simulation(&mut rt, 20);
    assert!(rt.ready.is_empty());
}

#[test]
fn test_scheduler_types() {
    let mut rt: ThreadRuntimeV2<Body> = runtime_init();
    let _tid1 = my_thread_create(&mut rt, "RR-Thread", SchedulerParams::RoundRobin, Box::new(|_, _| ThreadSignal::Exit));
    let _tid2 = my_thread_create(
        &mut rt,
        "Lottery-Thread",
        SchedulerParams::Lottery { tickets: 50 },
        Box::new(|_, _| ThreadSignal::Exit),
    );
    let _tid3 = my_thread_create(
        &mut rt,
        "RT-Thread",
        SchedulerParams::RealTime { deadline: 10000 },
        Box::new(|_, _| ThreadSignal::Exit),
    );
    run_simulation(&mut rt, 10);
}

#[test]
fn test_plant_deadlines() {
    let (city, _) = create_city();
    for plant in &city.plants {
        assert!(!plant.required.is_empty(), "Planta debe tener requerimientos");
        for supply in &plant.required {
            assert!(supply.deadline_ms > 0, "Deadline debe ser positivo");
            assert!(supply.period_ms > 0, "Periodo debe ser positivo");
            println!("  Planta {}: {:?} - deadline {}ms", plant.id, supply.kind, supply.deadline_ms);
        }
    }
}
