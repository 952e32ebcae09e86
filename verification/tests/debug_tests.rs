use std::cell::RefCell;
use std::rc::Rc;
use std::sync::{Arc, Mutex};
use threadcity::city::config::create_city;
use threadcity::city::model::coord::Coord;
use threadcity::city::model::nuclear::SupplyKind;
use threadcity::city::sim::create_shared_city;
use threadcity::mypthreads::mypthreads_api::{my_thread_create, run_simulation, runtime_init, SchedulerParams};
use threadcity::mypthreads::runtime::ThreadRuntimeV2;
use threadcity::mypthreads::signals::ThreadSignal;

type Body = Box<dyn FnMut(u32, u32) -> ThreadSignal>;

#[test]
fn test_01_minimal_thread() {
    let mut rt: ThreadRuntimeV2<Body> = runtime_init();
    my_thread_create(
        &mut rt,
        "Minimal",
        SchedulerParams::RoundRobin,
        Box::new(|tid, _| {
            println!("  [Hilo {}] Ejecutando", tid);
            ThreadSignal::Exit
        }),
    );
    run_simulation(&mut rt, 3);
}

#[test]
fn test_02_thread_with_yield() {
    let mut rt: ThreadRuntimeV2<Body> = runtime_init();
    let counter = Arc::new(Mutex::new(0));
    let counter_clone = counter.clone();
    my_thread_create(
        &mut rt,
        "Yielder",
        SchedulerParams::RoundRobin,
        Box::new(move |tid, _| {
            let mut count = counter_clone.lock().unwrap();
            *count += 1;
            let current = *count;
            drop(count);
            println!("  [Hilo {}] Ejecución #{}", tid, current);
            if current < 3 {
                ThreadSignal::Yield
            } else {
                ThreadSignal::Exit
            }
        }),
    );
    run_simulation(&mut rt, 10);
    let final_count = *counter.lock().unwrap();
    assert_eq!(final_count, 3);
}

#[test]
fn test_03_create_city_only() {
    let (city, layout) = create_city();
    println!("    Grid: {}x{}", layout.grid_rows, layout.grid_cols);
    assert_eq!(city.bridges.len(), 3);
    assert_eq!(city.plants.len(), 2);
}

#[test]
fn test_04_shared_city_access() {
    let mut rt: ThreadRuntimeV2<Body> = runtime_init();
    let (city, _layout) = create_city();
    let shared_city = Rc::new(RefCell::new(create_shared_city(city)));
    let city_clone = Rc::clone(&shared_city);
    let seen = Rc::new(RefCell::new(None));
    let seen_clone = Rc::clone(&seen);
    my_thread_create(
        &mut rt,
        "CityReader",
        SchedulerParams::RoundRobin,
        Box::new(move |tid, _| {
            let mut cell = city_clone.borrow_mut();
            if let Some(city_lock) = cell.try_enter() {
                let time = city_lock.current_time();
                let bridges = city_lock.bridges.len();
                *seen_clone.borrow_mut() = Some((time, bridges));
                println!("  [Hilo {}] Ciudad accedida OK (time: {}, bridges: {})", tid, time, bridges);
            }
            cell.force_unlock_for_main();
            ThreadSignal::Exit
        }),
    );
    run_simulation(&mut rt, 3);
    assert_eq!(*seen.borrow(), Some((0, 3)));
}

#[test]
fn test_05_coord_manipulation() {
    let mut rt: ThreadRuntimeV2<Body> = runtime_init();
    let mut pos = Coord::new(0, 0);
    let dest = Coord::new(2, 2);
    my_thread_create(
        &mut rt,
        "CoordTest",
        SchedulerParams::RoundRobin,
        Box::new(move |tid, _| {
            println!("  [Hilo {}] pos: ({}, {}), dest: ({}, {})", tid, pos.x, pos.y, dest.x, dest.y);
            if pos.x < dest.x {
                pos.x += 1;
                ThreadSignal::Yield
            } else if pos.y < dest.y {
                pos.y += 1;
                ThreadSignal::Yield
            } else {
                println!("  [Hilo {}] Llegó a destino!", tid);
                ThreadSignal::Exit
            }
        }),
    );
    run_simulation(&mut rt, 10);
}

#[test]
fn test_06_agent_state_machine() {
    #[derive(Debug, Clone, Copy)]
    enum TestState {
        Init,
        Moving,
        Done,
    }
    let mut rt: ThreadRuntimeV2<Body> = runtime_init();
    let mut state = TestState::Init;
    let mut steps = 0u32;
    my_thread_create(
        &mut rt,
        "StateMachine",
        SchedulerParams::RoundRobin,
        Box::new(move |tid, _| {
            println!("  [Hilo {}] Estado: {:?}, paso: {}", tid, state, steps);
            match state {
                TestState::Init => {
                    state = TestState::Moving;
                    ThreadSignal::Yield
                }
                TestState::Moving => {
                    steps += 1;
                    if steps < 3 {
                        ThreadSignal::Yield
                    } else {
                        state = TestState::Done;
                        ThreadSignal::Yield
                    }
                }
                TestState::Done => ThreadSignal::Exit,
            }
        }),
    );
    run_simulation(&mut rt, 10);
}

#[test]
fn test_07_bridge_access() {
    let mut rt: ThreadRuntimeV2<Body> = runtime_init();
    let (city, _layout) = create_city();
    let shared_city = Rc::new(RefCell::new(create_shared_city(city)));
    let city_clone = Rc::clone(&shared_city);
    let found = Rc::new(RefCell::new(false));
    let found_clone = Rc::clone(&found);
    my_thread_create(
        &mut rt,
        "BridgeReader",
        SchedulerParams::RoundRobin,
        Box::new(move |tid, _| {
            let mut cell = city_clone.borrow_mut();
            if let Some(city_lock) = cell.try_enter() {
                if let Some(bridge) = city_lock.get_bridge(1) {
                    println!("  [Hilo {}] Puente 1 encontrado: tipo {:?}", tid, bridge.bridge_type);
                    *found_clone.borrow_mut() = true;
                }
            }
            cell.force_unlock_for_main();
            ThreadSignal::Exit
        }),
    );
    run_simulation(&mut rt, 3);
    assert!(*found.borrow());
}

#[test]
fn test_08_simple_movement() {
    let mut rt: ThreadRuntimeV2<Body> = runtime_init();
    let (_city, layout) = create_city();
    let layout_clone = layout.clone();
    let mut pos = Coord::new(0, 0);
    let dest = Coord::new(0, 1);
    let arrived = Rc::new(RefCell::new(false));
    let arrived_clone = Rc::clone(&arrived);
    my_thread_create(
        &mut rt,
        "SimpleMove",
        SchedulerParams::RoundRobin,
        Box::new(move |_, _| {
            if pos.x == dest.x && pos.y == dest.y {
                *arrived_clone.borrow_mut() = true;
                return ThreadSignal::Exit;
            }
            if pos.y < dest.y && pos.y + 1 != layout_clone.river_column {
                pos.y += 1;
            }
            ThreadSignal::Yield
        }),
    );
    run_simulation(&mut rt, 10);
    assert!(*arrived.borrow());
}

#[test]
fn test_09_two_threads_no_interaction() {
    let mut rt: ThreadRuntimeV2<Body> = runtime_init();
    let counter1 = Arc::new(Mutex::new(0));
    let counter2 = Arc::new(Mutex::new(0));
    let c1 = counter1.clone();
    my_thread_create(
        &mut rt,
        "Thread1",
        SchedulerParams::RoundRobin,
        Box::new(move |_, _| {
            let mut count = c1.lock().unwrap();
            *count += 1;
            let val = *count;
            drop(count);
            if val < 2 { ThreadSignal::Yield } else { ThreadSignal::Exit }
        }),
    );
    let c2 = counter2.clone();
    my_thread_create(
        &mut rt,
        "Thread2",
        SchedulerParams::RoundRobin,
        Box::new(move |_, _| {
            let mut count = c2.lock().unwrap();
            *count += 1;
            let val = *count;
            drop(count);
            if val < 2 { ThreadSignal::Yield } else { ThreadSignal::Exit }
        }),
    );
    run_simulation(&mut rt, 10);
    println!("  Thread1 ejecutó {} veces", *counter1.lock().unwrap());
    println!("  Thread2 ejecutó {} veces", *counter2.lock().unwrap());
}

#[test]
fn test_10_scheduler_types() {
    let mut rt: ThreadRuntimeV2<Body> = runtime_init();
    my_thread_create(&mut rt, "RR-Thread", SchedulerParams::RoundRobin, Box::new(|tid, _| {
        println!("  [RR-{}] Ejecutando", tid);
        ThreadSignal::Exit
    }));
    my_thread_create(&mut rt, "Lottery-Thread", SchedulerParams::Lottery { tickets: 50 }, Box::new(|tid, _| {
        println!("  [Lottery-{}] Ejecutando", tid);
        ThreadSignal::Exit
    }));
    my_thread_create(&mut rt, "RT-Thread", SchedulerParams::RealTime { deadline: 10000 }, Box::new(|tid, _| {
        println!("  [RT-{}] Ejecutando", tid);
        ThreadSignal::Exit
    }));
    run_simulation(&mut rt, 10);
}

#[test]
fn test_11_actual_car_logic_minimal() {
    #[derive(Debug, Clone, Copy, PartialEq)]
    enum CarState {
        Moving,
        Arrived,
    }
    let mut rt: ThreadRuntimeV2<Body> = runtime_init();
    let (_city, layout) = create_city();
    let layout_clone = layout.clone();
    let mut pos = Coord::new(0, 0);
    let dest = Coord::new(0, 1);
    let mut state = CarState::Moving;
    let done = Rc::new(RefCell::new(false));
    let done_clone = Rc::clone(&done);
    my_thread_create(
        &mut rt,
        "CarTest",
        SchedulerParams::Lottery { tickets: 10 },
        Box::new(move |_, _| match state {
            CarState::Moving => {
                if pos.x == dest.x && pos.y == dest.y {
                    state = CarState::Arrived;
                    *done_clone.borrow_mut() = true;
                    return ThreadSignal::Exit;
                }
                if pos.y < dest.y && pos.y + 1 != layout_clone.river_column {
                    pos.y += 1;
                } else if pos.y > dest.y && pos.y - 1 != layout_clone.river_column {
                    pos.y -= 1;
                } else if pos.x < dest.x {
                    pos.x += 1;
                } else if pos.x > dest.x {
                    pos.x -= 1;
                }
                ThreadSignal::Yield
            }
            CarState::Arrived => ThreadSignal::Exit,
        }),
    );
    run_simulation(&mut rt, 20);
    assert!(*done.borrow());
}

#[test]
fn test_12_cargo_truck_minimal() {
    let mut rt: ThreadRuntimeV2<Body> = runtime_init();
    let (city, _layout) = create_city();
    let shared_city = Rc::new(RefCell::new(create_shared_city(city)));
    let city_clone = Rc::clone(&shared_city);
    let mut pos = Coord::new(0, 0);
    let dest = Coord::new(1, 0);
    let cargo = SupplyKind::Water;
    let delivered = Rc::new(RefCell::new(false));
    let delivered_clone = Rc::clone(&delivered);
    my_thread_create(
        &mut rt,
        "TruckTest",
        SchedulerParams::RealTime { deadline: 15000 },
        Box::new(move |_, _| {
            if pos.x == dest.x && pos.y == dest.y {
                let mut cell = city_clone.borrow_mut();
                if let Some(city_lock) = cell.try_enter() {
                    let current_time = city_lock.current_time();
                    if let Some(plant) = city_lock.find_plant_at(dest) {
                        let supply = *plant.required.iter().find(|s| s.kind == cargo).expect("Suministro no requerido");
                        plant.commit_delivery(supply, current_time);
                        *delivered_clone.borrow_mut() = true;
                    }
                }
                cell.force_unlock_for_main();
                return ThreadSignal::Exit;
            }
            if pos.x < dest.x {
                pos.x += 1;
            } else if pos.x > dest.x {
                pos.x -= 1;
            } else if pos.y < dest.y {
                pos.y += 1;
            } else if pos.y > dest.y {
                pos.y -= 1;
            }
            ThreadSignal::Yield
        }),
    );
    run_simulation(&mut rt, 20);
    assert!(*delivered.borrow());
}
