use std::collections::VecDeque;
use std::sync::{Arc, Mutex};
use threadcity::mypthreads::mypthreads_api::{
    my_mutex_init, my_mutex_lock, my_mutex_trylock, my_mutex_unlock, my_thread_create, my_thread_join,
    run_simulation, runtime_init, SchedulerParams,
};
use threadcity::mypthreads::runtime::ThreadRuntimeV2;
use threadcity::mypthreads::signals::ThreadSignal;

type Body = Box<dyn FnMut(u32, u32) -> ThreadSignal>;

#[test]
fn test_api_join_waits_for_thread_to_finish() {
    println!("\n=== TEST API: my_thread_join ===");
    let mut rt: ThreadRuntimeV2<Body> = runtime_init();
    let execution_log = Arc::new(Mutex::new(Vec::<String>::new()));
    let log_clone_worker = execution_log.clone();
    let log_clone_waiter = execution_log.clone();
    let worker_tid = my_thread_create(
        &mut rt,
        "Worker",
        SchedulerParams::RoundRobin,
        Box::new(move |_, _| {
            let mut log = log_clone_worker.lock().unwrap();
            if log.iter().filter(|s| s.starts_with("Worker")).count() == 0 {
                log.push("Worker: Iniciando trabajo".to_string());
                println!("  [Worker] Trabajando...");
                ThreadSignal::Yield
            } else {
                log.push("Worker: Trabajo terminado".to_string());
                println!("  [Worker] Terminado.");
                ThreadSignal::Exit
            }
        }),
    );
    my_thread_create(
        &mut rt,
        "Waiter",
        SchedulerParams::RoundRobin,
        Box::new(move |_, _| {
            let mut log = log_clone_waiter.lock().unwrap();
            if !log.contains(&"Waiter: Esperando a Worker".to_string()) {
                log.push("Waiter: Esperando a Worker".to_string());
                println!("  [Waiter] Voy a esperar por el hilo {}.", worker_tid);
                my_thread_join(worker_tid)
            } else {
                log.push("Waiter: Continuo ejecución".to_string());
                println!("  [Waiter] El Worker ha terminado. Ahora yo termino.");
                ThreadSignal::Exit
            }
        }),
    );
    run_simulation(&mut rt, 10);
    let log = execution_log.lock().unwrap();
    println!("\nLog de ejecución final: {:?}", log);
    let worker_finish_pos = log.iter().position(|s| s == "Worker: Trabajo terminado").unwrap();
    let waiter_continue_pos = log.iter().position(|s| s == "Waiter: Continuo ejecución").unwrap();
    assert!(worker_finish_pos < waiter_continue_pos, "¡Join falló! El Waiter no esperó al Worker.");
    println!("\n  ✓ Test pasado: my_thread_join funciona correctamente.");
}

#[test]
fn test_api_mutex_provides_mutual_exclusion() {
    println!("\n=== TEST API: my_mutex_lock / my_mutex_unlock ===");
    let mut rt: ThreadRuntimeV2<Body> = runtime_init();
    let shared_mutex = Arc::new(Mutex::new(my_mutex_init()));
    let shared_counter = Arc::new(Mutex::new(0));
    let execution_log = Arc::new(Mutex::new(VecDeque::<String>::new()));

    for i in 0..2 {
        let mutex_clone = shared_mutex.clone();
        let counter_clone = shared_counter.clone();
        let log_clone = execution_log.clone();
        let state = Arc::new(Mutex::new(0));

        my_thread_create(
            &mut rt,
            &format!("MutexUser-{}", i),
            SchedulerParams::RoundRobin,
            Box::new(move |tid, _| {
                let mut state_val = state.lock().unwrap();
                match *state_val {
                    0 => {
                        *state_val = 1;
                        println!("  [Hilo {}] Intentando tomar el mutex...", i);
                        my_mutex_lock(&mut mutex_clone.lock().unwrap(), tid)
                    }
                    1 => {
                        *state_val = 2;
                        println!("  [Hilo {}] Mutex adquirido. Entrando a sección crítica.", i);
                        log_clone.lock().unwrap().push_back(format!("Hilo {} ENTRA", i));
                        *counter_clone.lock().unwrap() += 1;
                        ThreadSignal::Yield
                    }
                    2 => {
                        *state_val = 3;
                        println!("  [Hilo {}] Saliendo de sección crítica y liberando mutex.", i);
                        log_clone.lock().unwrap().push_back(format!("Hilo {} SALE", i));
                        my_mutex_unlock(&mut mutex_clone.lock().unwrap())
                    }
                    _ => ThreadSignal::Exit,
                }
            }),
        );
    }

    run_simulation(&mut rt, 20);

    assert_eq!(*shared_counter.lock().unwrap(), 2, "El contador debe ser 2.");

    let log = execution_log.lock().unwrap();
    println!("\nOrden de acceso a la sección crítica: {:?}", log);

    assert_eq!(&log[0], "Hilo 0 ENTRA");
    assert_eq!(&log[1], "Hilo 0 SALE");
    assert_eq!(&log[2], "Hilo 1 ENTRA");
    assert_eq!(&log[3], "Hilo 1 SALE");

    println!("\n  ✓ Test pasado: Mutex garantiza la exclusión mutua.");
}

#[test]
fn test_api_mutex_trylock() {
    println!("\n=== TEST API: my_mutex_trylock ===");
    let mut rt: ThreadRuntimeV2<Body> = runtime_init();
    let shared_mutex = Arc::new(Mutex::new(my_mutex_init()));
    let log = Arc::new(Mutex::new(Vec::<String>::new()));

    my_thread_create(
        &mut rt,
        "Locker",
        SchedulerParams::RoundRobin,
        Box::new({
            let log_a = log.clone();
            let mutex_a = shared_mutex.clone();
            let state = Arc::new(Mutex::new(0));
            move |tid, _| {
                let mut state_val = state.lock().unwrap();
                match *state_val {
                    0 => {
                        *state_val = 1;
                        println!("  [Locker] Intentando tomar el lock...");
                        my_mutex_lock(&mut mutex_a.lock().unwrap(), tid)
                    }
                    1 => {
                        *state_val = 2;
                        log_a.lock().unwrap().push("Locker: Lock adquirido".to_string());
                        println!("  [Locker] Lock adquirido, cediendo...");
                        ThreadSignal::Yield
                    }
                    2 => {
                        *state_val = 3;
                        log_a.lock().unwrap().push("Locker: Lock liberado".to_string());
                        println!("  [Locker] Liberando lock...");
                        my_mutex_unlock(&mut mutex_a.lock().unwrap())
                    }
                    _ => ThreadSignal::Exit,
                }
            }
        }),
    );

    my_thread_create(
        &mut rt,
        "TryLocker",
        SchedulerParams::RoundRobin,
        Box::new({
            let log_b = log.clone();
            let mutex_b = shared_mutex.clone();
            let state = Arc::new(Mutex::new(0));
            move |_, _| {
                let mut state_val = state.lock().unwrap();
                match *state_val {
                    0 => {
                        *state_val = 1;
                        ThreadSignal::Yield
                    }
                    1 => {
                        *state_val = 2;
                        println!("  [TryLocker] Intentando tomar el lock con trylock (debería fallar)...");
                        if !my_mutex_trylock(&mut mutex_b.lock().unwrap()) {
                            println!("  [TryLocker] ¡Correcto! trylock falló.");
                            log_b.lock().unwrap().push("TryLocker: trylock falló".to_string());
                        } else {
                            my_mutex_unlock(&mut mutex_b.lock().unwrap());
                            panic!("trylock debería haber fallado!");
                        }
                        ThreadSignal::Yield
                    }
                    2 => {
                        *state_val = 3;
                        println!("  [TryLocker] Intentando de nuevo con trylock (debería funcionar)...");
                        if my_mutex_trylock(&mut mutex_b.lock().unwrap()) {
                            println!("  [TryLocker] ¡Correcto! trylock tuvo éxito.");
                            log_b.lock().unwrap().push("TryLocker: trylock tuvo éxito".to_string());
                            my_mutex_unlock(&mut mutex_b.lock().unwrap());
                        } else {
                            panic!("trylock debería haber tenido éxito!");
                        }
                        ThreadSignal::Exit
                    }
                    _ => ThreadSignal::Exit,
                }
            }
        }),
    );

    run_simulation(&mut rt, 20);

    let final_log = log.lock().unwrap();
    println!("\nLog de eventos de trylock: {:?}", final_log);

    assert_eq!(&final_log[0], "Locker: Lock adquirido");
    assert_eq!(&final_log[1], "TryLocker: trylock falló");
    assert_eq!(&final_log[2], "Locker: Lock liberado");
    assert_eq!(&final_log[3], "TryLocker: trylock tuvo éxito");

    println!("\n  ✓ Test pasado: my_mutex_trylock funciona como se esperaba.");
}

#[test]
fn mutex_lock_then_lock_again_waits_and_unlock_frees() {
    let mut m = my_mutex_init();
    assert!(matches!(my_mutex_lock(&mut m, 1), ThreadSignal::Continue));
    assert!(matches!(my_mutex_lock(&mut m, 2), ThreadSignal::MutexLock(2)));
    assert!(!my_mutex_trylock(&mut m));
    // the waiter gets the mutex, which stays held
    assert!(matches!(my_mutex_unlock(&mut m), ThreadSignal::MutexUnlock(2)));
    assert!(!my_mutex_trylock(&mut m));
    // nobody waits any more: the mutex becomes free
    assert!(matches!(my_mutex_unlock(&mut m), ThreadSignal::Continue));
    assert!(my_mutex_trylock(&mut m));
    m.force_unlock();
    assert!(matches!(my_mutex_lock(&mut m, 3), ThreadSignal::Continue));
}
