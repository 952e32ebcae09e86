use std::collections::HashSet;
use std::sync::{Arc, Mutex};
use threadcity::mypthreads::runtime::ThreadRuntimeV2;
use threadcity::mypthreads::signals::ThreadSignal;
use threadcity::mypthreads::thread::SchedulerType;

type ContextThreadEntry = Box<dyn FnMut(u32, u32) -> ThreadSignal>;

#[test]
fn test_basic_context_switch() {
    println!("\n=== TEST: Cambio de Contexto Básico ===\n");
    let mut rt: ThreadRuntimeV2<ContextThreadEntry> = ThreadRuntimeV2::new();
    let counter = Arc::new(Mutex::new(0));

    let counter_a = counter.clone();
    let thread_a: ContextThreadEntry = Box::new(move |tid, _| {
        let mut count = counter_a.lock().unwrap();
        *count += 1;
        let current = *count;
        drop(count);
        println!("  [Hilo {}] Ping! (ejecución #{})", tid, current);
        if current < 3 {
            ThreadSignal::Yield
        } else {
            println!("  [Hilo {}] Ping terminado", tid);
            ThreadSignal::Exit
        }
    });

    let counter_b = counter.clone();
    let thread_b: ContextThreadEntry = Box::new(move |tid, _| {
        let mut count = counter_b.lock().unwrap();
        *count += 1;
        let current = *count;
        drop(count);
        println!("  [Hilo {}] Pong! (ejecución #{})", tid, current);
        if current < 3 {
            ThreadSignal::Yield
        } else {
            println!("  [Hilo {}] Pong terminado", tid);
            ThreadSignal::Exit
        }
    });

    let tid_a = rt.spawn("Ping", SchedulerType::RoundRobin, thread_a, 1, None);
    let tid_b = rt.spawn("Pong", SchedulerType::RoundRobin, thread_b, 1, None);
    println!("Hilos creados: A={}, B={}\n", tid_a, tid_b);

    rt.run(10);

    let final_count = *counter.lock().unwrap();
    println!("Total de ejecuciones: {}", final_count);
    assert!(final_count >= 4, "Los hilos no ejecutaron suficientes veces");
    assert!(rt.ready.is_empty(), "Todavía hay hilos en ready");
}

#[test]
fn test_single_thread_yields() {
    let mut rt: ThreadRuntimeV2<ContextThreadEntry> = ThreadRuntimeV2::new();
    let executions = Arc::new(Mutex::new(Vec::new()));
    let exec_clone = executions.clone();

    let thread: ContextThreadEntry = Box::new(move |tid, _| {
        exec_clone.lock().unwrap().push(tid);
        let count = exec_clone.lock().unwrap().len();
        println!("  [Hilo {}] Ejecución #{}", tid, count);
        if count < 5 {
            ThreadSignal::Yield
        } else {
            ThreadSignal::Exit
        }
    });

    rt.spawn("Worker", SchedulerType::RoundRobin, thread, 1, None);
    rt.run(10);

    let exec_count = executions.lock().unwrap().len();
    assert_eq!(exec_count, 5, "El hilo debería ejecutar exactamente 5 veces");
}

#[test]
fn test_immediate_exit() {
    let mut rt: ThreadRuntimeV2<ContextThreadEntry> = ThreadRuntimeV2::new();
    let executed = Arc::new(Mutex::new(false));
    let exec_clone = executed.clone();

    let thread: ContextThreadEntry = Box::new(move |tid, _| {
        println!("  [Hilo {}] Ejecutando y terminando inmediatamente", tid);
        *exec_clone.lock().unwrap() = true;
        ThreadSignal::Exit
    });

    rt.spawn("QuickExit", SchedulerType::RoundRobin, thread, 1, None);
    rt.run(5);

    assert!(*executed.lock().unwrap(), "El hilo debería haber ejecutado");
    assert!(rt.ready.is_empty(), "No debería haber hilos en ready");
}

#[test]
fn test_three_threads_round_robin() {
    let mut rt: ThreadRuntimeV2<ContextThreadEntry> = ThreadRuntimeV2::new();
    let execution_order = Arc::new(Mutex::new(Vec::new()));

    for i in 0..3 {
        let order = execution_order.clone();
        let thread_name = format!("Thread-{}", i);
        let thread: ContextThreadEntry = Box::new(move |tid, _| {
            let mut order_lock = order.lock().unwrap();
            let current_len = order_lock.len();
            order_lock.push((tid, current_len));
            let count = order_lock.iter().filter(|(t, _)| *t == tid).count();
            drop(order_lock);
            if count < 2 {
                ThreadSignal::Yield
            } else {
                ThreadSignal::Exit
            }
        });
        rt.spawn(&thread_name, SchedulerType::RoundRobin, thread, 1, None);
    }

    rt.run(20);

    let order = execution_order.lock().unwrap();
    assert_eq!(order.len(), 6, "Deberían haber 6 ejecuciones totales (3 hilos × 2)");
    let first_three_tids: Vec<u32> = order.iter().take(3).map(|(tid, _)| *tid).collect();
    let unique_first_three: HashSet<_> = first_three_tids.iter().collect();
    assert_eq!(unique_first_three.len(), 3, "Round Robin debería alternar entre hilos");
}

#[test]
fn test_context_state_preservation() {
    let mut rt: ThreadRuntimeV2<ContextThreadEntry> = ThreadRuntimeV2::new();
    let internal_counter = Arc::new(Mutex::new(0));
    let counter_clone = internal_counter.clone();

    let thread: ContextThreadEntry = Box::new(move |tid, _| {
        let mut counter = counter_clone.lock().unwrap();
        *counter += 1;
        let current = *counter;
        drop(counter);
        println!("  [Hilo {}] Contador interno: {}", tid, current);
        if current < 4 {
            ThreadSignal::Yield
        } else {
            ThreadSignal::Exit
        }
    });

    rt.spawn("StatefulThread", SchedulerType::RoundRobin, thread, 1, None);
    rt.run(10);

    let final_count = *internal_counter.lock().unwrap();
    assert_eq!(final_count, 4, "El contador debería llegar a 4");
}

#[test]
fn yielding_thread_goes_behind_the_others() {
    let mut rt: ThreadRuntimeV2<ContextThreadEntry> = ThreadRuntimeV2::new();
    let order = Arc::new(Mutex::new(Vec::new()));
    for _ in 0..2 {
        let o = order.clone();
        rt.spawn("T", SchedulerType::RoundRobin, Box::new(move |tid, _| {
            o.lock().unwrap().push(tid);
            ThreadSignal::Yield
        }), 1, None);
    }
    rt.run(4);
    assert_eq!(*order.lock().unwrap(), vec![1, 2, 1, 2]);
    assert_eq!(rt.now_ms(), 40);
}

#[test]
fn blocked_thread_waits_until_unblocked() {
    let mut rt: ThreadRuntimeV2<ContextThreadEntry> = ThreadRuntimeV2::new();
    let runs = Arc::new(Mutex::new(0));
    let r = runs.clone();
    rt.spawn("Sleeper", SchedulerType::RoundRobin, Box::new(move |_, _| {
        *r.lock().unwrap() += 1;
        ThreadSignal::Block
    }), 1, None);
    rt.run(5);
    assert_eq!(*runs.lock().unwrap(), 1);
    assert_eq!(rt.blocked, vec![1]);
    assert!(rt.ready.is_empty());
    rt.unblock_all_threads();
    assert!(rt.blocked.is_empty());
    assert_eq!(rt.ready.len(), 1);
    rt.run(1);
    assert_eq!(*runs.lock().unwrap(), 2);
}
