use std::cell::RefCell;
use std::rc::Rc;
use std::collections::VecDeque;
use threadcity::mypthreads::runtime::ThreadRuntimeV2;
use threadcity::mypthreads::sched::{schedule_lottery_with_ticket, select_next_thread};
use threadcity::mypthreads::signals::ThreadSignal;
use threadcity::mypthreads::thread::{MyThread, SchedulerType, ThreadId};

type Body = Box<dyn FnMut(u32, u32) -> ThreadSignal>;

fn thread(id: ThreadId, name: &str, sched: SchedulerType, tickets: u32, deadline: Option<u64>) -> MyThread<Body> {
    MyThread::new(id, name.to_string(), sched, tickets, deadline, Box::new(|_, _| unreachable!()))
}

#[test]
fn unit_test_real_time_is_always_chosen() {
    // thread t sits at index t - 1
    let mut threads: Vec<MyThread<Body>> = Vec::new();
    let mut ready_queue = VecDeque::new();

    threads.push(thread(1, "RR", SchedulerType::RoundRobin, 1, None));
    ready_queue.push_back(1);

    threads.push(thread(2, "RT", SchedulerType::RealTime, 0, Some(50)));
    ready_queue.push_back(2);

    let selected_id = select_next_thread(&ready_queue, &threads, 0);

    assert_eq!(selected_id, Some(2), "El scheduler de Tiempo Real debería haber sido elegido.");
}

#[test]
fn earliest_deadline_wins_among_real_time_threads() {
    let mut threads: Vec<MyThread<Body>> = Vec::new();
    threads.push(thread(1, "late", SchedulerType::RealTime, 0, Some(300)));
    threads.push(thread(2, "early", SchedulerType::RealTime, 0, Some(100)));
    threads.push(thread(3, "mid", SchedulerType::RealTime, 0, Some(200)));
    let ready_queue: VecDeque<ThreadId> = VecDeque::from(vec![1, 2, 3]);
    assert_eq!(select_next_thread(&ready_queue, &threads, 0), Some(2));
}

#[test]
fn empty_queue_selects_nothing() {
    let threads: Vec<MyThread<Body>> = Vec::new();
    let ready_queue: VecDeque<ThreadId> = VecDeque::new();
    assert_eq!(select_next_thread(&ready_queue, &threads, 0), None);
}

#[test]
fn lottery_ticket_picks_the_holder_of_that_ticket() {
    // thread 1 holds tickets 1..=10, thread 2 tickets 11..=100
    let mut threads: Vec<MyThread<Body>> = Vec::new();
    threads.push(thread(1, "poor", SchedulerType::Lottery, 10, None));
    threads.push(thread(2, "rich", SchedulerType::Lottery, 90, None));
    let ready_queue: VecDeque<ThreadId> = VecDeque::from(vec![1, 2]);
    assert_eq!(schedule_lottery_with_ticket(&ready_queue, &threads, 1), Some(1));
    assert_eq!(schedule_lottery_with_ticket(&ready_queue, &threads, 10), Some(1));
    assert_eq!(schedule_lottery_with_ticket(&ready_queue, &threads, 11), Some(2));
    assert_eq!(schedule_lottery_with_ticket(&ready_queue, &threads, 100), Some(2));
}

#[test]
fn lottery_selection_stays_among_ready_threads() {
    let mut threads: Vec<MyThread<Body>> = Vec::new();
    threads.push(thread(1, "a", SchedulerType::Lottery, 5, None));
    threads.push(thread(2, "b", SchedulerType::Lottery, 5, None));
    let ready_queue: VecDeque<ThreadId> = VecDeque::from(vec![1, 2]);
    for _ in 0..50 {
        let s = select_next_thread(&ready_queue, &threads, 0);
        assert!(s == Some(1) || s == Some(2));
    }
}

#[test]
fn runtime_selection_takes_the_real_time_thread_out_of_the_queue() {
    let mut rt: ThreadRuntimeV2<Body> = ThreadRuntimeV2::new();
    rt.spawn("rr", SchedulerType::RoundRobin, Box::new(|_, _| ThreadSignal::Exit), 1, None);
    rt.spawn("rt", SchedulerType::RealTime, Box::new(|_, _| ThreadSignal::Exit), 0, Some(50));
    rt.spawn("rr2", SchedulerType::RoundRobin, Box::new(|_, _| ThreadSignal::Exit), 1, None);
    assert_eq!(rt.select_next_thread(), Some(2));
    assert_eq!(rt.ready, vec![1, 3]);
}

#[test]
fn run_dispatches_real_time_threads_by_earliest_deadline() {
    let order: Rc<RefCell<Vec<&'static str>>> = Rc::new(RefCell::new(Vec::new()));
    let mut rt: ThreadRuntimeV2<Body> = ThreadRuntimeV2::new();
    for (name, deadline) in [("C", 300u64), ("A", 100), ("B", 200)] {
        let o = Rc::clone(&order);
        rt.spawn(name, SchedulerType::RealTime, Box::new(move |_, _| {
            o.borrow_mut().push(name);
            ThreadSignal::Exit
        }), 0, Some(deadline));
    }
    rt.run(5);
    assert_eq!(*order.borrow(), vec!["A", "B", "C"]);
}

#[test]
fn round_robin_threads_run_in_turn() {
    let order: Rc<RefCell<Vec<u32>>> = Rc::new(RefCell::new(Vec::new()));
    let mut rt: ThreadRuntimeV2<Body> = ThreadRuntimeV2::new();
    for _ in 0..3 {
        let o = Rc::clone(&order);
        let mut steps = 0;
        rt.spawn("rr", SchedulerType::RoundRobin, Box::new(move |tid, _| {
            o.borrow_mut().push(tid);
            steps += 1;
            if steps < 2 { ThreadSignal::Yield } else { ThreadSignal::Exit }
        }), 1, None);
    }
    rt.run(10);
    assert_eq!(*order.borrow(), vec![1, 2, 3, 1, 2, 3]);
}
