use threadcity::mypthreads::channels::{JoinHandle, SharedData, SimpleMutex, ThreadChannels};
use threadcity::mypthreads::mutex::MyMutex;
use threadcity::mypthreads::api_context::{ctx_mutex_lock, ctx_mutex_unlock, current_tid, init_thread_context};
use threadcity::mypthreads::signals::ThreadSignal;

#[test]
fn stored_data_is_read_back_and_replaced() {
    let mut ch = ThreadChannels::new();
    assert!(ch.get("count").is_none());
    ch.store("count".to_string(), SharedData::Counter(1));
    ch.store("flag".to_string(), SharedData::Flag(true));
    ch.store("count".to_string(), SharedData::Counter(5));
    assert_eq!(ch.shared_data.len(), 2);
    assert!(matches!(ch.get("count"), Some(SharedData::Counter(5))));
    assert!(matches!(ch.get("flag"), Some(SharedData::Flag(true))));
    assert!(ch.get("other").is_none());
}

#[test]
fn reports_go_to_their_queues() {
    let mut ch = ThreadChannels::new();
    ch.report_yield(1);
    ch.report_block(2);
    ch.report_exit(3);
    ch.report_yield(4);
    assert_eq!(ch.yield_queue, vec![1, 4]);
    assert_eq!(ch.blocked_queue, vec![2]);
    assert_eq!(ch.terminated_queue, vec![3]);
}

#[test]
fn join_handle_records_termination() {
    let mut h = JoinHandle::new();
    assert!(!h.is_terminated());
    h.mark_terminated();
    assert!(h.is_terminated());
}

#[test]
fn simple_mutex_hands_over_in_arrival_order() {
    let mut m = SimpleMutex::new();
    assert!(!m.lock(1));
    assert!(m.lock(2));
    assert!(m.lock(3));
    assert!(!m.try_lock(4));
    assert_eq!(m.unlock(1), Some(2));
    assert_eq!(m.unlock(2), Some(3));
    assert_eq!(m.unlock(3), None);
    assert!(m.try_lock(4));
}

#[test]
fn my_mutex_lock_unlock_and_destroy() {
    let mut m = MyMutex::my_mutex_init();
    assert!(!m.my_mutex_lock(1));
    assert!(m.my_mutex_lock(2));
    // a waiter is queued once
    assert!(m.my_mutex_lock(2));
    assert_eq!(m.wait_queue.len(), 1);
    assert!(!m.my_mutex_trylock(3));
    assert_eq!(m.my_mutex_destroy(), 1);
    assert_eq!(m.my_mutex_unlock(1), Some(2));
    assert!(!m.locked);
    assert_eq!(m.my_mutex_destroy(), 0);
    assert!(!m.my_mutex_trylock(3));
}

#[test]
fn context_mutex_blocks_a_second_thread() {
    let mut a = init_thread_context(1, ThreadChannels::new());
    let mut b = init_thread_context(2, ThreadChannels::new());
    assert_eq!(current_tid(&a), 1);
    let mut m = SimpleMutex::new();
    assert!(matches!(ctx_mutex_lock(&mut a, &mut m), ThreadSignal::Continue));
    assert!(matches!(ctx_mutex_lock(&mut b, &mut m), ThreadSignal::Block));
    assert!(matches!(ctx_mutex_unlock(&a, &mut m), ThreadSignal::Continue));
}
