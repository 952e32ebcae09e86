use threadcity::mypthreads::signals::ThreadSignal;
use threadcity::mypthreads::sync::{shared, MyMutexCell};

#[test]
fn test_basic_creation() {
    let mut cell = MyMutexCell::new(42);

    // try_enter works without a thread context
    if let Some(guard) = cell.try_enter() {
        assert_eq!(*guard, 42);
        *guard = 100;
        // the guard does not unlock; unlock by hand
        cell.request_unlock();
    }
}

#[test]
fn sync_test_shared_creation() {
    let mut shared_cell = shared(vec![1, 2, 3]);

    if let Some(guard) = shared_cell.try_enter() {
        assert_eq!(guard.len(), 3);
        shared_cell.request_unlock();
    }
}

#[test]
fn cell_try_enter_fails_while_held_and_succeeds_after_release() {
    let mut cell = MyMutexCell::new(7u32);
    {
        let g = cell.try_enter().expect("free at first");
        *g = 8;
    }
    assert!(cell.try_enter().is_none());
    cell.force_unlock_for_main();
    let g = cell.try_enter().expect("free again");
    assert_eq!(*g, 8);
}

#[test]
fn cell_request_lock_twice_waits_then_hands_off_and_frees() {
    let mut cell = MyMutexCell::new(1u8);
    assert!(matches!(cell.request_lock(1), ThreadSignal::Continue));
    assert!(matches!(cell.request_lock(2), ThreadSignal::MutexLock(2)));
    assert!(cell.try_enter().is_none());
    assert!(matches!(cell.request_unlock(), ThreadSignal::MutexUnlock(2)));
    assert!(matches!(cell.request_unlock(), ThreadSignal::Continue));
    let g = cell.try_enter().expect("free after unlock");
    assert_eq!(*g, 1);
}

#[test]
fn cell_lock_then_unlock_restores_the_free_state() {
    let mut cell = MyMutexCell::new(3u8);
    assert!(matches!(cell.request_lock(1), ThreadSignal::Continue));
    assert!(matches!(cell.request_unlock(), ThreadSignal::Continue));
    assert_eq!(*cell.try_enter().expect("free"), 3);
}
