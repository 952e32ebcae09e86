use threadcity::city::sync::{shared, SharedMutex};
use threadcity::mypthreads::signals::ThreadSignal;

#[test]
fn test_shared_mutex_creation() {
    let mut mutex = SharedMutex::new(42);
    let guard = mutex.try_lock().expect("Should acquire lock");
    assert_eq!(*guard, 42);
}

#[test]
fn test_shared_creation() {
    let mut shared = shared(vec![1, 2, 3]);
    if let Some(guard) = shared.try_lock() {
        assert_eq!(guard.len(), 3);
    }
}

#[test]
fn shared_mutex_lock_when_held_asks_to_wait() {
    let mut m = SharedMutex::new(1u8);
    {
        let (g, s) = m.lock(1);
        assert!(matches!(s, ThreadSignal::Continue));
        *g = 2;
    }
    let (g, s) = m.lock(2);
    assert!(matches!(s, ThreadSignal::MutexLock(2)));
    assert_eq!(*g, 2);
    // the waiting thread gets the lock
    assert!(matches!(m.unlock(), ThreadSignal::MutexUnlock(2)));
    assert!(m.try_lock().is_none());
    assert!(matches!(m.unlock(), ThreadSignal::Continue));
    assert!(m.try_lock().is_some());
}

#[test]
fn shared_mutex_try_lock_fails_while_held() {
    let mut m = SharedMutex::new(5i32);
    assert!(m.try_lock().is_some());
    assert!(m.try_lock().is_none());
    assert!(matches!(m.unlock(), ThreadSignal::Continue));
    assert_eq!(*m.try_lock().expect("free again"), 5);
}
