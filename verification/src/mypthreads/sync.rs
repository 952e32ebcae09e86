//! A value guarded by a runtime mutex: a thread asks for the lock, the
//! runtime grants it, and the thread then enters the value.

use vstd::prelude::*;
use crate::mypthreads::signals::ThreadSignal;
use crate::mypthreads::thread::ThreadId;
use crate::mypthreads::mypthreads_api::{
    MyMutex, my_mutex_init, my_mutex_lock, my_mutex_trylock, my_mutex_unlock,
};

verus! {

/// A value guarded by a mutex of the runtime.
pub struct MyMutexCell<T> {
    mtx: MyMutex,
    data: T,
}

/// Access to the guarded value. Ending its use does not release the lock:
/// `request_unlock` or `force_unlock_for_main` does.
pub type MyGuard<'a, T> = &'a mut T;

/// A guarded value. It is a plain value: bodies that share it hold it
/// through a shared handle of their own, such as `Rc<RefCell<_>>`.
pub type Shared<T> = MyMutexCell<T>;

impl<T> MyMutexCell<T> {
    /// The guarded value.
    pub closed spec fn value(&self) -> T {
        self.data
    }

    /// Whether the lock is held.
    pub closed spec fn is_locked(&self) -> bool {
        self.mtx@.locked
    }

    /// The threads waiting for the lock, first come first served.
    pub closed spec fn waiters(&self) -> Seq<ThreadId> {
        self.mtx@.waiters
    }

    /// Guards `value` with a new free mutex.
    pub fn new(value: T) -> (c: Self)
        ensures
            c.value() == value,
            !c.is_locked(),
            c.waiters() == Seq::<ThreadId>::empty(),
    {
        MyMutexCell { mtx: my_mutex_init(), data: value }
    }

    /// Asks for the lock for thread `tid`: `Continue` when it was free and
    /// is now taken; when it was held, `tid` joins the waiters and the
    /// answer is `MutexLock(tid)`, for the runtime to block the thread.
    pub fn request_lock(&mut self, tid: ThreadId) -> (s: ThreadSignal)
        ensures
            !old(self).is_locked() ==> s is Continue && final(self).waiters() == old(self).waiters(),
            old(self).is_locked() ==> s == ThreadSignal::MutexLock(tid)
                && final(self).waiters() == old(self).waiters().push(tid),
            final(self).is_locked(),
            final(self).value() == old(self).value(),
    {
        my_mutex_lock(&mut self.mtx, tid)
    }

    /// Releases the lock without handing it on; the waiters stay.
    pub fn force_unlock_for_main(&mut self)
        ensures
            !final(self).is_locked(),
            final(self).waiters() == old(self).waiters(),
            final(self).value() == old(self).value(),
    {
        self.mtx.force_unlock()
    }

    /// Enters the value, once the lock has been granted; the lock is left
    /// as it is.
    pub fn enter(&mut self) -> (g: MyGuard<'_, T>)
        ensures
            *g == old(self).value(),
            final(self).value() == *final(g),
            final(self).is_locked() == old(self).is_locked(),
            final(self).waiters() == old(self).waiters(),
    {
        &mut self.data
    }

    /// Releases the lock: with nobody waiting it becomes free
    /// (`Continue`); otherwise it passes to the first waiter, which leaves
    /// the queue and holds it (`MutexUnlock` naming that thread).
    pub fn request_unlock(&mut self) -> (s: ThreadSignal)
        ensures
            old(self).waiters().len() == 0 ==> s is Continue && !final(self).is_locked()
                && final(self).waiters() == old(self).waiters(),
            old(self).waiters().len() > 0 ==> s == ThreadSignal::MutexUnlock(old(self).waiters()[0])
                && final(self).is_locked() && final(self).waiters() == old(self).waiters().drop_first(),
            final(self).value() == old(self).value(),
    {
        my_mutex_unlock(&mut self.mtx)
    }

    /// Enters the value if the lock is free, taking the lock; never blocks.
    /// The lock is held afterwards.
    pub fn try_enter(&mut self) -> (g: Option<MyGuard<'_, T>>)
        ensures
            g is Some <==> !old(self).is_locked(),
            final(self).is_locked(),
            final(self).waiters() == old(self).waiters(),
            g is Some ==> *g->0 == old(self).value() && final(self).value() == *final(g->0),
            g is None ==> final(self).value() == old(self).value(),
    {
        if my_mutex_trylock(&mut self.mtx) {
            Some(&mut self.data)
        } else {
            None
        }
    }
}

/// Guards a value with a new mutex.
pub fn shared<T>(value: T) -> (c: Shared<T>)
    ensures
        c.value() == value,
        !c.is_locked(),
        c.waiters() == Seq::<ThreadId>::empty(),
{
    MyMutexCell::new(value)
}

} // verus!
