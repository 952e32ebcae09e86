//! A value shared between the threads of the simulation behind a runtime
//! mutex, in the manner of a standard mutex: take the lock, use the value,
//! release the lock.

use vstd::prelude::*;
use crate::mypthreads::signals::ThreadSignal;
use crate::mypthreads::thread::ThreadId;
use crate::mypthreads::mypthreads_api::{MyMutex, my_mutex_init, my_mutex_lock, my_mutex_trylock, my_mutex_unlock};

verus! {

/// A value guarded by a mutex of the runtime.
pub struct SharedMutex<T> {
    inner: MyMutex,
    data: T,
}

/// Access to the guarded value while the lock is held. Ending its use does
/// not release the lock: `unlock` does.
pub type SharedMutexGuard<'a, T> = &'a mut T;

/// A guarded value to share. It is a plain value: bodies that share it hold
/// it through a shared handle of their own, such as `Rc<RefCell<_>>`.
pub type Shared<T> = SharedMutex<T>;

impl<T> SharedMutex<T> {
    /// The guarded value.
    pub closed spec fn value(&self) -> T {
        self.data
    }

    /// Whether the lock is held.
    pub closed spec fn is_locked(&self) -> bool {
        self.inner@.locked
    }

    /// The threads waiting for the lock, first come first served.
    pub closed spec fn waiters(&self) -> Seq<ThreadId> {
        self.inner@.waiters
    }

    /// Guards `value` with a new free mutex.
    pub fn new(value: T) -> (m: Self)
        ensures
            m.value() == value,
            !m.is_locked(),
            m.waiters() == Seq::<ThreadId>::empty(),
    {
        SharedMutex { inner: my_mutex_init(), data: value }
    }

    /// Takes the lock for thread `tid` and gives access to the value, with
    /// the signal the thread hands the runtime: `Continue` when the lock was
    /// free; when it was held, `tid` joins the waiters and the signal is
    /// `MutexLock(tid)`, so that the thread waits before using the value.
    /// The lock stays held until `unlock`: the guard does not release it.
    pub fn lock(&mut self, tid: ThreadId) -> (r: (SharedMutexGuard<'_, T>, ThreadSignal))
        ensures
            *r.0 == old(self).value(),
            final(self).value() == *final(r.0),
            !old(self).is_locked() ==> r.1 is Continue && final(self).waiters() == old(self).waiters(),
            old(self).is_locked() ==> r.1 == ThreadSignal::MutexLock(tid)
                && final(self).waiters() == old(self).waiters().push(tid),
            final(self).is_locked(),
    {
        let signal = my_mutex_lock(&mut self.inner, tid);
        (&mut self.data, signal)
    }

    /// Takes the lock and gives access to the value if the lock is free;
    /// never waits. The lock is held afterwards.
    pub fn try_lock(&mut self) -> (g: Option<SharedMutexGuard<'_, T>>)
        ensures
            g is Some <==> !old(self).is_locked(),
            final(self).is_locked(),
            final(self).waiters() == old(self).waiters(),
            g is Some ==> *g->0 == old(self).value() && final(self).value() == *final(g->0),
            g is None ==> final(self).value() == old(self).value(),
    {
        if my_mutex_trylock(&mut self.inner) {
            Some(&mut self.data)
        } else {
            None
        }
    }

    /// Releases the lock once the guard is no longer used: with nobody
    /// waiting it becomes free (`Continue`); otherwise it passes to the
    /// first waiter, which leaves the queue and holds it (`MutexUnlock`
    /// naming that thread).
    pub fn unlock(&mut self) -> (s: ThreadSignal)
        ensures
            old(self).waiters().len() == 0 ==> s is Continue && !final(self).is_locked()
                && final(self).waiters() == old(self).waiters(),
            old(self).waiters().len() > 0 ==> s == ThreadSignal::MutexUnlock(old(self).waiters()[0])
                && final(self).is_locked() && final(self).waiters() == old(self).waiters().drop_first(),
            final(self).value() == old(self).value(),
    {
        my_mutex_unlock(&mut self.inner)
    }
}

/// Guards a value to share between threads.
pub fn shared<T>(value: T) -> (s: Shared<T>)
    ensures
        s.value() == value,
        !s.is_locked(),
        s.waiters() == Seq::<ThreadId>::empty(),
{
    SharedMutex::new(value)
}

} // verus!
