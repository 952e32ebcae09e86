//! A mutex with explicit init and destroy, owned by a thread id, with a FIFO
//! queue of waiting threads. Releasing it does not pass it on: the first
//! waiter is returned so that it can be woken and try again.

use vstd::prelude::*;
use std::collections::VecDeque;
use crate::mypthreads::thread::ThreadId;

verus! {

pub struct MyMutex {
    pub initialized: bool,
    pub locked: bool,
    pub owner: Option<ThreadId>,
    pub wait_queue: VecDeque<ThreadId>,
}

/// The state of a mutex.
pub struct MutexView {
    pub initialized: bool,
    pub locked: bool,
    pub owner: Option<ThreadId>,
    pub waiters: Seq<ThreadId>,
}

impl View for MyMutex {
    type V = MutexView;

    open spec fn view(&self) -> MutexView {
        MutexView {
            initialized: self.initialized,
            locked: self.locked,
            owner: self.owner,
            waiters: self.wait_queue@,
        }
    }
}

/// Locking for `tid`: a free mutex is taken; on a held one `tid` queues
/// once. The flag says whether `tid` has to block.
pub open spec fn lock_spec(m: MutexView, tid: ThreadId) -> (MutexView, bool) {
    if m.locked {
        let waiters = if m.waiters.contains(tid) { m.waiters } else { m.waiters.push(tid) };
        (MutexView { waiters, ..m }, true)
    } else {
        (MutexView { locked: true, owner: Some(tid), ..m }, false)
    }
}

/// Unlocking: the mutex becomes free and its first waiter, if any, leaves
/// the queue to be woken.
pub open spec fn unlock_spec(m: MutexView) -> (MutexView, Option<ThreadId>) {
    if m.waiters.len() > 0 {
        (MutexView { locked: false, owner: None, waiters: m.waiters.drop_first(), ..m }, Some(m.waiters[0]))
    } else {
        (MutexView { locked: false, owner: None, ..m }, None)
    }
}

/// Trying to lock for `tid`: taken only when initialized and free.
pub open spec fn trylock_spec(m: MutexView, tid: ThreadId) -> (MutexView, bool) {
    if m.initialized && !m.locked {
        (MutexView { locked: true, owner: Some(tid), ..m }, true)
    } else {
        (m, false)
    }
}

/// Destroying: refused (1) while uninitialized, held or waited for.
pub open spec fn destroy_spec(m: MutexView) -> (MutexView, i32) {
    if m.initialized && !m.locked && m.waiters.len() == 0 {
        (MutexView { initialized: false, ..m }, 0)
    } else {
        (m, 1)
    }
}

fn queue_contains(q: &VecDeque<ThreadId>, tid: ThreadId) -> (r: bool)
    ensures
        r == q@.contains(tid),
{
    let mut i: usize = 0;
    while i < q.len()
        invariant
            0 <= i <= q@.len(),
            forall|j: int| 0 <= j < i ==> q@[j] != tid,
        decreases q@.len() - i,
    {
        if q[i] == tid {
            proof {
                assert(q@[i as int] == tid);
            }
            return true;
        }
        i = i + 1;
    }
    false
}

impl MyMutex {
    /// A free, initialized mutex with nobody waiting.
    pub fn my_mutex_init() -> (m: Self)
        ensures
            m@ == (MutexView { initialized: true, locked: false, owner: None, waiters: Seq::empty() }),
    {
        MyMutex { initialized: true, locked: false, owner: None, wait_queue: VecDeque::new() }
    }

    /// Destroys the mutex: 0 on success; 1, leaving it unchanged, when it
    /// is not initialized, is held, or has waiters.
    pub fn my_mutex_destroy(&mut self) -> (r: i32)
        ensures
            (final(self)@, r) == destroy_spec(old(self)@),
    {
        if !self.initialized {
            return 1;
        }
        if self.locked {
            return 1;
        }
        if self.wait_queue.len() != 0 {
            return 1;
        }
        self.initialized = false;
        0
    }

    /// Takes the mutex for `tid` if it is free (returns `false`); otherwise
    /// queues `tid` once behind the other waiters and returns `true`: the
    /// caller has to block.
    pub fn my_mutex_lock(&mut self, tid: ThreadId) -> (must_block: bool)
        requires
            old(self).initialized,
        ensures
            (final(self)@, must_block) == lock_spec(old(self)@, tid),
    {
        if self.locked {
            if !queue_contains(&self.wait_queue, tid) {
                self.wait_queue.push_back(tid);
            }
            return true;
        }
        self.locked = true;
        self.owner = Some(tid);
        false
    }

    /// Releases the mutex held by `tid`; returns the first waiter, which
    /// leaves the queue, so that it can be woken.
    pub fn my_mutex_unlock(&mut self, tid: ThreadId) -> (next: Option<ThreadId>)
        requires
            old(self).initialized,
            old(self).locked,
            old(self).owner == Some(tid),
        ensures
            (final(self)@, next) == unlock_spec(old(self)@),
    {
        self.locked = false;
        self.owner = None;
        let next = self.wait_queue.pop_front();
        proof {
            if old(self).wait_queue@.len() > 0 {
                assert(self.wait_queue@ =~= old(self).wait_queue@.drop_first());
            }
        }
        next
    }

    /// Takes the mutex for `tid` if it is initialized and free; never
    /// queues. Reports whether it took it.
    pub fn my_mutex_trylock(&mut self, tid: ThreadId) -> (r: bool)
        ensures
            (final(self)@, r) == trylock_spec(old(self)@, tid),
    {
        if !self.initialized {
            return false;
        }
        if self.locked {
            return false;
        }
        self.locked = true;
        self.owner = Some(tid);
        true
    }
}

/// Law: a free mutex that nobody waits for is left exactly as it was when a
/// thread locks it and unlocks it, and nobody is woken.
pub proof fn law_lock_unlock_restores(m: MutexView, tid: ThreadId)
    requires
        m.initialized,
        !m.locked,
        m.owner is None,
        m.waiters.len() == 0,
    ensures
        !lock_spec(m, tid).1,
        unlock_spec(lock_spec(m, tid).0) == (m, None::<ThreadId>),
{
}

/// Law: threads that find the mutex held are woken in the order in which
/// they asked: after `b` and then `c` (distinct, not yet waiting) try to
/// lock a mutex held by `a`, unlocking wakes `b` and leaves `c` waiting.
pub proof fn law_waiters_fifo(m: MutexView, b: ThreadId, c: ThreadId)
    requires
        m.initialized,
        m.locked,
        m.waiters.len() == 0,
        b != c,
    ensures
        lock_spec(m, b).1,
        lock_spec(lock_spec(m, b).0, c).1,
        unlock_spec(lock_spec(lock_spec(m, b).0, c).0).1 == Some(b),
        unlock_spec(lock_spec(lock_spec(m, b).0, c).0).0.waiters == seq![c],
{
    let m1 = lock_spec(m, b).0;
    assert(m1.waiters =~= seq![b]);
    let m2 = lock_spec(m1, c).0;
    assert(!m1.waiters.contains(c));
    assert(m2.waiters =~= seq![b, c]);
    assert(m2.waiters.drop_first() =~= seq![c]);
}

/// Law: trying to lock a held mutex changes nothing and never queues.
pub proof fn law_trylock_never_waits(m: MutexView, tid: ThreadId)
    requires
        m.locked,
    ensures
        trylock_spec(m, tid) == (m, false),
{
}

/// Law: mutual exclusion: while a thread holds the mutex, another thread
/// that locks it has to wait and the holder keeps it; trying to lock fails.
pub proof fn law_mutual_exclusion(m: MutexView, a: ThreadId, b: ThreadId)
    requires
        m.initialized,
        m.locked,
        m.owner == Some(a),
    ensures
        lock_spec(m, b).1,
        lock_spec(m, b).0.owner == Some(a),
        lock_spec(m, b).0.locked,
        !trylock_spec(m, b).1,
{
}

} // verus!
