//! The runtime's public interface: creating and steering threads, running
//! the scheduler, and the mutex that thread bodies share.

use vstd::prelude::*;
use std::collections::VecDeque;
use crate::mypthreads::thread::{ThreadId, ThreadView, SchedulerType};
use crate::mypthreads::signals::ThreadSignal;
use crate::mypthreads::runtime::{ThreadRuntimeV2, RuntimeView, callable_bodies, is_run};

verus! {

/// How a thread is to be scheduled.
pub enum SchedulerParams {
    RoundRobin,
    Lottery { tickets: u32 },
    RealTime { deadline: u64 },
}

/// The policy, tickets and deadline that parameters give a thread: round
/// robin holds one ticket, real time none.
pub open spec fn params_spec(p: SchedulerParams) -> (SchedulerType, u32, Option<u64>) {
    match p {
        SchedulerParams::RoundRobin => (SchedulerType::RoundRobin, 1, None),
        SchedulerParams::Lottery { tickets } => (SchedulerType::Lottery, tickets, None),
        SchedulerParams::RealTime { deadline } => (SchedulerType::RealTime, 0, Some(deadline)),
    }
}

fn params_of(p: SchedulerParams) -> (r: (SchedulerType, u32, Option<u64>))
    ensures
        r == params_spec(p),
{
    match p {
        SchedulerParams::RoundRobin => (SchedulerType::RoundRobin, 1, None),
        SchedulerParams::Lottery { tickets } => (SchedulerType::Lottery, tickets, None),
        SchedulerParams::RealTime { deadline } => (SchedulerType::RealTime, 0, Some(deadline)),
    }
}

/// Thread `t` with new scheduling parameters.
pub open spec fn with_params(v: RuntimeView, t: ThreadId, p: SchedulerParams) -> RuntimeView {
    let (s, k, d) = params_spec(p);
    RuntimeView {
        threads: v.threads.update(
            t - 1,
            ThreadView { sched_type: s, tickets: k, deadline: d, ..v.thread(t) },
        ),
        ..v
    }
}

/// Thread `t` marked detached.
pub open spec fn with_detached(v: RuntimeView, t: ThreadId) -> RuntimeView {
    RuntimeView { threads: v.threads.update(t - 1, ThreadView { detached: true, ..v.thread(t) }), ..v }
}

/// A fresh runtime with no threads.
pub fn runtime_init<E>() -> (rt: ThreadRuntimeV2<E>)
    ensures
        rt@.wf(),
        rt@.threads.len() == 0,
        rt@.ready.len() == 0,
        rt@.blocked.len() == 0,
        rt@.now_ms == 0,
{
    ThreadRuntimeV2::new()
}

/// Creates a thread with the given name, scheduling parameters and body;
/// it waits at the back of the ready queue.
pub fn my_thread_create<E>(
    rt: &mut ThreadRuntimeV2<E>,
    name: &str,
    params: SchedulerParams,
    entry: E,
) -> (tid: ThreadId)
    requires
        old(rt)@.wf(),
        old(rt)@.next_tid < u32::MAX,
    ensures
        tid == old(rt)@.next_tid,
        final(rt)@ == old(rt)@.spawn(params_spec(params).0, params_spec(params).1, params_spec(params).2),
        final(rt)@.wf(),
        final(rt).threads@[tid - 1].entry() == Some(entry),
        final(rt).threads@[tid - 1].name@ == name@,
        forall|i: int| 0 <= i < old(rt).threads@.len() ==> final(rt).threads@[i] == old(rt).threads@[i],
{
    let (sched, tickets, deadline) = params_of(params);
    rt.spawn(name, sched, entry, tickets, deadline)
}

/// Marks a thread detached; an unknown thread is ignored.
pub fn my_thread_detach<E>(rt: &mut ThreadRuntimeV2<E>, tid: ThreadId)
    requires
        old(rt)@.wf(),
    ensures
        old(rt)@.valid_tid(tid) ==> final(rt)@ == with_detached(old(rt)@, tid),
        !old(rt)@.valid_tid(tid) ==> final(rt)@ == old(rt)@,
        final(rt)@.wf(),
        final(rt).same_bodies(*old(rt)),
{
    if tid >= 1 && tid < rt.next_tid {
        let idx = (tid - 1) as usize;
        rt.threads[idx].detached = true;
        proof {
            let o = old(rt)@;
            assert(rt@.threads =~= with_detached(o, tid).threads);
            assert forall|i: int| 0 <= i < rt@.threads.len() implies #[trigger] rt@.threads[i].id == i + 1 by {
                assert(o.threads[i].id == i + 1);
            }
            assert forall|x: ThreadId| #[trigger] rt@.valid_tid(x) implies (rt@.ready.contains(x)
                <==> crate::mypthreads::runtime::holds_ready(rt@.thread(x).state)) by {
                assert(o.valid_tid(x));
            }
            assert forall|x: ThreadId| #[trigger] rt@.valid_tid(x) implies (rt@.blocked.contains(x)
                <==> rt@.thread(x).state == crate::mypthreads::thread::ThreadState::Blocked) by {
                assert(o.valid_tid(x));
            }
        }
    }
}

/// Changes the scheduling parameters of a thread; an unknown thread is
/// ignored.
pub fn my_thread_chsched<E>(rt: &mut ThreadRuntimeV2<E>, tid: ThreadId, params: SchedulerParams)
    requires
        old(rt)@.wf(),
    ensures
        old(rt)@.valid_tid(tid) ==> final(rt)@ == with_params(old(rt)@, tid, params),
        !old(rt)@.valid_tid(tid) ==> final(rt)@ == old(rt)@,
        final(rt)@.wf(),
        final(rt).same_bodies(*old(rt)),
{
    if tid >= 1 && tid < rt.next_tid {
        let (sched, tickets, deadline) = params_of(params);
        let idx = (tid - 1) as usize;
        rt.threads[idx].sched_type = sched;
        rt.threads[idx].tickets = tickets;
        rt.threads[idx].deadline = deadline;
        proof {
            let o = old(rt)@;
            assert(rt@.threads =~= with_params(o, tid, params).threads);
            assert forall|i: int| 0 <= i < rt@.threads.len() implies #[trigger] rt@.threads[i].id == i + 1 by {
                assert(o.threads[i].id == i + 1);
            }
            assert forall|x: ThreadId| #[trigger] rt@.valid_tid(x) implies (rt@.ready.contains(x)
                <==> crate::mypthreads::runtime::holds_ready(rt@.thread(x).state)) by {
                assert(o.valid_tid(x));
            }
            assert forall|x: ThreadId| #[trigger] rt@.valid_tid(x) implies (rt@.blocked.contains(x)
                <==> rt@.thread(x).state == crate::mypthreads::thread::ThreadState::Blocked) by {
                assert(o.valid_tid(x));
            }
        }
    }
}

/// Asks the runtime to block the calling thread until thread `target` has
/// finished.
pub fn my_thread_join(target: ThreadId) -> (s: ThreadSignal)
    ensures
        s == ThreadSignal::Join(target),
{
    ThreadSignal::Join(target)
}

/// Runs the runtime for up to `cycles` scheduling cycles.
pub fn run_simulation<E: FnMut(ThreadId, u32) -> ThreadSignal>(rt: &mut ThreadRuntimeV2<E>, cycles: usize)
    requires
        old(rt)@.wf(),
        old(rt)@.now_ms + 10 * cycles <= u64::MAX,
        callable_bodies(old(rt).threads@),
    ensures
        final(rt)@.wf(),
        old(rt)@.now_ms <= final(rt)@.now_ms <= old(rt)@.now_ms + 10 * cycles,
        final(rt)@.now_ms < old(rt)@.now_ms + 10 * cycles ==> final(rt)@.ready.len() == 0
            && final(rt)@.blocked.len() == 0,
        exists|trace: Seq<ThreadRuntimeV2<E>>|
            is_run(trace, cycles as nat) && trace[0] == *old(rt) && trace.last() == *final(rt),
{
    rt.run(cycles);
}

/// Makes every blocked thread ready.
pub fn runtime_unblock_all<E>(rt: &mut ThreadRuntimeV2<E>)
    requires
        old(rt)@.wf(),
    ensures
        final(rt)@ == old(rt)@.unblock_all(),
        final(rt)@.wf(),
{
    rt.unblock_all_threads();
}

/// Runs the scheduler for up to `cycles` cycles.
pub fn runtime_run_cycles<E: FnMut(ThreadId, u32) -> ThreadSignal>(rt: &mut ThreadRuntimeV2<E>, cycles: usize)
    requires
        old(rt)@.wf(),
        old(rt)@.now_ms + 10 * cycles <= u64::MAX,
        callable_bodies(old(rt).threads@),
    ensures
        final(rt)@.wf(),
        old(rt)@.now_ms <= final(rt)@.now_ms <= old(rt)@.now_ms + 10 * cycles,
        final(rt)@.now_ms < old(rt)@.now_ms + 10 * cycles ==> final(rt)@.ready.len() == 0
            && final(rt)@.blocked.len() == 0,
        exists|trace: Seq<ThreadRuntimeV2<E>>|
            is_run(trace, cycles as nat) && trace[0] == *old(rt) && trace.last() == *final(rt),
{
    rt.run(cycles);
}

/// The state of a mutex: whether it is held, and the threads waiting for
/// it, first come first served.
pub struct MutexView {
    pub locked: bool,
    pub waiters: Seq<ThreadId>,
}

/// A mutex for thread bodies. Taking a held mutex queues the caller on it
/// and makes the body report `MutexLock`, so that the runtime blocks the
/// caller; releasing it while threads wait hands it to the first of them,
/// which stays the holder, and makes the body report `MutexUnlock` naming
/// that thread, so that the runtime makes it ready again.
pub struct MyMutex {
    locked: bool,
    waiters: VecDeque<ThreadId>,
}

impl View for MyMutex {
    type V = MutexView;

    closed spec fn view(&self) -> MutexView {
        MutexView { locked: self.locked, waiters: self.waiters@ }
    }
}

/// Taking the mutex for `tid`: a free mutex is taken; on a held one `tid`
/// joins the back of the waiters. The flag says whether `tid` has to wait.
pub open spec fn lock_spec(m: MutexView, tid: ThreadId) -> (MutexView, bool) {
    if m.locked {
        (MutexView { waiters: m.waiters.push(tid), ..m }, true)
    } else {
        (MutexView { locked: true, ..m }, false)
    }
}

/// Releasing the mutex: with nobody waiting it becomes free; otherwise the
/// first waiter leaves the queue and holds it, and is named.
pub open spec fn unlock_spec(m: MutexView) -> (MutexView, Option<ThreadId>) {
    if m.waiters.len() == 0 {
        (MutexView { locked: false, ..m }, None)
    } else {
        (MutexView { locked: true, waiters: m.waiters.drop_first() }, Some(m.waiters[0]))
    }
}

/// Trying to take the mutex: it is held afterwards, and the caller got it
/// exactly when it was free; nobody is queued.
pub open spec fn trylock_spec(m: MutexView) -> (MutexView, bool) {
    (MutexView { locked: true, ..m }, !m.locked)
}

/// Law: mutual exclusion. Of two takes with no release between them, at
/// most the first gets the mutex, and the second taker waits in the queue;
/// a free mutex is got by the first take.
pub proof fn law_mutual_exclusion(m: MutexView, t: ThreadId, u: ThreadId)
    ensures
        !(!lock_spec(m, t).1 && !lock_spec(lock_spec(m, t).0, u).1),
        !trylock_spec(trylock_spec(m).0).1,
        lock_spec(lock_spec(m, t).0, u).0.waiters.last() == u,
        !m.locked ==> !lock_spec(m, t).1,
{
}

/// Law: hand-off. A thread that waits behind nobody else gets the mutex at
/// the next release, and the mutex stays held for it; a release with
/// nobody waiting frees the mutex, and the next take gets it.
pub proof fn law_mutex_hand_off(m: MutexView, t: ThreadId)
    requires
        m.locked,
        m.waiters.len() == 0,
    ensures
        unlock_spec(lock_spec(m, t).0).1 == Some(t),
        unlock_spec(lock_spec(m, t).0).0 == m,
        !unlock_spec(m).0.locked,
        !lock_spec(unlock_spec(m).0, t).1,
{
    assert(lock_spec(m, t).0.waiters =~= seq![t]);
    assert(seq![t].drop_first() =~= m.waiters);
}

impl MyMutex {
    /// Whether the mutex is held.
    pub open spec fn is_locked(&self) -> bool {
        self@.locked
    }

    /// A free mutex with nobody waiting.
    pub fn new() -> (m: Self)
        ensures
            m@ == (MutexView { locked: false, waiters: Seq::empty() }),
    {
        let m = MyMutex { locked: false, waiters: VecDeque::new() };
        assert(m@.waiters =~= Seq::<ThreadId>::empty());
        m
    }

    /// Releases the mutex without handing it to a waiter; the waiters stay.
    pub fn force_unlock(&mut self)
        ensures
            final(self)@ == (MutexView { locked: false, ..old(self)@ }),
    {
        self.locked = false;
    }

    /// Takes the mutex if it is free; reports whether it did. Either way
    /// the mutex is held afterwards.
    pub fn try_acquire(&mut self) -> (r: bool)
        ensures
            (final(self)@, r) == trylock_spec(old(self)@),
    {
        let r = !self.locked;
        self.locked = true;
        r
    }

    /// Takes the mutex for `tid` if it is free, or queues `tid` behind the
    /// other waiters. Returns whether `tid` has to wait.
    pub fn acquire_or_wait(&mut self, tid: ThreadId) -> (must_wait: bool)
        ensures
            (final(self)@, must_wait) == lock_spec(old(self)@, tid),
    {
        if self.locked {
            self.waiters.push_back(tid);
            true
        } else {
            self.locked = true;
            false
        }
    }

    /// Releases the mutex: the first waiter, if any, leaves the queue, now
    /// holds the mutex and is returned; otherwise the mutex becomes free.
    pub fn release(&mut self) -> (next: Option<ThreadId>)
        ensures
            (final(self)@, next) == unlock_spec(old(self)@),
    {
        match self.waiters.pop_front() {
            Some(t) => {
                self.locked = true;
                Some(t)
            },
            None => {
                self.locked = false;
                None
            },
        }
    }
}

/// A new free mutex with nobody waiting.
pub fn my_mutex_init() -> (m: MyMutex)
    ensures
        m@ == (MutexView { locked: false, waiters: Seq::empty() }),
{
    MyMutex::new()
}

/// Takes the mutex for the calling thread `tid` if it is free
/// (`Continue`); otherwise queues `tid` on it and asks the runtime to block
/// the thread (`MutexLock(tid)`).
pub fn my_mutex_lock(mtx: &mut MyMutex, tid: ThreadId) -> (s: ThreadSignal)
    ensures
        final(mtx)@ == lock_spec(old(mtx)@, tid).0,
        lock_spec(old(mtx)@, tid).1 ==> s == ThreadSignal::MutexLock(tid),
        !lock_spec(old(mtx)@, tid).1 ==> s is Continue,
{
    if mtx.acquire_or_wait(tid) {
        ThreadSignal::MutexLock(tid)
    } else {
        ThreadSignal::Continue
    }
}

/// Takes the mutex if it is free; never blocks. The mutex is held
/// afterwards.
pub fn my_mutex_trylock(mtx: &mut MyMutex) -> (r: bool)
    ensures
        (final(mtx)@, r) == trylock_spec(old(mtx)@),
{
    mtx.try_acquire()
}

/// Releases the mutex. With nobody waiting it becomes free (`Continue`);
/// otherwise it passes to the first waiter, which now holds it, and the
/// runtime is asked to make that thread ready (`MutexUnlock`).
pub fn my_mutex_unlock(mtx: &mut MyMutex) -> (s: ThreadSignal)
    ensures
        final(mtx)@ == unlock_spec(old(mtx)@).0,
        unlock_spec(old(mtx)@).1 is None ==> s is Continue,
        unlock_spec(old(mtx)@).1 is Some ==> s == ThreadSignal::MutexUnlock(unlock_spec(old(mtx)@).1->0),
{
    match mtx.release() {
        Some(next) => ThreadSignal::MutexUnlock(next),
        None => ThreadSignal::Continue,
    }
}

/// Destroys the mutex; it holds nothing that needs releasing.
pub fn my_mutex_destroy(mtx: &mut MyMutex)
    ensures
        final(mtx)@ == old(mtx)@,
{
}

} // verus!
