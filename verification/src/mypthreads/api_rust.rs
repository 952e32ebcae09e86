//! Operations on an explicit runtime on behalf of a calling thread: create,
//! join, detach, change of scheduling, and the tid-owned mutex.

use vstd::prelude::*;
use crate::mypthreads::thread::{ThreadId, ThreadState, ThreadView, SchedulerType};
use crate::mypthreads::signals::ThreadSignal;
use crate::mypthreads::runtime::{ThreadRuntimeV2, RuntimeView, holds_ready};
use crate::mypthreads::mutex::{MyMutex, lock_spec, unlock_spec, trylock_spec};

verus! {

/// A thread the runtime still knows: a detached thread is forgotten once it
/// has finished.
pub open spec fn known(v: RuntimeView, t: ThreadId) -> bool {
    v.valid_tid(t) && !(v.thread(t).detached && v.thread(t).state == ThreadState::Terminated)
}

/// Creates a thread; without tickets it holds one.
pub fn my_thread_create<E>(
    rt: &mut ThreadRuntimeV2<E>,
    name: &str,
    sched: SchedulerType,
    entry: E,
    tickets: Option<u32>,
    deadline: Option<u64>,
) -> (tid: ThreadId)
    requires
        old(rt)@.wf(),
        old(rt)@.next_tid < u32::MAX,
    ensures
        tid == old(rt)@.next_tid,
        final(rt)@ == old(rt)@.spawn(
            sched,
            match tickets {
                Some(t) => t,
                None => 1,
            },
            deadline,
        ),
        final(rt)@.wf(),
{
    let t = match tickets {
        Some(t) => t,
        None => 1,
    };
    rt.spawn(name, sched, entry, t, deadline)
}

/// The calling thread is finished.
pub fn my_thread_end() -> (s: ThreadSignal)
    ensures
        s is Exit,
{
    ThreadSignal::Exit
}

/// The calling thread gives up the processor.
pub fn my_thread_yield() -> (s: ThreadSignal)
    ensures
        s is Yield,
{
    ThreadSignal::Yield
}

/// The runtime after `self_tid` joins `target`: it is recorded once among
/// the joiners of a known, attached, unfinished target.
pub open spec fn join_spec(v: RuntimeView, self_tid: ThreadId, target: ThreadId) -> RuntimeView {
    if known(v, target) && !v.thread(target).detached && v.thread(target).state != ThreadState::Terminated
        && !v.thread(target).joiners.contains(self_tid) {
        RuntimeView {
            threads: v.threads.update(
                target - 1,
                ThreadView { joiners: v.thread(target).joiners.push(self_tid), ..v.thread(target) },
            ),
            ..v
        }
    } else {
        v
    }
}

proof fn lemma_same_states_wf(o: RuntimeView, n: RuntimeView)
    requires
        o.wf(),
        n.next_tid == o.next_tid,
        n.ready == o.ready,
        n.blocked == o.blocked,
        n.threads.len() == o.threads.len(),
        forall|i: int| 0 <= i < o.threads.len() ==> (#[trigger] n.threads[i]).id == o.threads[i].id
            && n.threads[i].state == o.threads[i].state,
    ensures
        n.wf(),
{
    assert forall|i: int| 0 <= i < n.threads.len() implies #[trigger] n.threads[i].id == i + 1 by {
        assert(o.threads[i].id == i + 1);
    }
    assert forall|x: ThreadId| #[trigger] n.valid_tid(x) implies (n.ready.contains(x)
        <==> holds_ready(n.thread(x).state)) by {
        assert(o.valid_tid(x));
    }
    assert forall|x: ThreadId| #[trigger] n.valid_tid(x) implies (n.blocked.contains(x)
        <==> n.thread(x).state == ThreadState::Blocked) by {
        assert(o.valid_tid(x));
    }
}

/// Asks to wait for `target`: a known, attached, unfinished target records
/// the caller among its joiners and the caller blocks (`Block`); otherwise
/// there is nothing to wait for (`Yield`).
pub fn my_thread_join<E>(rt: &mut ThreadRuntimeV2<E>, self_tid: ThreadId, target: ThreadId) -> (s: ThreadSignal)
    requires
        old(rt)@.wf(),
    ensures
        final(rt)@ == join_spec(old(rt)@, self_tid, target),
        final(rt)@.wf(),
        (s is Block) == (known(old(rt)@, target) && !old(rt)@.thread(target).detached
            && old(rt)@.thread(target).state != ThreadState::Terminated),
        !(s is Block) ==> s is Yield,
{
    if !(target >= 1 && target < rt.next_tid) {
        return ThreadSignal::Yield;
    }
    let idx = (target - 1) as usize;
    if rt.threads[idx].detached {
        return ThreadSignal::Yield;
    }
    if rt.threads[idx].state == ThreadState::Terminated {
        return ThreadSignal::Yield;
    }
    let mut found = false;
    let mut i: usize = 0;
    while i < rt.threads[idx].joiners.len()
        invariant
            idx < rt.threads@.len(),
            0 <= i <= rt.threads@[idx as int].joiners@.len(),
            found == rt.threads@[idx as int].joiners@.take(i as int).contains(self_tid),
        decreases rt.threads@[idx as int].joiners@.len() - i,
    {
        proof {
            let j = rt.threads@[idx as int].joiners@;
            assert(j.take(i + 1) =~= j.take(i as int).push(j[i as int]));
            if j.take(i as int).contains(self_tid) {
                let k = choose|k: int| 0 <= k < j.take(i as int).len() && #[trigger] j.take(i as int)[k] == self_tid;
                assert(j.take(i + 1)[k] == self_tid);
            }
        }
        if rt.threads[idx].joiners[i] == self_tid {
            found = true;
        }
        proof {
            let j = rt.threads@[idx as int].joiners@;
            if j.take(i + 1).contains(self_tid) {
                let k = choose|k: int| 0 <= k < j.take(i + 1).len() && #[trigger] j.take(i + 1)[k] == self_tid;
                if k < i {
                    assert(j.take(i as int)[k] == self_tid);
                }
            }
            if j[i as int] == self_tid {
                assert(j.take(i + 1)[i as int] == self_tid);
            }
        }
        i = i + 1;
    }
    proof {
        assert(rt.threads@[idx as int].joiners@.take(i as int) =~= rt.threads@[idx as int].joiners@);
    }
    if !found {
        rt.threads[idx].joiners.push(self_tid);
        proof {
            let o = old(rt)@;
            assert(rt@.threads =~= join_spec(o, self_tid, target).threads);
            lemma_same_states_wf(o, rt@);
        }
    }
    ThreadSignal::Block
}

/// The runtime after detaching `target`, whose body is dropped when it has
/// finished.
pub open spec fn detach_spec(v: RuntimeView, target: ThreadId) -> RuntimeView {
    if known(v, target) {
        RuntimeView { threads: v.threads.update(target - 1, ThreadView { detached: true, ..v.thread(target) }), ..v }
    } else {
        v
    }
}

/// Marks a known thread detached; a finished one is forgotten.
pub fn my_thread_detach<E>(rt: &mut ThreadRuntimeV2<E>, target: ThreadId)
    requires
        old(rt)@.wf(),
    ensures
        final(rt)@ == detach_spec(old(rt)@, target),
        final(rt)@.wf(),
        known(old(rt)@, target) && old(rt)@.thread(target).state == ThreadState::Terminated
            ==> final(rt).threads@[target - 1].entry() is None,
{
    if !(target >= 1 && target < rt.next_tid) {
        return;
    }
    let idx = (target - 1) as usize;
    if rt.threads[idx].detached && rt.threads[idx].state == ThreadState::Terminated {
        return;
    }
    rt.threads[idx].detached = true;
    if rt.threads[idx].state == ThreadState::Terminated {
        rt.threads[idx].entry = None;
    }
    proof {
        let o = old(rt)@;
        assert(rt@.threads =~= detach_spec(o, target).threads);
        lemma_same_states_wf(o, rt@);
    }
}

/// Locks the tid-owned mutex for `tid`: `Block` when the caller has to
/// wait, `Continue` when it holds the mutex.
pub fn my_mutex_lock(tid: ThreadId, mutex: &mut MyMutex) -> (s: ThreadSignal)
    requires
        old(mutex).initialized,
    ensures
        final(mutex)@ == lock_spec(old(mutex)@, tid).0,
        lock_spec(old(mutex)@, tid).1 ==> s is Block,
        !lock_spec(old(mutex)@, tid).1 ==> s is Continue,
{
    if mutex.my_mutex_lock(tid) {
        ThreadSignal::Block
    } else {
        ThreadSignal::Continue
    }
}

/// Unlocks the mutex held by `tid` and wakes its first waiter.
pub fn my_mutex_unlock<E>(rt: &mut ThreadRuntimeV2<E>, tid: ThreadId, mutex: &mut MyMutex) -> (s: ThreadSignal)
    requires
        old(rt)@.wf(),
        old(mutex).initialized,
        old(mutex).locked,
        old(mutex).owner == Some(tid),
    ensures
        final(mutex)@ == unlock_spec(old(mutex)@).0,
        final(rt)@ == match unlock_spec(old(mutex)@).1 {
            Some(w) => old(rt)@.unblock(w),
            None => old(rt)@,
        },
        final(rt)@.wf(),
        s is Continue,
{
    if let Some(next) = mutex.my_mutex_unlock(tid) {
        rt.unblock_thread(next);
        proof {
            old(rt)@.lemma_unblock_pub(next);
        }
    }
    ThreadSignal::Continue
}

/// Tries to lock the mutex for `tid`: `Continue` when it took it, `Yield`
/// otherwise.
pub fn my_mutex_trylock(tid: ThreadId, mutex: &mut MyMutex) -> (s: ThreadSignal)
    ensures
        final(mutex)@ == trylock_spec(old(mutex)@, tid).0,
        trylock_spec(old(mutex)@, tid).1 ==> s is Continue,
        !trylock_spec(old(mutex)@, tid).1 ==> s is Yield,
{
    if mutex.my_mutex_trylock(tid) {
        ThreadSignal::Continue
    } else {
        ThreadSignal::Yield
    }
}

/// The runtime after changing the scheduling of `target`: the policy is
/// replaced, tickets and deadline only when given.
pub open spec fn chsched_spec(
    v: RuntimeView,
    target: ThreadId,
    sched: SchedulerType,
    tickets: Option<u32>,
    deadline: Option<u64>,
) -> RuntimeView {
    let th = v.thread(target);
    RuntimeView {
        threads: v.threads.update(
            target - 1,
            ThreadView {
                sched_type: sched,
                tickets: match tickets {
                    Some(k) => k,
                    None => th.tickets,
                },
                deadline: match deadline {
                    Some(d) => Some(d),
                    None => th.deadline,
                },
                ..th
            },
        ),
        ..v
    }
}

/// Changes the scheduling of a known thread; reports whether it is known.
pub fn my_thread_chsched<E>(
    rt: &mut ThreadRuntimeV2<E>,
    target: ThreadId,
    new_sched: SchedulerType,
    tickets: Option<u32>,
    deadline: Option<u64>,
) -> (r: bool)
    requires
        old(rt)@.wf(),
    ensures
        r == known(old(rt)@, target),
        r ==> final(rt)@ == chsched_spec(old(rt)@, target, new_sched, tickets, deadline),
        !r ==> final(rt)@ == old(rt)@,
        final(rt)@.wf(),
{
    if !(target >= 1 && target < rt.next_tid) {
        return false;
    }
    let idx = (target - 1) as usize;
    if rt.threads[idx].detached && rt.threads[idx].state == ThreadState::Terminated {
        return false;
    }
    rt.threads[idx].sched_type = new_sched;
    if let Some(t) = tickets {
        rt.threads[idx].tickets = t;
    }
    if let Some(d) = deadline {
        rt.threads[idx].deadline = Some(d);
    }
    proof {
        let o = old(rt)@;
        assert(rt@.threads =~= chsched_spec(o, target, new_sched, tickets, deadline).threads);
        lemma_same_states_wf(o, rt@);
    }
    true
}

} // verus!
