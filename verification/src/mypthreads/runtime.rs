//! The runtime: a table of threads, a ready queue and a list of blocked
//! threads. `run_once` dispatches the thread the scheduling policies choose
//! for one step and files it according to what the step reported.

use vstd::prelude::*;
use std::collections::VecDeque;
use crate::mypthreads::thread::{MyThread, ThreadId, ThreadState, ThreadView, SchedulerType};
use crate::mypthreads::signals::ThreadSignal;
use crate::mypthreads::thread_data::{ThreadResponse, response_of};
use crate::mypthreads::channels::ThreadChannels;
use crate::mypthreads::sched::{scheduled, views};
use crate::mypthreads::mypthreads_api::{MutexView, lock_spec, unlock_spec};

verus! {

/// The scheduling state of the runtime, without the thread bodies.
pub struct RuntimeView {
    pub now_ms: u64,
    pub next_tid: ThreadId,
    pub threads: Seq<ThreadView>,
    pub ready: Seq<ThreadId>,
    pub blocked: Seq<ThreadId>,
}

/// How the runtime files a thread after its step.
pub enum StepOutcome {
    Yield,
    Block,
    Exit,
    Continue,
    Join(ThreadId),
    LockWait,
    HandOff(ThreadId),
}

/// The states in which a thread sits in the ready queue.
pub open spec fn holds_ready(s: ThreadState) -> bool {
    s == ThreadState::New || s == ThreadState::Ready || s == ThreadState::Running
}

/// Whether `o` is a way the runtime may file an answer `r`.
pub open spec fn outcome_of(r: ThreadResponse, o: StepOutcome) -> bool {
    match r {
        ThreadResponse::Yield => o == StepOutcome::Yield,
        ThreadResponse::Block => o == StepOutcome::Block,
        ThreadResponse::Exit => o == StepOutcome::Exit,
        ThreadResponse::Continue => o == StepOutcome::Continue,
        ThreadResponse::Join(t) => o == StepOutcome::Join(t),
        ThreadResponse::MutexLock(_) => o == StepOutcome::LockWait,
        ThreadResponse::MutexUnlock(w) => o == StepOutcome::HandOff(w),
    }
}

impl RuntimeView {
    pub open spec fn valid_tid(self, t: ThreadId) -> bool {
        1 <= t < self.next_tid
    }

    pub open spec fn thread(self, t: ThreadId) -> ThreadView {
        self.threads[t - 1]
    }

    /// The table is indexed by thread id and both queues name known threads
    /// at most once.
    pub open spec fn wf_table(self) -> bool {
        &&& 1 <= self.next_tid
        &&& self.threads.len() + 1 == self.next_tid
        &&& forall|i: int| 0 <= i < self.threads.len() ==> #[trigger] self.threads[i].id == i + 1
        &&& self.ready.no_duplicates()
        &&& self.blocked.no_duplicates()
        &&& forall|t: ThreadId| #[trigger] self.ready.contains(t) ==> self.valid_tid(t)
        &&& forall|t: ThreadId| #[trigger] self.blocked.contains(t) ==> self.valid_tid(t)
    }

    /// At rest, a thread's state tells which queue holds it: new, ready and
    /// running threads are in the ready queue, blocked threads in the blocked
    /// list, finished threads in neither.
    pub open spec fn wf(self) -> bool {
        &&& self.wf_table()
        &&& forall|t: ThreadId| #[trigger] self.valid_tid(t) ==> (self.ready.contains(t)
            <==> holds_ready(self.thread(t).state))
        &&& forall|t: ThreadId| #[trigger] self.valid_tid(t) ==> (self.blocked.contains(t)
            <==> self.thread(t).state == ThreadState::Blocked)
    }

    /// While `t` runs its step: `t` is running and in neither queue, every
    /// other thread is as at rest.
    pub open spec fn wf_running(self, t: ThreadId) -> bool {
        &&& self.wf_table()
        &&& self.valid_tid(t)
        &&& self.thread(t).state == ThreadState::Running
        &&& !self.ready.contains(t)
        &&& !self.blocked.contains(t)
        &&& forall|u: ThreadId| #[trigger] self.valid_tid(u) && u != t ==> (self.ready.contains(u)
            <==> holds_ready(self.thread(u).state))
        &&& forall|u: ThreadId| #[trigger] self.valid_tid(u) && u != t ==> (self.blocked.contains(u)
            <==> self.thread(u).state == ThreadState::Blocked)
    }

    pub open spec fn with_state(self, t: ThreadId, s: ThreadState) -> RuntimeView {
        RuntimeView {
            threads: self.threads.update(t - 1, ThreadView { state: s, ..self.thread(t) }),
            ..self
        }
    }

    pub open spec fn with_joiner(self, target: ThreadId, t: ThreadId) -> RuntimeView {
        RuntimeView {
            threads: self.threads.update(
                target - 1,
                ThreadView { joiners: self.thread(target).joiners.push(t), ..self.thread(target) },
            ),
            ..self
        }
    }

    /// A new thread with the next id, new and at the back of the ready queue.
    pub open spec fn spawn(
        self,
        sched_type: SchedulerType,
        tickets: u32,
        deadline: Option<u64>,
    ) -> RuntimeView {
        RuntimeView {
            next_tid: (self.next_tid + 1) as ThreadId,
            threads: self.threads.push(
                ThreadView {
                    id: self.next_tid,
                    state: ThreadState::New,
                    sched_type,
                    tickets,
                    deadline,
                    detached: false,
                    joiners: Seq::empty(),
                },
            ),
            ready: self.ready.push(self.next_tid),
            ..self
        }
    }

    /// A blocked thread becomes ready and moves to the back of the ready
    /// queue; any other thread is left alone.
    pub open spec fn unblock(self, t: ThreadId) -> RuntimeView {
        if self.blocked.contains(t) {
            let v = self.with_state(t, ThreadState::Ready);
            RuntimeView {
                blocked: v.blocked.remove(v.blocked.index_of(t)),
                ready: v.ready.push(t),
                ..v
            }
        } else {
            self
        }
    }

    /// Unblocks the threads of `js`, in order.
    pub open spec fn unblock_many(self, js: Seq<ThreadId>) -> RuntimeView
        decreases js.len(),
    {
        if js.len() == 0 {
            self
        } else {
            self.unblock_many(js.drop_last()).unblock(js.last())
        }
    }

    /// Every blocked thread becomes ready and joins the back of the ready
    /// queue, in the order in which they were blocked.
    pub open spec fn unblock_all(self) -> RuntimeView {
        RuntimeView {
            threads: Seq::new(
                self.threads.len(),
                |i: int|
                    if self.blocked.contains((i + 1) as ThreadId) {
                        ThreadView { state: ThreadState::Ready, ..self.threads[i] }
                    } else {
                        self.threads[i]
                    },
            ),
            ready: self.ready + self.blocked,
            blocked: Seq::empty(),
            ..self
        }
    }

    /// The first half of a dispatch: the clock advances by 10 ms and the
    /// chosen thread `t` leaves the ready queue to run.
    pub open spec fn dispatch(self, t: ThreadId) -> RuntimeView {
        let v = self.with_state(t, ThreadState::Running);
        RuntimeView { now_ms: (self.now_ms + 10) as u64, ready: without(v.ready, t), ..v }
    }

    /// The second half of a dispatch: where thread `t` goes after its step.
    pub open spec fn apply(self, t: ThreadId, o: StepOutcome) -> RuntimeView {
        match o {
            StepOutcome::Yield => {
                let v = self.with_state(t, ThreadState::Ready);
                RuntimeView { ready: v.ready.push(t), ..v }
            },
            StepOutcome::Block => {
                let v = self.with_state(t, ThreadState::Blocked);
                RuntimeView { blocked: v.blocked.push(t), ..v }
            },
            StepOutcome::LockWait => {
                let v = self.with_state(t, ThreadState::Blocked);
                RuntimeView { blocked: v.blocked.push(t), ..v }
            },
            StepOutcome::Exit => {
                self.with_state(t, ThreadState::Terminated).unblock_many(self.thread(t).joiners)
            },
            StepOutcome::Continue => RuntimeView { ready: self.ready.push(t), ..self },
            StepOutcome::Join(target) => {
                if self.valid_tid(target) && self.thread(target).state != ThreadState::Terminated {
                    let v = self.with_joiner(target, t).with_state(t, ThreadState::Blocked);
                    RuntimeView { blocked: v.blocked.push(t), ..v }
                } else {
                    RuntimeView { ready: self.ready.push(t), ..self }
                }
            },
            StepOutcome::HandOff(w) => {
                let v = self.unblock(w);
                RuntimeView { ready: v.ready.push(t), ..v }
            },
        }
    }
}

/// The body of each thread of the table may be called with the thread's
/// id and any tickets.
pub open spec fn callable_bodies<E: FnMut(ThreadId, u32) -> ThreadSignal>(threads: Seq<MyThread<E>>) -> bool {
    forall|i: int, k: u32|
        #![trigger threads[i], call_requires(threads[i].entry()->0, ((i + 1) as ThreadId, k))]
        0 <= i < threads.len() && threads[i].entry() is Some ==> call_requires(
            threads[i].entry()->0,
            ((i + 1) as ThreadId, k),
        )
}

/// Whether `s` may be what thread `th` reports from a step run with
/// `tickets`: a thread without a body reports `Exit`.
pub open spec fn step_result<E: FnMut(ThreadId, u32) -> ThreadSignal>(
    th: MyThread<E>,
    tickets: u32,
    s: ThreadSignal,
) -> bool {
    match th.entry() {
        Some(e) => call_ensures(e, (th.id, tickets), s),
        None => s is Exit,
    }
}

/// No thread is ready and none is blocked.
pub open spec fn idle(v: RuntimeView) -> bool {
    v.ready.len() == 0 && v.blocked.len() == 0
}

/// One scheduling cycle takes the runtime from `a` to `b`: the clock
/// advances by 10 ms; when a thread is ready, the one the scheduling
/// policies choose (`scheduled`) runs one step of its body with its
/// tickets, and is filed according to what the body reported.
pub open spec fn cycle_step<E: FnMut(ThreadId, u32) -> ThreadSignal>(
    a: ThreadRuntimeV2<E>,
    b: ThreadRuntimeV2<E>,
) -> bool {
    &&& b.threads@.len() == a.threads@.len()
    &&& a@.ready.len() == 0 ==> b@ == (RuntimeView { now_ms: (a@.now_ms + 10) as u64, ..a@ })
    &&& a@.ready.len() > 0 ==> exists|t: ThreadId, s: ThreadSignal, o: StepOutcome|
        scheduled(a@.ready, views(a.threads@), t)
            && step_result(a.threads@[t - 1], a@.thread(t).tickets, s)
            && outcome_of(response_of(s), o) && b@ == a@.dispatch(t).apply(t, o)
}

/// `trace` is a run of at most `cycles` cycles: each state follows from the
/// one before by a cycle; the run goes on while some thread is ready or
/// blocked, and stops early only once none is.
pub open spec fn is_run<E: FnMut(ThreadId, u32) -> ThreadSignal>(
    trace: Seq<ThreadRuntimeV2<E>>,
    cycles: nat,
) -> bool {
    &&& 1 <= trace.len() <= cycles + 1
    &&& forall|i: int| #![trigger trace[i]] 0 <= i < trace.len() - 1 ==> cycle_step(trace[i], trace[i + 1])
    &&& forall|i: int| #![trigger trace[i]] 1 <= i < trace.len() - 1 ==> !idle(trace[i]@)
    &&& trace.len() - 1 < cycles ==> idle(trace.last()@)
}

/// The runtime. Thread `t` sits at index `t - 1` of `threads`.
pub struct ThreadRuntimeV2<E> {
    pub now_ms: u64,
    pub next_tid: ThreadId,
    pub threads: Vec<MyThread<E>>,
    pub ready: VecDeque<ThreadId>,
    pub blocked: Vec<ThreadId>,
    pub channels: ThreadChannels,
}

impl<E> View for ThreadRuntimeV2<E> {
    type V = RuntimeView;

    open spec fn view(&self) -> RuntimeView {
        RuntimeView {
            now_ms: self.now_ms,
            next_tid: self.next_tid,
            threads: self.threads@.map_values(|t: MyThread<E>| t@),
            ready: self.ready@,
            blocked: self.blocked@,
        }
    }
}

} // verus!

verus! {

proof fn lemma_remove_index_of(s: Seq<ThreadId>, x: ThreadId)
    requires
        s.no_duplicates(),
        s.contains(x),
    ensures
        0 <= s.index_of(x) < s.len(),
        s[s.index_of(x)] == x,
        s.remove(s.index_of(x)).no_duplicates(),
        s.remove(s.index_of(x)).len() == s.len() - 1,
        forall|y: ThreadId| #[trigger] s.remove(s.index_of(x)).contains(y) <==> (s.contains(y) && y != x),
{
    let i = s.index_of(x);
    let r = s.remove(i);
    assert(r =~= s.subrange(0, i) + s.subrange(i + 1, s.len() as int));
    assert forall|a: int| 0 <= a < r.len() implies r[a] == if a < i { s[a] } else { s[a + 1] } by {}
    assert forall|a: int, b: int| 0 <= a < r.len() && 0 <= b < r.len() && a != b implies r[a] != r[b] by {
        let ia = if a < i { a } else { a + 1 };
        let ib = if b < i { b } else { b + 1 };
        assert(r[a] == s[ia]);
        assert(r[b] == s[ib]);
    }
    assert forall|y: ThreadId| #[trigger] r.contains(y) implies s.contains(y) && y != x by {
        let a = choose|a: int| 0 <= a < r.len() && r[a] == y;
        let ia = if a < i { a } else { a + 1 };
        assert(s[ia] == y);
        assert(ia != i);
    }
    assert forall|y: ThreadId| s.contains(y) && y != x implies #[trigger] r.contains(y) by {
        let a = choose|a: int| 0 <= a < s.len() && s[a] == y;
        assert(a != i);
        if a < i {
            assert(r[a] == y);
        } else {
            assert(r[a - 1] == y);
        }
    }
}

proof fn lemma_push_fresh(s: Seq<ThreadId>, x: ThreadId)
    requires
        s.no_duplicates(),
        !s.contains(x),
    ensures
        s.push(x).no_duplicates(),
        forall|y: ThreadId| #[trigger] s.push(x).contains(y) <==> (s.contains(y) || y == x),
{
    let r = s.push(x);
    assert forall|a: int, b: int| 0 <= a < r.len() && 0 <= b < r.len() && a != b implies r[a] != r[b] by {
        if a == s.len() {
            assert(s.contains(r[b]) || b == s.len());
        } else if b == s.len() {
            assert(s.contains(r[a]));
        }
    }
    assert forall|y: ThreadId| #[trigger] r.contains(y) implies (s.contains(y) || y == x) by {
        let a = choose|a: int| 0 <= a < r.len() && r[a] == y;
        if a < s.len() {
            assert(s[a] == y);
        }
    }
    assert forall|y: ThreadId| (s.contains(y) || y == x) implies #[trigger] r.contains(y) by {
        if y == x {
            assert(r[s.len() as int] == y);
        } else {
            let a = choose|a: int| 0 <= a < s.len() && s[a] == y;
            assert(r[a] == y);
        }
    }
}

/// Taking `x` out of a queue without repeats keeps it without repeats and
/// removes exactly `x`.
proof fn lemma_without(s: Seq<ThreadId>, x: ThreadId)
    requires
        s.no_duplicates(),
    ensures
        without(s, x).no_duplicates(),
        forall|y: ThreadId| #[trigger] without(s, x).contains(y) <==> (s.contains(y) && y != x),
    decreases s.len(),
{
    if s.len() > 0 {
        let p = s.drop_last();
        let l = s.last();
        assert forall|i: int, j: int| 0 <= i < p.len() && 0 <= j < p.len() && i != j implies p[i] != p[j] by {
            assert(p[i] == s[i]);
            assert(p[j] == s[j]);
        }
        lemma_without(p, x);
        assert(!p.contains(l)) by {
            if p.contains(l) {
                let k = choose|k: int| 0 <= k < p.len() && p[k] == l;
                assert(s[k] == s[s.len() - 1]);
            }
        }
        assert forall|y: ThreadId| s.contains(y) <==> (p.contains(y) || y == l) by {
            if s.contains(y) {
                let k = choose|k: int| 0 <= k < s.len() && s[k] == y;
                if k < s.len() - 1 {
                    assert(p[k] == y);
                }
            }
            if p.contains(y) {
                let k = choose|k: int| 0 <= k < p.len() && p[k] == y;
                assert(s[k] == y);
            }
            if y == l {
                assert(s[s.len() - 1] == y);
            }
        }
        if l != x {
            lemma_push_fresh(without(p, x), l);
        }
    }
}

impl RuntimeView {
    proof fn lemma_with_state(self, t: ThreadId, s: ThreadState)
        requires
            self.wf_table(),
            self.valid_tid(t),
        ensures
            self.with_state(t, s).wf_table(),
            self.with_state(t, s).thread(t).state == s,
            self.with_state(t, s).thread(t).joiners == self.thread(t).joiners,
            self.with_state(t, s).ready == self.ready,
            self.with_state(t, s).blocked == self.blocked,
            forall|u: ThreadId| self.valid_tid(u) && u != t ==> #[trigger] self.with_state(t, s).thread(u) == self.thread(u),
    {
        let v = self.with_state(t, s);
        assert forall|i: int| 0 <= i < v.threads.len() implies #[trigger] v.threads[i].id == i + 1 by {
            assert(self.threads[i].id == i + 1);
        }
        assert forall|u: ThreadId| self.valid_tid(u) && u != t implies #[trigger] v.thread(u) == self.thread(u) by {
            assert(u - 1 != t - 1);
        }
    }

    proof fn lemma_with_joiner(self, target: ThreadId, t: ThreadId)
        requires
            self.wf_table(),
            self.valid_tid(target),
        ensures
            self.with_joiner(target, t).wf_table(),
            self.with_joiner(target, t).ready == self.ready,
            self.with_joiner(target, t).blocked == self.blocked,
            forall|u: ThreadId| self.valid_tid(u) ==> #[trigger] self.with_joiner(target, t).thread(u).state == self.thread(u).state,
    {
        let v = self.with_joiner(target, t);
        assert forall|i: int| 0 <= i < v.threads.len() implies #[trigger] v.threads[i].id == i + 1 by {
            assert(self.threads[i].id == i + 1);
        }
        assert forall|u: ThreadId| self.valid_tid(u) implies #[trigger] v.thread(u).state == self.thread(u).state by {
            if u - 1 == target - 1 {
            } else {
            }
        }
    }

    /// Unblocking keeps the runtime at rest, and keeps a running thread running.
    proof fn lemma_unblock(self, u: ThreadId, t: ThreadId)
        requires
            self.wf() || self.wf_running(t),
        ensures
            self.wf() ==> self.unblock(u).wf(),
            self.wf_running(t) ==> self.unblock(u).wf_running(t),
    {
        if self.blocked.contains(u) {
            let v = self.with_state(u, ThreadState::Ready);
            self.lemma_with_state(u, ThreadState::Ready);
            lemma_remove_index_of(self.blocked, u);
            assert(!self.ready.contains(u)) by {
                if self.wf() {
                } else {
                    assert(u != t);
                }
            }
            lemma_push_fresh(self.ready, u);
            let w = self.unblock(u);
            assert(w.ready == self.ready.push(u));
            assert(w.blocked == self.blocked.remove(self.blocked.index_of(u)));
            assert(forall|x: ThreadId| #[trigger] w.thread(x) == v.thread(x));
            assert(w.wf_table());
            if self.wf_running(t) {
                assert forall|x: ThreadId| #[trigger] w.valid_tid(x) && x != t implies (w.ready.contains(x)
                    <==> holds_ready(w.thread(x).state)) by {
                    assert(self.valid_tid(x));
                }
                assert forall|x: ThreadId| #[trigger] w.valid_tid(x) && x != t implies (w.blocked.contains(x)
                    <==> w.thread(x).state == ThreadState::Blocked) by {
                    assert(self.valid_tid(x));
                }
            }
            if self.wf() {
                assert forall|x: ThreadId| #[trigger] w.valid_tid(x) implies (w.ready.contains(x)
                    <==> holds_ready(w.thread(x).state)) by {
                    assert(self.valid_tid(x));
                }
                assert forall|x: ThreadId| #[trigger] w.valid_tid(x) implies (w.blocked.contains(x)
                    <==> w.thread(x).state == ThreadState::Blocked) by {
                    assert(self.valid_tid(x));
                }
            }
        }
    }

    proof fn lemma_unblock_many(self, js: Seq<ThreadId>, t: ThreadId)
        requires
            self.wf() || self.wf_running(t),
        ensures
            self.wf() ==> self.unblock_many(js).wf(),
            self.wf_running(t) ==> self.unblock_many(js).wf_running(t),
        decreases js.len(),
    {
        if js.len() > 0 {
            self.lemma_unblock_many(js.drop_last(), t);
            self.unblock_many(js.drop_last()).lemma_unblock(js.last(), t);
        }
    }

    /// Taking a ready thread out of the ready queue to run it.
    proof fn lemma_dispatch(self, t: ThreadId)
        requires
            self.wf(),
            self.ready.contains(t),
        ensures
            self.dispatch(t).wf_running(t),
    {
        self.lemma_with_state(t, ThreadState::Running);
        lemma_without(self.ready, t);
        let w = self.dispatch(t);
        assert(self.valid_tid(t));
        assert forall|u: ThreadId| #[trigger] w.valid_tid(u) && u != t implies (w.ready.contains(u)
            <==> holds_ready(w.thread(u).state)) by {
            assert(self.valid_tid(u));
        }
        assert forall|u: ThreadId| #[trigger] w.valid_tid(u) && u != t implies (w.blocked.contains(u)
            <==> w.thread(u).state == ThreadState::Blocked) by {
            assert(self.valid_tid(u));
        }
    }

    /// Filing the running thread brings the runtime back to rest.
    proof fn lemma_apply(self, t: ThreadId, o: StepOutcome)
        requires
            self.wf_running(t),
        ensures
            self.apply(t, o).wf(),
    {
        lemma_push_fresh(self.ready, t);
        lemma_push_fresh(self.blocked, t);
        match o {
            StepOutcome::Yield => {
                self.lemma_with_state(t, ThreadState::Ready);
                self.lemma_rest(self.apply(t, o), t);
            },
            StepOutcome::Block => {
                self.lemma_with_state(t, ThreadState::Blocked);
                self.lemma_rest(self.apply(t, o), t);
            },
            StepOutcome::LockWait => {
                self.lemma_with_state(t, ThreadState::Blocked);
                self.lemma_rest(self.apply(t, o), t);
            },
            StepOutcome::Exit => {
                let v = self.with_state(t, ThreadState::Terminated);
                self.lemma_with_state(t, ThreadState::Terminated);
                self.lemma_rest(v, t);
                v.lemma_unblock_many(self.thread(t).joiners, t);
            },
            StepOutcome::Continue => {
                self.lemma_rest(self.apply(t, o), t);
            },
            StepOutcome::Join(target) => {
                if self.valid_tid(target) && self.thread(target).state != ThreadState::Terminated {
                    let v = self.with_joiner(target, t);
                    self.lemma_with_joiner(target, t);
                    v.lemma_with_state(t, ThreadState::Blocked);
                    assert forall|u: ThreadId| self.valid_tid(u) implies
                        #[trigger] self.apply(t, o).thread(u).state == (if u == t { ThreadState::Blocked } else { self.thread(u).state }) by {
                        if u != t {
                            assert(v.thread(u).state == self.thread(u).state);
                        }
                    }
                    self.lemma_rest(self.apply(t, o), t);
                } else {
                    self.lemma_rest(self.apply(t, o), t);
                }
            },
            StepOutcome::HandOff(w) => {
                self.lemma_unblock(w, t);
                let v = self.unblock(w);
                lemma_push_fresh(v.ready, t);
                v.lemma_rest(self.apply(t, o), t);
            },
        }
    }

    /// `w` is at rest when it differs from `self`, where `t` runs, only in
    /// where `t` sits and in the state of `t`, and both agree.
    proof fn lemma_rest(self, w: RuntimeView, t: ThreadId)
        requires
            self.wf_running(t),
            w.wf_table(),
            w.next_tid == self.next_tid,
            forall|u: ThreadId| self.valid_tid(u) && u != t ==> #[trigger] w.thread(u).state == self.thread(u).state,
            forall|u: ThreadId| u != t ==> (#[trigger] w.ready.contains(u) <==> self.ready.contains(u)),
            forall|u: ThreadId| u != t ==> (#[trigger] w.blocked.contains(u) <==> self.blocked.contains(u)),
            w.ready.contains(t) <==> holds_ready(w.thread(t).state),
            w.blocked.contains(t) <==> w.thread(t).state == ThreadState::Blocked,
        ensures
            w.wf(),
    {
        assert forall|x: ThreadId| #[trigger] w.valid_tid(x) implies (w.ready.contains(x)
            <==> holds_ready(w.thread(x).state)) by {
            if x != t {
                assert(self.valid_tid(x));
                assert(w.ready.contains(x) <==> self.ready.contains(x));
            }
        }
        assert forall|x: ThreadId| #[trigger] w.valid_tid(x) implies (w.blocked.contains(x)
            <==> w.thread(x).state == ThreadState::Blocked) by {
            if x != t {
                assert(self.valid_tid(x));
                assert(w.blocked.contains(x) <==> self.blocked.contains(x));
            }
        }
    }
}

} // verus!

verus! {

impl<E> ThreadRuntimeV2<E> {
    /// The bodies and names of the threads are those of `old`.
    pub open spec fn same_bodies(self, old: Self) -> bool {
        &&& self.threads@.len() == old.threads@.len()
        &&& forall|i: int| 0 <= i < self.threads@.len() ==> (#[trigger] self.threads@[i]).entry()
            == old.threads@[i].entry() && self.threads@[i].name == old.threads@[i].name
    }

    /// An empty runtime: clock at 0, first thread id 1.
    pub fn new() -> (rt: Self)
        ensures
            rt@ == (RuntimeView {
                now_ms: 0,
                next_tid: 1,
                threads: Seq::empty(),
                ready: Seq::empty(),
                blocked: Seq::empty(),
            }),
            rt@.wf(),
    {
        let rt = ThreadRuntimeV2 {
            now_ms: 0,
            next_tid: 1,
            threads: Vec::new(),
            ready: VecDeque::new(),
            blocked: Vec::new(),
            channels: ThreadChannels::new(),
        };
        assert(rt@.threads =~= Seq::empty());
        rt
    }

    /// The current time of the runtime's clock, in ms.
    pub fn now_ms(&self) -> (r: u64)
        ensures
            r == self@.now_ms,
    {
        self.now_ms
    }

    fn set_state(&mut self, tid: ThreadId, s: ThreadState)
        requires
            old(self)@.wf_table(),
            old(self)@.valid_tid(tid),
        ensures
            final(self)@ == old(self)@.with_state(tid, s),
            final(self).same_bodies(*old(self)),
    {
        let idx = (tid - 1) as usize;
        self.threads[idx].state = s;
        assert(self@.threads =~= old(self)@.with_state(tid, s).threads);
    }

    /// Creates a thread with the next id; it is new and waits at the back of
    /// the ready queue.
    pub fn spawn(
        &mut self,
        name: &str,
        sched: SchedulerType,
        entry: E,
        tickets: u32,
        deadline: Option<u64>,
    ) -> (tid: ThreadId)
        requires
            old(self)@.wf(),
            old(self)@.next_tid < u32::MAX,
        ensures
            tid == old(self)@.next_tid,
            final(self)@ == old(self)@.spawn(sched, tickets, deadline),
            final(self)@.wf(),
            final(self).threads@.len() == old(self).threads@.len() + 1,
            final(self).threads@[tid - 1].entry() == Some(entry),
            final(self).threads@[tid - 1].name@ == name@,
            forall|i: int| 0 <= i < old(self).threads@.len() ==> final(self).threads@[i] == old(self).threads@[i],
    {
        let tid = self.next_tid;
        self.next_tid = self.next_tid + 1;
        let thread = MyThread::new(tid, name.to_owned(), sched, tickets, deadline, entry);
        self.threads.push(thread);
        self.ready.push_back(tid);
        proof {
            let o = old(self)@;
            let n = o.spawn(sched, tickets, deadline);
            assert(self@.threads =~= n.threads);
            assert(!o.ready.contains(tid));
            lemma_push_fresh(o.ready, tid);
            assert forall|i: int| 0 <= i < n.threads.len() implies #[trigger] n.threads[i].id == i + 1 by {
                if i < o.threads.len() {
                    assert(o.threads[i].id == i + 1);
                }
            }
            assert forall|x: ThreadId| #[trigger] n.blocked.contains(x) implies n.valid_tid(x) by {
                assert(o.valid_tid(x));
            }
            assert forall|x: ThreadId| #[trigger] n.valid_tid(x) implies (n.ready.contains(x)
                <==> holds_ready(n.thread(x).state)) by {
                if x != tid {
                    assert(o.valid_tid(x));
                    assert(n.thread(x) == o.thread(x));
                }
            }
            assert forall|x: ThreadId| #[trigger] n.valid_tid(x) implies (n.blocked.contains(x)
                <==> n.thread(x).state == ThreadState::Blocked) by {
                if x != tid {
                    assert(o.valid_tid(x));
                    assert(n.thread(x) == o.thread(x));
                } else {
                    assert(!o.blocked.contains(x));
                }
            }
        }
        tid
    }

    /// Makes a blocked thread ready at the back of the ready queue; a thread
    /// that is not blocked is left alone.
    pub fn unblock_thread(&mut self, tid: ThreadId)
        requires
            old(self)@.wf_table(),
        ensures
            final(self)@ == old(self)@.unblock(tid),
            final(self).same_bodies(*old(self)),
            final(self).now_ms == old(self).now_ms,
            final(self).next_tid == old(self).next_tid,
    {
        let mut pos: usize = 0;
        while pos < self.blocked.len()
            invariant
                self@ == old(self)@,
                self.same_bodies(*old(self)),
                self@.wf_table(),
                0 <= pos <= self.blocked@.len(),
                forall|j: int| 0 <= j < pos ==> self.blocked@[j] != tid,
            decreases self.blocked@.len() - pos,
        {
            if self.blocked[pos] == tid {
                proof {
                    assert(self@.blocked.contains(tid));
                    lemma_remove_index_of(self@.blocked, tid);
                    let k = self@.blocked.index_of(tid);
                    assert(self@.blocked.no_duplicates());
                    assert(k == pos as int);
                }
                let t = self.blocked.remove(pos);
                self.set_state(t, ThreadState::Ready);
                self.ready.push_back(t);
                return;
            }
            pos = pos + 1;
        }
        proof {
            assert(!self@.blocked.contains(tid));
        }
    }

    /// Makes every blocked thread ready, in the order in which they blocked.
    pub fn unblock_all_threads(&mut self)
        requires
            old(self)@.wf(),
        ensures
            final(self)@ == old(self)@.unblock_all(),
            final(self)@.wf(),
            final(self).same_bodies(*old(self)),
    {
        let mut blocked: Vec<ThreadId> = Vec::new();
        std::mem::swap(&mut blocked, &mut self.blocked);
        let ghost o = old(self)@;
        let mut k: usize = 0;
        while k < blocked.len()
            invariant
                o == old(self)@,
                o.wf(),
                blocked@ == o.blocked,
                0 <= k <= blocked@.len(),
                self.same_bodies(*old(self)),
                self@.next_tid == o.next_tid,
                self@.now_ms == o.now_ms,
                self@.blocked == Seq::<ThreadId>::empty(),
                self@.ready == o.ready + blocked@.take(k as int),
                self@.threads.len() == o.threads.len(),
                forall|i: int| 0 <= i < o.threads.len() ==> #[trigger] self@.threads[i] == (
                    if blocked@.take(k as int).contains((i + 1) as ThreadId) {
                        ThreadView { state: ThreadState::Ready, ..o.threads[i] }
                    } else {
                        o.threads[i]
                    }),
            decreases blocked@.len() - k,
        {
            let t = blocked[k];
            proof {
                assert(o.blocked.contains(t));
                assert(o.valid_tid(t));
            }
            let idx = (t - 1) as usize;
            let ghost before = self@.threads;
            self.threads[idx].state = ThreadState::Ready;
            self.ready.push_back(t);
            proof {
                assert(self@.threads =~= before.update(idx as int, ThreadView { state: ThreadState::Ready, ..before[idx as int] }));
                assert(blocked@.take(k + 1) =~= blocked@.take(k as int).push(t));
                assert(self@.ready =~= o.ready + blocked@.take(k + 1));
                assert forall|i: int| 0 <= i < o.threads.len() implies #[trigger] self@.threads[i] == (
                    if blocked@.take(k + 1).contains((i + 1) as ThreadId) {
                        ThreadView { state: ThreadState::Ready, ..o.threads[i] }
                    } else {
                        o.threads[i]
                    }) by {
                    assert(o.threads[i].id == i + 1);
                    if i == idx as int {
                        assert(blocked@.take(k + 1)[k as int] == t);
                        assert(blocked@.take(k + 1).contains(t));
                        assert((i + 1) as ThreadId == t);
                    } else {
                        assert((i + 1) as ThreadId != t);
                        assert(blocked@.take(k + 1).contains((i + 1) as ThreadId)
                            <==> blocked@.take(k as int).contains((i + 1) as ThreadId));
                    }
                }
            }
            k = k + 1;
        }
        proof {
            let n = o.unblock_all();
            assert(blocked@.take(k as int) =~= blocked@);
            assert(self@.threads =~= n.threads);
            assert(self@ == n);
            lemma_unblock_all_wf(o);
        }
    }
}

proof fn lemma_unblock_all_wf(v: RuntimeView)
    requires
        v.wf(),
    ensures
        v.unblock_all().wf(),
{
    let n = v.unblock_all();
    assert forall|i: int| 0 <= i < n.threads.len() implies #[trigger] n.threads[i].id == i + 1 by {
        assert(v.threads[i].id == i + 1);
    }
    assert forall|a: int, b: int| 0 <= a < n.ready.len() && 0 <= b < n.ready.len() && a != b
        implies n.ready[a] != n.ready[b] by {
        let ra = v.ready.len();
        if a < ra && b < ra {
        } else if a >= ra && b >= ra {
        } else if a < ra {
            assert(v.ready.contains(n.ready[a]));
            assert(v.blocked.contains(n.ready[b]));
            assert(v.valid_tid(n.ready[a]));
        } else {
            assert(v.blocked.contains(n.ready[a]));
            assert(v.ready.contains(n.ready[b]));
            assert(v.valid_tid(n.ready[b]));
        }
    }
    assert forall|x: ThreadId| #[trigger] n.ready.contains(x) implies n.valid_tid(x) by {
        let a = choose|a: int| 0 <= a < n.ready.len() && n.ready[a] == x;
        if a < v.ready.len() {
            assert(v.ready.contains(x));
        } else {
            assert(v.blocked[a - v.ready.len()] == x);
            assert(v.blocked.contains(x));
        }
    }
    assert forall|x: ThreadId| #[trigger] n.valid_tid(x) implies (n.ready.contains(x)
        <==> holds_ready(n.thread(x).state)) by {
        assert(v.valid_tid(x));
        if n.ready.contains(x) {
            let a = choose|a: int| 0 <= a < n.ready.len() && n.ready[a] == x;
            if a < v.ready.len() {
                assert(v.ready.contains(x));
            } else {
                assert(v.blocked[a - v.ready.len()] == x);
                assert(v.blocked.contains(x));
            }
        }
        if v.ready.contains(x) {
            let a = choose|a: int| 0 <= a < v.ready.len() && v.ready[a] == x;
            assert(n.ready[a] == x);
        }
        if v.blocked.contains(x) {
            let a = choose|a: int| 0 <= a < v.blocked.len() && v.blocked[a] == x;
            assert(n.ready[v.ready.len() + a] == x);
        }
    }
    assert forall|x: ThreadId| #[trigger] n.valid_tid(x) implies (n.blocked.contains(x)
        <==> n.thread(x).state == ThreadState::Blocked) by {
        assert(v.valid_tid(x));
        assert(((x - 1) + 1) as ThreadId == x);
    }
}

} // verus!

verus! {

impl RuntimeView {
    /// Unblocking a thread keeps the runtime at rest.
    pub proof fn lemma_unblock_pub(self, u: ThreadId)
        requires
            self.wf(),
        ensures
            self.unblock(u).wf(),
    {
        self.lemma_unblock(u, 0);
    }

    proof fn lemma_terminated_rest(self, t: ThreadId)
        requires
            self.wf_running(t),
        ensures
            self.with_state(t, ThreadState::Terminated).wf(),
    {
        self.lemma_with_state(t, ThreadState::Terminated);
        self.lemma_rest(self.with_state(t, ThreadState::Terminated), t);
    }
}

impl<E> ThreadRuntimeV2<E> {
    /// Unblocks the threads of `js` in order.
    fn unblock_threads(&mut self, js: &Vec<ThreadId>)
        requires
            old(self)@.wf(),
        ensures
            final(self)@ == old(self)@.unblock_many(js@),
            final(self)@.wf(),
            final(self).same_bodies(*old(self)),
            final(self).now_ms == old(self).now_ms,
            final(self).next_tid == old(self).next_tid,
    {
        let ghost v = old(self)@;
        let mut k: usize = 0;
        while k < js.len()
            invariant
                v == old(self)@,
                v.wf(),
                0 <= k <= js@.len(),
                self@ == v.unblock_many(js@.take(k as int)),
                self@.wf(),
                self.same_bodies(*old(self)),
                self.now_ms == old(self).now_ms,
                self.next_tid == old(self).next_tid,
            decreases js@.len() - k,
        {
            let w = js[k];
            self.unblock_thread(w);
            proof {
                let p = js@.take(k + 1);
                assert(p.drop_last() =~= js@.take(k as int));
                assert(p.last() == w);
                v.lemma_unblock_many(p, 0);
            }
            k = k + 1;
        }
        proof {
            assert(js@.take(k as int) =~= js@);
        }
    }

    /// Files thread `tid`, which has just run its step, according to its
    /// answer: back to the ready queue, into the blocked list, finished (its
    /// joiners become ready), waiting for another thread or for a mutex.
    pub fn apply_response(&mut self, tid: ThreadId, response: ThreadResponse)
        requires
            old(self)@.wf_running(tid),
        ensures
            exists|o: StepOutcome| outcome_of(response, o) && final(self)@ == old(self)@.apply(tid, o),
            final(self)@.wf(),
            final(self).same_bodies(*old(self)),
            final(self).now_ms == old(self).now_ms,
            final(self).next_tid == old(self).next_tid,
    {
        let ghost v = old(self)@;
        let idx = (tid - 1) as usize;
        let ghost o: StepOutcome;
        match response {
            ThreadResponse::Yield => {
                self.set_state(tid, ThreadState::Ready);
                self.ready.push_back(tid);
                proof {
                    o = StepOutcome::Yield;
                }
            },
            ThreadResponse::Block => {
                self.set_state(tid, ThreadState::Blocked);
                self.blocked.push(tid);
                proof {
                    o = StepOutcome::Block;
                }
            },
            ThreadResponse::Exit => {
                self.set_state(tid, ThreadState::Terminated);
                let mut joiners: Vec<ThreadId> = Vec::new();
                let mut k: usize = 0;
                while k < self.threads[idx].joiners.len()
                    invariant
                        self@ == v.with_state(tid, ThreadState::Terminated),
                        self.same_bodies(*old(self)),
                        v.wf_running(tid),
                        idx == tid - 1,
                        idx < self.threads@.len(),
                        self.now_ms == old(self).now_ms,
                        self.next_tid == old(self).next_tid,
                        0 <= k <= v.thread(tid).joiners.len(),
                        joiners@ == v.thread(tid).joiners.take(k as int),
                    decreases v.thread(tid).joiners.len() - k,
                {
                    proof {
                        v.lemma_with_state(tid, ThreadState::Terminated);
                    }
                    let j = self.threads[idx].joiners[k];
                    joiners.push(j);
                    proof {
                        assert(joiners@ =~= v.thread(tid).joiners.take(k + 1));
                    }
                    k = k + 1;
                }
                proof {
                    v.lemma_with_state(tid, ThreadState::Terminated);
                    assert(joiners@ =~= v.thread(tid).joiners);
                    v.lemma_terminated_rest(tid);
                }
                self.unblock_threads(&joiners);
                proof {
                    o = StepOutcome::Exit;
                }
            },
            ThreadResponse::Continue => {
                self.ready.push_back(tid);
                proof {
                    o = StepOutcome::Continue;
                }
            },
            ThreadResponse::Join(target) => {
                if target >= 1 && target < self.next_tid
                    && self.threads[(target - 1) as usize].state != ThreadState::Terminated {
                    let tidx = (target - 1) as usize;
                    self.threads[tidx].joiners.push(tid);
                    proof {
                        assert(self@.threads =~= v.with_joiner(target, tid).threads);
                        v.lemma_with_joiner(target, tid);
                    }
                    self.set_state(tid, ThreadState::Blocked);
                    self.blocked.push(tid);
                } else {
                    self.ready.push_back(tid);
                }
                proof {
                    o = StepOutcome::Join(target);
                }
            },
            ThreadResponse::MutexLock(_) => {
                self.set_state(tid, ThreadState::Blocked);
                self.blocked.push(tid);
                proof {
                    o = StepOutcome::LockWait;
                }
            },
            ThreadResponse::MutexUnlock(w) => {
                self.unblock_thread(w);
                self.ready.push_back(tid);
                proof {
                    o = StepOutcome::HandOff(w);
                }
            },
        }
        proof {
            assert(outcome_of(response, o));
            assert(self@ == v.apply(tid, o));
            v.lemma_apply(tid, o);
        }
    }
}

impl<E: FnMut(ThreadId, u32) -> ThreadSignal> ThreadRuntimeV2<E> {
    /// One scheduling cycle: the clock advances by 10 ms; the ready thread
    /// the scheduling policies choose, if any, runs one step with its
    /// tickets and is filed according to what it reported.
    pub fn run_once(&mut self)
        requires
            old(self)@.wf(),
            old(self)@.now_ms <= u64::MAX - 10,
            callable_bodies(old(self).threads@),
        ensures
            final(self)@.wf(),
            old(self)@.ready.len() == 0 ==> final(self)@ == (RuntimeView {
                now_ms: (old(self)@.now_ms + 10) as u64,
                ..old(self)@
            }),
            final(self).threads@.len() == old(self).threads@.len(),
            final(self)@.now_ms == old(self)@.now_ms + 10,
            cycle_step(*old(self), *final(self)),
            final(self).same_bodies(*old(self)),
    {
        self.now_ms = self.now_ms + 10;
        let tid = match self.select_next_thread() {
            Some(t) => t,
            None => {
                proof {
                    assert(self@ == RuntimeView { now_ms: (old(self)@.now_ms + 10) as u64, ..old(self)@ });
                    assert forall|t: ThreadId| #[trigger] self@.valid_tid(t) implies (self@.ready.contains(t)
                        <==> holds_ready(self@.thread(t).state)) by {
                        assert(old(self)@.valid_tid(t));
                    }
                    assert forall|t: ThreadId| #[trigger] self@.valid_tid(t) implies (self@.blocked.contains(t)
                        <==> self@.thread(t).state == ThreadState::Blocked) by {
                        assert(old(self)@.valid_tid(t));
                    }
                }
                return;
            },
        };
        let ghost v = old(self)@;
        proof {
            v.lemma_dispatch(tid);
            assert(v.valid_tid(tid));
            v.lemma_with_state(tid, ThreadState::Running);
        }
        let idx = (tid - 1) as usize;
        let current_tickets = self.threads[idx].tickets;
        self.set_state(tid, ThreadState::Running);
        proof {
            assert(self@.ready == without(v.ready, tid));
            assert(self@ == v.dispatch(tid));
        }
        let ghost th = self.threads@[idx as int];
        proof {
            assert(v.threads[idx as int].id == idx + 1);
            assert(th.id == tid);
            assert(th.entry() == old(self).threads@[idx as int].entry());
            if th.entry() is Some {
                assert(call_requires(old(self).threads@[idx as int].entry()->0, ((idx + 1) as ThreadId, current_tickets)));
            }
        }
        let signal = self.threads[idx].execute_step(current_tickets);
        proof {
            assert(self@.threads =~= v.dispatch(tid).threads);
            assert(self@ == v.dispatch(tid));
            assert(th.entry() == old(self).threads@[idx as int].entry());
        }
        let response = ThreadResponse::from_signal(signal);
        self.apply_response(tid, response);
        proof {
            assert(views(old(self).threads@) =~= v.threads);
        }
    }

    /// Runs up to `cycles` scheduling cycles, stopping early once no thread
    /// is ready or blocked.
    pub fn run(&mut self, cycles: usize)
        requires
            old(self)@.wf(),
            old(self)@.now_ms + 10 * cycles <= u64::MAX,
            callable_bodies(old(self).threads@),
        ensures
            final(self)@.wf(),
            old(self)@.now_ms <= final(self)@.now_ms <= old(self)@.now_ms + 10 * cycles,
            (final(self)@.now_ms - old(self)@.now_ms) % 10 == 0,
            final(self)@.now_ms < old(self)@.now_ms + 10 * cycles ==> final(self)@.ready.len() == 0
                && final(self)@.blocked.len() == 0,
            final(self).threads@.len() == old(self).threads@.len(),
            exists|trace: Seq<ThreadRuntimeV2<E>>|
                is_run(trace, cycles as nat) && trace[0] == *old(self) && trace.last() == *final(self),
    {
        let ghost mut trace: Seq<ThreadRuntimeV2<E>> = seq![*self];
        let mut i: usize = 0;
        while i < cycles
            invariant
                0 <= i <= cycles,
                self@.wf(),
                self@.now_ms == old(self)@.now_ms + 10 * i,
                old(self)@.now_ms + 10 * cycles <= u64::MAX,
                callable_bodies(self.threads@),
                self.threads@.len() == old(self).threads@.len(),
                trace.len() == i + 1,
                trace[0] == *old(self),
                trace.last() == *self,
                forall|j: int| #![trigger trace[j]] 0 <= j < trace.len() - 1 ==> cycle_step(trace[j], trace[j + 1]),
                forall|j: int| #![trigger trace[j]] 1 <= j < trace.len() ==> !idle(trace[j]@),
            decreases cycles - i,
        {
            let ghost before = *self;
            self.run_once();
            proof {
                let t0 = trace;
                trace = trace.push(*self);
                assert forall|j: int| #![trigger trace[j]] 0 <= j < trace.len() - 1 implies cycle_step(trace[j], trace[j + 1]) by {
                    if j < t0.len() - 1 {
                        assert(trace[j] == t0[j]);
                        assert(trace[j + 1] == t0[j + 1]);
                    } else {
                        assert(trace[j] == before);
                    }
                }
            }
            i = i + 1;
            proof {
                assert((10 * i) % 10 == 0) by (nonlinear_arith);
            }
            if self.ready.len() == 0 && self.blocked.len() == 0 {
                proof {
                    assert(idle(trace.last()@));
                    assert(is_run(trace, cycles as nat));
                }
                return;
            }
            proof {
                assert forall|j: int| #![trigger trace[j]] 1 <= j < trace.len() implies !idle(trace[j]@) by {
                    if j < trace.len() - 1 {
                    }
                }
            }
        }
        proof {
            assert((10 * i) % 10 == 0) by (nonlinear_arith);
            assert(is_run(trace, cycles as nat));
        }
    }
}

} // verus!

verus! {

impl RuntimeView {
    /// Unblocking the threads of `js` wakes exactly those of them that were
    /// blocked; every other thread keeps its state.
    proof fn lemma_unblock_many_states(self, js: Seq<ThreadId>)
        requires
            self.wf(),
        ensures
            self.unblock_many(js).wf(),
            self.unblock_many(js).next_tid == self.next_tid,
            forall|j: ThreadId| #[trigger] self.valid_tid(j) ==> self.unblock_many(js).thread(j).state == (if js.contains(
                j,
            ) && self.thread(j).state == ThreadState::Blocked {
                ThreadState::Ready
            } else {
                self.thread(j).state
            }),
        decreases js.len(),
    {
        self.lemma_unblock_many(js, 0);
        if js.len() > 0 {
            let prev = js.drop_last();
            let u = js.last();
            self.lemma_unblock_many_states(prev);
            let x = self.unblock_many(prev);
            assert forall|j: ThreadId| #[trigger] self.valid_tid(j) implies x.unblock(u).thread(j).state == (if js.contains(
                j,
            ) && self.thread(j).state == ThreadState::Blocked {
                ThreadState::Ready
            } else {
                self.thread(j).state
            }) by {
                assert(js.contains(j) <==> (prev.contains(j) || j == u)) by {
                    if js.contains(j) {
                        let k = choose|k: int| 0 <= k < js.len() && js[k] == j;
                        if k < js.len() - 1 {
                            assert(prev[k] == j);
                        }
                    }
                    if prev.contains(j) {
                        let k = choose|k: int| 0 <= k < prev.len() && prev[k] == j;
                        assert(js[k] == j);
                    }
                }
                assert(x.valid_tid(j));
                if x.blocked.contains(u) {
                    assert(x.valid_tid(u));
                    x.lemma_with_state(u, ThreadState::Ready);
                }
            }
        }
    }
}

/// Law: every step of the runtime keeps it consistent: whatever a thread
/// dispatched from the ready queue reports, once it is filed
/// each known thread is in the queue its state names, and only there.
pub proof fn law_step_keeps_wf(v: RuntimeView, t: ThreadId, o: StepOutcome)
    requires
        v.wf(),
        v.ready.contains(t),
    ensures
        v.dispatch(t).apply(t, o).wf(),
{
    v.lemma_dispatch(t);
    v.dispatch(t).lemma_apply(t, o);
}

/// Law: round robin: a thread that yields goes to the back of the ready
/// queue, behind every thread that was waiting, and the clock advances by
/// one quantum.
pub proof fn law_yield_round_robin(v: RuntimeView, t: ThreadId)
    requires
        v.wf(),
        v.ready.contains(t),
    ensures
        ({
            let w = v.dispatch(t).apply(t, StepOutcome::Yield);
            &&& w.ready == without(v.ready, t).push(t)
            &&& w.thread(t).state == ThreadState::Ready
            &&& w.blocked == v.blocked
            &&& w.now_ms == (v.now_ms + 10) as u64
        }),
{
    v.lemma_dispatch(t);
    v.lemma_with_state(t, ThreadState::Running);
    v.dispatch(t).lemma_with_state(t, ThreadState::Ready);
}

/// Law: a thread that blocks leaves the ready queue for the end of the
/// blocked list, and stays there until it is unblocked.
pub proof fn law_block_parks(v: RuntimeView, t: ThreadId)
    requires
        v.wf(),
        v.ready.contains(t),
    ensures
        ({
            let w = v.dispatch(t).apply(t, StepOutcome::Block);
            &&& w.ready == without(v.ready, t)
            &&& w.blocked == v.blocked.push(t)
            &&& w.thread(t).state == ThreadState::Blocked
        }),
{
    v.lemma_dispatch(t);
    v.lemma_with_state(t, ThreadState::Running);
    v.dispatch(t).lemma_with_state(t, ThreadState::Blocked);
}

/// Law: joining a thread that has not finished blocks the caller and
/// records it among the target's joiners.
pub proof fn law_join_waits(v: RuntimeView, t: ThreadId, target: ThreadId)
    requires
        v.wf(),
        v.ready.contains(t),
        v.valid_tid(target),
        v.thread(target).state != ThreadState::Terminated,
        target != t,
    ensures
        ({
            let w = v.dispatch(t).apply(t, StepOutcome::Join(target));
            &&& w.thread(t).state == ThreadState::Blocked
            &&& w.blocked == v.blocked.push(t)
            &&& w.thread(target).joiners == v.thread(target).joiners.push(t)
            &&& w.thread(target).state == v.thread(target).state
        }),
{
    v.lemma_dispatch(t);
    let d = v.dispatch(t);
    v.lemma_with_state(t, ThreadState::Running);
    d.lemma_with_joiner(target, t);
    d.with_joiner(target, t).lemma_with_state(t, ThreadState::Blocked);
}

/// Law: joining a thread that has finished, or an unknown one, does not
/// wait: the caller goes to the back of the ready queue still running,
/// nothing is blocked, and no thread records it as a joiner.
pub proof fn law_join_finished_goes_on(v: RuntimeView, t: ThreadId, target: ThreadId)
    requires
        v.wf(),
        v.ready.contains(t),
        !(v.valid_tid(target) && v.thread(target).state != ThreadState::Terminated),
    ensures
        ({
            let d = v.dispatch(t);
            let w = d.apply(t, StepOutcome::Join(target));
            &&& w.ready == d.ready.push(t)
            &&& w.blocked == v.blocked
            &&& w.thread(t).state == ThreadState::Running
            &&& w.threads == d.threads
            &&& !w.blocked.contains(t)
        }),
{
    v.lemma_dispatch(t);
    v.lemma_with_state(t, ThreadState::Running);
}

/// Law: when a thread exits, it is finished for good, and every thread
/// that was blocked joining it becomes ready again.
pub proof fn law_exit_wakes_joiners(v: RuntimeView, t: ThreadId, j: ThreadId)
    requires
        v.wf(),
        v.ready.contains(t),
        v.valid_tid(j),
        v.thread(t).joiners.contains(j),
        v.thread(j).state == ThreadState::Blocked,
    ensures
        ({
            let w = v.dispatch(t).apply(t, StepOutcome::Exit);
            &&& w.thread(t).state == ThreadState::Terminated
            &&& w.thread(j).state == ThreadState::Ready
            &&& w.ready.contains(j)
            &&& !w.blocked.contains(j)
        }),
{
    v.lemma_dispatch(t);
    let d = v.dispatch(t);
    v.lemma_with_state(t, ThreadState::Running);
    d.lemma_with_state(t, ThreadState::Terminated);
    let e = d.with_state(t, ThreadState::Terminated);
    d.lemma_rest(e, t);
    assert(j != t);
    assert(e.valid_tid(t));
    assert(e.valid_tid(j));
    assert(e.thread(j) == v.thread(j));
    assert(d.thread(t).joiners == v.thread(t).joiners);
    e.lemma_unblock_many_states(d.thread(t).joiners);
    let w = e.unblock_many(d.thread(t).joiners);
    assert(w.valid_tid(j));
}

/// Law: waiting for a mutex. A thread `t` that finds a held mutex with
/// nobody waiting joins its queue, reports `MutexLock(t)`, and once filed
/// by the runtime is blocked and out of the ready queue; the next release
/// hands the mutex to `t`, which stays held, and the runtime's wake-up
/// (`MutexUnlock(t)`) makes `t` ready again.
pub proof fn law_mutex_wait(m: MutexView, v: RuntimeView, t: ThreadId)
    requires
        m.locked,
        m.waiters.len() == 0,
        v.wf(),
        v.ready.contains(t),
    ensures
        ({
            let m1 = lock_spec(m, t).0;
            let w = v.dispatch(t).apply(t, StepOutcome::LockWait);
            &&& lock_spec(m, t).1
            &&& m1.waiters == seq![t]
            &&& outcome_of(response_of(ThreadSignal::MutexLock(t)), StepOutcome::LockWait)
            &&& w.thread(t).state == ThreadState::Blocked
            &&& w.blocked.contains(t)
            &&& !w.ready.contains(t)
            &&& unlock_spec(m1).1 == Some(t)
            &&& unlock_spec(m1).0.locked
            &&& w.unblock(t).thread(t).state == ThreadState::Ready
            &&& w.unblock(t).ready.contains(t)
            &&& !w.unblock(t).blocked.contains(t)
        }),
{
    assert(lock_spec(m, t).0.waiters =~= seq![t]);
    v.lemma_dispatch(t);
    v.lemma_with_state(t, ThreadState::Running);
    let d = v.dispatch(t);
    d.lemma_with_state(t, ThreadState::Blocked);
    let w = d.apply(t, StepOutcome::LockWait);
    d.lemma_apply(t, StepOutcome::LockWait);
    assert(w.blocked == d.blocked.push(t));
    assert(w.blocked[w.blocked.len() - 1] == t);
    assert(w.blocked.contains(t));
    assert(w.valid_tid(t));
    lemma_remove_index_of(w.blocked, t);
    w.lemma_with_state(t, ThreadState::Ready);
    let x = w.with_state(t, ThreadState::Ready);
    assert(w.unblock(t).ready == x.ready.push(t));
    assert(w.unblock(t).ready[w.unblock(t).ready.len() - 1] == t);
}

/// Law: unblocking everything leaves no thread blocked: each blocked
/// thread is ready again, queued behind the threads that were ready, in the
/// order in which they blocked.
pub proof fn law_unblock_all_empties(v: RuntimeView, j: ThreadId)
    requires
        v.wf(),
        v.valid_tid(j),
    ensures
        v.unblock_all().wf(),
        v.unblock_all().blocked.len() == 0,
        v.unblock_all().ready == v.ready + v.blocked,
        v.thread(j).state == ThreadState::Blocked ==> v.unblock_all().thread(j).state == ThreadState::Ready,
        v.thread(j).state != ThreadState::Blocked ==> v.unblock_all().thread(j).state == v.thread(j).state,
{
    lemma_unblock_all_wf(v);
    assert(((j - 1) + 1) as ThreadId == j);
}

} // verus!

verus! {

/// `s` without the occurrences of `x`, in order.
pub open spec fn without(s: Seq<ThreadId>, x: ThreadId) -> Seq<ThreadId>
    decreases s.len(),
{
    if s.len() == 0 {
        s
    } else {
        let w = without(s.drop_last(), x);
        if s.last() != x {
            w.push(s.last())
        } else {
            w
        }
    }
}

impl<E> ThreadRuntimeV2<E> {
    /// Chooses the next thread by the scheduling policies (see
    /// `scheduled`) and takes it out of the ready queue.
    pub fn select_next_thread(&mut self) -> (r: Option<ThreadId>)
        ensures
            old(self)@.ready.len() == 0 ==> r is None && final(self)@ == old(self)@,
            old(self)@.ready.len() > 0 ==> r is Some && old(self)@.ready.contains(r->0)
                && crate::mypthreads::sched::scheduled(old(self)@.ready, crate::mypthreads::sched::views(old(self).threads@), r->0)
                && final(self)@ == (RuntimeView { ready: without(old(self)@.ready, r->0), ..old(self)@ }),
            final(self).same_bodies(*old(self)),
            final(self).threads == old(self).threads,
            final(self).now_ms == old(self).now_ms,
    {
        let selected = crate::mypthreads::sched::select_next_thread(&self.ready, &self.threads, self.now_ms);
        if let Some(tid) = selected {
            let ghost q = self.ready@;
            let mut kept: VecDeque<ThreadId> = VecDeque::new();
            let mut i: usize = 0;
            while i < self.ready.len()
                invariant
                    0 <= i <= q.len(),
                    q == self.ready@,
                    kept@ == without(q.take(i as int), tid),
                decreases q.len() - i,
            {
                let t = self.ready[i];
                proof {
                    assert(q.take(i + 1).drop_last() =~= q.take(i as int));
                    assert(q.take(i + 1).last() == q[i as int]);
                }
                if t != tid {
                    kept.push_back(t);
                }
                i = i + 1;
            }
            proof {
                assert(q.take(q.len() as int) =~= q);
            }
            self.ready = kept;
        }
        selected
    }
}

} // verus!
