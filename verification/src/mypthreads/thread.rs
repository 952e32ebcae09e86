//! A thread of the runtime: its scheduling parameters, its state and the
//! body that runs one step each time the thread is dispatched.

use vstd::prelude::*;
use crate::mypthreads::signals::ThreadSignal;
use crate::mypthreads::channels::JoinHandle;

verus! {

pub type ThreadId = u32;

/// Where a thread is in its life.
#[derive(Debug, Clone, Copy, PartialEq, Eq, Structural)]
pub enum ThreadState {
    New,
    Ready,
    Running,
    Blocked,
    Terminated,
}

/// The policy under which a thread is scheduled.
#[derive(Debug, Clone, Copy, PartialEq, Eq, Structural)]
pub enum SchedulerType {
    RoundRobin,
    Lottery,
    RealTime,
}

/// What the scheduler and the runtime know of a thread.
pub struct ThreadView {
    pub id: ThreadId,
    pub state: ThreadState,
    pub sched_type: SchedulerType,
    pub tickets: u32,
    pub deadline: Option<u64>,
    pub detached: bool,
    pub joiners: Seq<ThreadId>,
}

/// A thread: scheduling data plus a body `E` that runs one step at a time,
/// receiving the thread's id and its current tickets.
pub struct MyThread<E> {
    pub id: ThreadId,
    pub name: String,
    pub state: ThreadState,
    pub sched_type: SchedulerType,
    pub tickets: u32,
    pub deadline: Option<u64>,
    pub detached: bool,
    pub joiners: Vec<ThreadId>,
    pub join_handle: JoinHandle,
    pub entry: Option<E>,
}

impl<E> View for MyThread<E> {
    type V = ThreadView;

    open spec fn view(&self) -> ThreadView {
        ThreadView {
            id: self.id,
            state: self.state,
            sched_type: self.sched_type,
            tickets: self.tickets,
            deadline: self.deadline,
            detached: self.detached,
            joiners: self.joiners@,
        }
    }
}

impl<E> MyThread<E> {
    /// The body of the thread, if it has one.
    pub open spec fn entry(&self) -> Option<E> {
        self.entry
    }

    /// A new thread that has not run yet.
    pub fn new(
        id: ThreadId,
        name: String,
        sched_type: SchedulerType,
        tickets: u32,
        deadline: Option<u64>,
        entry: E,
    ) -> (t: Self)
        ensures
            t@ == (ThreadView {
                id,
                state: ThreadState::New,
                sched_type,
                tickets,
                deadline,
                detached: false,
                joiners: Seq::empty(),
            }),
            t.name == name,
            t.entry() == Some(entry),
            !t.join_handle.terminated,
    {
        MyThread {
            id,
            name,
            state: ThreadState::New,
            sched_type,
            tickets,
            deadline,
            detached: false,
            joiners: Vec::new(),
            join_handle: JoinHandle::new(),
            entry: Some(entry),
        }
    }
}

impl<E: FnMut(ThreadId, u32) -> ThreadSignal> MyThread<E> {
    /// Runs one step of the body with the given tickets; a thread without a
    /// body reports that it is finished.
    pub fn execute_step(&mut self, current_tickets: u32) -> (s: ThreadSignal)
        requires
            old(self).entry() is Some ==> call_requires(
                old(self).entry()->0,
                (old(self).id, current_tickets),
            ),
        ensures
            final(self)@ == old(self)@,
            final(self).name == old(self).name,
            final(self).join_handle == old(self).join_handle,
            final(self).entry() == old(self).entry(),
            old(self).entry() is None ==> s is Exit,
            old(self).entry() is Some ==> call_ensures(
                old(self).entry()->0,
                (old(self).id, current_tickets),
                s,
            ),
    {
        let id = self.id;
        match &mut self.entry {
            Some(entry) => entry(id, current_tickets),
            None => ThreadSignal::Exit,
        }
    }
}

} // verus!
