//! What a thread step answers to the runtime, and the context a thread body
//! carries.

use vstd::prelude::*;
use crate::mypthreads::thread::ThreadId;
use crate::mypthreads::channels::ThreadChannels;
use crate::mypthreads::signals::ThreadSignal;

verus! {

/// The answer of a thread step to the runtime.
#[derive(Clone)]
pub enum ThreadResponse {
    Yield,
    Block,
    Exit,
    Continue,
    Join(ThreadId),
    MutexLock(ThreadId),
    MutexUnlock(ThreadId),
}

/// How a signal of a thread body is answered to the runtime: `Continue` and
/// `Yield` both become `Yield`, the others keep their meaning.
pub open spec fn response_of(s: ThreadSignal) -> ThreadResponse {
    match s {
        ThreadSignal::Continue => ThreadResponse::Yield,
        ThreadSignal::Yield => ThreadResponse::Yield,
        ThreadSignal::Block => ThreadResponse::Block,
        ThreadSignal::Exit => ThreadResponse::Exit,
        ThreadSignal::Join(t) => ThreadResponse::Join(t),
        ThreadSignal::MutexLock(m) => ThreadResponse::MutexLock(m),
        ThreadSignal::MutexUnlock(t) => ThreadResponse::MutexUnlock(t),
    }
}

impl ThreadResponse {
    /// Turns the signal of a thread body into the answer to the runtime.
    pub fn from_signal(s: ThreadSignal) -> (r: Self)
        ensures
            r == response_of(s),
    {
        match s {
            ThreadSignal::Continue => ThreadResponse::Yield,
            ThreadSignal::Yield => ThreadResponse::Yield,
            ThreadSignal::Block => ThreadResponse::Block,
            ThreadSignal::Exit => ThreadResponse::Exit,
            ThreadSignal::Join(t) => ThreadResponse::Join(t),
            ThreadSignal::MutexLock(m) => ThreadResponse::MutexLock(m),
            ThreadSignal::MutexUnlock(t) => ThreadResponse::MutexUnlock(t),
        }
    }
}

/// The context of a running thread: its id and its channels.
pub struct ThreadGlobalContext {
    pub tid: ThreadId,
    pub channels: ThreadChannels,
}

impl ThreadGlobalContext {
    /// The context of thread `tid`.
    pub fn init(tid: ThreadId, channels: ThreadChannels) -> (c: Self)
        ensures
            c.tid == tid,
            c.channels == channels,
    {
        ThreadGlobalContext { tid, channels }
    }

    /// Calls `f` on the context and returns its result.
    pub fn with<F, R>(&self, f: F) -> (r: R)
        where
            F: FnOnce(&ThreadGlobalContext) -> R,
        requires
            call_requires(f, (self,)),
        ensures
            call_ensures(f, (self,), r),
    {
        f(self)
    }
}

} // verus!
