use vstd::prelude::*;
use crate::mypthreads::thread::ThreadId;

verus! {

/// What a thread body reports to the runtime at the end of one step.
#[derive(Clone)]
pub enum ThreadSignal {
    /// Keep running: the thread goes back to the end of the ready queue.
    Continue,
    /// Give up the processor: the thread goes back to the end of the ready queue.
    Yield,
    /// Stop until someone unblocks the thread.
    Block,
    /// The thread is finished.
    Exit,
    /// Wait until the given thread has finished.
    Join(ThreadId),
    /// The mutex was held and the given thread, the caller, now waits in
    /// its queue: the runtime blocks it.
    MutexLock(ThreadId),
    /// The mutex was handed over to the given waiting thread, which the
    /// runtime makes ready again.
    MutexUnlock(ThreadId),
}

} // verus!
