//! What a thread body does through its context: report to its channels,
//! join, and use the tid-owned mutex of the channels.

use vstd::prelude::*;
use crate::mypthreads::thread::ThreadId;
use crate::mypthreads::signals::ThreadSignal;
use crate::mypthreads::channels::{ThreadChannels, JoinHandle, SimpleMutex};
use crate::mypthreads::thread_data::ThreadGlobalContext;

verus! {

/// The context of thread `tid`.
pub fn init_thread_context(tid: ThreadId, channels: ThreadChannels) -> (ctx: ThreadGlobalContext)
    ensures
        ctx.tid == tid,
        ctx.channels == channels,
{
    ThreadGlobalContext::init(tid, channels)
}

/// The id of the thread of this context.
pub fn current_tid(ctx: &ThreadGlobalContext) -> (t: ThreadId)
    ensures
        t == ctx.tid,
{
    ctx.tid
}

/// The thread yields: reported, and `Yield`.
pub fn ctx_yield(ctx: &mut ThreadGlobalContext) -> (s: ThreadSignal)
    ensures
        s is Yield,
        final(ctx).tid == old(ctx).tid,
        final(ctx).channels.yield_queue@ == old(ctx).channels.yield_queue@.push(old(ctx).tid),
        final(ctx).channels.blocked_queue@ == old(ctx).channels.blocked_queue@,
        final(ctx).channels.terminated_queue@ == old(ctx).channels.terminated_queue@,
        final(ctx).channels.shared_data@ == old(ctx).channels.shared_data@,
{
    let tid = ctx.tid;
    ctx.channels.report_yield(tid);
    ThreadSignal::Yield
}

/// The thread finishes: reported, and `Exit`.
pub fn ctx_exit(ctx: &mut ThreadGlobalContext) -> (s: ThreadSignal)
    ensures
        s is Exit,
        final(ctx).tid == old(ctx).tid,
        final(ctx).channels.terminated_queue@ == old(ctx).channels.terminated_queue@.push(old(ctx).tid),
        final(ctx).channels.yield_queue@ == old(ctx).channels.yield_queue@,
        final(ctx).channels.blocked_queue@ == old(ctx).channels.blocked_queue@,
        final(ctx).channels.shared_data@ == old(ctx).channels.shared_data@,
{
    let tid = ctx.tid;
    ctx.channels.report_exit(tid);
    ThreadSignal::Exit
}

/// The thread blocks: reported, and `Block`.
pub fn ctx_block(ctx: &mut ThreadGlobalContext) -> (s: ThreadSignal)
    ensures
        s is Block,
        final(ctx).tid == old(ctx).tid,
        final(ctx).channels.blocked_queue@ == old(ctx).channels.blocked_queue@.push(old(ctx).tid),
        final(ctx).channels.yield_queue@ == old(ctx).channels.yield_queue@,
        final(ctx).channels.terminated_queue@ == old(ctx).channels.terminated_queue@,
        final(ctx).channels.shared_data@ == old(ctx).channels.shared_data@,
{
    let tid = ctx.tid;
    ctx.channels.report_block(tid);
    ThreadSignal::Block
}

/// Waits for the thread of `join_handle`: `Yield` when it has finished,
/// otherwise the thread blocks.
pub fn ctx_join(ctx: &mut ThreadGlobalContext, join_handle: &JoinHandle) -> (s: ThreadSignal)
    ensures
        join_handle.terminated ==> s is Yield && *final(ctx) == *old(ctx),
        !join_handle.terminated ==> s is Block
            && final(ctx).channels.blocked_queue@ == old(ctx).channels.blocked_queue@.push(old(ctx).tid),
        final(ctx).tid == old(ctx).tid,
{
    if join_handle.is_terminated() {
        ThreadSignal::Yield
    } else {
        ctx_block(ctx)
    }
}

/// Takes the mutex (`Continue`), or queues on it and blocks.
pub fn ctx_mutex_lock(ctx: &mut ThreadGlobalContext, mutex: &mut SimpleMutex) -> (s: ThreadSignal)
    ensures
        old(mutex).owner is None ==> s is Continue && final(mutex).owner == Some(old(ctx).tid)
            && final(mutex).wait_queue@ == old(mutex).wait_queue@ && *final(ctx) == *old(ctx),
        old(mutex).owner is Some ==> s is Block && final(mutex).owner == old(mutex).owner
            && final(mutex).wait_queue@ == old(mutex).wait_queue@.push(old(ctx).tid)
            && final(ctx).channels.blocked_queue@ == old(ctx).channels.blocked_queue@.push(old(ctx).tid),
        final(ctx).tid == old(ctx).tid,
{
    let tid = ctx.tid;
    if mutex.lock(tid) {
        ctx_block(ctx)
    } else {
        ThreadSignal::Continue
    }
}

/// Releases the mutex held by this thread, handing it to its first waiter.
pub fn ctx_mutex_unlock(ctx: &ThreadGlobalContext, mutex: &mut SimpleMutex) -> (s: ThreadSignal)
    requires
        old(mutex).owner == Some(ctx.tid),
    ensures
        s is Continue,
        old(mutex).wait_queue@.len() == 0 ==> final(mutex).owner is None
            && final(mutex).wait_queue@ == old(mutex).wait_queue@,
        old(mutex).wait_queue@.len() > 0 ==> final(mutex).owner == Some(old(mutex).wait_queue@[0])
            && final(mutex).wait_queue@ == old(mutex).wait_queue@.drop_first(),
{
    let tid = ctx.tid;
    let _next = mutex.unlock(tid);
    ThreadSignal::Continue
}

/// Takes the mutex if it is free; never blocks.
pub fn ctx_mutex_trylock(ctx: &ThreadGlobalContext, mutex: &mut SimpleMutex) -> (r: bool)
    ensures
        r == (old(mutex).owner is None),
        r ==> final(mutex).owner == Some(ctx.tid),
        !r ==> final(mutex).owner == old(mutex).owner,
        final(mutex).wait_queue@ == old(mutex).wait_queue@,
{
    mutex.try_lock(ctx.tid)
}

} // verus!
