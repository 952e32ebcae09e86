//! Mailboxes through which a thread reports what it did, shared named data,
//! join handles and the tid-owned mutex of the runtime.

use vstd::prelude::*;
use std::collections::VecDeque;
use crate::mypthreads::thread::ThreadId;

verus! {

/// The queues a thread reports into, and data stored under a name.
pub struct ThreadChannels {
    /// threads that yielded
    pub yield_queue: VecDeque<ThreadId>,
    /// threads that blocked
    pub blocked_queue: VecDeque<ThreadId>,
    /// threads that finished
    pub terminated_queue: VecDeque<ThreadId>,
    /// named data, newest value per name
    pub shared_data: Vec<(String, SharedData)>,
}

/// Data that threads can publish under a name.
pub enum SharedData {
    Counter(i32),
    Flag(bool),
    JoinHandle(JoinHandle),
    SimpleMutex(SimpleMutex),
}

/// Whether `a` holds the same data as `b`: the same kind, and the same
/// count, flag, finished mark, or owner and waiters.
pub open spec fn same_data(a: SharedData, b: SharedData) -> bool {
    match (a, b) {
        (SharedData::Counter(x), SharedData::Counter(y)) => x == y,
        (SharedData::Flag(x), SharedData::Flag(y)) => x == y,
        (SharedData::JoinHandle(x), SharedData::JoinHandle(y)) => x.terminated == y.terminated,
        (SharedData::SimpleMutex(x), SharedData::SimpleMutex(y)) => x.owner == y.owner
            && x.wait_queue@ == y.wait_queue@,
        _ => false,
    }
}

impl SharedData {
    /// A copy of the data.
    pub fn copy(&self) -> (r: Self)
        ensures
            same_data(r, *self),
    {
        match self {
            SharedData::Counter(x) => SharedData::Counter(*x),
            SharedData::Flag(x) => SharedData::Flag(*x),
            SharedData::JoinHandle(h) => SharedData::JoinHandle(JoinHandle { terminated: h.terminated }),
            SharedData::SimpleMutex(m) => SharedData::SimpleMutex(m.copy()),
        }
    }
}

/// The names stored in a list of named data, in order.
pub open spec fn data_keys(s: Seq<(String, SharedData)>) -> Seq<Seq<char>> {
    s.map_values(|e: (String, SharedData)| e.0@)
}

/// Named data `s` with `data` stored under `key`: in place of the entry of
/// that name, else added at the end.
pub open spec fn stored(s: Seq<(String, SharedData)>, key: String, data: SharedData) -> Seq<(String, SharedData)> {
    if data_keys(s).contains(key@) {
        s.update(data_keys(s).index_of(key@), (key, data))
    } else {
        s.push((key, data))
    }
}

/// Law: what is stored under a name is what is found under it afterwards,
/// and every other name keeps its entry.
pub proof fn law_store_read_back(s: Seq<(String, SharedData)>, key: String, data: SharedData, other: Seq<char>)
    requires
        data_keys(s).no_duplicates(),
        other != key@,
    ensures
        ({
            let t = stored(s, key, data);
            &&& data_keys(t).contains(key@)
            &&& t[data_keys(t).index_of(key@)] == (key, data)
            &&& data_keys(t).contains(other) == data_keys(s).contains(other)
            &&& data_keys(s).contains(other) ==> t[data_keys(t).index_of(other)] == s[data_keys(s).index_of(other)]
        }),
{
    let t = stored(s, key, data);
    let ks = data_keys(s);
    let kt = data_keys(t);
    if ks.contains(key@) {
        let i = ks.index_of(key@);
        assert(kt =~= ks.update(i, key@));
        assert(kt == ks);
        if ks.contains(other) {
            let j = ks.index_of(other);
            assert(j != i);
        }
    } else {
        assert(kt =~= ks.push(key@));
        assert(kt[ks.len() as int] == key@);
        assert(kt.index_of(key@) == ks.len()) by {
            let k = kt.index_of(key@);
            if k < ks.len() {
                assert(ks[k] == key@);
            }
        }
        if ks.contains(other) {
            let j = ks.index_of(other);
            assert(kt[j] == other);
            assert(kt.index_of(other) == j) by {
                let k = kt.index_of(other);
                if k < j {
                    assert(ks[k] == other);
                }
            }
        } else {
            assert(!kt.contains(other)) by {
                if kt.contains(other) {
                    let k = kt.index_of(other);
                    assert(ks[k] == other);
                }
            }
        }
    }
}

impl ThreadChannels {
    /// Empty queues and no named data.
    pub fn new() -> (r: Self)
        ensures
            r.yield_queue@ == Seq::<ThreadId>::empty(),
            r.blocked_queue@ == Seq::<ThreadId>::empty(),
            r.terminated_queue@ == Seq::<ThreadId>::empty(),
            r.shared_data@ == Seq::<(String, SharedData)>::empty(),
    {
        ThreadChannels {
            yield_queue: VecDeque::new(),
            blocked_queue: VecDeque::new(),
            terminated_queue: VecDeque::new(),
            shared_data: Vec::new(),
        }
    }

    /// A thread reports that it yielded.
    pub fn report_yield(&mut self, tid: ThreadId)
        ensures
            final(self).yield_queue@ == old(self).yield_queue@.push(tid),
            final(self).blocked_queue@ == old(self).blocked_queue@,
            final(self).terminated_queue@ == old(self).terminated_queue@,
            final(self).shared_data@ == old(self).shared_data@,
    {
        self.yield_queue.push_back(tid);
    }

    /// A thread reports that it blocked.
    pub fn report_block(&mut self, tid: ThreadId)
        ensures
            final(self).blocked_queue@ == old(self).blocked_queue@.push(tid),
            final(self).yield_queue@ == old(self).yield_queue@,
            final(self).terminated_queue@ == old(self).terminated_queue@,
            final(self).shared_data@ == old(self).shared_data@,
    {
        self.blocked_queue.push_back(tid);
    }

    /// A thread reports that it finished.
    pub fn report_exit(&mut self, tid: ThreadId)
        ensures
            final(self).terminated_queue@ == old(self).terminated_queue@.push(tid),
            final(self).yield_queue@ == old(self).yield_queue@,
            final(self).blocked_queue@ == old(self).blocked_queue@,
            final(self).shared_data@ == old(self).shared_data@,
    {
        self.terminated_queue.push_back(tid);
    }

    /// Stores `data` under `key`, replacing what was stored under it before.
    pub fn store(&mut self, key: String, data: SharedData)
        requires
            data_keys(old(self).shared_data@).no_duplicates(),
            old(self).shared_data@.len() < usize::MAX,
        ensures
            data_keys(final(self).shared_data@).no_duplicates(),
            final(self).shared_data@ == stored(old(self).shared_data@, key, data),
            final(self).yield_queue@ == old(self).yield_queue@,
            final(self).blocked_queue@ == old(self).blocked_queue@,
            final(self).terminated_queue@ == old(self).terminated_queue@,
    {
        let ghost keys = data_keys(self.shared_data@);
        let mut i: usize = 0;
        while i < self.shared_data.len()
            invariant
                0 <= i <= self.shared_data@.len(),
                self.shared_data@ == old(self).shared_data@,
                keys == data_keys(self.shared_data@),
                keys == data_keys(old(self).shared_data@),
                keys.no_duplicates(),
                self.yield_queue@ == old(self).yield_queue@,
                self.blocked_queue@ == old(self).blocked_queue@,
                self.terminated_queue@ == old(self).terminated_queue@,
                forall|j: int| 0 <= j < i ==> keys[j] != key@,
            decreases self.shared_data@.len() - i,
        {
            if self.shared_data[i].0 == key {
                proof {
                    assert(keys[i as int] == key@);
                    assert(keys.contains(key@));
                    let k = keys.index_of(key@);
                    assert(keys[k] == key@);
                    assert(0 <= k < keys.len());
                    assert(k == i as int);
                }
                self.shared_data.set(i, (key, data));
                proof {
                    assert(data_keys(self.shared_data@) =~= keys);
                }
                return;
            }
            i = i + 1;
        }
        proof {
            assert forall|j: int| 0 <= j < keys.len() implies keys[j] != key@ by {}
            assert(!keys.contains(key@));
        }
        self.shared_data.push((key, data));
        proof {
            assert(data_keys(self.shared_data@) =~= keys.push(key@));
        }
    }

    /// Whether something is stored under `key`, and if so a copy of the
    /// first entry of that name.
    pub fn get(&self, key: &str) -> (r: Option<SharedData>)
        ensures
            r is Some <==> data_keys(self.shared_data@).contains(key@),
            r is Some ==> exists|i: int|
                0 <= i < self.shared_data@.len() && #[trigger] data_keys(self.shared_data@)[i] == key@
                    && (forall|j: int| 0 <= j < i ==> data_keys(self.shared_data@)[j] != key@)
                    && same_data(r->0, self.shared_data@[i].1),
    {
        let wanted = key.to_owned();
        let mut i: usize = 0;
        while i < self.shared_data.len()
            invariant
                0 <= i <= self.shared_data@.len(),
                wanted@ == key@,
                forall|j: int| 0 <= j < i ==> data_keys(self.shared_data@)[j] != key@,
            decreases self.shared_data@.len() - i,
        {
            if self.shared_data[i].0 == wanted {
                proof {
                    assert(data_keys(self.shared_data@)[i as int] == key@);
                }
                return Some(self.shared_data[i].1.copy());
            }
            i = i + 1;
        }
        proof {
            let keys = data_keys(self.shared_data@);
            assert forall|j: int| 0 <= j < keys.len() implies keys[j] != key@ by {}
        }
        None
    }
}

/// Records whether a thread has finished. It is a plain value: a clone is a
/// copy, which later marks on the original do not reach.
#[derive(Clone)]
pub struct JoinHandle {
    pub terminated: bool,
}

impl JoinHandle {
    /// A handle of a thread that has not finished.
    pub fn new() -> (r: Self)
        ensures
            !r.terminated,
    {
        JoinHandle { terminated: false }
    }

    /// Records that the thread has finished.
    pub fn mark_terminated(&mut self)
        ensures
            final(self).terminated,
    {
        self.terminated = true;
    }

    /// Whether the thread has finished.
    pub fn is_terminated(&self) -> (r: bool)
        ensures
            r == self.terminated,
    {
        self.terminated
    }
}

/// A mutex owned by a thread id, with a FIFO queue of waiting threads. It
/// is a plain value: a clone is an independent copy.
#[derive(Clone)]
pub struct SimpleMutex {
    /// the owning thread, if the mutex is held
    pub owner: Option<ThreadId>,
    /// threads waiting for the mutex, first come first served
    pub wait_queue: VecDeque<ThreadId>,
}

impl SimpleMutex {
    /// A copy with the same owner and the same waiters.
    pub fn copy(&self) -> (r: Self)
        ensures
            r.owner == self.owner,
            r.wait_queue@ == self.wait_queue@,
    {
        let mut q: VecDeque<ThreadId> = VecDeque::new();
        let mut i: usize = 0;
        while i < self.wait_queue.len()
            invariant
                0 <= i <= self.wait_queue@.len(),
                q@ == self.wait_queue@.take(i as int),
            decreases self.wait_queue@.len() - i,
        {
            q.push_back(self.wait_queue[i]);
            proof {
                assert(q@ =~= self.wait_queue@.take(i + 1));
            }
            i = i + 1;
        }
        proof {
            assert(q@ =~= self.wait_queue@);
        }
        SimpleMutex { owner: self.owner, wait_queue: q }
    }

    /// A free mutex with nobody waiting.
    pub fn new() -> (r: Self)
        ensures
            r.owner is None,
            r.wait_queue@ == Seq::<ThreadId>::empty(),
    {
        SimpleMutex { owner: None, wait_queue: VecDeque::new() }
    }

    /// Takes the mutex for `tid` if it is free; reports whether it did.
    pub fn try_lock(&mut self, tid: ThreadId) -> (r: bool)
        ensures
            r == (old(self).owner is None),
            r ==> final(self).owner == Some(tid),
            !r ==> final(self).owner == old(self).owner,
            final(self).wait_queue@ == old(self).wait_queue@,
    {
        if self.owner.is_none() {
            self.owner = Some(tid);
            true
        } else {
            false
        }
    }

    /// Takes the mutex for `tid`, or queues `tid` behind the other waiters.
    /// Returns whether `tid` has to block.
    pub fn lock(&mut self, tid: ThreadId) -> (must_block: bool)
        ensures
            must_block == (old(self).owner is Some),
            !must_block ==> final(self).owner == Some(tid)
                && final(self).wait_queue@ == old(self).wait_queue@,
            must_block ==> final(self).owner == old(self).owner
                && final(self).wait_queue@ == old(self).wait_queue@.push(tid),
    {
        if self.try_lock(tid) {
            false
        } else {
            self.wait_queue.push_back(tid);
            true
        }
    }

    /// Releases the mutex held by `tid`: the first waiter, if any, becomes
    /// the owner and is returned; otherwise the mutex becomes free.
    pub fn unlock(&mut self, tid: ThreadId) -> (next: Option<ThreadId>)
        requires
            old(self).owner == Some(tid),
        ensures
            old(self).wait_queue@.len() == 0 ==> next is None && final(self).owner is None
                && final(self).wait_queue@ == old(self).wait_queue@,
            old(self).wait_queue@.len() > 0 ==> next == Some(old(self).wait_queue@[0])
                && final(self).owner == next
                && final(self).wait_queue@ == old(self).wait_queue@.drop_first(),
    {
        match self.wait_queue.pop_front() {
            Some(next_tid) => {
                self.owner = Some(next_tid);
                Some(next_tid)
            }
            None => {
                self.owner = None;
                None
            }
        }
    }

    /// Releases the mutex whoever holds it, handing it to the first waiter.
    pub fn force_unlock(&mut self)
        ensures
            old(self).wait_queue@.len() == 0 ==> final(self).owner is None
                && final(self).wait_queue@ == old(self).wait_queue@,
            old(self).wait_queue@.len() > 0 ==> final(self).owner == Some(old(self).wait_queue@[0])
                && final(self).wait_queue@ == old(self).wait_queue@.drop_first(),
    {
        match self.wait_queue.pop_front() {
            Some(next_tid) => {
                self.owner = Some(next_tid);
            }
            None => {
                self.owner = None;
            }
        }
    }
}

} // verus!
