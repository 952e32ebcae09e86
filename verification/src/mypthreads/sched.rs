//! Choosing the next thread to run among the ready ones: real-time threads
//! first, by earliest deadline; then a lottery weighted by tickets among the
//! others; then the first non-real-time thread; then the front of the queue.

use vstd::prelude::*;
use std::collections::VecDeque;
use crate::mypthreads::thread::{MyThread, ThreadId, ThreadView, SchedulerType};
use crate::random::random_below;

verus! {

/// The thread with id `t`, where thread `t` sits at index `t - 1`.
pub open spec fn lookup(threads: Seq<ThreadView>, t: ThreadId) -> Option<ThreadView> {
    if 1 <= t && t <= threads.len() {
        Some(threads[t - 1])
    } else {
        None
    }
}

/// `t` is a known real-time thread.
pub open spec fn is_real_time(threads: Seq<ThreadView>, t: ThreadId) -> bool {
    lookup(threads, t) is Some && lookup(threads, t)->0.sched_type == SchedulerType::RealTime
}

/// `t` is a known thread that takes part in the lottery.
pub open spec fn is_candidate(threads: Seq<ThreadView>, t: ThreadId) -> bool {
    lookup(threads, t) is Some && lookup(threads, t)->0.sched_type != SchedulerType::RealTime
}

/// The deadline by which real-time threads are ordered; none counts as the latest.
pub open spec fn rt_key(th: ThreadView) -> u64 {
    match th.deadline {
        Some(d) => d,
        None => u64::MAX,
    }
}

/// The earliest-deadline real-time thread of the queue; among equal
/// deadlines, the one nearest the front.
pub open spec fn earliest_deadline(
    ready: Seq<ThreadId>,
    threads: Seq<ThreadView>,
    i: int,
) -> bool {
    &&& 0 <= i < ready.len()
    &&& is_real_time(threads, ready[i])
    &&& forall|j: int| 0 <= j < ready.len() && is_real_time(threads, #[trigger] ready[j])
        ==> rt_key(threads[ready[i] - 1]) <= rt_key(threads[ready[j] - 1])
    &&& forall|j: int| 0 <= j < i && is_real_time(threads, #[trigger] ready[j])
        ==> rt_key(threads[ready[i] - 1]) < rt_key(threads[ready[j] - 1])
}

/// The lottery candidates of the queue, in queue order.
pub open spec fn candidates(ready: Seq<ThreadId>, threads: Seq<ThreadView>) -> Seq<ThreadId>
    decreases ready.len(),
{
    if ready.len() == 0 {
        Seq::empty()
    } else {
        let c = candidates(ready.drop_last(), threads);
        if is_candidate(threads, ready.last()) {
            c.push(ready.last())
        } else {
            c
        }
    }
}

/// The tickets held by the threads of `ts`.
pub open spec fn tickets_sum(ts: Seq<ThreadId>, threads: Seq<ThreadView>) -> nat
    decreases ts.len(),
{
    if ts.len() == 0 {
        0
    } else {
        tickets_sum(ts.drop_last(), threads) + (threads[ts.last() - 1].tickets as nat)
    }
}

/// The tickets of the first `k + 1` threads of `c`.
pub open spec fn prefix_tickets(c: Seq<ThreadId>, ts: Seq<ThreadView>, k: int) -> nat {
    tickets_sum(c.take(k + 1), ts)
}

/// The first index from `k` on whose running total of tickets reaches `winning`.
pub open spec fn first_reaching(c: Seq<ThreadId>, ts: Seq<ThreadView>, winning: nat, k: int) -> Option<int>
    decreases c.len() - k,
{
    if k < 0 || k >= c.len() {
        None
    } else if prefix_tickets(c, ts, k) >= winning {
        Some(k)
    } else {
        first_reaching(c, ts, winning, k + 1)
    }
}

/// The winner of a lottery drawn with ticket `winning`: the first candidate
/// whose running total of tickets reaches `winning`.
pub open spec fn lottery_winner(c: Seq<ThreadId>, ts: Seq<ThreadView>, winning: nat) -> Option<ThreadId> {
    match first_reaching(c, ts, winning, 0) {
        Some(k) => Some(c[k]),
        None => None,
    }
}

proof fn lemma_first_reaching_in_range(c: Seq<ThreadId>, ts: Seq<ThreadView>, w: nat, k: int)
    ensures
        first_reaching(c, ts, w, k) is Some ==> 0 <= first_reaching(c, ts, w, k)->0 < c.len(),
    decreases c.len() - k,
{
    if 0 <= k < c.len() && prefix_tickets(c, ts, k) < w {
        lemma_first_reaching_in_range(c, ts, w, k + 1);
    }
}

proof fn lemma_first_reaching_found(c: Seq<ThreadId>, ts: Seq<ThreadView>, w: nat, k: int, j: int)
    requires
        0 <= k <= j < c.len(),
        prefix_tickets(c, ts, j) >= w,
    ensures
        first_reaching(c, ts, w, k) is Some,
    decreases j - k,
{
    if prefix_tickets(c, ts, k) < w {
        lemma_first_reaching_found(c, ts, w, k + 1, j);
    }
}

/// The first lottery candidate of the queue.
pub open spec fn first_candidate(ready: Seq<ThreadId>, threads: Seq<ThreadView>) -> Option<ThreadId> {
    let c = candidates(ready, threads);
    if c.len() > 0 {
        Some(c[0])
    } else {
        None
    }
}

/// The views of a table of threads.
pub open spec fn views<E>(threads: Seq<MyThread<E>>) -> Seq<ThreadView> {
    threads.map_values(|t: MyThread<E>| t@)
}

proof fn lemma_tickets_sum_monotone(ts: Seq<ThreadId>, threads: Seq<ThreadView>, a: int, b: int)
    requires
        0 <= a <= b <= ts.len(),
    ensures
        tickets_sum(ts.take(a), threads) <= tickets_sum(ts.take(b), threads),
    decreases b - a,
{
    if a < b {
        lemma_tickets_sum_monotone(ts, threads, a, b - 1);
        assert(ts.take(b).drop_last() =~= ts.take(b - 1));
    }
}

/// The real-time thread with the earliest deadline, if the queue holds any.
fn schedule_real_time<E>(ready_queue: &VecDeque<ThreadId>, threads: &Vec<MyThread<E>>) -> (r: Option<ThreadId>)
    ensures
        r is None <==> forall|j: int| 0 <= j < ready_queue@.len()
            ==> !is_real_time(views(threads@), #[trigger] ready_queue@[j]),
        r is Some ==> exists|i: int| earliest_deadline(ready_queue@, views(threads@), i)
            && ready_queue@[i] == r->0,
{
    let ghost ts = views(threads@);
    let mut best: Option<(usize, u64)> = None;
    let mut i: usize = 0;
    while i < ready_queue.len()
        invariant
            0 <= i <= ready_queue@.len(),
            ts == views(threads@),
            best is None <==> forall|j: int| 0 <= j < i ==> !is_real_time(ts, #[trigger] ready_queue@[j]),
            best is Some ==> {
                let (bi, bk) = best->0;
                &&& bi < i
                &&& is_real_time(ts, ready_queue@[bi as int])
                &&& bk == rt_key(ts[ready_queue@[bi as int] - 1])
                &&& forall|j: int| 0 <= j < i && is_real_time(ts, #[trigger] ready_queue@[j])
                    ==> bk <= rt_key(ts[ready_queue@[j] - 1])
                &&& forall|j: int| 0 <= j < bi && is_real_time(ts, #[trigger] ready_queue@[j])
                    ==> bk < rt_key(ts[ready_queue@[j] - 1])
            },
        decreases ready_queue@.len() - i,
    {
        let tid = ready_queue[i];
        if tid >= 1 && (tid as usize) <= threads.len() {
            let th = &threads[(tid - 1) as usize];
            if th.sched_type == SchedulerType::RealTime {
                let key = match th.deadline {
                    Some(d) => d,
                    None => u64::MAX,
                };
                match best {
                    None => {
                        best = Some((i, key));
                    },
                    Some((_, bk)) => {
                        if key < bk {
                            best = Some((i, key));
                        }
                    },
                }
            }
        }
        i = i + 1;
    }
    match best {
        None => None,
        Some((bi, _)) => {
            proof {
                assert(earliest_deadline(ready_queue@, ts, bi as int));
            }
            Some(ready_queue[bi])
        },
    }
}

/// The lottery among the non-real-time threads of the queue, drawn with
/// ticket `winning`: no candidates, or no tickets at all, give `None`.
pub fn schedule_lottery_with_ticket<E>(
    ready_queue: &VecDeque<ThreadId>,
    threads: &Vec<MyThread<E>>,
    winning: u64,
) -> (r: Option<ThreadId>)
    requires
        tickets_sum(candidates(ready_queue@, views(threads@)), views(threads@)) <= u64::MAX,
    ensures
        ({
            let c = candidates(ready_queue@, views(threads@));
            let total = tickets_sum(c, views(threads@));
            r == if c.len() == 0 || total == 0 {
                None
            } else {
                lottery_winner(c, views(threads@), winning as nat)
            }
        }),
{
    let ghost ts = views(threads@);
    let ghost cands = candidates(ready_queue@, ts);
    let lottery_candidates = collect_candidates(ready_queue, threads);
    if lottery_candidates.len() == 0 {
        return None;
    }
    let total = candidate_tickets(ready_queue, threads);
    if total == Some(0u64) {
        return None;
    }
    // the first candidate whose running total reaches the winning ticket
    let mut acc: u64 = 0;
    let mut k: usize = 0;
    while k < lottery_candidates.len()
        invariant
            0 <= k <= lottery_candidates@.len(),
            lottery_candidates@ == cands,
            ts == views(threads@),
            tickets_sum(cands, ts) <= u64::MAX,
            tickets_sum(cands, ts) > 0,
            cands.len() > 0,
            cands == candidates(ready_queue@, ts),
            acc == tickets_sum(cands.take(k as int), ts),
            first_reaching(cands, ts, winning as nat, 0) == first_reaching(cands, ts, winning as nat, k as int),
            forall|j: int| 0 <= j < cands.len() ==> is_candidate(ts, #[trigger] cands[j]),
        decreases lottery_candidates@.len() - k,
    {
        proof {
            lemma_prefix_step(cands, ts, k as int);
        }
        let tid = lottery_candidates[k];
        proof {
            assert(ts[tid - 1] == threads@[tid - 1]@);
        }
        acc = acc + threads[(tid - 1) as usize].tickets as u64;
        proof {
            assert(acc == prefix_tickets(cands, ts, k as int));
            assert(cands.take(k + 1) =~= cands.take(k + 1));
        }
        if acc >= winning {
            proof {
                assert(tid == cands[k as int]);
                assert(lottery_winner(cands, ts, winning as nat) == Some(tid));
                assert(cands.len() != 0);
                assert(tickets_sum(cands, ts) != 0);
            }
            return Some(tid);
        }
        k = k + 1;
    }
    None
}

proof fn lemma_prefix_step(c: Seq<ThreadId>, ts: Seq<ThreadView>, k: int)
    requires
        0 <= k < c.len(),
        tickets_sum(c, ts) <= u64::MAX,
        forall|j: int| 0 <= j < c.len() ==> is_candidate(ts, #[trigger] c[j]),
    ensures
        prefix_tickets(c, ts, k) == tickets_sum(c.take(k), ts) + ts[c[k] - 1].tickets,
        prefix_tickets(c, ts, k) <= u64::MAX,
        1 <= c[k] <= ts.len(),
{
    assert(c.take(k + 1).drop_last() =~= c.take(k));
    assert(c.take(k + 1).last() == c[k]);
    lemma_tickets_sum_monotone(c, ts, k + 1, c.len() as int);
    assert(c.take(c.len() as int) =~= c);
    assert(is_candidate(ts, c[k]));
}



/// The lottery candidates of the queue, in queue order.
fn collect_candidates<E>(ready_queue: &VecDeque<ThreadId>, threads: &Vec<MyThread<E>>) -> (c: Vec<ThreadId>)
    ensures
        c@ == candidates(ready_queue@, views(threads@)),
        forall|j: int| 0 <= j < c@.len() ==> is_candidate(views(threads@), #[trigger] c@[j]),
{
    let ghost ts = views(threads@);
    let mut c: Vec<ThreadId> = Vec::new();
    let mut i: usize = 0;
    while i < ready_queue.len()
        invariant
            0 <= i <= ready_queue@.len(),
            ts == views(threads@),
            c@ == candidates(ready_queue@.take(i as int), ts),
            forall|j: int| 0 <= j < c@.len() ==> is_candidate(ts, #[trigger] c@[j]),
        decreases ready_queue@.len() - i,
    {
        let tid = ready_queue[i];
        proof {
            assert(ready_queue@.take(i + 1).drop_last() =~= ready_queue@.take(i as int));
            assert(ready_queue@.take(i + 1).last() == tid);
        }
        if tid >= 1 && (tid as usize) <= threads.len()
            && threads[(tid - 1) as usize].sched_type != SchedulerType::RealTime {
            c.push(tid);
        }
        i = i + 1;
    }
    proof {
        assert(ready_queue@.take(i as int) =~= ready_queue@);
    }
    c
}

/// The first thread of the queue that is not real-time.
fn schedule_round_robin<E>(ready_queue: &VecDeque<ThreadId>, threads: &Vec<MyThread<E>>) -> (r: Option<ThreadId>)
    ensures
        r == first_candidate(ready_queue@, views(threads@)),
{
    let ghost ts = views(threads@);
    let mut i: usize = 0;
    while i < ready_queue.len()
        invariant
            0 <= i <= ready_queue@.len(),
            ts == views(threads@),
            candidates(ready_queue@.take(i as int), ts).len() == 0,
        decreases ready_queue@.len() - i,
    {
        let tid = ready_queue[i];
        proof {
            assert(ready_queue@.take(i + 1).drop_last() =~= ready_queue@.take(i as int));
            assert(ready_queue@.take(i + 1).last() == tid);
        }
        if tid >= 1 && (tid as usize) <= threads.len()
            && threads[(tid - 1) as usize].sched_type != SchedulerType::RealTime {
            proof {
                assert(is_candidate(ts, tid));
                assert(candidates(ready_queue@.take(i + 1), ts) =~= seq![tid]);
                lemma_candidates_prefix(ready_queue@, ts, i + 1);
                assert(candidates(ready_queue@.take(i + 1), ts)[0] == tid);
                assert(candidates(ready_queue@, ts)[0] == tid);
            }
            return Some(tid);
        }
        i = i + 1;
    }
    proof {
        assert(ready_queue@.take(i as int) =~= ready_queue@);
    }
    None
}

/// The candidates of a prefix of the queue begin the candidates of the queue.
proof fn lemma_candidates_prefix(s: Seq<ThreadId>, ts: Seq<ThreadView>, n: int)
    requires
        0 <= n <= s.len(),
    ensures
        candidates(s.take(n), ts).len() <= candidates(s, ts).len(),
        forall|j: int| 0 <= j < candidates(s.take(n), ts).len()
            ==> candidates(s, ts)[j] == #[trigger] candidates(s.take(n), ts)[j],
    decreases s.len() - n,
{
    if n < s.len() {
        lemma_candidates_prefix(s, ts, n + 1);
        assert(s.take(n + 1).drop_last() =~= s.take(n));
        let a = candidates(s.take(n), ts);
        let b = candidates(s.take(n + 1), ts);
        assert(a.len() <= b.len());
        assert forall|j: int| 0 <= j < a.len() implies candidates(s, ts)[j] == #[trigger] a[j] by {
            assert(b[j] == a[j]);
            assert(candidates(s, ts)[j] == b[j]);
        }
    } else {
        assert(s.take(n) =~= s);
    }
}

/// A lottery among the threads of the queue that are not real time: a
/// ticket is drawn at random from 1 to their total, and the thread holding
/// it wins. No lottery is drawn when there are no such threads, no
/// tickets, or more tickets than a `u64` counts.
fn schedule_lottery<E>(ready_queue: &VecDeque<ThreadId>, threads: &Vec<MyThread<E>>) -> (r: Option<ThreadId>)
    ensures
        ({
            let ts = views(threads@);
            let c = candidates(ready_queue@, ts);
            &&& !(0 < tickets_sum(c, ts) <= u64::MAX) ==> r is None
            &&& 0 < tickets_sum(c, ts) <= u64::MAX ==> r is Some && ready_queue@.contains(r->0)
                && exists|w: nat| 1 <= w <= tickets_sum(c, ts) && r == lottery_winner(c, ts, w)
        }),
{
    let ghost ts = views(threads@);
    let ghost c = candidates(ready_queue@, ts);
    let total = match candidate_tickets(ready_queue, threads) {
        None => {
            return None;
        },
        Some(t) => t,
    };
    if total == 0 {
        return None;
    }
    let winning = random_below(0, total) + 1;
    let r = schedule_lottery_with_ticket(ready_queue, threads, winning);
    proof {
        assert(c.len() > 0) by {
            if c.len() == 0 {
                assert(tickets_sum(c, ts) == 0);
            }
        }
        assert(c.take(c.len() as int) =~= c);
        lemma_first_reaching_found(c, ts, winning as nat, 0, c.len() - 1);
        lemma_first_reaching_in_range(c, ts, winning as nat, 0);
        lemma_candidates_in_queue(ready_queue@, ts);
        assert(c.contains(r->0));
        assert(1 <= winning as nat <= tickets_sum(c, ts) && r == lottery_winner(c, ts, winning as nat));
    }
    r
}

/// Chooses the next thread: the earliest-deadline real-time thread if the
/// queue holds one; otherwise, when a lottery thread is ready, a lottery
/// weighted by tickets among all the threads that are not real time; when
/// no lottery thread is ready or the lottery cannot be drawn, the first
/// such thread, in turn; when there is none, the front of the queue.
pub fn select_next_thread<E>(
    ready_queue: &VecDeque<ThreadId>,
    threads: &Vec<MyThread<E>>,
    now_ms: u64,
) -> (r: Option<ThreadId>)
    ensures
        ready_queue@.len() == 0 ==> r is None,
        ready_queue@.len() > 0 ==> r is Some && ready_queue@.contains(r->0)
            && scheduled(ready_queue@, views(threads@), r->0),
{
    let ghost ts = views(threads@);
    let ghost c = candidates(ready_queue@, ts);
    if ready_queue.len() == 0 {
        return None;
    }
    if let Some(tid) = schedule_real_time(ready_queue, threads) {
        return Some(tid);
    }
    if has_lottery_thread(ready_queue, threads) {
        if let Some(tid) = schedule_lottery(ready_queue, threads) {
            return Some(tid);
        }
    }
    if let Some(tid) = schedule_round_robin(ready_queue, threads) {
        proof {
            lemma_candidates_in_queue(ready_queue@, ts);
            assert(c.contains(c[0]));
        }
        return Some(tid);
    }
    proof {
        assert(ready_queue@.contains(ready_queue@[0]));
    }
    Some(ready_queue[0])
}


/// From index `m` on, the first candidate whose running total of tickets
/// reaches `w` is `j`, when the totals before `j` fall short of `w`.
proof fn lemma_first_reaching_is(c: Seq<ThreadId>, ts: Seq<ThreadView>, w: nat, m: int, j: int)
    requires
        0 <= m <= j < c.len(),
        tickets_sum(c.take(j), ts) < w <= prefix_tickets(c, ts, j),
    ensures
        first_reaching(c, ts, w, m) == Some(j),
    decreases j - m,
{
    if m < j {
        lemma_tickets_sum_monotone(c, ts, m + 1, j);
        lemma_first_reaching_is(c, ts, w, m + 1, j);
    }
}

/// Law: each candidate of the lottery owns as many winning tickets as it
/// holds. The tickets are numbered from 1 in queue order, candidate `j`
/// holding the next `tickets` numbers; whatever number is drawn in its
/// range, candidate `j` wins. So every candidate with tickets can be
/// chosen, and, when no real-time thread is ready and a lottery thread
/// is, the scheduler may choose it.
pub proof fn law_lottery_tickets_win(ready: Seq<ThreadId>, ts: Seq<ThreadView>, j: int, w: nat)
    requires
        0 <= j < candidates(ready, ts).len(),
        tickets_sum(candidates(ready, ts).take(j), ts) < w <= tickets_sum(candidates(ready, ts).take(j + 1), ts),
    ensures
        lottery_winner(candidates(ready, ts), ts, w) == Some(candidates(ready, ts)[j]),
        1 <= w <= tickets_sum(candidates(ready, ts), ts),
        (forall|i: int| 0 <= i < ready.len() ==> !is_real_time(ts, #[trigger] ready[i])) && has_lottery(ready, ts)
            && tickets_sum(candidates(ready, ts), ts) <= u64::MAX ==> scheduled(ready, ts, candidates(ready, ts)[j]),
{
    let c = candidates(ready, ts);
    lemma_first_reaching_is(c, ts, w, 0, j);
    lemma_tickets_sum_monotone(c, ts, j + 1, c.len() as int);
    assert(c.take(c.len() as int) =~= c);
}

/// The tickets of the lottery candidates of the queue, when their total
/// fits in a `u64`.
fn candidate_tickets<E>(ready_queue: &VecDeque<ThreadId>, threads: &Vec<MyThread<E>>) -> (total: Option<u64>)
    ensures
        total is Some <==> tickets_sum(candidates(ready_queue@, views(threads@)), views(threads@)) <= u64::MAX,
        total is Some ==> total->0 == tickets_sum(candidates(ready_queue@, views(threads@)), views(threads@)),
{
    let ghost ts = views(threads@);
    let c = collect_candidates(ready_queue, threads);
    let mut total: u64 = 0;
    let mut k: usize = 0;
    while k < c.len()
        invariant
            0 <= k <= c@.len(),
            ts == views(threads@),
            c@ == candidates(ready_queue@, ts),
            total == tickets_sum(c@.take(k as int), ts),
            forall|j: int| 0 <= j < c@.len() ==> is_candidate(ts, #[trigger] c@[j]),
        decreases c@.len() - k,
    {
        let tid = c[k];
        proof {
            assert(c@.take(k + 1).drop_last() =~= c@.take(k as int));
            assert(c@.take(k + 1).last() == tid);
            assert(is_candidate(ts, tid));
            assert(ts[tid - 1] == threads@[tid - 1]@);
        }
        match total.checked_add(threads[(tid - 1) as usize].tickets as u64) {
            None => {
                proof {
                    lemma_tickets_sum_monotone(c@, ts, k + 1, c@.len() as int);
                    assert(c@.take(c@.len() as int) =~= c@);
                }
                return None;
            },
            Some(t) => {
                total = t;
            },
        }
        k = k + 1;
    }
    proof {
        assert(c@.take(k as int) =~= c@);
    }
    Some(total)
}

/// Some thread of the queue runs under the lottery policy.
pub open spec fn has_lottery(ready: Seq<ThreadId>, threads: Seq<ThreadView>) -> bool {
    exists|j: int| 0 <= j < ready.len() && #[trigger] lookup(threads, ready[j]) is Some
        && lookup(threads, ready[j])->0.sched_type == SchedulerType::Lottery
}

/// Whether some thread of the queue runs under the lottery policy.
fn has_lottery_thread<E>(ready_queue: &VecDeque<ThreadId>, threads: &Vec<MyThread<E>>) -> (r: bool)
    ensures
        r == has_lottery(ready_queue@, views(threads@)),
{
    let ghost ts = views(threads@);
    let mut i: usize = 0;
    while i < ready_queue.len()
        invariant
            0 <= i <= ready_queue@.len(),
            ts == views(threads@),
            forall|j: int| 0 <= j < i ==> !(#[trigger] lookup(ts, ready_queue@[j]) is Some
                && lookup(ts, ready_queue@[j])->0.sched_type == SchedulerType::Lottery),
        decreases ready_queue@.len() - i,
    {
        let tid = ready_queue[i];
        if tid >= 1 && (tid as usize) <= threads.len()
            && threads[(tid - 1) as usize].sched_type == SchedulerType::Lottery {
            proof {
                assert(lookup(ts, ready_queue@[i as int]) is Some);
            }
            return true;
        }
        i = i + 1;
    }
    false
}

/// Whether `t` is the thread the policies may choose from the queue: the
/// earliest-deadline real-time thread when there is one; else, when a
/// lottery thread is ready and the lottery's tickets are not zero, the
/// holder of some ticket drawn among all non-real-time threads; else the
/// first non-real-time thread (round robin); else the front.
pub open spec fn scheduled(ready: Seq<ThreadId>, ts: Seq<ThreadView>, t: ThreadId) -> bool {
    let c = candidates(ready, ts);
    if exists|j: int| 0 <= j < ready.len() && is_real_time(ts, #[trigger] ready[j]) {
        exists|i: int| earliest_deadline(ready, ts, i) && ready[i] == t
    } else if has_lottery(ready, ts) && 0 < tickets_sum(c, ts) <= u64::MAX {
        exists|w: nat| 1 <= w <= tickets_sum(c, ts) && lottery_winner(c, ts, w) == Some(t)
    } else if c.len() > 0 {
        t == c[0]
    } else {
        t == ready[0]
    }
}

proof fn lemma_candidates_in_queue(ready: Seq<ThreadId>, ts: Seq<ThreadView>)
    ensures
        forall|t: ThreadId| #[trigger] candidates(ready, ts).contains(t) ==> ready.contains(t),
    decreases ready.len(),
{
    if ready.len() > 0 {
        lemma_candidates_in_queue(ready.drop_last(), ts);
        assert forall|t: ThreadId| #[trigger] candidates(ready, ts).contains(t) implies ready.contains(t) by {
            if candidates(ready.drop_last(), ts).contains(t) {
                assert(ready.drop_last().contains(t));
                let i = choose|i: int| 0 <= i < ready.drop_last().len() && ready.drop_last()[i] == t;
                assert(ready[i] == t);
            } else {
                assert(t == ready.last());
                assert(ready[ready.len() - 1] == t);
            }
        }
    }
}

} // verus!
