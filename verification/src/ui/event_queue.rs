//! A first-in first-out queue of the events the viewer animates.

use vstd::prelude::*;
use std::collections::VecDeque;

verus! {

/// The kinds of entities the viewer shows.
#[derive(Clone, Debug)]
pub enum EntityKind {
    Car,
    Ambulance,
    Boat,
    Truck,
}

/// What the viewer is told.
#[derive(Debug)]
pub enum UiEvent {
    Spawn { id: u32, kind: EntityKind, pos: (u32, u32) },
    Move { id: u32, to: (u32, u32) },
    Remove { id: u32 },
    Log(String),
    SimulationFinished,
    PlantExploded { id: u32 },
    PlantRecovered { id: u32 },
}

/// The events not yet animated, oldest first.
pub struct EventQueue {
    queue: VecDeque<UiEvent>,
}

impl View for EventQueue {
    type V = Seq<UiEvent>;

    closed spec fn view(&self) -> Seq<UiEvent> {
        self.queue@
    }
}

impl EventQueue {
    /// An empty queue.
    pub fn new() -> (q: Self)
        ensures
            q@ == Seq::<UiEvent>::empty(),
    {
        EventQueue { queue: VecDeque::new() }
    }

    /// Adds `ev` after the others.
    pub fn push(&mut self, ev: UiEvent)
        ensures
            final(self)@ == old(self)@.push(ev),
            final(self)@ == queue_op(old(self)@, Some(ev)).0,
    {
        self.queue.push_back(ev);
    }

    /// Takes the oldest event, if any.
    pub fn pop(&mut self) -> (ev: Option<UiEvent>)
        ensures
            old(self)@.len() == 0 ==> ev is None && final(self)@ == old(self)@,
            old(self)@.len() > 0 ==> ev == Some(old(self)@[0]) && final(self)@ == old(self)@.drop_first(),
            final(self)@ == queue_op(old(self)@, None).0,
            ev == queue_op(old(self)@, None).1,
    {
        self.queue.pop_front()
    }

    /// Whether no event waits.
    pub fn is_empty(&self) -> (r: bool)
        ensures
            r == (self@.len() == 0),
    {
        self.queue.len() == 0
    }
}

/// One operation on the events of a queue: `Some(e)` pushes `e`, `None`
/// pops. Gives the events afterwards and what a pop returned.
pub open spec fn queue_op(q: Seq<UiEvent>, op: Option<UiEvent>) -> (Seq<UiEvent>, Option<UiEvent>) {
    match op {
        Some(e) => (q.push(e), None),
        None => if q.len() > 0 {
            (q.drop_first(), Some(q[0]))
        } else {
            (q, None)
        },
    }
}

/// `n` pops from a queue holding `q`: what they return, in order, and the
/// events left.
pub open spec fn pops(q: Seq<UiEvent>, n: nat) -> (Seq<Option<UiEvent>>, Seq<UiEvent>)
    decreases n,
{
    if n == 0 {
        (Seq::empty(), q)
    } else {
        let (r, out) = queue_op(q, None);
        let (rest, left) = pops(r, (n - 1) as nat);
        (seq![out] + rest, left)
    }
}

/// A run of operations from a queue holding `q`: the events afterwards,
/// the number of pushes and the number of pops that returned an event.
pub open spec fn run_ops(q: Seq<UiEvent>, ops: Seq<Option<UiEvent>>) -> (Seq<UiEvent>, nat, nat)
    decreases ops.len(),
{
    if ops.len() == 0 {
        (q, 0, 0)
    } else {
        let (q1, pushed, got) = run_ops(q, ops.drop_last());
        let (q2, out) = queue_op(q1, ops.last());
        (q2, pushed + if ops.last() is Some { 1nat } else { 0nat }, got + if out is Some { 1nat } else { 0nat })
    }
}

/// Law: first in, first out, for any number of events: a queue holding
/// `q` gives its events back in order, one per pop, then `None`, and is
/// left empty.
pub proof fn law_events_fifo_all(q: Seq<UiEvent>)
    ensures
        pops(q, q.len() + 1).0 == q.map_values(|e: UiEvent| Some(e)).push(None),
        pops(q, q.len() + 1).1 == Seq::<UiEvent>::empty(),
    decreases q.len(),
{
    if q.len() == 0 {
        assert(pops(q, 0) == (Seq::<Option<UiEvent>>::empty(), q));
        assert(pops(q, 1).0 =~= seq![None]);
        assert(q.map_values(|e: UiEvent| Some(e)).push(None) =~= seq![None]);
        assert(q =~= Seq::<UiEvent>::empty());
    } else {
        let r = q.drop_first();
        law_events_fifo_all(r);
        assert(pops(q, q.len() + 1) == (seq![Some(q[0])] + pops(r, r.len() + 1).0, pops(r, r.len() + 1).1));
        assert(seq![Some(q[0])] + r.map_values(|e: UiEvent| Some(e)).push(None)
            =~= q.map_values(|e: UiEvent| Some(e)).push(None));
    }
}

/// Law: pushing events one by one onto a queue appends them in order.
pub proof fn law_pushes_append(q: Seq<UiEvent>, es: Seq<UiEvent>)
    ensures
        run_ops(q, es.map_values(|e: UiEvent| Some(e))).0 == q + es,
    decreases es.len(),
{
    let ops = es.map_values(|e: UiEvent| Some(e));
    if es.len() == 0 {
        assert(q + es =~= q);
    } else {
        law_pushes_append(q, es.drop_last());
        assert(ops.drop_last() =~= es.drop_last().map_values(|e: UiEvent| Some(e)));
        assert((q + es.drop_last()).push(es.last()) =~= q + es);
    }
}

/// Law: a queue holds as many events as were pushed onto it minus the pops
/// that returned one; started empty, it is empty exactly when the pushes
/// equal the successful pops.
pub proof fn law_count_pushes_pops(q: Seq<UiEvent>, ops: Seq<Option<UiEvent>>)
    ensures
        run_ops(q, ops).0.len() + run_ops(q, ops).2 == q.len() + run_ops(q, ops).1,
        q.len() == 0 ==> (run_ops(q, ops).0.len() == 0 <==> run_ops(q, ops).1 == run_ops(q, ops).2),
    decreases ops.len(),
{
    if ops.len() > 0 {
        law_count_pushes_pops(q, ops.drop_last());
    }
}

/// Law: events come out in the order they went in: after pushing `a` and
/// then `b` on an empty queue, `a` comes out first, then `b`.
pub proof fn law_events_fifo(q: Seq<UiEvent>, a: UiEvent, b: UiEvent)
    requires
        q.len() == 0,
    ensures
        q.push(a).push(b)[0] == a,
        q.push(a).push(b).drop_first() == seq![b],
{
    assert(q.push(a).push(b).drop_first() =~= seq![b]);
}

} // verus!
