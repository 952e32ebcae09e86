//! The city as a whole: its clock, its bridges, shops and plants, the
//! spawning schedule of new vehicles, and the agents that run in it.

pub mod spawner;
pub mod simulation;

use vstd::prelude::*;
use crate::city::model::grid::Grid;
use crate::city::model::coord::Coord;
use crate::city::model::river::River;
use crate::city::model::bridge::{Bridge, BridgeType, BridgeState};
use crate::city::model::commerce::Commerce;
use crate::city::model::nuclear::{NuclearPlant, SupplySpec, SupplyKind, DeadlinePolicy, PlantStatus, supply_index};
use crate::city::agents::vehicle::{AgentInfo, AgentType};
use crate::mypthreads::thread::ThreadId;
use crate::mypthreads::sync::{MyMutexCell, shared};
use crate::random::{random_below, random_chance};

verus! {

/// When the next vehicle and the next boat appear.
#[derive(Debug, Clone, Copy)]
pub struct Spawner {
    pub next_vehicle_spawn_ms: u64,
    pub next_boat_spawn_ms: u64,
}

/// Something that happened to a plant during a deadline check.
#[derive(Debug, Clone, Copy, PartialEq, Eq, Structural)]
pub enum PlantEvent {
    /// The plant exploded for lack of `kind` at time `at_ms`, past its limit
    /// `limit_ms`, and was restarted.
    Exploded { plant: u32, kind: SupplyKind, at_ms: u64, limit_ms: u64 },
    /// The plant is at risk for `kind` at time `at_ms`; its deadline is `deadline_ms`.
    AtRisk { plant: u32, kind: SupplyKind, at_ms: u64, deadline_ms: u64 },
}

pub struct City {
    pub time_ms: u64,
    pub grid: Grid,
    pub river: Option<River>,
    pub bridges: Vec<Bridge>,
    pub commerces: Vec<Commerce>,
    pub plants: Vec<NuclearPlant>,
    pub spawner: Spawner,
    pub agents: Vec<(ThreadId, AgentInfo)>,
}

/// A guarded city.
pub type SharedCity = MyMutexCell<City>;

/// The outcome of the deadline check of supply `j` onwards for a plant,
/// at time `now`: the plant, and the events in order.
pub open spec fn deadline_check_from(p: NuclearPlant, now: u64, j: int) -> (NuclearPlant, Seq<PlantEvent>)
    decreases p.required@.len() - j,
{
    if j < 0 || j >= p.required@.len() {
        (p, Seq::empty())
    } else {
        let s = p.required@[j];
        let last = p.last_delivery(s.kind);
        let deadline = last + s.deadline_ms;
        let fail_time = deadline + p.deadline_policy.max_lateness_ms;
        let risk_time = last + s.deadline_ms * 4 / 5;
        if now > fail_time {
            (p.reset_spec(now), seq![PlantEvent::Exploded { plant: p.id, kind: s.kind, at_ms: now, limit_ms: fail_time as u64 }])
        } else if now > risk_time && p.status == PlantStatus::Normal {
            let q = NuclearPlant { status: PlantStatus::AtRisk, ..p };
            let (r, ev) = deadline_check_from(q, now, j + 1);
            (r, seq![PlantEvent::AtRisk { plant: p.id, kind: s.kind, at_ms: now, deadline_ms: deadline as u64 }] + ev)
        } else {
            deadline_check_from(p, now, j + 1)
        }
    }
}

/// The events of the deadline checks of the plants `ps`, in order.
pub open spec fn deadline_events(ps: Seq<NuclearPlant>, now: u64) -> Seq<PlantEvent>
    decreases ps.len(),
{
    if ps.len() == 0 {
        Seq::empty()
    } else {
        deadline_events(ps.drop_last(), now) + deadline_check_from(ps.last().raise_spec(now).0, now, 0).1
    }
}

/// The deadlines of every required supply, plus the allowed lateness, fit
/// in the clock.
pub open spec fn deadlines_fit(p: NuclearPlant) -> bool {
    forall|j: int| 0 <= j < p.required@.len() ==> p.last_delivery(#[trigger] p.required@[j].kind)
        + p.required@[j].deadline_ms + p.deadline_policy.max_lateness_ms <= u64::MAX
}

impl City {
    /// Every bridge is consistent, and no traffic light switched in the future.
    pub open spec fn wf(&self) -> bool {
        forall|i: int| 0 <= i < self.bridges@.len() ==> (#[trigger] self.bridges@[i]).wf()
            && (self.bridges@[i].bridge_type == BridgeType::TrafficLight
            ==> self.bridges@[i].state.last_light_change_ms <= self.time_ms)
    }

    /// The index of the first bridge with id `id`.
    pub open spec fn bridge_index(&self, id: u32) -> Option<int> {
        if exists|i: int| 0 <= i < self.bridges@.len() && #[trigger] self.bridges@[i].id == id {
            Some(choose|i: int| 0 <= i < self.bridges@.len() && #[trigger] self.bridges@[i].id == id
                && forall|k: int| 0 <= k < i ==> #[trigger] self.bridges@[k].id != id)
        } else {
            None
        }
    }

    /// An empty city of `rows` by `cols` blocks at time 0.
    pub fn new(rows: u32, cols: u32) -> (c: Self)
        ensures
            c.time_ms == 0,
            c.grid == (Grid { rows, cols }),
            c.river is None,
            c.bridges@.len() == 0,
            c.commerces@.len() == 0,
            c.plants@.len() == 0,
            c.spawner == (Spawner { next_vehicle_spawn_ms: 1000, next_boat_spawn_ms: 5000 }),
            c.agents@.len() == 0,
            c.wf(),
    {
        City {
            time_ms: 0,
            grid: Grid::new(rows, cols),
            river: None,
            bridges: Vec::new(),
            commerces: Vec::new(),
            plants: Vec::new(),
            spawner: Spawner { next_vehicle_spawn_ms: 1000, next_boat_spawn_ms: 5000 },
            agents: Vec::new(),
        }
    }

    pub fn add_river(&mut self)
        ensures
            *final(self) == (City { river: Some(River {}), ..*old(self) }),
    {
        self.river = Some(River::default());
    }

    pub fn add_bridge(&mut self, bridge: Bridge)
        requires
            old(self).wf(),
            bridge.wf(),
            bridge.bridge_type == BridgeType::TrafficLight ==> bridge.state.last_light_change_ms <= old(self).time_ms,
        ensures
            final(self).bridges@ == old(self).bridges@.push(bridge),
            *final(self) == (City { bridges: final(self).bridges, ..*old(self) }),
            final(self).wf(),
    {
        self.bridges.push(bridge);
    }

    pub fn add_commerce(&mut self, id: u32, loc: (u32, u32))
        ensures
            final(self).commerces@ == old(self).commerces@.push(Commerce { id, location: Coord { x: loc.0, y: loc.1 } }),
            *final(self) == (City { commerces: final(self).commerces, ..*old(self) }),
    {
        self.commerces.push(Commerce::new(id, Coord::new(loc.0, loc.1)));
    }

    pub fn add_nuclear_plant(&mut self, id: u32, loc: (u32, u32), required: Vec<SupplySpec>, policy: DeadlinePolicy)
        ensures
            final(self).plants@.len() == old(self).plants@.len() + 1,
            forall|i: int| 0 <= i < old(self).plants@.len() ==> final(self).plants@[i] == old(self).plants@[i],
            ({
                let p = final(self).plants@[old(self).plants@.len() as int];
                &&& p.id == id
                &&& p.loc == Coord { x: loc.0, y: loc.1 }
                &&& p.required@ == required@
                &&& p.deadline_policy == policy
                &&& p.status == PlantStatus::Normal
                &&& p.last_radioactive_ms == 0 && p.last_water_ms == 0
                &&& !p.risk_radioactive && !p.risk_water
            }),
            *final(self) == (City { plants: final(self).plants, ..*old(self) }),
    {
        self.plants.push(NuclearPlant::new(id, Coord::new(loc.0, loc.1), required, policy));
    }

    /// Whether the clock can advance by `dt_ms`, the plants be checked and
    /// the next arrivals be scheduled without leaving the clock's range.
    pub open spec fn tick_fits(&self, dt_ms: u64) -> bool {
        &&& self.time_ms + dt_ms + 30000 <= u64::MAX
        &&& forall|i: int| 0 <= i < self.plants@.len() ==> {
            let p = #[trigger] self.plants@[i];
            &&& self.time_ms + dt_ms + p.guard_ms() <= u64::MAX
            &&& deadlines_fit(p)
        }
    }

    /// Tells whether the clock can advance by `dt_ms`, the plants be
    /// checked and the next arrivals be scheduled within the clock's range.
    pub fn clock_fits(&self, dt_ms: u64) -> (ok: bool)
        ensures
            ok == self.tick_fits(dt_ms),
    {
        if self.time_ms > u64::MAX - 30000 || dt_ms > u64::MAX - 30000 - self.time_ms {
            return false;
        }
        let now = self.time_ms + dt_ms;
        let mut i: usize = 0;
        while i < self.plants.len()
            invariant
                0 <= i <= self.plants@.len(),
                now == self.time_ms + dt_ms,
                self.time_ms + dt_ms + 30000 <= u64::MAX,
                forall|k: int| 0 <= k < i ==> {
                    let p = #[trigger] self.plants@[k];
                    &&& self.time_ms + dt_ms + p.guard_ms() <= u64::MAX
                    &&& deadlines_fit(p)
                },
            decreases self.plants@.len() - i,
        {
            let p = &self.plants[i];
            let guard = p.deadline_policy.max_lateness_ms / 5;
            if now > u64::MAX - guard {
                return false;
            }
            let mut j: usize = 0;
            while j < p.required.len()
                invariant
                    0 <= j <= p.required@.len(),
                    0 <= i < self.plants@.len(),
                    *p == self.plants@[i as int],
                    forall|k: int| 0 <= k < j ==> p.last_delivery(#[trigger] p.required@[k].kind)
                        + p.required@[k].deadline_ms + p.deadline_policy.max_lateness_ms <= u64::MAX,
                decreases p.required@.len() - j,
            {
                let s = p.required[j];
                let last = p.get_last_delivery_time(&s.kind);
                if last > u64::MAX - s.deadline_ms || last + s.deadline_ms > u64::MAX
                    - p.deadline_policy.max_lateness_ms {
                    proof {
                        assert(p.last_delivery(p.required@[j as int].kind) + p.required@[j as int].deadline_ms
                            + p.deadline_policy.max_lateness_ms > u64::MAX);
                        assert(!deadlines_fit(self.plants@[i as int]));
                    }
                    return false;
                }
                j = j + 1;
            }
            i = i + 1;
        }
        true
    }

    /// Advances the clock by `dt_ms` and lets the traffic lights switch.
    pub fn update(&mut self, dt_ms: u64)
        requires
            old(self).wf(),
            old(self).time_ms + dt_ms <= u64::MAX,
        ensures
            final(self).time_ms == old(self).time_ms + dt_ms,
            final(self).bridges@.len() == old(self).bridges@.len(),
            forall|i: int| 0 <= i < old(self).bridges@.len() ==> (#[trigger] final(self).bridges@[i]).state
                == old(self).bridges@[i].update_spec(final(self).time_ms)
                && final(self).bridges@[i].same_layout(&old(self).bridges@[i]),
            *final(self) == (City { time_ms: final(self).time_ms, bridges: final(self).bridges, ..*old(self) }),
            final(self).wf(),
    {
        self.time_ms = self.time_ms + dt_ms;
        let now = self.time_ms;
        let mut i: usize = 0;
        while i < self.bridges.len()
            invariant
                0 <= i <= self.bridges@.len(),
                now == self.time_ms,
                now == old(self).time_ms + dt_ms,
                self.bridges@.len() == old(self).bridges@.len(),
                old(self).wf(),
                *self == (City { time_ms: now, bridges: self.bridges, ..*old(self) }),
                forall|k: int| 0 <= k < i ==> (#[trigger] self.bridges@[k]).state
                    == old(self).bridges@[k].update_spec(now) && self.bridges@[k].same_layout(&old(self).bridges@[k]),
                forall|k: int| i <= k < self.bridges@.len() ==> #[trigger] self.bridges@[k] == old(self).bridges@[k],
                forall|k: int| 0 <= k < i ==> (#[trigger] self.bridges@[k]).wf()
                    && (self.bridges@[k].bridge_type == BridgeType::TrafficLight
                    ==> self.bridges@[k].state.last_light_change_ms <= now),
            decreases self.bridges@.len() - i,
        {
            proof {
                assert(old(self).bridges@[i as int].wf());
            }
            let _ = self.bridges[i].update(now);
            i = i + 1;
        }
    }

    pub fn current_time(&self) -> (t: u64)
        ensures
            t == self.time_ms,
    {
        self.time_ms
    }

    /// Whether the city is consistent (`wf`): every bridge is, and no
    /// traffic light switched after the city's time.
    pub fn is_consistent(&self) -> (r: bool)
        ensures
            r == self.wf(),
    {
        let mut i: usize = 0;
        while i < self.bridges.len()
            invariant
                0 <= i <= self.bridges@.len(),
                forall|k: int| 0 <= k < i ==> (#[trigger] self.bridges@[k]).wf()
                    && (self.bridges@[k].bridge_type == BridgeType::TrafficLight
                    ==> self.bridges@[k].state.last_light_change_ms <= self.time_ms),
            decreases self.bridges@.len() - i,
        {
            let b = &self.bridges[i];
            let st = b.state;
            let ok = st.vehicles_crossing <= b.capacity
                && (st.vehicles_crossing == 0) == st.current_direction.is_none()
                && (!st.boat_passing || st.vehicles_crossing == 0)
                && (b.bridge_type != BridgeType::TrafficLight || st.last_light_change_ms <= self.time_ms);
            if !ok {
                return false;
            }
            i = i + 1;
        }
        true
    }

    /// The position of the first bridge with id `id`.
    pub fn find_bridge(&self, id: u32) -> (r: Option<usize>)
        ensures
            r is Some <==> self.bridge_index(id) is Some,
            r is Some ==> r->0 == self.bridge_index(id)->0 && r->0 < self.bridges@.len(),
    {
        let mut i: usize = 0;
        while i < self.bridges.len()
            invariant
                0 <= i <= self.bridges@.len(),
                forall|k: int| 0 <= k < i ==> #[trigger] self.bridges@[k].id != id,
            decreases self.bridges@.len() - i,
        {
            if self.bridges[i].id == id {
                proof {
                    assert(self.bridges@[i as int].id == id);
                    let c = choose|c: int| 0 <= c < self.bridges@.len() && #[trigger] self.bridges@[c].id == id
                        && forall|k: int| 0 <= k < c ==> #[trigger] self.bridges@[k].id != id;
                    if c < i {
                    } else if c > i {
                        assert(self.bridges@[i as int].id != id);
                    }
                }
                return Some(i);
            }
            i = i + 1;
        }
        None
    }

    /// The first bridge with id `id`.
    pub fn get_bridge(&self, id: u32) -> (r: Option<&Bridge>)
        ensures
            r is Some <==> self.bridge_index(id) is Some,
            r is Some ==> *r->0 == self.bridges@[self.bridge_index(id)->0],
    {
        match self.find_bridge(id) {
            Some(i) => Some(&self.bridges[i]),
            None => None,
        }
    }

    /// The first bridge with id `id`, to change it.
    pub fn get_bridge_mut(&mut self, id: u32) -> (r: Option<&mut Bridge>)
        ensures
            r is Some <==> old(self).bridge_index(id) is Some,
            r is Some ==> *r->0 == old(self).bridges@[old(self).bridge_index(id)->0]
                && final(self).bridges@ == old(self).bridges@.update(old(self).bridge_index(id)->0, *final(r->0)),
            r is None ==> final(self).bridges@ == old(self).bridges@,
            *final(self) == (City { bridges: final(self).bridges, ..*old(self) }),
    {
        match self.find_bridge(id) {
            Some(i) => Some(&mut self.bridges[i]),
            None => None,
        }
    }

    /// The index of the first plant at `coord`.
    pub open spec fn plant_index_at(&self, coord: Coord) -> Option<int> {
        if exists|i: int| 0 <= i < self.plants@.len() && #[trigger] self.plants@[i].loc == coord {
            Some(choose|i: int| 0 <= i < self.plants@.len() && #[trigger] self.plants@[i].loc == coord
                && forall|k: int| 0 <= k < i ==> #[trigger] self.plants@[k].loc != coord)
        } else {
            None
        }
    }

    /// The position of the first plant at `coord`.
    pub fn find_plant_index(&self, coord: Coord) -> (r: Option<usize>)
        ensures
            r is Some ==> r->0 < self.plants@.len() && self.plants@[r->0 as int].loc == coord
                && forall|k: int| 0 <= k < r->0 ==> #[trigger] self.plants@[k].loc != coord,
            r is None ==> forall|k: int| 0 <= k < self.plants@.len() ==> #[trigger] self.plants@[k].loc != coord,
    {
        let mut i: usize = 0;
        while i < self.plants.len()
            invariant
                0 <= i <= self.plants@.len(),
                forall|k: int| 0 <= k < i ==> #[trigger] self.plants@[k].loc != coord,
            decreases self.plants@.len() - i,
        {
            if self.plants[i].loc.x == coord.x && self.plants[i].loc.y == coord.y {
                return Some(i);
            }
            i = i + 1;
        }
        None
    }

    /// The first plant at `coord`.
    pub fn find_plant_at(&mut self, coord: Coord) -> (r: Option<&mut NuclearPlant>)
        ensures
            r is Some ==> exists|i: int| 0 <= i < old(self).plants@.len() && old(self).plants@[i].loc == coord
                && *r->0 == old(self).plants@[i]
                && final(self).plants@ == old(self).plants@.update(i, *final(r->0))
                && forall|k: int| 0 <= k < i ==> #[trigger] old(self).plants@[k].loc != coord,
            r is None ==> forall|k: int| 0 <= k < old(self).plants@.len() ==> #[trigger] old(self).plants@[k].loc != coord,
            *final(self) == (City { plants: final(self).plants, ..*old(self) }),
    {
        match self.find_plant_index(coord) {
            Some(i) => Some(&mut self.plants[i]),
            None => None,
        }
    }

    /// Records agent `info` run by thread `tid`, replacing an earlier record
    /// of the same thread.
    pub fn register_agent(&mut self, tid: ThreadId, info: AgentInfo)
        ensures
            registered(*old(self), *final(self), tid, info),
    {
        let mut i: usize = 0;
        while i < self.agents.len()
            invariant
                0 <= i <= self.agents@.len(),
                *self == *old(self),
                forall|k: int| 0 <= k < i ==> #[trigger] self.agents@[k].0 != tid,
            decreases self.agents@.len() - i,
        {
            if self.agents[i].0 == tid {
                self.agents.set(i, (tid, info));
                return;
            }
            i = i + 1;
        }
        self.agents.push((tid, info));
    }

    /// Checks every plant's deadlines at the current time: first its
    /// emergencies; then each required supply in order: past its limit the
    /// plant explodes and restarts (the other supplies are not checked);
    /// past four fifths of its deadline a fine plant becomes at risk.
    /// Returns what happened, plant by plant.
    pub fn check_plant_deadlines(&mut self) -> (events: Vec<PlantEvent>)
        requires
            forall|i: int| 0 <= i < old(self).plants@.len() ==> {
                let p = #[trigger] old(self).plants@[i];
                &&& old(self).time_ms + p.guard_ms() <= u64::MAX
                &&& deadlines_fit(p)
            },
        ensures
            final(self).plants@.len() == old(self).plants@.len(),
            forall|i: int| 0 <= i < old(self).plants@.len() ==> #[trigger] final(self).plants@[i]
                == deadline_check_from(old(self).plants@[i].raise_spec(old(self).time_ms).0, old(self).time_ms, 0).0,
            events@ == deadline_events(old(self).plants@, old(self).time_ms),
            *final(self) == (City { plants: final(self).plants, ..*old(self) }),
    {
        let now = self.time_ms;
        let mut events: Vec<PlantEvent> = Vec::new();
        let mut i: usize = 0;
        while i < self.plants.len()
            invariant
                0 <= i <= self.plants@.len(),
                now == old(self).time_ms,
                self.plants@.len() == old(self).plants@.len(),
                *self == (City { plants: self.plants, ..*old(self) }),
                forall|k: int| 0 <= k < old(self).plants@.len() ==> {
                    let p = #[trigger] old(self).plants@[k];
                    &&& old(self).time_ms + p.guard_ms() <= u64::MAX
                    &&& deadlines_fit(p)
                },
                forall|k: int| 0 <= k < i ==> #[trigger] self.plants@[k]
                    == deadline_check_from(old(self).plants@[k].raise_spec(now).0, now, 0).0,
                forall|k: int| i <= k < self.plants@.len() ==> #[trigger] self.plants@[k] == old(self).plants@[k],
                events@ == deadline_events(old(self).plants@.take(i as int), now),
            decreases self.plants@.len() - i,
        {
            let ghost p0 = self.plants@[i as int];
            proof {
                assert(old(self).plants@[i as int] == p0);
            }
            let _ = self.plants[i].tick_emergency(now);
            proof {
                lemma_raise_keeps_fit(p0, now);
            }
            let mut evs = Self::check_one_plant(&mut self.plants[i], now);
            events.append(&mut evs);
            proof {
                let ps = old(self).plants@.take(i + 1);
                assert(ps.drop_last() =~= old(self).plants@.take(i as int));
                assert(ps.last() == p0);
            }
            i = i + 1;
        }
        proof {
            assert(old(self).plants@.take(i as int) =~= old(self).plants@);
        }
        events
    }

    fn check_one_plant(plant: &mut NuclearPlant, now: u64) -> (events: Vec<PlantEvent>)
        requires
            deadlines_fit(*old(plant)),
        ensures
            (*final(plant), events@) == deadline_check_from(*old(plant), now, 0),
    {
        let mut events: Vec<PlantEvent> = Vec::new();
        let n = plant.required.len();
        let mut j: usize = 0;
        let ghost start = *old(plant);
        while j < n
            invariant
                0 <= j <= n,
                n == plant.required@.len(),
                start == *old(plant),
                plant.same_config(&start),
                plant.last_radioactive_ms == start.last_radioactive_ms,
                plant.last_water_ms == start.last_water_ms,
                deadlines_fit(*plant),
                deadline_check_from(start, now, 0) == ({
                    let (r, ev) = deadline_check_from(*plant, now, j as int);
                    (r, events@ + ev)
                }),
            decreases n - j,
        {
            let s = plant.required[j];
            let last = plant.get_last_delivery_time(&s.kind);
            proof {
                assert(deadlines_fit(*plant));
                assert(plant.required@[j as int] == s);
            }
            let deadline = last + s.deadline_ms;
            let fail_time = deadline + plant.deadline_policy.max_lateness_ms;
            let risk_time = last + s.deadline_ms / 5 * 4 + (s.deadline_ms % 5) * 4 / 5;
            proof {
                assert(s.deadline_ms / 5 * 4 + (s.deadline_ms % 5) * 4 / 5 == s.deadline_ms * 4 / 5) by (nonlinear_arith);
            }
            if now > fail_time {
                let ghost before = *plant;
                plant.status = PlantStatus::Exploded;
                let ev = PlantEvent::Exploded { plant: plant.id, kind: s.kind, at_ms: now, limit_ms: fail_time };
                plant.reset(now);
                events.push(ev);
                proof {
                    assert(events@ =~= events@.drop_last().push(ev));
                    assert(now > fail_time);
                    assert(before.required@[j as int] == s);
                    assert(before.last_delivery(s.kind) == last);
                    let (r, evs) = deadline_check_from(before, now, j as int);
                    assert(r == before.reset_spec(now));
                    assert(*plant == before.reset_spec(now));
                    assert(r == *plant);
                    assert(evs == seq![ev]);
                    assert(deadline_check_from(start, now, 0) == (*plant, events@.drop_last() + seq![ev]));
                    assert(events@.drop_last() + seq![ev] =~= events@);
                    assert(deadline_check_from(*plant, now, n as int) == (*plant, Seq::<PlantEvent>::empty()));
                    assert(events@ + Seq::<PlantEvent>::empty() =~= events@);
                }
                return events;
            } else if now > risk_time && plant.status == PlantStatus::Normal {
                let ghost before = *plant;
                plant.status = PlantStatus::AtRisk;
                let ev = PlantEvent::AtRisk { plant: plant.id, kind: s.kind, at_ms: now, deadline_ms: deadline };
                proof {
                    let (r, evs) = deadline_check_from(*plant, now, j + 1);
                    assert(deadline_check_from(before, now, j as int) == (r, seq![ev] + evs));
                    assert(events@ + (seq![ev] + evs) =~= events@.push(ev) + evs);
                }
                events.push(ev);
            }
            j = j + 1;
        }
        proof {
            assert(events@ + Seq::<PlantEvent>::empty() =~= events@);
        }
        events
    }

    /// Decides which new agents appear now, given the random draws: whether
    /// a new vehicle is an ambulance and the delays until the next vehicle
    /// and the next boat.
    pub fn update_spawner_with(
        &mut self,
        ambulance: bool,
        vehicle_delay_ms: u64,
        boat_delay_ms: u64,
    ) -> (new_agents: Vec<AgentType>)
        requires
            old(self).time_ms + vehicle_delay_ms <= u64::MAX,
            old(self).time_ms + boat_delay_ms <= u64::MAX,
        ensures
            ({
                let t = old(self).time_ms;
                let sp = old(self).spawner;
                let vehicle_due = t >= sp.next_vehicle_spawn_ms;
                let boat_due = t >= sp.next_boat_spawn_ms;
                let v: Seq<AgentType> = if vehicle_due {
                    seq![if ambulance { AgentType::Ambulance } else { AgentType::Car }]
                } else {
                    Seq::empty()
                };
                let b: Seq<AgentType> = if boat_due { seq![AgentType::Boat] } else { Seq::empty() };
                &&& new_agents@ == v + b
                &&& final(self).spawner.next_vehicle_spawn_ms == if vehicle_due {
                    (t + vehicle_delay_ms) as u64
                } else {
                    sp.next_vehicle_spawn_ms
                }
                &&& final(self).spawner.next_boat_spawn_ms == if boat_due {
                    (t + boat_delay_ms) as u64
                } else {
                    sp.next_boat_spawn_ms
                }
            }),
            *final(self) == (City { spawner: final(self).spawner, ..*old(self) }),
    {
        let mut new_agents: Vec<AgentType> = Vec::new();
        if self.time_ms >= self.spawner.next_vehicle_spawn_ms {
            let agent_type = if ambulance { AgentType::Ambulance } else { AgentType::Car };
            new_agents.push(agent_type);
            self.spawner.next_vehicle_spawn_ms = self.time_ms + vehicle_delay_ms;
        }
        let ghost mid = new_agents@;
        if self.time_ms >= self.spawner.next_boat_spawn_ms {
            new_agents.push(AgentType::Boat);
            self.spawner.next_boat_spawn_ms = self.time_ms + boat_delay_ms;
        }
        proof {
            let t = old(self).time_ms;
            if t >= old(self).spawner.next_boat_spawn_ms {
                assert(new_agents@ =~= mid + seq![AgentType::Boat]);
            } else {
                assert(new_agents@ =~= mid + Seq::<AgentType>::empty());
            }
            if t >= old(self).spawner.next_vehicle_spawn_ms {
                assert(mid =~= seq![if ambulance { AgentType::Ambulance } else { AgentType::Car }]);
            } else {
                assert(mid =~= Seq::<AgentType>::empty());
            }
        }
        new_agents
    }

    /// Decides which new agents appear now: a due vehicle is an ambulance
    /// one time in ten, and the next one comes 1 to 4 seconds later; a due
    /// boat is followed by the next 15 to 30 seconds later.
    pub fn update_spawner(&mut self) -> (new_agents: Vec<AgentType>)
        requires
            old(self).time_ms + 30000 <= u64::MAX,
        ensures
            ({
                let t = old(self).time_ms;
                let sp = old(self).spawner;
                &&& t >= sp.next_vehicle_spawn_ms ==> t + 1000 <= final(self).spawner.next_vehicle_spawn_ms < t + 4000
                &&& t < sp.next_vehicle_spawn_ms ==> final(self).spawner.next_vehicle_spawn_ms == sp.next_vehicle_spawn_ms
                &&& t >= sp.next_boat_spawn_ms ==> t + 15000 <= final(self).spawner.next_boat_spawn_ms < t + 30000
                &&& t < sp.next_boat_spawn_ms ==> final(self).spawner.next_boat_spawn_ms == sp.next_boat_spawn_ms
                &&& new_agents@.len() == (if t >= sp.next_vehicle_spawn_ms { 1int } else { 0 })
                    + (if t >= sp.next_boat_spawn_ms { 1int } else { 0 })
                &&& t >= sp.next_vehicle_spawn_ms ==> new_agents@[0] == AgentType::Car || new_agents@[0]
                    == AgentType::Ambulance
                &&& t >= sp.next_boat_spawn_ms ==> new_agents@.last() == AgentType::Boat
            }),
            *final(self) == (City { spawner: final(self).spawner, ..*old(self) }),
    {
        let ambulance = random_chance(1, 10);
        let vehicle_delay = random_below(1000, 4000);
        let boat_delay = random_below(15000, 30000);
        self.update_spawner_with(ambulance, vehicle_delay, boat_delay)
    }
}

proof fn lemma_raise_keeps_fit(p: NuclearPlant, now: u64)
    requires
        deadlines_fit(p),
    ensures
        deadlines_fit(p.raise_spec(now).0),
{
    let q = p.raise_spec(now).0;
    assert forall|j: int| 0 <= j < q.required@.len() implies q.last_delivery(#[trigger] q.required@[j].kind)
        + q.required@[j].deadline_ms + q.deadline_policy.max_lateness_ms <= u64::MAX by {
        assert(p.required@[j] == q.required@[j]);
    }
}

/// `d` is city `c` with agent `info` of thread `tid` recorded: in place of
/// an earlier record of that thread, else added at the end.
pub open spec fn registered(c: City, d: City, tid: ThreadId, info: AgentInfo) -> bool {
    &&& d == City { agents: d.agents, ..c }
    &&& (exists|i: int| 0 <= i < c.agents@.len() && #[trigger] c.agents@[i].0 == tid) ==> exists|i: int|
        0 <= i < c.agents@.len() && c.agents@[i].0 == tid && d.agents@ == c.agents@.update(i, (tid, info))
    &&& !(exists|i: int| 0 <= i < c.agents@.len() && #[trigger] c.agents@[i].0 == tid) ==> d.agents@
        == c.agents@.push((tid, info))
}

/// Where some index satisfies `p`, a first one does.
proof fn lemma_first_exists(p: spec_fn(int) -> bool, w: int)
    requires
        0 <= w,
        p(w),
    ensures
        exists|m: int| 0 <= m <= w && #[trigger] p(m) && forall|k: int| 0 <= k < m ==> !#[trigger] p(k),
    decreases w,
{
    if exists|k: int| 0 <= k < w && #[trigger] p(k) {
        let k = choose|k: int| 0 <= k < w && #[trigger] p(k);
        lemma_first_exists(p, k);
    } else {
        assert(forall|k: int| 0 <= k < w ==> !#[trigger] p(k));
    }
}

/// The index of the first bridge with id `id` is where it is.
pub proof fn lemma_bridge_index(c: City, id: u32)
    ensures
        c.bridge_index(id) is Some ==> {
            let i = c.bridge_index(id)->0;
            &&& 0 <= i < c.bridges@.len()
            &&& c.bridges@[i].id == id
            &&& forall|k: int| 0 <= k < i ==> #[trigger] c.bridges@[k].id != id
        },
        c.bridge_index(id) is None ==> forall|k: int| 0 <= k < c.bridges@.len() ==> #[trigger] c.bridges@[k].id != id,
{
    if exists|i: int| 0 <= i < c.bridges@.len() && #[trigger] c.bridges@[i].id == id {
        let w = choose|i: int| 0 <= i < c.bridges@.len() && #[trigger] c.bridges@[i].id == id;
        let p = |i: int| 0 <= i < c.bridges@.len() && c.bridges@[i].id == id;
        lemma_first_exists(p, w);
        let m = choose|m: int| 0 <= m <= w && #[trigger] p(m) && forall|k: int| 0 <= k < m ==> !#[trigger] p(k);
        assert(forall|k: int| 0 <= k < m ==> #[trigger] c.bridges@[k].id != id) by {
            assert forall|k: int| 0 <= k < m implies #[trigger] c.bridges@[k].id != id by {
                assert(!p(k));
            }
        }
    }
}

/// The index of the first plant at `coord` is where it is.
pub proof fn lemma_plant_index(c: City, coord: Coord)
    ensures
        c.plant_index_at(coord) is Some ==> {
            let i = c.plant_index_at(coord)->0;
            &&& 0 <= i < c.plants@.len()
            &&& c.plants@[i].loc == coord
            &&& forall|k: int| 0 <= k < i ==> #[trigger] c.plants@[k].loc != coord
        },
        c.plant_index_at(coord) is None ==> forall|k: int| 0 <= k < c.plants@.len() ==> #[trigger] c.plants@[k].loc
            != coord,
{
    if exists|i: int| 0 <= i < c.plants@.len() && #[trigger] c.plants@[i].loc == coord {
        let w = choose|i: int| 0 <= i < c.plants@.len() && #[trigger] c.plants@[i].loc == coord;
        let p = |i: int| 0 <= i < c.plants@.len() && c.plants@[i].loc == coord;
        lemma_first_exists(p, w);
        let m = choose|m: int| 0 <= m <= w && #[trigger] p(m) && forall|k: int| 0 <= k < m ==> !#[trigger] p(k);
        assert(forall|k: int| 0 <= k < m ==> #[trigger] c.plants@[k].loc != coord) by {
            assert forall|k: int| 0 <= k < m implies #[trigger] c.plants@[k].loc != coord by {
                assert(!p(k));
            }
        }
    }
}

/// The index of a plant's first supply of `kind` is where it is.
pub proof fn lemma_supply_index(pl: NuclearPlant, kind: SupplyKind)
    ensures
        supply_index(pl, kind) is Some ==> {
            let j = supply_index(pl, kind)->0;
            &&& 0 <= j < pl.required@.len()
            &&& pl.required@[j].kind == kind
            &&& forall|k: int| 0 <= k < j ==> #[trigger] pl.required@[k].kind != kind
        },
        supply_index(pl, kind) is None ==> forall|k: int| 0 <= k < pl.required@.len() ==> #[trigger] pl.required@[k].kind
            != kind,
{
    if exists|j: int| 0 <= j < pl.required@.len() && #[trigger] pl.required@[j].kind == kind {
        let w = choose|j: int| 0 <= j < pl.required@.len() && #[trigger] pl.required@[j].kind == kind;
        let p = |j: int| 0 <= j < pl.required@.len() && pl.required@[j].kind == kind;
        lemma_first_exists(p, w);
        let m = choose|m: int| 0 <= m <= w && #[trigger] p(m) && forall|k: int| 0 <= k < m ==> !#[trigger] p(k);
        assert(forall|k: int| 0 <= k < m ==> #[trigger] pl.required@[k].kind != kind) by {
            assert forall|k: int| 0 <= k < m implies #[trigger] pl.required@[k].kind != kind by {
                assert(!p(k));
            }
        }
    }
}

/// A city stays well formed when one of its bridges changes state in a way
/// that keeps the bridge consistent and its light's last switch.
pub proof fn lemma_wf_bridge_update(c: City, d: City, i: int, b: Bridge)
    requires
        c.wf(),
        0 <= i < c.bridges@.len(),
        b.wf(),
        b.bridge_type == c.bridges@[i].bridge_type,
        b.state.last_light_change_ms == c.bridges@[i].state.last_light_change_ms,
        d.bridges@ == c.bridges@.update(i, b),
        d.time_ms == c.time_ms,
    ensures
        d.wf(),
{
    assert forall|k: int| 0 <= k < d.bridges@.len() implies (#[trigger] d.bridges@[k]).wf()
        && (d.bridges@[k].bridge_type == BridgeType::TrafficLight
        ==> d.bridges@[k].state.last_light_change_ms <= d.time_ms) by {
        if k != i {
            assert(d.bridges@[k] == c.bridges@[k]);
        }
    }
}

/// Guards a city.
pub fn create_shared_city(city: City) -> (c: SharedCity)
    ensures
        c.value() == city,
{
    shared(city)
}

} // verus!
