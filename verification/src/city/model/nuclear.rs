//! A nuclear plant and its supplies: each supply is due a period after its
//! last delivery; a plant without a due supply is in danger, and an
//! emergency is raised once as a supply nears its hard deadline.

use vstd::prelude::*;
use crate::city::model::coord::Coord;

verus! {

/// A kind of supply a plant needs.
#[derive(Debug, Clone, Copy, PartialEq, Eq, Hash, Structural)]
pub enum SupplyKind {
    Radioactive,
    Water,
}

/// A supply a plant needs: a delivery is due `period_ms` after the last
/// one; `deadline_ms` is the time a truck has to bring it.
#[derive(Debug, Clone, Copy)]
pub struct SupplySpec {
    pub kind: SupplyKind,
    pub deadline_ms: u64,
    pub period_ms: u64,
}

/// How late a supply may be beyond its due time.
#[derive(Debug, Clone, Copy)]
pub struct DeadlinePolicy {
    pub max_lateness_ms: u64,
}

/// The condition of a plant.
#[derive(Debug, Clone, Copy, PartialEq, Eq, Structural)]
pub enum PlantStatus {
    Normal,
    AtRisk,
    Exploded,
}

/// A nuclear plant. The last delivery of a kind never delivered counts as
/// time 0.
pub struct NuclearPlant {
    pub id: u32,
    pub status: PlantStatus,
    pub loc: Coord,
    pub required: Vec<SupplySpec>,
    pub deadline_policy: DeadlinePolicy,
    pub last_radioactive_ms: u64,
    pub last_water_ms: u64,
    pub risk_radioactive: bool,
    pub risk_water: bool,
    pub last_emergency_at_ms: Option<u64>,
}

/// `a + b`, saturating at `u64::MAX`.
pub open spec fn sat_add(a: u64, b: u64) -> u64 {
    if a + b > u64::MAX {
        u64::MAX
    } else {
        (a + b) as u64
    }
}

impl NuclearPlant {
    /// The time of the last delivery of `kind`.
    pub open spec fn last_delivery(&self, kind: SupplyKind) -> u64 {
        match kind {
            SupplyKind::Radioactive => self.last_radioactive_ms,
            SupplyKind::Water => self.last_water_ms,
        }
    }

    /// Whether an emergency for `kind` is active.
    pub open spec fn risk(&self, kind: SupplyKind) -> bool {
        match kind {
            SupplyKind::Radioactive => self.risk_radioactive,
            SupplyKind::Water => self.risk_water,
        }
    }

    /// How long before a hard deadline an emergency is raised: a fifth of
    /// the allowed lateness.
    pub open spec fn guard_ms(&self) -> u64 {
        self.deadline_policy.max_lateness_ms / 5
    }

    /// The first required supply, from index `i` on, that is due at
    /// `now_ms`, or, with `guard`, whose hard deadline is within the guard.
    pub open spec fn deficit_from(&self, now_ms: u64, guard: bool, i: int) -> Option<SupplyKind>
        decreases self.required@.len() - i,
    {
        if i < 0 || i >= self.required@.len() {
            None
        } else {
            let s = self.required@[i];
            let due = sat_add(self.last_delivery(s.kind), s.period_ms);
            let hard = sat_add(due, self.deadline_policy.max_lateness_ms);
            if now_ms >= due {
                Some(s.kind)
            } else if guard && now_ms + self.guard_ms() >= hard {
                Some(s.kind)
            } else {
                self.deficit_from(now_ms, guard, i + 1)
            }
        }
    }

    /// The first required supply in deficit at `now_ms`.
    pub open spec fn deficit(&self, now_ms: u64, guard: bool) -> Option<SupplyKind> {
        self.deficit_from(now_ms, guard, 0)
    }

    /// Everything but the deliveries, the emergencies and the status is
    /// that of `old`.
    pub open spec fn same_config(&self, old: &NuclearPlant) -> bool {
        &&& self.id == old.id
        &&& self.loc == old.loc
        &&& self.required@ == old.required@
        &&& self.deadline_policy == old.deadline_policy
    }

    /// `kind` with its emergency flag set to `on`.
    pub open spec fn with_risk(self, kind: SupplyKind, on: bool) -> NuclearPlant {
        match kind {
            SupplyKind::Radioactive => NuclearPlant { risk_radioactive: on, ..self },
            SupplyKind::Water => NuclearPlant { risk_water: on, ..self },
        }
    }

    /// The plant after an emergency check at `now_ms`, and the supply whose
    /// emergency started, if one did.
    pub open spec fn raise_spec(self, now_ms: u64) -> (NuclearPlant, Option<SupplyKind>) {
        let keep_exploded = |s: PlantStatus| if self.status == PlantStatus::Exploded { PlantStatus::Exploded } else { s };
        match self.deficit(now_ms, true) {
            None => (NuclearPlant {
                risk_radioactive: false,
                risk_water: false,
                status: keep_exploded(PlantStatus::Normal),
                ..self
            }, None),
            Some(k) => if self.risk(k) {
                (self, None)
            } else {
                (NuclearPlant {
                    status: keep_exploded(PlantStatus::AtRisk),
                    last_emergency_at_ms: Some(now_ms),
                    ..self.with_risk(k, true)
                }, Some(k))
            },
        }
    }

    /// The plant restarted at `t`.
    pub open spec fn reset_spec(self, t: u64) -> NuclearPlant {
        NuclearPlant {
            status: PlantStatus::Normal,
            last_radioactive_ms: t,
            last_water_ms: t,
            risk_radioactive: false,
            risk_water: false,
            last_emergency_at_ms: None,
            ..self
        }
    }

    /// A plant that is fine, has received nothing yet and has no emergency.
    pub fn new(id: u32, loc: Coord, required: Vec<SupplySpec>, deadline_policy: DeadlinePolicy) -> (p: Self)
        ensures
            p.id == id,
            p.loc == loc,
            p.required@ == required@,
            p.deadline_policy == deadline_policy,
            p.status == PlantStatus::Normal,
            p.last_radioactive_ms == 0,
            p.last_water_ms == 0,
            !p.risk_radioactive,
            !p.risk_water,
            p.last_emergency_at_ms is None,
    {
        NuclearPlant {
            id,
            status: PlantStatus::Normal,
            loc,
            required,
            deadline_policy,
            last_radioactive_ms: 0,
            last_water_ms: 0,
            risk_radioactive: false,
            risk_water: false,
            last_emergency_at_ms: None,
        }
    }

    /// Records a delivery of `spec`'s kind at `at_ms`: its emergency ends,
    /// and the plant is fine again when nothing is due at that time.
    pub fn commit_delivery(&mut self, spec: SupplySpec, at_ms: u64)
        ensures
            *final(self) == after_delivery(*old(self), spec.kind, at_ms),
    {
        let ghost d = delivered(*old(self), spec.kind, at_ms);
        match spec.kind {
            SupplyKind::Radioactive => {
                self.last_radioactive_ms = at_ms;
                self.risk_radioactive = false;
            },
            SupplyKind::Water => {
                self.last_water_ms = at_ms;
                self.risk_water = false;
            },
        }
        proof {
            assert(*self == d);
        }
        if self.current_deficit(at_ms, false).is_none() {
            let ghost before = *self;
            self.status = PlantStatus::Normal;
            proof {
                lemma_deficit_same(before, *self, at_ms, false, 0);
            }
        }
    }

    /// The time of the last delivery of `kind` (0 when never delivered).
    pub fn get_last_delivery_time(&self, kind: &SupplyKind) -> (t: u64)
        ensures
            t == self.last_delivery(*kind),
    {
        match kind {
            SupplyKind::Radioactive => self.last_radioactive_ms,
            SupplyKind::Water => self.last_water_ms,
        }
    }

    /// Restarts the plant after an explosion at `current_time`: fine, both
    /// supplies delivered now, no emergency.
    pub fn reset(&mut self, current_time: u64)
        ensures
            *final(self) == old(self).reset_spec(current_time),
    {
        self.status = PlantStatus::Normal;
        self.last_radioactive_ms = current_time;
        self.last_water_ms = current_time;
        self.risk_radioactive = false;
        self.risk_water = false;
        self.last_emergency_at_ms = None;
    }

    /// The first required supply in deficit at `now_ms`.
    pub fn current_deficit(&self, now_ms: u64, guard: bool) -> (r: Option<SupplyKind>)
        requires
            guard ==> now_ms + self.guard_ms() <= u64::MAX,
        ensures
            r == self.deficit(now_ms, guard),
    {
        let lateness = self.deadline_policy.max_lateness_ms;
        let guard_ms = lateness / 5;
        let mut i: usize = 0;
        while i < self.required.len()
            invariant
                0 <= i <= self.required@.len(),
                guard ==> now_ms + self.guard_ms() <= u64::MAX,
                guard_ms == self.guard_ms(),
                lateness == self.deadline_policy.max_lateness_ms,
                self.deficit(now_ms, guard) == self.deficit_from(now_ms, guard, i as int),
            decreases self.required@.len() - i,
        {
            let s = self.required[i];
            let last = self.get_last_delivery_time(&s.kind);
            let due = last.saturating_add(s.period_ms);
            let hard_deadline = due.saturating_add(lateness);
            if now_ms >= due {
                return Some(s.kind);
            }
            if guard {
                if now_ms + guard_ms >= hard_deadline {
                    return Some(s.kind);
                }
            }
            i = i + 1;
        }
        None
    }

    /// Raises an emergency only when one starts: the first supply in
    /// deficit (within the guard) whose emergency is not active yet becomes
    /// active, the plant is at risk unless it exploded, and the supply is
    /// returned. With no deficit, every emergency ends.
    pub fn maybe_raise_emergency(&mut self, now_ms: u64) -> (raised: Option<SupplyKind>)
        requires
            now_ms + old(self).guard_ms() <= u64::MAX,
        ensures
            (*final(self), raised) == old(self).raise_spec(now_ms),
    {
        match self.current_deficit(now_ms, true) {
            None => {
                self.resolve_if_recovered();
                None
            },
            Some(kind) => {
                let was = match kind {
                    SupplyKind::Radioactive => self.risk_radioactive,
                    SupplyKind::Water => self.risk_water,
                };
                if !was {
                    match kind {
                        SupplyKind::Radioactive => {
                            self.risk_radioactive = true;
                        },
                        SupplyKind::Water => {
                            self.risk_water = true;
                        },
                    }
                    if self.status != PlantStatus::Exploded {
                        self.status = PlantStatus::AtRisk;
                    }
                    self.last_emergency_at_ms = Some(now_ms);
                    Some(kind)
                } else {
                    None
                }
            },
        }
    }

    /// Ends every emergency; a plant that has not exploded is fine again.
    fn resolve_if_recovered(&mut self)
        ensures
            *final(self) == (NuclearPlant {
                risk_radioactive: false,
                risk_water: false,
                status: if old(self).status == PlantStatus::Exploded { PlantStatus::Exploded } else { PlantStatus::Normal },
                ..*old(self)
            }),
    {
        self.risk_radioactive = false;
        self.risk_water = false;
        if self.status != PlantStatus::Exploded {
            self.status = PlantStatus::Normal;
        }
    }

    /// Advances the plant's emergencies to `now_ms`.
    pub fn tick_emergency(&mut self, now_ms: u64) -> (raised: Option<SupplyKind>)
        requires
            now_ms + old(self).guard_ms() <= u64::MAX,
        ensures
            (*final(self), raised) == old(self).raise_spec(now_ms),
    {
        self.maybe_raise_emergency(now_ms)
    }

    /// The supply the plant is at risk for: an active emergency (radioactive
    /// first), else the first supply due at `now_ms`.
    pub fn active_risk_kind(&self, now_ms: u64) -> (r: Option<SupplyKind>)
        ensures
            r == active_risk(*self, now_ms),
    {
        if self.risk_radioactive {
            Some(SupplyKind::Radioactive)
        } else if self.risk_water {
            Some(SupplyKind::Water)
        } else {
            self.current_deficit(now_ms, false)
        }
    }
}

/// The supply a plant is at risk for at `now_ms`: an active emergency
/// (radioactive first), else the first supply due.
pub open spec fn active_risk(p: NuclearPlant, now_ms: u64) -> Option<SupplyKind> {
    if p.risk_radioactive {
        Some(SupplyKind::Radioactive)
    } else if p.risk_water {
        Some(SupplyKind::Water)
    } else {
        p.deficit(now_ms, false)
    }
}

/// The plant after `kind` is delivered at `at_ms`, before its status is
/// reconsidered.
pub open spec fn delivered(p: NuclearPlant, kind: SupplyKind, at_ms: u64) -> NuclearPlant {
    match kind {
        SupplyKind::Radioactive => NuclearPlant { last_radioactive_ms: at_ms, risk_radioactive: false, ..p },
        SupplyKind::Water => NuclearPlant { last_water_ms: at_ms, risk_water: false, ..p },
    }
}

/// The plant after `kind` is delivered at `at_ms`: the delivery is
/// recorded, and the plant is fine again when nothing is due at that time.
pub open spec fn after_delivery(p: NuclearPlant, kind: SupplyKind, at_ms: u64) -> NuclearPlant {
    let d = delivered(p, kind, at_ms);
    NuclearPlant { status: if d.deficit(at_ms, false) is None { PlantStatus::Normal } else { p.status }, ..d }
}

/// The index of the first required supply of `kind`.
pub open spec fn supply_index(p: NuclearPlant, kind: SupplyKind) -> Option<int> {
    if exists|j: int| 0 <= j < p.required@.len() && #[trigger] p.required@[j].kind == kind {
        Some(choose|j: int| 0 <= j < p.required@.len() && #[trigger] p.required@[j].kind == kind
            && forall|k: int| 0 <= k < j ==> #[trigger] p.required@[k].kind != kind)
    } else {
        None
    }
}

/// Law: what a delivery writes is what is read back: after `kind` is
/// delivered at `t`, its last delivery is `t` and its emergency is over,
/// and the other kind is untouched.
pub proof fn law_delivery_read_back(p: NuclearPlant, kind: SupplyKind, other: SupplyKind, t: u64)
    requires
        other != kind,
    ensures
        delivered(p, kind, t).last_delivery(kind) == t,
        !delivered(p, kind, t).risk(kind),
        delivered(p, kind, t).last_delivery(other) == p.last_delivery(other),
        delivered(p, kind, t).risk(other) == p.risk(other),
{
}

/// Law: after a reset at `t` nothing is due before the shortest period has
/// passed, so the plant reports no deficit and no emergency.
pub proof fn law_reset_quiet(p: NuclearPlant, t: u64, now: u64)
    requires
        p.last_radioactive_ms == t,
        p.last_water_ms == t,
        !p.risk_radioactive,
        !p.risk_water,
        t <= now,
        forall|i: int| 0 <= i < p.required@.len() ==> now < sat_add(t, #[trigger] p.required@[i].period_ms),
    ensures
        p.deficit(now, false) is None,
{
    lemma_no_deficit_from(p, now, 0);
}

proof fn lemma_no_deficit_from(p: NuclearPlant, now: u64, i: int)
    requires
        p.last_radioactive_ms == p.last_water_ms,
        forall|j: int| 0 <= j < p.required@.len() ==> now < sat_add(p.last_radioactive_ms, #[trigger] p.required@[j].period_ms),
    ensures
        p.deficit_from(now, false, i) is None,
    decreases p.required@.len() - i,
{
    if 0 <= i < p.required@.len() {
        lemma_no_deficit_from(p, now, i + 1);
    }
}

/// Law: an emergency puts the plant at risk. When a check raises an
/// emergency for a supply, a plant that has not exploded is at risk
/// afterwards (an exploded one stays exploded), the supply is marked at
/// risk, the emergency is dated at the check, and the supply raised is one
/// the plant requires.
pub proof fn law_emergency_marks_at_risk(p: NuclearPlant, now: u64)
    ensures
        p.raise_spec(now).1 is Some && p.status != PlantStatus::Exploded ==> p.raise_spec(now).0.status
            == PlantStatus::AtRisk,
        p.raise_spec(now).1 is Some && p.status == PlantStatus::Exploded ==> p.raise_spec(now).0.status
            == PlantStatus::Exploded,
        p.raise_spec(now).1 is Some ==> p.raise_spec(now).0.risk(p.raise_spec(now).1->0)
            && !p.risk(p.raise_spec(now).1->0)
            && p.raise_spec(now).0.last_emergency_at_ms == Some(now),
{
}

/// Law: an emergency is raised once: a second check at the same time,
/// with no delivery in between, raises nothing.
pub proof fn law_emergency_once(p: NuclearPlant, now: u64)
    requires
        now + p.guard_ms() <= u64::MAX,
    ensures
        p.raise_spec(now).0.raise_spec(now).1 is None,
{
    let q = p.raise_spec(now).0;
    lemma_deficit_same(p, q, now, true, 0);
}

proof fn lemma_deficit_same(p: NuclearPlant, q: NuclearPlant, now: u64, guard: bool, i: int)
    requires
        q.same_config(&p),
        forall|j: SupplyKind| q.last_delivery(j) == p.last_delivery(j),
    ensures
        q.deficit_from(now, guard, i) == p.deficit_from(now, guard, i),
    decreases p.required@.len() - i,
{
    if 0 <= i < p.required@.len() {
        lemma_deficit_same(p, q, now, guard, i + 1);
    }
}

} // verus!
