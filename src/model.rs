//! Per-player combat statistics.
use vstd::prelude::*;
use crate::keyed::{keys_unique, keyed_map, lemma_keyed_index, lemma_keyed_update, lemma_keyed_push};
use crate::tables::SubProfession;

verus! {

/// Cumulative amounts split by hit kind; exactly one bucket takes each hit.
#[derive(Clone, Copy, Debug, PartialEq, Eq, Structural)]
pub struct DamageBreakdown {
    pub normal: u64,
    pub critical: u64,
    pub lucky: u64,
    pub crit_lucky: u64,
    pub total: u64,
}

/// Hit counts: critical and lucky hits are counted in both when both hold.
#[derive(Clone, Copy, Debug, PartialEq, Eq, Structural)]
pub struct CountBreakdown {
    pub normal: u32,
    pub critical: u32,
    pub lucky: u32,
    pub total: u32,
}

impl DamageBreakdown {
    pub open spec fn wf(self) -> bool {
        self.total == self.normal + self.critical + self.lucky + self.crit_lucky
    }

    pub open spec fn spec_add(self, v: u64, crit: bool, lucky: bool) -> DamageBreakdown {
        let t = (self.total + v) as u64;
        if crit && lucky {
            DamageBreakdown { crit_lucky: (self.crit_lucky + v) as u64, total: t, ..self }
        } else if crit {
            DamageBreakdown { critical: (self.critical + v) as u64, total: t, ..self }
        } else if lucky {
            DamageBreakdown { lucky: (self.lucky + v) as u64, total: t, ..self }
        } else {
            DamageBreakdown { normal: (self.normal + v) as u64, total: t, ..self }
        }
    }

    pub fn zero() -> (r: DamageBreakdown)
        ensures
            r == (DamageBreakdown { normal: 0, critical: 0, lucky: 0, crit_lucky: 0, total: 0 }),
            r.wf(),
    {
        DamageBreakdown { normal: 0, critical: 0, lucky: 0, crit_lucky: 0, total: 0 }
    }

    /// Adds `v` to the bucket that `crit` and `lucky` select, and to the total.
    pub fn add(&mut self, v: u64, crit: bool, lucky: bool)
        requires
            old(self).wf(),
            old(self).total + v <= u64::MAX,
        ensures
            *final(self) == old(self).spec_add(v, crit, lucky),
            final(self).wf(),
    {
        if crit && lucky {
            self.crit_lucky = self.crit_lucky + v;
        } else if crit {
            self.critical = self.critical + v;
        } else if lucky {
            self.lucky = self.lucky + v;
        } else {
            self.normal = self.normal + v;
        }
        self.total = self.total + v;
    }
}

impl CountBreakdown {
    pub open spec fn wf(self) -> bool {
        self.normal <= self.total && self.critical <= self.total && self.lucky <= self.total
    }

    pub open spec fn spec_add(self, crit: bool, lucky: bool) -> CountBreakdown {
        CountBreakdown {
            normal: if !crit && !lucky { (self.normal + 1) as u32 } else { self.normal },
            critical: if crit { (self.critical + 1) as u32 } else { self.critical },
            lucky: if lucky { (self.lucky + 1) as u32 } else { self.lucky },
            total: (self.total + 1) as u32,
        }
    }

    pub fn zero() -> (r: CountBreakdown)
        ensures
            r == (CountBreakdown { normal: 0, critical: 0, lucky: 0, total: 0 }),
            r.wf(),
    {
        CountBreakdown { normal: 0, critical: 0, lucky: 0, total: 0 }
    }

    /// Counts one hit.
    pub fn add(&mut self, crit: bool, lucky: bool)
        requires
            old(self).wf(),
            old(self).total < u32::MAX,
        ensures
            *final(self) == old(self).spec_add(crit, lucky),
            final(self).wf(),
    {
        if !crit && !lucky {
            self.normal = self.normal + 1;
        }
        if crit {
            self.critical = self.critical + 1;
        }
        if lucky {
            self.lucky = self.lucky + 1;
        }
        self.total = self.total + 1;
    }
}

/// The first and last time of a recorded hit, in milliseconds.
#[derive(Clone, Copy, Debug, PartialEq, Eq, Structural)]
pub struct TimeRange {
    pub first: u64,
    pub last: u64,
}

/// Damage or healing statistics of one player. Times are milliseconds.
#[derive(Clone, Copy, Debug, PartialEq, Eq, Structural)]
pub struct DamageStats {
    pub values: DamageBreakdown,
    pub counts: CountBreakdown,
    pub hp_lessen: u64,
    /// Amount per second over the active time range.
    pub rate: u64,
    /// Largest rate derived so far.
    pub rate_max: u64,
    /// First and last time of a recorded hit.
    pub time_range: Option<TimeRange>,
}

/// Healing statistics have the same shape as damage statistics.
pub type HealingStats = DamageStats;

pub open spec fn extend_range(r: Option<TimeRange>, now: u64) -> Option<TimeRange> {
    match r {
        Some(tr) => Some(TimeRange { first: if tr.first <= now { tr.first } else { now }, last: now }),
        None => Some(TimeRange { first: now, last: now }),
    }
}

impl DamageStats {
    pub open spec fn wf(self) -> bool {
        &&& self.values.wf()
        &&& self.counts.wf()
        &&& (self.time_range matches Some(tr) ==> tr.first <= tr.last)
    }

    pub open spec fn spec_zero() -> DamageStats {
        DamageStats {
            values: DamageBreakdown { normal: 0, critical: 0, lucky: 0, crit_lucky: 0, total: 0 },
            counts: CountBreakdown { normal: 0, critical: 0, lucky: 0, total: 0 },
            hp_lessen: 0,
            rate: 0,
            rate_max: 0,
            time_range: None,
        }
    }

    pub fn new() -> (r: DamageStats)
        ensures
            r == DamageStats::spec_zero(),
            r.wf(),
    {
        DamageStats {
            values: DamageBreakdown::zero(),
            counts: CountBreakdown::zero(),
            hp_lessen: 0,
            rate: 0,
            rate_max: 0,
            time_range: None,
        }
    }

    /// Whether a hit of `v` (with `hp` of hp lessened) can be recorded without overflow.
    pub open spec fn fits(self, v: u64, hp: u64) -> bool {
        self.values.total + v <= u64::MAX && self.counts.total < u32::MAX && self.hp_lessen + hp <= u64::MAX
    }

    pub open spec fn spec_record(self, v: u64, crit: bool, lucky: bool, hp: u64, now: u64) -> DamageStats {
        DamageStats {
            values: self.values.spec_add(v, crit, lucky),
            counts: self.counts.spec_add(crit, lucky),
            hp_lessen: (self.hp_lessen + hp) as u64,
            time_range: extend_range(self.time_range, now),
            ..self
        }
    }

    pub fn record(&mut self, v: u64, crit: bool, lucky: bool, hp: u64, now: u64)
        requires
            old(self).wf(),
            old(self).fits(v, hp),
        ensures
            *final(self) == old(self).spec_record(v, crit, lucky, hp, now),
            final(self).wf(),
    {
        self.values.add(v, crit, lucky);
        self.counts.add(crit, lucky);
        self.hp_lessen = self.hp_lessen + hp;
        self.time_range = match self.time_range {
            Some(tr) => Some(TimeRange { first: if tr.first <= now { tr.first } else { now }, last: now }),
            None => Some(TimeRange { first: now, last: now }),
        };
    }

    /// The rate over the time range: `total * 1000 / (last - first)` when the
    /// range is non-empty.
    pub open spec fn spec_rate(self) -> Option<u64> {
        match self.time_range {
            Some(tr) => if tr.last > tr.first && self.values.total as int * 1000 / (tr.last - tr.first) <= u64::MAX {
                Some((self.values.total as int * 1000 / (tr.last - tr.first)) as u64)
            } else {
                None
            },
            None => None,
        }
    }

    pub open spec fn spec_update_rate(self) -> DamageStats {
        match self.spec_rate() {
            Some(r) => DamageStats { rate: r, rate_max: if r > self.rate_max { r } else { self.rate_max }, ..self },
            None => self,
        }
    }

    /// Derives the rate from the total and the time range, and the peak rate.
    pub fn update_rate(&mut self)
        requires
            old(self).wf(),
        ensures
            *final(self) == old(self).spec_update_rate(),
            final(self).wf(),
            final(self).rate_max >= old(self).rate_max,
    {
        if let Some(tr) = self.time_range {
            if tr.last > tr.first {
                let d = (tr.last - tr.first) as u128;
                let r128 = (self.values.total as u128) * 1000 / d;
                if r128 <= u64::MAX as u128 {
                    let r = r128 as u64;
                    self.rate = r;
                    if r > self.rate_max {
                        self.rate_max = r;
                    }
                }
            }
        }
    }
}

/// Whether a skill entry counts damage or healing.
#[derive(Clone, Copy, Debug, PartialEq, Eq, Structural)]
pub enum SkillKind {
    Damage,
    Healing,
}

/// Per-skill statistics, keyed by kind and skill id.
#[derive(Clone, Copy, Debug, PartialEq, Eq, Structural)]
pub struct SkillStats {
    pub skill_id: u32,
    pub kind: SkillKind,
    /// Damage property code of the first hit recorded.
    pub element: u32,
    pub values: DamageBreakdown,
    pub counts: CountBreakdown,
}

impl SkillStats {
    pub open spec fn wf(self) -> bool {
        self.values.wf() && self.counts.wf()
    }

    pub open spec fn spec_fresh(kind: SkillKind, skill_id: u32, element: u32) -> SkillStats {
        SkillStats {
            skill_id,
            kind,
            element,
            values: DamageBreakdown { normal: 0, critical: 0, lucky: 0, crit_lucky: 0, total: 0 },
            counts: CountBreakdown { normal: 0, critical: 0, lucky: 0, total: 0 },
        }
    }

    pub open spec fn fits(self, v: u64) -> bool {
        self.values.total + v <= u64::MAX && self.counts.total < u32::MAX
    }

    pub open spec fn spec_record(self, v: u64, crit: bool, lucky: bool) -> SkillStats {
        SkillStats { values: self.values.spec_add(v, crit, lucky), counts: self.counts.spec_add(crit, lucky), ..self }
    }

    pub fn new(kind: SkillKind, skill_id: u32, element: u32) -> (r: SkillStats)
        ensures
            r == SkillStats::spec_fresh(kind, skill_id, element),
            r.wf(),
    {
        SkillStats { skill_id, kind, element, values: DamageBreakdown::zero(), counts: CountBreakdown::zero() }
    }

    /// Hits recorded that were critical, per thousand hits.
    pub fn crit_rate_permille(&self) -> (r: u64)
        ensures
            self.counts.total == 0 ==> r == 0,
            self.counts.total > 0 ==> r == self.counts.critical as int * 1000 / self.counts.total as int,
    {
        if self.counts.total == 0 {
            0
        } else {
            (self.counts.critical as u64) * 1000 / (self.counts.total as u64)
        }
    }

    /// Hits recorded that were lucky, per thousand hits.
    pub fn lucky_rate_permille(&self) -> (r: u64)
        ensures
            self.counts.total == 0 ==> r == 0,
            self.counts.total > 0 ==> r == self.counts.lucky as int * 1000 / self.counts.total as int,
    {
        if self.counts.total == 0 {
            0
        } else {
            (self.counts.lucky as u64) * 1000 / (self.counts.total as u64)
        }
    }
}

pub open spec fn skill_key() -> spec_fn(SkillStats) -> (SkillKind, u32) {
    |s: SkillStats| (s.kind, s.skill_id)
}

pub open spec fn skill_map(s: Seq<SkillStats>) -> Map<(SkillKind, u32), SkillStats> {
    keyed_map(s, skill_key())
}

/// The entry for `(kind, id)` after one hit: the existing entry, or a fresh one.
pub open spec fn skill_after(
    m: Map<(SkillKind, u32), SkillStats>,
    kind: SkillKind,
    id: u32,
    element: u32,
    v: u64,
    crit: bool,
    lucky: bool,
) -> SkillStats {
    let base = if m.contains_key((kind, id)) { m[(kind, id)] } else { SkillStats::spec_fresh(kind, id, element) };
    base.spec_record(v, crit, lucky)
}

/// The attributes that `set_attr` can write.
#[derive(Clone, Copy, Debug, PartialEq, Eq, Structural)]
pub enum UserAttr {
    Hp,
    MaxHp,
    Level,
}

/// A player record: identity and combat statistics.
#[derive(Debug)]
pub struct User {
    pub uid: u32,
    pub name: String,
    pub profession: String,
    pub sub_profession: Option<SubProfession>,
    pub fight_point: u32,
    pub level: u32,
    pub hp: u32,
    pub max_hp: u32,
    pub damage_stats: DamageStats,
    pub healing_stats: HealingStats,
    pub taken_damage: u64,
    pub dead_count: u32,
    pub skill_usage: Vec<SkillStats>,
    pub last_update: u64,
}

pub struct UserView {
    pub uid: u32,
    pub name: Seq<char>,
    pub profession: Seq<char>,
    pub sub_profession: Option<SubProfession>,
    pub fight_point: u32,
    pub level: u32,
    pub hp: u32,
    pub max_hp: u32,
    pub damage_stats: DamageStats,
    pub healing_stats: DamageStats,
    pub taken_damage: u64,
    pub dead_count: u32,
    pub skills: Map<(SkillKind, u32), SkillStats>,
    pub last_update: u64,
}

impl View for User {
    type V = UserView;

    open spec fn view(&self) -> UserView {
        UserView {
            uid: self.uid,
            name: self.name@,
            profession: self.profession@,
            sub_profession: self.sub_profession,
            fight_point: self.fight_point,
            level: self.level,
            hp: self.hp,
            max_hp: self.max_hp,
            damage_stats: self.damage_stats,
            healing_stats: self.healing_stats,
            taken_damage: self.taken_damage,
            dead_count: self.dead_count,
            skills: skill_map(self.skill_usage@),
            last_update: self.last_update,
        }
    }
}

/// Profession shown until one is observed.
pub open spec fn unknown_profession() -> Seq<char> {
    "未知"@
}

impl UserView {
    /// A fresh record for `uid`.
    pub open spec fn fresh(uid: u32, now: u64) -> UserView {
        UserView {
            uid,
            name: Seq::empty(),
            profession: unknown_profession(),
            sub_profession: None,
            fight_point: 0,
            level: 0,
            hp: 0,
            max_hp: 0,
            damage_stats: DamageStats::spec_zero(),
            healing_stats: DamageStats::spec_zero(),
            taken_damage: 0,
            dead_count: 0,
            skills: Map::empty(),
            last_update: now,
        }
    }

    pub open spec fn can_add_damage(self, skill_id: u32, v: u64, hp: u64) -> bool {
        &&& self.damage_stats.fits(v, hp)
        &&& (self.skills.contains_key((SkillKind::Damage, skill_id)) ==> self.skills[(SkillKind::Damage, skill_id)].fits(v))
    }

    pub open spec fn can_add_healing(self, skill_id: u32, v: u64) -> bool {
        &&& self.healing_stats.fits(v, 0)
        &&& (self.skills.contains_key((SkillKind::Healing, skill_id)) ==> self.skills[(SkillKind::Healing, skill_id)].fits(v))
    }

    /// The record after one damage hit. The totals bucket by `lucky` (a lucky
    /// amount was dealt); the skill entry buckets by `cause_lucky` (the hit's
    /// lucky flag).
    pub open spec fn after_damage(
        self,
        skill_id: u32,
        element: u32,
        v: u64,
        crit: bool,
        lucky: bool,
        cause_lucky: bool,
        hp: u64,
        now: u64,
    ) -> UserView {
        UserView {
            damage_stats: self.damage_stats.spec_record(v, crit, lucky, hp, now),
            skills: self.skills.insert(
                (SkillKind::Damage, skill_id),
                skill_after(self.skills, SkillKind::Damage, skill_id, element, v, crit, cause_lucky),
            ),
            last_update: now,
            ..self
        }
    }

    /// The record after one healing hit.
    pub open spec fn after_healing(
        self,
        skill_id: u32,
        element: u32,
        v: u64,
        crit: bool,
        lucky: bool,
        cause_lucky: bool,
        now: u64,
    ) -> UserView {
        UserView {
            healing_stats: self.healing_stats.spec_record(v, crit, lucky, 0, now),
            skills: self.skills.insert(
                (SkillKind::Healing, skill_id),
                skill_after(self.skills, SkillKind::Healing, skill_id, element, v, crit, cause_lucky),
            ),
            last_update: now,
            ..self
        }
    }

    /// The record with its statistics cleared; identity is kept.
    pub open spec fn after_reset(self, now: u64) -> UserView {
        UserView {
            damage_stats: DamageStats::spec_zero(),
            healing_stats: DamageStats::spec_zero(),
            taken_damage: 0,
            skills: Map::empty(),
            fight_point: 0,
            last_update: now,
            ..self
        }
    }
}

impl User {
    pub open spec fn wf(&self) -> bool {
        &&& self.damage_stats.wf()
        &&& self.healing_stats.wf()
        &&& keys_unique(self.skill_usage@, skill_key())
        &&& forall|i: int| 0 <= i < self.skill_usage@.len() ==> (#[trigger] self.skill_usage@[i]).wf()
    }

    /// A fresh record for `uid` observed at `now`.
    pub fn new(uid: u32, now: u64) -> (r: User)
        ensures
            r@ == UserView::fresh(uid, now),
            r.wf(),
    {
        let r = User {
            uid,
            name: String::new(),
            profession: "未知".to_string(),
            sub_profession: None,
            fight_point: 0,
            level: 0,
            hp: 0,
            max_hp: 0,
            damage_stats: DamageStats::new(),
            healing_stats: DamageStats::new(),
            taken_damage: 0,
            dead_count: 0,
            skill_usage: Vec::new(),
            last_update: now,
        };
        proof { crate::keyed::lemma_keyed_empty(skill_key()); }
        assert(r@.name =~= Seq::<char>::empty());
        r
    }

    /// The index of the entry keyed `(kind, id)`, if any.
    pub fn find_skill(&self, kind: SkillKind, id: u32) -> (r: Option<usize>)
        requires
            self.wf(),
        ensures
            match r {
                Some(i) => i < self.skill_usage@.len() && self.skill_usage@[i as int].kind == kind
                    && self.skill_usage@[i as int].skill_id == id,
                None => !skill_map(self.skill_usage@).contains_key((kind, id)),
            },
    {
        let mut i: usize = 0;
        while i < self.skill_usage.len()
            invariant
                i <= self.skill_usage@.len(),
                forall|j: int| 0 <= j < i ==> (skill_key())(#[trigger] self.skill_usage@[j]) != (kind, id),
            decreases self.skill_usage@.len() - i,
        {
            if self.skill_usage[i].kind == kind && self.skill_usage[i].skill_id == id {
                return Some(i);
            }
            i = i + 1;
        }
        None
    }

    /// Records one hit on the skill entry keyed `(kind, id)`.
    fn record_skill(&mut self, pos: Option<usize>, kind: SkillKind, id: u32, element: u32, v: u64, crit: bool, lucky: bool)
        requires
            old(self).wf(),
            match pos {
                Some(i) => i < old(self).skill_usage@.len() && old(self).skill_usage@[i as int].kind == kind
                    && old(self).skill_usage@[i as int].skill_id == id,
                None => !skill_map(old(self).skill_usage@).contains_key((kind, id)),
            },
            skill_map(old(self).skill_usage@).contains_key((kind, id))
                ==> skill_map(old(self).skill_usage@)[(kind, id)].fits(v),
        ensures
            final(self).wf(),
            final(self)@ == (UserView {
                skills: old(self)@.skills.insert((kind, id), skill_after(old(self)@.skills, kind, id, element, v, crit, lucky)),
                ..old(self)@
            }),
    {
        let ghost m = skill_map(self.skill_usage@);
        match pos {
            Some(i) => {
                proof { lemma_keyed_index(self.skill_usage@, skill_key(), i as int); }
                let mut s = self.skill_usage[i];
                s.values.add(v, crit, lucky);
                s.counts.add(crit, lucky);
                proof { lemma_keyed_update(self.skill_usage@, skill_key(), i as int, s); }
                self.skill_usage.set(i, s);
            },
            None => {
                let mut s = SkillStats::new(kind, id, element);
                s.values.add(v, crit, lucky);
                s.counts.add(crit, lucky);
                proof { crate::keyed::lemma_keyed_push(self.skill_usage@, skill_key(), s); }
                self.skill_usage.push(s);
            },
        }
    }

    /// Records one damage hit dealt by this player at `now`. Returns false,
    /// changing nothing, when a counter would overflow.
    pub fn add_damage(
        &mut self,
        skill_id: u32,
        element: u32,
        damage: u64,
        is_crit: bool,
        is_lucky: bool,
        is_cause_lucky: bool,
        hp_lessen: u64,
        now: u64,
    ) -> (recorded: bool)
        requires
            old(self).wf(),
        ensures
            final(self).wf(),
            recorded == old(self)@.can_add_damage(skill_id, damage, hp_lessen),
            recorded ==> final(self)@ == old(self)@.after_damage(
                skill_id, element, damage, is_crit, is_lucky, is_cause_lucky, hp_lessen, now),
            !recorded ==> final(self)@ == old(self)@,
    {
        let pos = self.find_skill(SkillKind::Damage, skill_id);
        let skill_fits = match pos {
            Some(i) => {
                proof { lemma_keyed_index(self.skill_usage@, skill_key(), i as int); }
                let s = self.skill_usage[i];
                s.values.total <= u64::MAX - damage && s.counts.total < u32::MAX
            },
            None => true,
        };
        if !skill_fits || self.damage_stats.values.total > u64::MAX - damage
            || self.damage_stats.counts.total == u32::MAX || self.damage_stats.hp_lessen > u64::MAX - hp_lessen {
            return false;
        }
        self.damage_stats.record(damage, is_crit, is_lucky, hp_lessen, now);
        self.record_skill(pos, SkillKind::Damage, skill_id, element, damage, is_crit, is_cause_lucky);
        self.last_update = now;
        true
    }

    /// Records one healing hit given by this player at `now`. Returns false,
    /// changing nothing, when a counter would overflow.
    pub fn add_healing(
        &mut self,
        skill_id: u32,
        element: u32,
        healing: u64,
        is_crit: bool,
        is_lucky: bool,
        is_cause_lucky: bool,
        now: u64,
    ) -> (recorded: bool)
        requires
            old(self).wf(),
        ensures
            final(self).wf(),
            recorded == old(self)@.can_add_healing(skill_id, healing),
            recorded ==> final(self)@ == old(self)@.after_healing(
                skill_id, element, healing, is_crit, is_lucky, is_cause_lucky, now),
            !recorded ==> final(self)@ == old(self)@,
    {
        let pos = self.find_skill(SkillKind::Healing, skill_id);
        let skill_fits = match pos {
            Some(i) => {
                proof { lemma_keyed_index(self.skill_usage@, skill_key(), i as int); }
                let s = self.skill_usage[i];
                s.values.total <= u64::MAX - healing && s.counts.total < u32::MAX
            },
            None => true,
        };
        if !skill_fits || self.healing_stats.values.total > u64::MAX - healing
            || self.healing_stats.counts.total == u32::MAX {
            return false;
        }
        self.healing_stats.record(healing, is_crit, is_lucky, 0, now);
        self.record_skill(pos, SkillKind::Healing, skill_id, element, healing, is_crit, is_cause_lucky);
        self.last_update = now;
        true
    }

    /// Adds damage taken, and a death when `is_dead`. Saturates at the largest value.
    pub fn add_taken_damage(&mut self, damage: u64, is_dead: bool)
        requires
            old(self).wf(),
        ensures
            final(self).wf(),
            final(self)@ == (UserView {
                taken_damage: if old(self).taken_damage + damage <= u64::MAX {
                    (old(self).taken_damage + damage) as u64
                } else {
                    u64::MAX
                },
                dead_count: if is_dead && old(self).dead_count < u32::MAX {
                    (old(self).dead_count + 1) as u32
                } else {
                    old(self).dead_count
                },
                ..old(self)@
            }),
    {
        self.taken_damage = self.taken_damage.saturating_add(damage);
        if is_dead && self.dead_count < u32::MAX {
            self.dead_count = self.dead_count + 1;
        }
    }

    /// Derives the damage rate.
    pub fn update_dps(&mut self)
        requires
            old(self).wf(),
        ensures
            final(self).wf(),
            final(self)@ == (UserView { damage_stats: old(self).damage_stats.spec_update_rate(), ..old(self)@ }),
    {
        self.damage_stats.update_rate();
    }

    /// Derives the healing rate.
    pub fn update_hps(&mut self)
        requires
            old(self).wf(),
        ensures
            final(self).wf(),
            final(self)@ == (UserView { healing_stats: old(self).healing_stats.spec_update_rate(), ..old(self)@ }),
    {
        self.healing_stats.update_rate();
    }

    /// Clears the statistics at `now`, keeping identity.
    pub fn reset(&mut self, now: u64)
        requires
            old(self).wf(),
        ensures
            final(self).wf(),
            final(self)@ == old(self)@.after_reset(now),
    {
        self.damage_stats = DamageStats::new();
        self.healing_stats = DamageStats::new();
        self.taken_damage = 0;
        self.skill_usage = Vec::new();
        self.fight_point = 0;
        self.last_update = now;
        proof { crate::keyed::lemma_keyed_empty(skill_key()); }
    }

    pub fn set_name(&mut self, name: String)
        requires
            old(self).wf(),
        ensures
            final(self).wf(),
            final(self)@ == (UserView { name: name@, ..old(self)@ }),
    {
        self.name = name;
    }

    /// Sets the profession; a different profession clears the sub-profession.
    pub fn set_profession(&mut self, profession: String)
        requires
            old(self).wf(),
        ensures
            final(self).wf(),
            final(self)@ == (UserView {
                profession: profession@,
                sub_profession: if profession@ != old(self).profession@ { None } else { old(self).sub_profession },
                ..old(self)@
            }),
    {
        if profession != self.profession {
            self.sub_profession = None;
        }
        self.profession = profession;
    }

    pub fn set_sub_profession(&mut self, sub: SubProfession)
        requires
            old(self).wf(),
        ensures
            final(self).wf(),
            final(self)@ == (UserView { sub_profession: Some(sub), ..old(self)@ }),
    {
        self.sub_profession = Some(sub);
    }

    pub fn set_fight_point(&mut self, fight_point: u32)
        requires
            old(self).wf(),
        ensures
            final(self).wf(),
            final(self)@ == (UserView { fight_point, ..old(self)@ }),
    {
        self.fight_point = fight_point;
    }

    pub fn set_attr(&mut self, key: UserAttr, value: u32)
        requires
            old(self).wf(),
        ensures
            final(self).wf(),
            final(self)@ == match key {
                UserAttr::Hp => UserView { hp: value, ..old(self)@ },
                UserAttr::MaxHp => UserView { max_hp: value, ..old(self)@ },
                UserAttr::Level => UserView { level: value, ..old(self)@ },
            },
    {
        match key {
            UserAttr::Hp => self.hp = value,
            UserAttr::MaxHp => self.max_hp = value,
            UserAttr::Level => self.level = value,
        }
    }
}

} // verus!
