//! The aggregate store: players and enemies keyed by id, policy settings,
//! pause state and the time of the last recorded event.
use vstd::prelude::*;
use crate::keyed::{keys_unique, keyed_map, lemma_keyed_index, lemma_keyed_update, lemma_keyed_push, lemma_keyed_empty, lemma_keyed_map_values};
use crate::model::{User, UserView, UserAttr};
use crate::enemy::{Enemy, EnemyView};
use crate::tables::{SubProfession, spec_sub_profession, sub_profession_by_skill_id};

verus! {

/// Target uid of the elite training dummy.
pub const ELITE_DUMMY_UID: u32 = 75;

/// Silence after which statistics are cleared when the policy asks for it.
pub const TIMEOUT_CLEAR_MS: u64 = 15000;

/// Recording policy.
#[derive(Clone, Copy, Debug, PartialEq, Eq, Structural)]
pub struct GlobalSettings {
    pub auto_clear_on_server_change: bool,
    pub auto_clear_on_timeout: bool,
    pub only_record_elite_dummy: bool,
}

impl GlobalSettings {
    pub fn new() -> (r: GlobalSettings)
        ensures
            r == (GlobalSettings {
                auto_clear_on_server_change: true,
                auto_clear_on_timeout: false,
                only_record_elite_dummy: false,
            }),
    {
        GlobalSettings { auto_clear_on_server_change: true, auto_clear_on_timeout: false, only_record_elite_dummy: false }
    }
}

pub open spec fn user_key() -> spec_fn(UserView) -> u32 {
    |u: UserView| u.uid
}

pub open spec fn enemy_key() -> spec_fn(EnemyView) -> u32 {
    |e: EnemyView| e.id
}

pub open spec fn users_seq(s: Seq<User>) -> Seq<UserView> {
    s.map_values(|u: User| u@)
}

pub open spec fn enemies_seq(s: Seq<Enemy>) -> Seq<EnemyView> {
    s.map_values(|e: Enemy| e@)
}

/// The record of `uid`, or the one a first observation at `now` creates.
pub open spec fn user_or_fresh(m: Map<u32, UserView>, uid: u32, now: u64) -> UserView {
    if m.contains_key(uid) { m[uid] } else { UserView::fresh(uid, now) }
}

pub open spec fn enemy_or_fresh(m: Map<u32, EnemyView>, id: u32, now: u64) -> EnemyView {
    if m.contains_key(id) { m[id] } else { EnemyView::fresh(id, now) }
}

/// A record with the sub-profession that skill `skill_id` reveals, if any.
pub open spec fn with_sub_profession(u: UserView, skill_id: u32) -> UserView {
    match spec_sub_profession(skill_id) {
        Some(s) => UserView { sub_profession: Some(s), ..u },
        None => u,
    }
}

pub open spec fn reset_user(now: u64) -> spec_fn(UserView) -> UserView {
    |u: UserView| u.after_reset(now)
}

pub open spec fn rate_damage() -> spec_fn(UserView) -> UserView {
    |u: UserView| UserView { damage_stats: u.damage_stats.spec_update_rate(), ..u }
}

pub open spec fn rate_healing() -> spec_fn(UserView) -> UserView {
    |u: UserView| UserView { healing_stats: u.healing_stats.spec_update_rate(), ..u }
}

pub struct StoreView {
    pub users: Map<u32, UserView>,
    pub enemies: Map<u32, EnemyView>,
    pub settings: GlobalSettings,
    pub paused: bool,
    pub last_log_time: u64,
}

impl StoreView {
    /// The store after deriving every player's damage and healing rates; nothing changes while paused.
    pub open spec fn spec_rates(self) -> StoreView {
        if self.paused {
            self
        } else {
            StoreView { users: self.users.map_values(rate_damage()).map_values(rate_healing()), ..self }
        }
    }

    /// Whether the policy asks for a clear at `now`: timeout clearing is on
    /// and more than the timeout has passed since the last recorded event.
    pub open spec fn spec_timeout_due(self, now: u64) -> bool {
        self.settings.auto_clear_on_timeout && now > self.last_log_time
            && now - self.last_log_time > TIMEOUT_CLEAR_MS
    }

    /// The store after `clearAll` at `now`.
    pub open spec fn spec_clear_all(self, now: u64) -> StoreView {
        StoreView { users: self.users.map_values(reset_user(now)), enemies: Map::empty(), paused: false, ..self }
    }

    pub open spec fn spec_add_damage(
        self,
        uid: u32,
        skill_id: u32,
        element: u32,
        damage: u64,
        is_crit: bool,
        is_lucky: bool,
        is_cause_lucky: bool,
        hp_lessen: u64,
        target_uid: u32,
        now: u64,
    ) -> StoreView {
        let o = self;
        let u = user_or_fresh(o.users, uid, now);
        let u2 = if u.can_add_damage(skill_id, damage, hp_lessen) {
            u.after_damage(skill_id, element, damage, is_crit, is_lucky, is_cause_lucky, hp_lessen, now)
        } else {
            u
        };
        if o.paused || (o.settings.only_record_elite_dummy && target_uid != ELITE_DUMMY_UID) {
            o
        } else {
            (StoreView {
                users: o.users.insert(uid, with_sub_profession(u2, skill_id)),
                last_log_time: now,
                ..o
            })
        }
    }

    pub open spec fn spec_add_healing(self, uid: u32, skill_id: u32, element: u32, healing: u64, is_crit: bool, is_lucky: bool, is_cause_lucky: bool, now: u64) -> StoreView {
        let o = self;
        let u = user_or_fresh(o.users, uid, now);
        if o.paused || uid == 0 {
            o
        } else {
            (StoreView {
                users: o.users.insert(uid, with_sub_profession(
                    if u.can_add_healing(skill_id, healing) {
                        u.after_healing(skill_id, element, healing, is_crit, is_lucky, is_cause_lucky, now)
                    } else {
                        u
                    },
                    skill_id,
                )),
                last_log_time: now,
                ..o
            })
        }
    }

    pub open spec fn spec_add_taken_damage(self, uid: u32, damage: u64, is_dead: bool, now: u64) -> StoreView {
        let o = self;
        let u = user_or_fresh(o.users, uid, now);
        if o.paused {
            o
        } else {
            (StoreView {
                users: o.users.insert(uid, UserView {
                    taken_damage: if u.taken_damage + damage <= u64::MAX { (u.taken_damage + damage) as u64 } else { u64::MAX },
                    dead_count: if is_dead && u.dead_count < u32::MAX { (u.dead_count + 1) as u32 } else { u.dead_count },
                    ..u
                }),
                last_log_time: now,
                ..o
            })
        }
    }

    pub open spec fn spec_set_user_name(self, uid: u32, name: Seq<char>, now: u64) -> StoreView {
        let o = self;
        let u = user_or_fresh(o.users, uid, now);
        if o.paused {
            o
        } else {
            (StoreView {
                users: o.users.insert(uid, UserView { name: name, ..u }),
                ..o
            })
        }
    }

    pub open spec fn spec_set_user_profession(self, uid: u32, profession: Seq<char>, now: u64) -> StoreView {
        let o = self;
        let u = user_or_fresh(o.users, uid, now);
        if o.paused {
            o
        } else {
            (StoreView {
                users: o.users.insert(uid, UserView { profession: profession, sub_profession: if profession != u.profession { None } else { u.sub_profession }, ..u }),
                ..o
            })
        }
    }

    pub open spec fn spec_set_user_sub_profession(self, uid: u32, sub: SubProfession, now: u64) -> StoreView {
        let o = self;
        let u = user_or_fresh(o.users, uid, now);
        if o.paused {
            o
        } else {
            (StoreView {
                users: o.users.insert(uid, UserView { sub_profession: Some(sub), ..u }),
                ..o
            })
        }
    }

    pub open spec fn spec_set_user_fight_point(self, uid: u32, fight_point: u32, now: u64) -> StoreView {
        let o = self;
        let u = user_or_fresh(o.users, uid, now);
        if o.paused {
            o
        } else {
            (StoreView {
                users: o.users.insert(uid, UserView { fight_point, ..u }),
                ..o
            })
        }
    }

    pub open spec fn spec_set_user_attr(self, uid: u32, key: UserAttr, value: u32, now: u64) -> StoreView {
        let o = self;
        let u = user_or_fresh(o.users, uid, now);
        if o.paused {
            o
        } else {
            (StoreView {
                users: o.users.insert(uid, match key {
                    UserAttr::Hp => UserView { hp: value, ..u },
                    UserAttr::MaxHp => UserView { max_hp: value, ..u },
                    UserAttr::Level => UserView { level: value, ..u },
                }),
                ..o
            })
        }
    }

    pub open spec fn spec_set_enemy_name(self, id: u32, name: Seq<char>, now: u64) -> StoreView {
        let o = self;
        let e = enemy_or_fresh(o.enemies, id, now);
        if o.paused {
            o
        } else {
            (StoreView { enemies: o.enemies.insert(id, EnemyView { name: name, last_update: now, ..e }), ..o })
        }
    }

    pub open spec fn spec_set_enemy_hp(self, id: u32, hp: u32, now: u64) -> StoreView {
        let o = self;
        let e = enemy_or_fresh(o.enemies, id, now);
        if o.paused {
            o
        } else {
            (StoreView { enemies: o.enemies.insert(id, EnemyView { hp, last_update: now, ..e }), ..o })
        }
    }

    pub open spec fn spec_set_enemy_max_hp(self, id: u32, max_hp: u32, now: u64) -> StoreView {
        let o = self;
        let e = enemy_or_fresh(o.enemies, id, now);
        if o.paused {
            o
        } else {
            (StoreView { enemies: o.enemies.insert(id, EnemyView { max_hp, last_update: now, ..e }), ..o })
        }
    }
}

/// Players and enemies of the session with the policy that governs writes.
pub struct DataManager {
    pub users: Vec<User>,
    pub enemies: Vec<Enemy>,
    pub settings: GlobalSettings,
    pub paused: bool,
    /// Time of the last recorded combat event, in milliseconds.
    pub last_log_time: u64,
}

impl View for DataManager {
    type V = StoreView;

    open spec fn view(&self) -> StoreView {
        StoreView {
            users: keyed_map(users_seq(self.users@), user_key()),
            enemies: keyed_map(enemies_seq(self.enemies@), enemy_key()),
            settings: self.settings,
            paused: self.paused,
            last_log_time: self.last_log_time,
        }
    }
}

proof fn lemma_users_update(s: Seq<User>, i: int, u: User)
    requires
        keys_unique(users_seq(s), user_key()),
        0 <= i < s.len(),
        u.uid == s[i].uid,
    ensures
        keys_unique(users_seq(s.update(i, u)), user_key()),
        keyed_map(users_seq(s.update(i, u)), user_key())
            == keyed_map(users_seq(s), user_key()).insert(u.uid, u@),
{
    assert(users_seq(s.update(i, u)) =~= users_seq(s).update(i, u@));
    lemma_keyed_update(users_seq(s), user_key(), i, u@);
}

proof fn lemma_enemies_update(s: Seq<Enemy>, i: int, e: Enemy)
    requires
        keys_unique(enemies_seq(s), enemy_key()),
        0 <= i < s.len(),
        e.id == s[i].id,
    ensures
        keys_unique(enemies_seq(s.update(i, e)), enemy_key()),
        keyed_map(enemies_seq(s.update(i, e)), enemy_key())
            == keyed_map(enemies_seq(s), enemy_key()).insert(e.id, e@),
{
    assert(enemies_seq(s.update(i, e)) =~= enemies_seq(s).update(i, e@));
    lemma_keyed_update(enemies_seq(s), enemy_key(), i, e@);
}

impl DataManager {
    pub open spec fn wf(&self) -> bool {
        &&& keys_unique(users_seq(self.users@), user_key())
        &&& keys_unique(enemies_seq(self.enemies@), enemy_key())
        &&& forall|i: int| 0 <= i < self.users@.len() ==> (#[trigger] self.users@[i]).wf()
    }

    /// An empty, running store with the default policy.
    pub fn new(now: u64) -> (r: DataManager)
        ensures
            r.wf(),
            r@.users == Map::<u32, UserView>::empty(),
            r@.enemies == Map::<u32, EnemyView>::empty(),
            r@.settings == (GlobalSettings {
                auto_clear_on_server_change: true,
                auto_clear_on_timeout: false,
                only_record_elite_dummy: false,
            }),
            !r@.paused,
            r@.last_log_time == now,
    {
        let r = DataManager {
            users: Vec::new(),
            enemies: Vec::new(),
            settings: GlobalSettings::new(),
            paused: false,
            last_log_time: now,
        };
        proof {
            assert(users_seq(r.users@) =~= Seq::<UserView>::empty());
            assert(enemies_seq(r.enemies@) =~= Seq::<EnemyView>::empty());
            lemma_keyed_empty(user_key());
            lemma_keyed_empty(enemy_key());
        }
        r
    }

    /// The index of the record of `uid`, created at `now` if absent.
    fn user_slot(&mut self, uid: u32, now: u64) -> (i: usize)
        requires
            old(self).wf(),
        ensures
            final(self).wf(),
            i < final(self).users@.len(),
            final(self).users@[i as int].uid == uid,
            final(self)@ == (StoreView {
                users: old(self)@.users.insert(uid, user_or_fresh(old(self)@.users, uid, now)),
                ..old(self)@
            }),
    {
        let mut i: usize = 0;
        while i < self.users.len()
            invariant
                i <= self.users@.len(),
                self.wf(),
                self.users@ == old(self).users@,
                self.enemies@ == old(self).enemies@,
                self.settings == old(self).settings,
                self.paused == old(self).paused,
                self.last_log_time == old(self).last_log_time,
                forall|j: int| 0 <= j < i ==> (#[trigger] self.users@[j]).uid != uid,
            decreases self.users@.len() - i,
        {
            if self.users[i].uid == uid {
                proof {
                    assert(users_seq(self.users@)[i as int] == self.users@[i as int]@);
                    lemma_keyed_index(users_seq(self.users@), user_key(), i as int);
                    assert(self@.users.insert(uid, self@.users[uid]) =~= self@.users);
                }
                return i;
            }
            i = i + 1;
        }
        let u = User::new(uid, now);
        proof {
            assert forall|j: int| 0 <= j < users_seq(self.users@).len()
                implies (user_key())(users_seq(self.users@)[j]) != uid by {
                assert(users_seq(self.users@)[j] == self.users@[j]@);
            }
            assert(!keyed_map(users_seq(self.users@), user_key()).contains_key(uid));
            assert(users_seq(self.users@.push(u)) =~= users_seq(self.users@).push(u@));
            lemma_keyed_push(users_seq(self.users@), user_key(), u@);
        }
        self.users.push(u);
        self.users.len() - 1
    }

    /// Records damage dealt by player `uid` to `target_uid` at `now`. Nothing
    /// changes while paused, nor when only the elite dummy is recorded and the
    /// target is another.
    pub fn add_damage(
        &mut self,
        uid: u32,
        skill_id: u32,
        element: u32,
        damage: u64,
        is_crit: bool,
        is_lucky: bool,
        is_cause_lucky: bool,
        hp_lessen: u64,
        target_uid: u32,
        now: u64,
    )
        requires
            old(self).wf(),
        ensures
            final(self).wf(),
            final(self)@ == old(self)@.spec_add_damage(uid, skill_id, element, damage, is_crit, is_lucky, is_cause_lucky, hp_lessen, target_uid, now),
    {
        if self.paused || (self.settings.only_record_elite_dummy && target_uid != ELITE_DUMMY_UID) {
            return;
        }
        let i = self.user_slot(uid, now);
        let ghost s0 = self.users@;
        proof {
            assert(users_seq(s0)[i as int] == s0[i as int]@);
            lemma_keyed_index(users_seq(s0), user_key(), i as int);
            assert(s0[i as int]@ == user_or_fresh(old(self)@.users, uid, now));
        }
        let sub = sub_profession_by_skill_id(skill_id);
        {
            let u = &mut self.users[i];
            u.add_damage(skill_id, element, damage, is_crit, is_lucky, is_cause_lucky, hp_lessen, now);
            if let Some(s) = sub {
                u.set_sub_profession(s);
            }
        }
        proof {
            lemma_users_update(s0, i as int, self.users@[i as int]);
            assert(self.users@ =~= s0.update(i as int, self.users@[i as int]));
            assert(self@.users =~= old(self)@.users.insert(uid, self.users@[i as int]@));
        }
        self.last_log_time = now;
    }

    /// Records healing given by player `uid` at `now`; a heal from an unknown source (uid 0) is dropped.
    pub fn add_healing(&mut self, uid: u32, skill_id: u32, element: u32, healing: u64, is_crit: bool, is_lucky: bool, is_cause_lucky: bool, now: u64)
        requires
            old(self).wf(),
        ensures
            final(self).wf(),
            final(self)@ == old(self)@.spec_add_healing(uid, skill_id, element, healing, is_crit, is_lucky, is_cause_lucky, now),
    {
        if self.paused || uid == 0 {
            return;
        }
        let i = self.user_slot(uid, now);
        let ghost s0 = self.users@;
        proof {
            assert(users_seq(s0)[i as int] == s0[i as int]@);
            lemma_keyed_index(users_seq(s0), user_key(), i as int);
        }
        let sub = sub_profession_by_skill_id(skill_id);
        {
            let u = &mut self.users[i];
            u.add_healing(skill_id, element, healing, is_crit, is_lucky, is_cause_lucky, now);
            if let Some(s) = sub {
                u.set_sub_profession(s);
            }
        }
        proof {
            lemma_users_update(s0, i as int, self.users@[i as int]);
            assert(self.users@ =~= s0.update(i as int, self.users@[i as int]));
            assert(self@.users =~= old(self)@.users.insert(uid, self.users@[i as int]@));
        }
        self.last_log_time = now;
    }

    /// Records damage taken by player `uid` at `now`.
    pub fn add_taken_damage(&mut self, uid: u32, damage: u64, is_dead: bool, now: u64)
        requires
            old(self).wf(),
        ensures
            final(self).wf(),
            final(self)@ == old(self)@.spec_add_taken_damage(uid, damage, is_dead, now),
    {
        if self.paused {
            return;
        }
        let i = self.user_slot(uid, now);
        let ghost s0 = self.users@;
        proof {
            assert(users_seq(s0)[i as int] == s0[i as int]@);
            lemma_keyed_index(users_seq(s0), user_key(), i as int);
        }
        self.users[i].add_taken_damage(damage, is_dead);
        proof {
            lemma_users_update(s0, i as int, self.users@[i as int]);
            assert(self.users@ =~= s0.update(i as int, self.users@[i as int]));
            assert(self@.users =~= old(self)@.users.insert(uid, self.users@[i as int]@));
        }
        self.last_log_time = now;
    }

    /// Sets the name of player `uid`.
    pub fn set_user_name(&mut self, uid: u32, name: String, now: u64)
        requires
            old(self).wf(),
        ensures
            final(self).wf(),
            final(self)@ == old(self)@.spec_set_user_name(uid, name@, now),
    {
        if self.paused {
            return;
        }
        let i = self.user_slot(uid, now);
        let ghost s0 = self.users@;
        proof {
            assert(users_seq(s0)[i as int] == s0[i as int]@);
            lemma_keyed_index(users_seq(s0), user_key(), i as int);
        }
        self.users[i].set_name(name);
        proof {
            lemma_users_update(s0, i as int, self.users@[i as int]);
            assert(self.users@ =~= s0.update(i as int, self.users@[i as int]));
            assert(self@.users =~= old(self)@.users.insert(uid, self.users@[i as int]@));
        }
    }

    /// Sets the profession of player `uid`; a different profession clears the sub-profession.
    pub fn set_user_profession(&mut self, uid: u32, profession: String, now: u64)
        requires
            old(self).wf(),
        ensures
            final(self).wf(),
            final(self)@ == old(self)@.spec_set_user_profession(uid, profession@, now),
    {
        if self.paused {
            return;
        }
        let i = self.user_slot(uid, now);
        let ghost s0 = self.users@;
        proof {
            assert(users_seq(s0)[i as int] == s0[i as int]@);
            lemma_keyed_index(users_seq(s0), user_key(), i as int);
        }
        self.users[i].set_profession(profession);
        proof {
            lemma_users_update(s0, i as int, self.users@[i as int]);
            assert(self.users@ =~= s0.update(i as int, self.users@[i as int]));
            assert(self@.users =~= old(self)@.users.insert(uid, self.users@[i as int]@));
        }
    }

    /// Sets the sub-profession of player `uid`.
    pub fn set_user_sub_profession(&mut self, uid: u32, sub: SubProfession, now: u64)
        requires
            old(self).wf(),
        ensures
            final(self).wf(),
            final(self)@ == old(self)@.spec_set_user_sub_profession(uid, sub, now),
    {
        if self.paused {
            return;
        }
        let i = self.user_slot(uid, now);
        let ghost s0 = self.users@;
        proof {
            assert(users_seq(s0)[i as int] == s0[i as int]@);
            lemma_keyed_index(users_seq(s0), user_key(), i as int);
        }
        self.users[i].set_sub_profession(sub);
        proof {
            lemma_users_update(s0, i as int, self.users@[i as int]);
            assert(self.users@ =~= s0.update(i as int, self.users@[i as int]));
            assert(self@.users =~= old(self)@.users.insert(uid, self.users@[i as int]@));
        }
    }

    /// Sets the fight point of player `uid`.
    pub fn set_user_fight_point(&mut self, uid: u32, fight_point: u32, now: u64)
        requires
            old(self).wf(),
        ensures
            final(self).wf(),
            final(self)@ == old(self)@.spec_set_user_fight_point(uid, fight_point, now),
    {
        if self.paused {
            return;
        }
        let i = self.user_slot(uid, now);
        let ghost s0 = self.users@;
        proof {
            assert(users_seq(s0)[i as int] == s0[i as int]@);
            lemma_keyed_index(users_seq(s0), user_key(), i as int);
        }
        self.users[i].set_fight_point(fight_point);
        proof {
            lemma_users_update(s0, i as int, self.users@[i as int]);
            assert(self.users@ =~= s0.update(i as int, self.users@[i as int]));
            assert(self@.users =~= old(self)@.users.insert(uid, self.users@[i as int]@));
        }
    }

    /// Sets one attribute of player `uid`.
    pub fn set_user_attr(&mut self, uid: u32, key: UserAttr, value: u32, now: u64)
        requires
            old(self).wf(),
        ensures
            final(self).wf(),
            final(self)@ == old(self)@.spec_set_user_attr(uid, key, value, now),
    {
        if self.paused {
            return;
        }
        let i = self.user_slot(uid, now);
        let ghost s0 = self.users@;
        proof {
            assert(users_seq(s0)[i as int] == s0[i as int]@);
            lemma_keyed_index(users_seq(s0), user_key(), i as int);
        }
        self.users[i].set_attr(key, value);
        proof {
            lemma_users_update(s0, i as int, self.users@[i as int]);
            assert(self.users@ =~= s0.update(i as int, self.users@[i as int]));
            assert(self@.users =~= old(self)@.users.insert(uid, self.users@[i as int]@));
        }
    }

    /// The index of the record of enemy `id`, created at `now` if absent.
    fn enemy_slot(&mut self, id: u32, now: u64) -> (i: usize)
        requires
            old(self).wf(),
        ensures
            final(self).wf(),
            i < final(self).enemies@.len(),
            final(self).enemies@[i as int].id == id,
            final(self)@ == (StoreView {
                enemies: old(self)@.enemies.insert(id, enemy_or_fresh(old(self)@.enemies, id, now)),
                ..old(self)@
            }),
    {
        let mut i: usize = 0;
        while i < self.enemies.len()
            invariant
                i <= self.enemies@.len(),
                self.wf(),
                self.users@ == old(self).users@,
                self.enemies@ == old(self).enemies@,
                self.settings == old(self).settings,
                self.paused == old(self).paused,
                self.last_log_time == old(self).last_log_time,
                forall|j: int| 0 <= j < i ==> (#[trigger] self.enemies@[j]).id != id,
            decreases self.enemies@.len() - i,
        {
            if self.enemies[i].id == id {
                proof {
                    assert(enemies_seq(self.enemies@)[i as int] == self.enemies@[i as int]@);
                    lemma_keyed_index(enemies_seq(self.enemies@), enemy_key(), i as int);
                    assert(self@.enemies.insert(id, self@.enemies[id]) =~= self@.enemies);
                }
                return i;
            }
            i = i + 1;
        }
        let e = Enemy::new(id, now);
        proof {
            assert forall|j: int| 0 <= j < enemies_seq(self.enemies@).len()
                implies (enemy_key())(enemies_seq(self.enemies@)[j]) != id by {
                assert(enemies_seq(self.enemies@)[j] == self.enemies@[j]@);
            }
            assert(!keyed_map(enemies_seq(self.enemies@), enemy_key()).contains_key(id));
            assert(enemies_seq(self.enemies@.push(e)) =~= enemies_seq(self.enemies@).push(e@));
            lemma_keyed_push(enemies_seq(self.enemies@), enemy_key(), e@);
        }
        self.enemies.push(e);
        self.enemies.len() - 1
    }

    /// Sets the name of enemy `id`.
    pub fn set_enemy_name(&mut self, id: u32, name: String, now: u64)
        requires
            old(self).wf(),
        ensures
            final(self).wf(),
            final(self)@ == old(self)@.spec_set_enemy_name(id, name@, now),
    {
        if self.paused {
            return;
        }
        let i = self.enemy_slot(id, now);
        let ghost s0 = self.enemies@;
        proof {
            assert(enemies_seq(s0)[i as int] == s0[i as int]@);
            lemma_keyed_index(enemies_seq(s0), enemy_key(), i as int);
        }
        self.enemies[i].set_name(name, now);
        proof {
            lemma_enemies_update(s0, i as int, self.enemies@[i as int]);
            assert(self.enemies@ =~= s0.update(i as int, self.enemies@[i as int]));
            assert(self@.enemies =~= old(self)@.enemies.insert(id, self.enemies@[i as int]@));
        }
    }

    /// Sets the hp of enemy `id`.
    pub fn set_enemy_hp(&mut self, id: u32, hp: u32, now: u64)
        requires
            old(self).wf(),
        ensures
            final(self).wf(),
            final(self)@ == old(self)@.spec_set_enemy_hp(id, hp, now),
    {
        if self.paused {
            return;
        }
        let i = self.enemy_slot(id, now);
        let ghost s0 = self.enemies@;
        proof {
            assert(enemies_seq(s0)[i as int] == s0[i as int]@);
            lemma_keyed_index(enemies_seq(s0), enemy_key(), i as int);
        }
        self.enemies[i].set_hp(hp, now);
        proof {
            lemma_enemies_update(s0, i as int, self.enemies@[i as int]);
            assert(self.enemies@ =~= s0.update(i as int, self.enemies@[i as int]));
            assert(self@.enemies =~= old(self)@.enemies.insert(id, self.enemies@[i as int]@));
        }
    }

    /// Sets the max hp of enemy `id`.
    pub fn set_enemy_max_hp(&mut self, id: u32, max_hp: u32, now: u64)
        requires
            old(self).wf(),
        ensures
            final(self).wf(),
            final(self)@ == old(self)@.spec_set_enemy_max_hp(id, max_hp, now),
    {
        if self.paused {
            return;
        }
        let i = self.enemy_slot(id, now);
        let ghost s0 = self.enemies@;
        proof {
            assert(enemies_seq(s0)[i as int] == s0[i as int]@);
            lemma_keyed_index(enemies_seq(s0), enemy_key(), i as int);
        }
        self.enemies[i].set_max_hp(max_hp, now);
        proof {
            lemma_enemies_update(s0, i as int, self.enemies@[i as int]);
            assert(self.enemies@ =~= s0.update(i as int, self.enemies@[i as int]));
            assert(self@.enemies =~= old(self)@.enemies.insert(id, self.enemies@[i as int]@));
        }
    }

    /// Derives every player's damage rate; nothing changes while paused.
    pub fn update_dps(&mut self)
        requires
            old(self).wf(),
        ensures
            final(self).wf(),
            old(self)@.paused ==> final(self)@ == old(self)@,
            !old(self)@.paused ==> final(self)@ == (StoreView {
                users: old(self)@.users.map_values(rate_damage()),
                ..old(self)@
            }),
    {
        if self.paused {
            return;
        }
        let n = self.users.len();
        let mut i: usize = 0;
        while i < n
            invariant
                i <= n,
                n == self.users@.len(),
                n == old(self).users@.len(),
                self.enemies@ == old(self).enemies@,
                self.settings == old(self).settings,
                self.paused == old(self).paused,
                self.last_log_time == old(self).last_log_time,
                keys_unique(enemies_seq(self.enemies@), enemy_key()),
                forall|j: int| 0 <= j < n ==> (#[trigger] self.users@[j]).wf(),
                forall|j: int| 0 <= j < i ==> (#[trigger] self.users@[j])@ == (rate_damage())(old(self).users@[j]@),
                forall|j: int| i <= j < n ==> #[trigger] self.users@[j] == old(self).users@[j],
            decreases n - i,
        {
            self.users[i].update_dps();
            i = i + 1;
        }
        proof {
            assert(users_seq(self.users@) =~= users_seq(old(self).users@).map_values(rate_damage()));
            lemma_keyed_map_values(users_seq(old(self).users@), user_key(), rate_damage());
        }
    }

    /// Derives every player's healing rate; nothing changes while paused.
    pub fn update_hps(&mut self)
        requires
            old(self).wf(),
        ensures
            final(self).wf(),
            old(self)@.paused ==> final(self)@ == old(self)@,
            !old(self)@.paused ==> final(self)@ == (StoreView {
                users: old(self)@.users.map_values(rate_healing()),
                ..old(self)@
            }),
    {
        if self.paused {
            return;
        }
        let n = self.users.len();
        let mut i: usize = 0;
        while i < n
            invariant
                i <= n,
                n == self.users@.len(),
                n == old(self).users@.len(),
                self.enemies@ == old(self).enemies@,
                self.settings == old(self).settings,
                self.paused == old(self).paused,
                self.last_log_time == old(self).last_log_time,
                keys_unique(enemies_seq(self.enemies@), enemy_key()),
                forall|j: int| 0 <= j < n ==> (#[trigger] self.users@[j]).wf(),
                forall|j: int| 0 <= j < i ==> (#[trigger] self.users@[j])@ == (rate_healing())(old(self).users@[j]@),
                forall|j: int| i <= j < n ==> #[trigger] self.users@[j] == old(self).users@[j],
            decreases n - i,
        {
            self.users[i].update_hps();
            i = i + 1;
        }
        proof {
            assert(users_seq(self.users@) =~= users_seq(old(self).users@).map_values(rate_healing()));
            lemma_keyed_map_values(users_seq(old(self).users@), user_key(), rate_healing());
        }
    }

    /// Clears every player's statistics (identity is kept), forgets every enemy and resumes recording.
    pub fn clear_all(&mut self, now: u64)
        requires
            old(self).wf(),
        ensures
            final(self).wf(),
            final(self)@ == old(self)@.spec_clear_all(now),
    {
        let n = self.users.len();
        let mut i: usize = 0;
        while i < n
            invariant
                i <= n,
                n == self.users@.len(),
                n == old(self).users@.len(),
                self.enemies@ == old(self).enemies@,
                self.settings == old(self).settings,
                self.paused == old(self).paused,
                self.last_log_time == old(self).last_log_time,
                keys_unique(enemies_seq(self.enemies@), enemy_key()),
                forall|j: int| 0 <= j < n ==> (#[trigger] self.users@[j]).wf(),
                forall|j: int| 0 <= j < i ==> (#[trigger] self.users@[j])@ == (reset_user(now))(old(self).users@[j]@),
                forall|j: int| i <= j < n ==> #[trigger] self.users@[j] == old(self).users@[j],
            decreases n - i,
        {
            self.users[i].reset(now);
            i = i + 1;
        }
        proof {
            assert(users_seq(self.users@) =~= users_seq(old(self).users@).map_values(reset_user(now)));
            lemma_keyed_map_values(users_seq(old(self).users@), user_key(), reset_user(now));
        }
        self.enemies = Vec::new();
        self.paused = false;
        proof {
            assert(enemies_seq(self.enemies@) =~= Seq::<EnemyView>::empty());
            lemma_keyed_empty(enemy_key());
        }
    }

    /// Pauses or resumes recording.
    pub fn pause(&mut self, paused: bool)
        requires
            old(self).wf(),
        ensures
            final(self).wf(),
            final(self)@ == (StoreView { paused, ..old(self)@ }),
    {
        self.paused = paused;
    }

    pub fn is_paused(&self) -> (r: bool)
        ensures
            r == self@.paused,
    {
        self.paused
    }

    pub fn get_settings(&self) -> (r: GlobalSettings)
        ensures
            r == self@.settings,
    {
        self.settings
    }

    /// Replaces the recording policy.
    pub fn update_settings(&mut self, settings: GlobalSettings)
        requires
            old(self).wf(),
        ensures
            final(self).wf(),
            final(self)@ == (StoreView { settings, ..old(self)@ }),
    {
        self.settings = settings;
    }

    /// Clears the statistics when the timeout policy asks for it. Returns whether it did.
    pub fn check_timeout_clear(&mut self, now: u64) -> (cleared: bool)
        requires
            old(self).wf(),
        ensures
            final(self).wf(),
            cleared == old(self)@.spec_timeout_due(now),
            cleared ==> final(self)@ == old(self)@.spec_clear_all(now),
            !cleared ==> final(self)@ == old(self)@,
    {
        if self.settings.auto_clear_on_timeout && now > self.last_log_time
            && now - self.last_log_time > TIMEOUT_CLEAR_MS {
            self.clear_all(now);
            true
        } else {
            false
        }
    }

    /// The record of player `uid`, if one exists.
    pub fn get_user(&self, uid: u32) -> (r: Option<&User>)
        requires
            self.wf(),
        ensures
            match r {
                Some(u) => self@.users.contains_key(uid) && self@.users[uid] == u@,
                None => !self@.users.contains_key(uid),
            },
    {
        let mut i: usize = 0;
        while i < self.users.len()
            invariant
                i <= self.users@.len(),
                self.wf(),
                forall|j: int| 0 <= j < i ==> (#[trigger] self.users@[j]).uid != uid,
            decreases self.users@.len() - i,
        {
            if self.users[i].uid == uid {
                proof {
                    assert(users_seq(self.users@)[i as int] == self.users@[i as int]@);
                    lemma_keyed_index(users_seq(self.users@), user_key(), i as int);
                }
                return Some(&self.users[i]);
            }
            i = i + 1;
        }
        proof {
            assert forall|j: int| 0 <= j < users_seq(self.users@).len()
                implies (user_key())(users_seq(self.users@)[j]) != uid by {
                assert(users_seq(self.users@)[j] == self.users@[j]@);
            }
        }
        None
    }

    /// The record of enemy `id`, if one exists.
    pub fn get_enemy(&self, id: u32) -> (r: Option<&Enemy>)
        requires
            self.wf(),
        ensures
            match r {
                Some(e) => self@.enemies.contains_key(id) && self@.enemies[id] == e@,
                None => !self@.enemies.contains_key(id),
            },
    {
        let mut i: usize = 0;
        while i < self.enemies.len()
            invariant
                i <= self.enemies@.len(),
                self.wf(),
                forall|j: int| 0 <= j < i ==> (#[trigger] self.enemies@[j]).id != id,
            decreases self.enemies@.len() - i,
        {
            if self.enemies[i].id == id {
                proof {
                    assert(enemies_seq(self.enemies@)[i as int] == self.enemies@[i as int]@);
                    lemma_keyed_index(enemies_seq(self.enemies@), enemy_key(), i as int);
                }
                return Some(&self.enemies[i]);
            }
            i = i + 1;
        }
        proof {
            assert forall|j: int| 0 <= j < enemies_seq(self.enemies@).len()
                implies (enemy_key())(enemies_seq(self.enemies@)[j]) != id by {
                assert(enemies_seq(self.enemies@)[j] == self.enemies@[j]@);
            }
        }
        None
    }

    /// The record of player `uid`, created at `now` if absent (even while paused).
    pub fn get_or_create_user(&mut self, uid: u32, now: u64) -> (r: &User)
        requires
            old(self).wf(),
        ensures
            r.uid == uid,
            r@ == user_or_fresh(old(self)@.users, uid, now),
    {
        let i = self.user_slot(uid, now);
        proof {
            assert(users_seq(self.users@)[i as int] == self.users@[i as int]@);
            lemma_keyed_index(users_seq(self.users@), user_key(), i as int);
        }
        &self.users[i]
    }

    /// The ids of all players, in the order they were first seen.
    pub fn user_ids(&self) -> (r: Vec<u32>)
        requires
            self.wf(),
        ensures
            forall|k: u32| r@.contains(k) <==> self@.users.contains_key(k),
    {
        let mut r: Vec<u32> = Vec::new();
        let mut i: usize = 0;
        while i < self.users.len()
            invariant
                i <= self.users@.len(),
                r@.len() == i,
                forall|j: int| 0 <= j < i ==> r@[j] == (#[trigger] self.users@[j]).uid,
            decreases self.users@.len() - i,
        {
            r.push(self.users[i].uid);
            i = i + 1;
        }
        proof {
            assert forall|k: u32| r@.contains(k) <==> self@.users.contains_key(k) by {
                if r@.contains(k) {
                    let j = choose|j: int| 0 <= j < r@.len() && r@[j] == k;
                    assert(users_seq(self.users@)[j] == self.users@[j]@);
                    lemma_keyed_index(users_seq(self.users@), user_key(), j);
                }
                if self@.users.contains_key(k) {
                    let j = choose|j: int| 0 <= j < users_seq(self.users@).len() && (user_key())(users_seq(self.users@)[j]) == k;
                    assert(users_seq(self.users@)[j] == self.users@[j]@);
                    assert(r@[j] == k);
                }
            }
        }
        r
    }
}

} // verus!
