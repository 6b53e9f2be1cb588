//! Enemy records.
use vstd::prelude::*;

verus! {

/// An enemy seen in the session. Times are milliseconds.
#[derive(Debug)]
pub struct Enemy {
    pub id: u32,
    pub name: String,
    pub hp: u32,
    pub max_hp: u32,
    pub last_update: u64,
}

pub struct EnemyView {
    pub id: u32,
    pub name: Seq<char>,
    pub hp: u32,
    pub max_hp: u32,
    pub last_update: u64,
}

impl View for Enemy {
    type V = EnemyView;

    open spec fn view(&self) -> EnemyView {
        EnemyView { id: self.id, name: self.name@, hp: self.hp, max_hp: self.max_hp, last_update: self.last_update }
    }
}

impl EnemyView {
    pub open spec fn fresh(id: u32, now: u64) -> EnemyView {
        EnemyView { id, name: Seq::empty(), hp: 0, max_hp: 0, last_update: now }
    }
}

impl Enemy {
    pub fn new(id: u32, now: u64) -> (r: Enemy)
        ensures
            r@ == EnemyView::fresh(id, now),
    {
        let r = Enemy { id, name: String::new(), hp: 0, max_hp: 0, last_update: now };
        assert(r@.name =~= Seq::<char>::empty());
        r
    }

    pub fn set_name(&mut self, name: String, now: u64)
        ensures
            final(self)@ == (EnemyView { name: name@, last_update: now, ..old(self)@ }),
    {
        self.name = name;
        self.last_update = now;
    }

    pub fn set_hp(&mut self, hp: u32, now: u64)
        ensures
            final(self)@ == (EnemyView { hp, last_update: now, ..old(self)@ }),
    {
        self.hp = hp;
        self.last_update = now;
    }

    pub fn set_max_hp(&mut self, max_hp: u32, now: u64)
        ensures
            final(self)@ == (EnemyView { max_hp, last_update: now, ..old(self)@ }),
    {
        self.max_hp = max_hp;
        self.last_update = now;
    }

    pub fn is_dead(&self) -> (r: bool)
        ensures
            r == (self.hp == 0),
    {
        self.hp == 0
    }
}

} // verus!
