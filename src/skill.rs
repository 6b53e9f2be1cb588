//! Skill display names.
use vstd::prelude::*;
use crate::keyed::{keys_unique, keyed_map, lemma_keyed_index, lemma_keyed_update, lemma_keyed_push, lemma_keyed_empty};

verus! {

pub open spec fn digit(d: nat) -> char {
    if d == 0 { '0' } else if d == 1 { '1' } else if d == 2 { '2' } else if d == 3 { '3' } else if d == 4 { '4' }
    else if d == 5 { '5' } else if d == 6 { '6' } else if d == 7 { '7' } else if d == 8 { '8' } else { '9' }
}

/// The decimal digits of `n`.
pub open spec fn decimal(n: nat) -> Seq<char>
    decreases n,
{
    if n < 10 { seq![digit(n)] } else { decimal(n / 10).push(digit(n % 10)) }
}

/// Relies on `ToString` through `u32`'s `Display`, which writes the decimal digits.
#[verifier::external_body]
fn decimal_text(n: u32) -> (r: String)
    ensures
        r@ == decimal(n as nat),
{
    n.to_string()
}

/// A skill and what is known of it.
#[derive(Clone, Debug)]
pub struct SkillInfo {
    pub id: u32,
    pub name: String,
    pub description: Option<String>,
    pub profession: Option<String>,
    pub element: Option<String>,
}

impl SkillInfo {
    pub fn new(id: u32, name: String) -> (r: SkillInfo)
        ensures
            r.id == id,
            r.name@ == name@,
            r.description.is_none(),
            r.profession.is_none(),
            r.element.is_none(),
    {
        SkillInfo { id, name, description: None, profession: None, element: None }
    }
}

pub open spec fn info_key() -> spec_fn((u32, Seq<char>)) -> u32 {
    |e: (u32, Seq<char>)| e.0
}

pub open spec fn infos_seq(s: Seq<SkillInfo>) -> Seq<(u32, Seq<char>)> {
    s.map_values(|i: SkillInfo| (i.id, i.name@))
}

/// Skill names by id.
pub struct SkillConfig {
    pub skills: Vec<SkillInfo>,
}

impl View for SkillConfig {
    type V = Map<u32, (u32, Seq<char>)>;

    open spec fn view(&self) -> Map<u32, (u32, Seq<char>)> {
        keyed_map(infos_seq(self.skills@), info_key())
    }
}

impl SkillConfig {
    pub open spec fn wf(&self) -> bool {
        keys_unique(infos_seq(self.skills@), info_key())
    }

    pub fn new() -> (r: SkillConfig)
        ensures
            r.wf(),
            r@ == Map::<u32, (u32, Seq<char>)>::empty(),
    {
        let r = SkillConfig { skills: Vec::new() };
        proof {
            assert(infos_seq(r.skills@) =~= Seq::<(u32, Seq<char>)>::empty());
            lemma_keyed_empty(info_key());
        }
        r
    }

    fn find(&self, id: u32) -> (r: Option<usize>)
        requires
            self.wf(),
        ensures
            match r {
                Some(i) => i < self.skills@.len() && self.skills@[i as int].id == id,
                None => !self@.contains_key(id),
            },
    {
        let mut i: usize = 0;
        while i < self.skills.len()
            invariant
                i <= self.skills@.len(),
                forall|j: int| 0 <= j < i ==> (#[trigger] self.skills@[j]).id != id,
            decreases self.skills@.len() - i,
        {
            if self.skills[i].id == id {
                return Some(i);
            }
            i = i + 1;
        }
        proof {
            assert forall|j: int| 0 <= j < infos_seq(self.skills@).len()
                implies (info_key())(infos_seq(self.skills@)[j]) != id by {
                assert(infos_seq(self.skills@)[j] == (self.skills@[j].id, self.skills@[j].name@));
            }
        }
        None
    }

    /// The name of skill `id`, or its id in decimal when unknown.
    pub fn get_skill_name(&self, id: u32) -> (r: String)
        requires
            self.wf(),
        ensures
            self@.contains_key(id) ==> r@ == self@[id].1,
            !self@.contains_key(id) ==> r@ == decimal(id as nat),
    {
        match self.find(id) {
            Some(i) => {
                proof {
                    assert(infos_seq(self.skills@)[i as int] == (self.skills@[i as int].id, self.skills@[i as int].name@));
                    lemma_keyed_index(infos_seq(self.skills@), info_key(), i as int);
                }
                self.skills[i].name.clone()
            },
            None => decimal_text(id),
        }
    }

    /// Records the name of skill `id`, replacing any earlier one.
    pub fn add_skill(&mut self, id: u32, name: String)
        requires
            old(self).wf(),
        ensures
            final(self).wf(),
            final(self)@ == old(self)@.insert(id, (id, name@)),
    {
        let info = SkillInfo::new(id, name);
        let ghost s0 = self.skills@;
        match self.find(id) {
            Some(i) => {
                proof {
                    assert(infos_seq(s0)[i as int] == (s0[i as int].id, s0[i as int].name@));
                    assert(infos_seq(s0.update(i as int, info)) =~= infos_seq(s0).update(i as int, (id, info.name@)));
                    lemma_keyed_update(infos_seq(s0), info_key(), i as int, (id, info.name@));
                }
                self.skills.set(i, info);
            },
            None => {
                proof {
                    assert(infos_seq(s0.push(info)) =~= infos_seq(s0).push((id, info.name@)));
                    lemma_keyed_push(infos_seq(s0), info_key(), (id, info.name@));
                }
                self.skills.push(info);
            },
        }
    }
}

} // verus!
