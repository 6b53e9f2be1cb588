//! Static lookup tables: sub-professions by skill, professions by id, elements.
use vstd::prelude::*;

verus! {

/// A player's specialization, inferred from the skills they use.
#[derive(Clone, Copy, Debug, PartialEq, Eq, Structural)]
pub enum SubProfession {
    Ray,
    Concerto,
    Heal,
    Discipline,
    Furysong,
    IceSpear,
    Iaido,
    Moonblade,
    Eaglebow,
    Wolfbow,
    Cannon,
    Heavy,
    Guard,
    Lightshield,
    Rockshield,
    Block,
}

/// The sub-profession that skill `id` reveals, if any.
pub open spec fn spec_sub_profession(id: u32) -> Option<SubProfession> {
    if id == 1241 {
        Some(SubProfession::Ray)
    } else if id == 2307 || id == 2361 || id == 55302 {
        Some(SubProfession::Concerto)
    } else if id == 20301 {
        Some(SubProfession::Heal)
    } else if id == 1518 || id == 1541 || id == 21402 {
        Some(SubProfession::Discipline)
    } else if id == 2306 {
        Some(SubProfession::Furysong)
    } else if id == 120901 || id == 120902 {
        Some(SubProfession::IceSpear)
    } else if id == 1714 || id == 1734 {
        Some(SubProfession::Iaido)
    } else if id == 44701 || id == 179906 {
        Some(SubProfession::Moonblade)
    } else if id == 220112 || id == 2203622 {
        Some(SubProfession::Eaglebow)
    } else if id == 2292 || id == 1700820 || id == 1700825 || id == 1700827 {
        Some(SubProfession::Wolfbow)
    } else if id == 1419 {
        Some(SubProfession::Cannon)
    } else if id == 1405 || id == 1418 {
        Some(SubProfession::Heavy)
    } else if id == 2405 {
        Some(SubProfession::Guard)
    } else if id == 2406 {
        Some(SubProfession::Lightshield)
    } else if id == 199902 {
        Some(SubProfession::Rockshield)
    } else if id == 1930 || id == 1931 || id == 1934 || id == 1935 {
        Some(SubProfession::Block)
    } else {
        None
    }
}

/// Looks up the sub-profession that skill `id` reveals.
pub fn sub_profession_by_skill_id(id: u32) -> (r: Option<SubProfession>)
    ensures
        r == spec_sub_profession(id),
{
    if id == 1241 {
        Some(SubProfession::Ray)
    } else if id == 2307 || id == 2361 || id == 55302 {
        Some(SubProfession::Concerto)
    } else if id == 20301 {
        Some(SubProfession::Heal)
    } else if id == 1518 || id == 1541 || id == 21402 {
        Some(SubProfession::Discipline)
    } else if id == 2306 {
        Some(SubProfession::Furysong)
    } else if id == 120901 || id == 120902 {
        Some(SubProfession::IceSpear)
    } else if id == 1714 || id == 1734 {
        Some(SubProfession::Iaido)
    } else if id == 44701 || id == 179906 {
        Some(SubProfession::Moonblade)
    } else if id == 220112 || id == 2203622 {
        Some(SubProfession::Eaglebow)
    } else if id == 2292 || id == 1700820 || id == 1700825 || id == 1700827 {
        Some(SubProfession::Wolfbow)
    } else if id == 1419 {
        Some(SubProfession::Cannon)
    } else if id == 1405 || id == 1418 {
        Some(SubProfession::Heavy)
    } else if id == 2405 {
        Some(SubProfession::Guard)
    } else if id == 2406 {
        Some(SubProfession::Lightshield)
    } else if id == 199902 {
        Some(SubProfession::Rockshield)
    } else if id == 1930 || id == 1931 || id == 1934 || id == 1935 {
        Some(SubProfession::Block)
    } else {
        None
    }
}

impl SubProfession {
    pub open spec fn spec_label(self) -> Seq<char> {
        match self {
            SubProfession::Ray => "射线"@,
            SubProfession::Concerto => "协奏"@,
            SubProfession::Heal => "愈合"@,
            SubProfession::Discipline => "惩戒"@,
            SubProfession::Furysong => "狂音"@,
            SubProfession::IceSpear => "冰矛"@,
            SubProfession::Iaido => "居合"@,
            SubProfession::Moonblade => "月刃"@,
            SubProfession::Eaglebow => "鹰弓"@,
            SubProfession::Wolfbow => "狼弓"@,
            SubProfession::Cannon => "空枪"@,
            SubProfession::Heavy => "重装"@,
            SubProfession::Guard => "防盾"@,
            SubProfession::Lightshield => "光盾"@,
            SubProfession::Rockshield => "岩盾"@,
            SubProfession::Block => "格挡"@,
        }
    }

    /// The display label of the sub-profession.
    pub fn label(&self) -> (r: &'static str)
        ensures
            r@ == self.spec_label(),
    {
        match self {
            SubProfession::Ray => "射线",
            SubProfession::Concerto => "协奏",
            SubProfession::Heal => "愈合",
            SubProfession::Discipline => "惩戒",
            SubProfession::Furysong => "狂音",
            SubProfession::IceSpear => "冰矛",
            SubProfession::Iaido => "居合",
            SubProfession::Moonblade => "月刃",
            SubProfession::Eaglebow => "鹰弓",
            SubProfession::Wolfbow => "狼弓",
            SubProfession::Cannon => "空枪",
            SubProfession::Heavy => "重装",
            SubProfession::Guard => "防盾",
            SubProfession::Lightshield => "光盾",
            SubProfession::Rockshield => "岩盾",
            SubProfession::Block => "格挡",
        }
    }
}

/// The label of the sub-profession that skill `id` reveals.
pub fn get_sub_profession_by_skill_id(id: u32) -> (r: Option<String>)
    ensures
        match spec_sub_profession(id) {
            Some(s) => r matches Some(t) && t@ == s.spec_label(),
            None => r.is_none(),
        },
{
    match sub_profession_by_skill_id(id) {
        Some(s) => Some(s.label().to_string()),
        None => None,
    }
}


/// The name of profession `id`, if the table knows it.
pub open spec fn spec_profession_name(id: u32) -> Option<Seq<char>> {
    if id == 1 {
        Some("雷影剑士"@)
    } else if id == 2 {
        Some("冰魔导师"@)
    } else if id == 3 {
        Some("涤罪恶火·战斧"@)
    } else if id == 4 {
        Some("青岚骑士"@)
    } else if id == 5 {
        Some("森语者"@)
    } else if id == 8 {
        Some("雷霆一闪·手炮"@)
    } else if id == 9 {
        Some("巨刃守护者"@)
    } else if id == 10 {
        Some("暗灵祈舞·仪刀/仪仗"@)
    } else if id == 11 {
        Some("神射手"@)
    } else if id == 12 {
        Some("神盾骑士"@)
    } else if id == 13 {
        Some("灵魂乐手"@)
    } else {
        None
    }
}

/// Looks up the name of profession `id`.
pub fn get_profession_name_from_id(id: u32) -> (r: Option<String>)
    ensures
        match spec_profession_name(id) {
            Some(n) => r matches Some(t) && t@ == n,
            None => r.is_none(),
        },
{
    if id == 1 {
        Some("雷影剑士".to_string())
    } else if id == 2 {
        Some("冰魔导师".to_string())
    } else if id == 3 {
        Some("涤罪恶火·战斧".to_string())
    } else if id == 4 {
        Some("青岚骑士".to_string())
    } else if id == 5 {
        Some("森语者".to_string())
    } else if id == 8 {
        Some("雷霆一闪·手炮".to_string())
    } else if id == 9 {
        Some("巨刃守护者".to_string())
    } else if id == 10 {
        Some("暗灵祈舞·仪刀/仪仗".to_string())
    } else if id == 11 {
        Some("神射手".to_string())
    } else if id == 12 {
        Some("神盾骑士".to_string())
    } else if id == 13 {
        Some("灵魂乐手".to_string())
    } else {
        None
    }
}

/// The element label of damage property `p`; unknown properties are physical.
pub open spec fn spec_element_name(p: u32) -> Seq<char> {
    if p == 1 {
        "🔥火"@
    } else if p == 2 {
        "❄️冰"@
    } else if p == 3 {
        "⚡雷"@
    } else if p == 4 {
        "🍀森"@
    } else if p == 5 {
        "💨风"@
    } else if p == 6 {
        "⛰️岩"@
    } else if p == 7 {
        "🌟光"@
    } else if p == 8 {
        "🌑暗"@
    } else {
        "⚔️物"@
    }
}

/// The element label of damage property `p`.
pub fn get_damage_element_name(p: u32) -> (r: String)
    ensures
        r@ == spec_element_name(p),
{
    if p == 1 {
        "🔥火".to_string()
    } else if p == 2 {
        "❄️冰".to_string()
    } else if p == 3 {
        "⚡雷".to_string()
    } else if p == 4 {
        "🍀森".to_string()
    } else if p == 5 {
        "💨风".to_string()
    } else if p == 6 {
        "⛰️岩".to_string()
    } else if p == 7 {
        "🌟光".to_string()
    } else if p == 8 {
        "🌑暗".to_string()
    } else {
        "⚔️物".to_string()
    }
}

/// Where a damage record came from.
#[derive(Clone, Copy, Debug, PartialEq, Eq, Structural)]
pub enum DamageSource {
    Skill,
    Bullet,
    Buff,
    Fall,
    FakeBullet,
    Other,
}

/// The element of a damage record.
#[derive(Clone, Copy, Debug, PartialEq, Eq, Structural)]
pub enum DamageProperty {
    General,
    Fire,
    Water,
    Electricity,
    Wood,
    Wind,
    Rock,
    Light,
    Dark,
}

impl DamageProperty {
    pub open spec fn spec_from_code(p: u32) -> DamageProperty {
        if p == 1 { DamageProperty::Fire } else if p == 2 { DamageProperty::Water }
        else if p == 3 { DamageProperty::Electricity } else if p == 4 { DamageProperty::Wood }
        else if p == 5 { DamageProperty::Wind } else if p == 6 { DamageProperty::Rock }
        else if p == 7 { DamageProperty::Light } else if p == 8 { DamageProperty::Dark }
        else { DamageProperty::General }
    }

    /// The element of property code `p`; unknown codes are general (physical).
    pub fn from_code(p: u32) -> (r: DamageProperty)
        ensures
            r == DamageProperty::spec_from_code(p),
    {
        if p == 1 { DamageProperty::Fire } else if p == 2 { DamageProperty::Water }
        else if p == 3 { DamageProperty::Electricity } else if p == 4 { DamageProperty::Wood }
        else if p == 5 { DamageProperty::Wind } else if p == 6 { DamageProperty::Rock }
        else if p == 7 { DamageProperty::Light } else if p == 8 { DamageProperty::Dark }
        else { DamageProperty::General }
    }
}

} // verus!
