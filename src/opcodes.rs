//! Operation codes of the legacy packet set.
use vstd::prelude::*;

verus! {

/// Packet operation codes.
#[derive(Clone, Copy, Debug, PartialEq, Eq, Structural)]
pub enum Pkt {
    InitEnv,
    InitPC,
    MigrationExecute,
    NewPC,
    NewNpc,
    NewNpcSummon,
    NewVehicle,
    NewProjectile,
    NewTrap,
    RemoveObject,
    SkillStartNotify,
    SkillDamageNotify,
    SkillDamageAbnormalMoveNotify,
    SkillCastNotify,
    SkillCooldownNotify,
    SkillStageNotify,
    StatusEffectAddNotify,
    StatusEffectRemoveNotify,
    StatusEffectDurationNotify,
    StatusEffectSyncDataNotify,
    PartyInfo,
    PartyLeaveResult,
    PartyStatusEffectAddNotify,
    PartyStatusEffectRemoveNotify,
    PartyStatusEffectResultNotify,
    PartyMemberUpdateMinNotify,
    TroopMemberUpdateMinNotify,
    ZoneMemberLoadStatusNotify,
    ZoneObjectUnpublishNotify,
    NewTransit,
    TriggerStartNotify,
    TriggerBossBattleStatus,
    DeathNotify,
    CounterAttackNotify,
    RaidBegin,
    RaidBossKillNotify,
    RaidResult,
    IdentityGaugeChangeNotify,
    IdentityStanceChangeNotify,
    ParalyzationStateNotify,
    InitItem,
    Unknown,
}

impl Pkt {
    /// The code of each operation.
    pub open spec fn spec_code(self) -> u16 {
        match self {
            Pkt::InitEnv => 0x0001,
            Pkt::InitPC => 0x0002,
            Pkt::MigrationExecute => 0x0003,
            Pkt::NewPC => 0x0004,
            Pkt::NewNpc => 0x0005,
            Pkt::NewNpcSummon => 0x0006,
            Pkt::NewVehicle => 0x0007,
            Pkt::NewProjectile => 0x0008,
            Pkt::NewTrap => 0x0009,
            Pkt::RemoveObject => 0x000A,
            Pkt::SkillStartNotify => 0x000B,
            Pkt::SkillDamageNotify => 0x000C,
            Pkt::SkillDamageAbnormalMoveNotify => 0x000D,
            Pkt::SkillCastNotify => 0x000E,
            Pkt::SkillCooldownNotify => 0x000F,
            Pkt::SkillStageNotify => 0x0010,
            Pkt::StatusEffectAddNotify => 0x0011,
            Pkt::StatusEffectRemoveNotify => 0x0012,
            Pkt::StatusEffectDurationNotify => 0x0013,
            Pkt::StatusEffectSyncDataNotify => 0x0014,
            Pkt::PartyInfo => 0x0015,
            Pkt::PartyLeaveResult => 0x0016,
            Pkt::PartyStatusEffectAddNotify => 0x0017,
            Pkt::PartyStatusEffectRemoveNotify => 0x0018,
            Pkt::PartyStatusEffectResultNotify => 0x0019,
            Pkt::PartyMemberUpdateMinNotify => 0x001A,
            Pkt::TroopMemberUpdateMinNotify => 0x001B,
            Pkt::ZoneMemberLoadStatusNotify => 0x001C,
            Pkt::ZoneObjectUnpublishNotify => 0x001D,
            Pkt::NewTransit => 0x001E,
            Pkt::TriggerStartNotify => 0x001F,
            Pkt::TriggerBossBattleStatus => 0x0020,
            Pkt::DeathNotify => 0x0021,
            Pkt::CounterAttackNotify => 0x0022,
            Pkt::RaidBegin => 0x0023,
            Pkt::RaidBossKillNotify => 0x0024,
            Pkt::RaidResult => 0x0025,
            Pkt::IdentityGaugeChangeNotify => 0x0026,
            Pkt::IdentityStanceChangeNotify => 0x0027,
            Pkt::ParalyzationStateNotify => 0x0028,
            Pkt::InitItem => 0x0029,
            Pkt::Unknown => 0xFFFF,
        }
    }

    /// The operation with code `v`; codes outside the known range have none.
    pub open spec fn spec_from_u16(v: u16) -> Option<Pkt> {
        if v == 0x0001 {
            Some(Pkt::InitEnv)
        } else if v == 0x0002 {
            Some(Pkt::InitPC)
        } else if v == 0x0003 {
            Some(Pkt::MigrationExecute)
        } else if v == 0x0004 {
            Some(Pkt::NewPC)
        } else if v == 0x0005 {
            Some(Pkt::NewNpc)
        } else if v == 0x0006 {
            Some(Pkt::NewNpcSummon)
        } else if v == 0x0007 {
            Some(Pkt::NewVehicle)
        } else if v == 0x0008 {
            Some(Pkt::NewProjectile)
        } else if v == 0x0009 {
            Some(Pkt::NewTrap)
        } else if v == 0x000A {
            Some(Pkt::RemoveObject)
        } else if v == 0x000B {
            Some(Pkt::SkillStartNotify)
        } else if v == 0x000C {
            Some(Pkt::SkillDamageNotify)
        } else if v == 0x000D {
            Some(Pkt::SkillDamageAbnormalMoveNotify)
        } else if v == 0x000E {
            Some(Pkt::SkillCastNotify)
        } else if v == 0x000F {
            Some(Pkt::SkillCooldownNotify)
        } else if v == 0x0010 {
            Some(Pkt::SkillStageNotify)
        } else if v == 0x0011 {
            Some(Pkt::StatusEffectAddNotify)
        } else if v == 0x0012 {
            Some(Pkt::StatusEffectRemoveNotify)
        } else if v == 0x0013 {
            Some(Pkt::StatusEffectDurationNotify)
        } else if v == 0x0014 {
            Some(Pkt::StatusEffectSyncDataNotify)
        } else if v == 0x0015 {
            Some(Pkt::PartyInfo)
        } else if v == 0x0016 {
            Some(Pkt::PartyLeaveResult)
        } else if v == 0x0017 {
            Some(Pkt::PartyStatusEffectAddNotify)
        } else if v == 0x0018 {
            Some(Pkt::PartyStatusEffectRemoveNotify)
        } else if v == 0x0019 {
            Some(Pkt::PartyStatusEffectResultNotify)
        } else if v == 0x001A {
            Some(Pkt::PartyMemberUpdateMinNotify)
        } else if v == 0x001B {
            Some(Pkt::TroopMemberUpdateMinNotify)
        } else if v == 0x001C {
            Some(Pkt::ZoneMemberLoadStatusNotify)
        } else if v == 0x001D {
            Some(Pkt::ZoneObjectUnpublishNotify)
        } else if v == 0x001E {
            Some(Pkt::NewTransit)
        } else if v == 0x001F {
            Some(Pkt::TriggerStartNotify)
        } else if v == 0x0020 {
            Some(Pkt::TriggerBossBattleStatus)
        } else if v == 0x0021 {
            Some(Pkt::DeathNotify)
        } else if v == 0x0022 {
            Some(Pkt::CounterAttackNotify)
        } else if v == 0x0023 {
            Some(Pkt::RaidBegin)
        } else if v == 0x0024 {
            Some(Pkt::RaidBossKillNotify)
        } else if v == 0x0025 {
            Some(Pkt::RaidResult)
        } else if v == 0x0026 {
            Some(Pkt::IdentityGaugeChangeNotify)
        } else if v == 0x0027 {
            Some(Pkt::IdentityStanceChangeNotify)
        } else if v == 0x0028 {
            Some(Pkt::ParalyzationStateNotify)
        } else if v == 0x0029 {
            Some(Pkt::InitItem)
        } else {
            None
        }
    }

    /// Converts a code to its operation.
    pub fn from_u16(value: u16) -> (r: Option<Pkt>)
        ensures
            r == Pkt::spec_from_u16(value),
    {
        if value == 0x0001 {
            Some(Pkt::InitEnv)
        } else if value == 0x0002 {
            Some(Pkt::InitPC)
        } else if value == 0x0003 {
            Some(Pkt::MigrationExecute)
        } else if value == 0x0004 {
            Some(Pkt::NewPC)
        } else if value == 0x0005 {
            Some(Pkt::NewNpc)
        } else if value == 0x0006 {
            Some(Pkt::NewNpcSummon)
        } else if value == 0x0007 {
            Some(Pkt::NewVehicle)
        } else if value == 0x0008 {
            Some(Pkt::NewProjectile)
        } else if value == 0x0009 {
            Some(Pkt::NewTrap)
        } else if value == 0x000A {
            Some(Pkt::RemoveObject)
        } else if value == 0x000B {
            Some(Pkt::SkillStartNotify)
        } else if value == 0x000C {
            Some(Pkt::SkillDamageNotify)
        } else if value == 0x000D {
            Some(Pkt::SkillDamageAbnormalMoveNotify)
        } else if value == 0x000E {
            Some(Pkt::SkillCastNotify)
        } else if value == 0x000F {
            Some(Pkt::SkillCooldownNotify)
        } else if value == 0x0010 {
            Some(Pkt::SkillStageNotify)
        } else if value == 0x0011 {
            Some(Pkt::StatusEffectAddNotify)
        } else if value == 0x0012 {
            Some(Pkt::StatusEffectRemoveNotify)
        } else if value == 0x0013 {
            Some(Pkt::StatusEffectDurationNotify)
        } else if value == 0x0014 {
            Some(Pkt::StatusEffectSyncDataNotify)
        } else if value == 0x0015 {
            Some(Pkt::PartyInfo)
        } else if value == 0x0016 {
            Some(Pkt::PartyLeaveResult)
        } else if value == 0x0017 {
            Some(Pkt::PartyStatusEffectAddNotify)
        } else if value == 0x0018 {
            Some(Pkt::PartyStatusEffectRemoveNotify)
        } else if value == 0x0019 {
            Some(Pkt::PartyStatusEffectResultNotify)
        } else if value == 0x001A {
            Some(Pkt::PartyMemberUpdateMinNotify)
        } else if value == 0x001B {
            Some(Pkt::TroopMemberUpdateMinNotify)
        } else if value == 0x001C {
            Some(Pkt::ZoneMemberLoadStatusNotify)
        } else if value == 0x001D {
            Some(Pkt::ZoneObjectUnpublishNotify)
        } else if value == 0x001E {
            Some(Pkt::NewTransit)
        } else if value == 0x001F {
            Some(Pkt::TriggerStartNotify)
        } else if value == 0x0020 {
            Some(Pkt::TriggerBossBattleStatus)
        } else if value == 0x0021 {
            Some(Pkt::DeathNotify)
        } else if value == 0x0022 {
            Some(Pkt::CounterAttackNotify)
        } else if value == 0x0023 {
            Some(Pkt::RaidBegin)
        } else if value == 0x0024 {
            Some(Pkt::RaidBossKillNotify)
        } else if value == 0x0025 {
            Some(Pkt::RaidResult)
        } else if value == 0x0026 {
            Some(Pkt::IdentityGaugeChangeNotify)
        } else if value == 0x0027 {
            Some(Pkt::IdentityStanceChangeNotify)
        } else if value == 0x0028 {
            Some(Pkt::ParalyzationStateNotify)
        } else if value == 0x0029 {
            Some(Pkt::InitItem)
        } else {
            None
        }
    }

    /// The code of the operation.
    pub fn to_u16(self) -> (r: u16)
        ensures
            r == self.spec_code(),
    {
        match self {
            Pkt::InitEnv => 0x0001,
            Pkt::InitPC => 0x0002,
            Pkt::MigrationExecute => 0x0003,
            Pkt::NewPC => 0x0004,
            Pkt::NewNpc => 0x0005,
            Pkt::NewNpcSummon => 0x0006,
            Pkt::NewVehicle => 0x0007,
            Pkt::NewProjectile => 0x0008,
            Pkt::NewTrap => 0x0009,
            Pkt::RemoveObject => 0x000A,
            Pkt::SkillStartNotify => 0x000B,
            Pkt::SkillDamageNotify => 0x000C,
            Pkt::SkillDamageAbnormalMoveNotify => 0x000D,
            Pkt::SkillCastNotify => 0x000E,
            Pkt::SkillCooldownNotify => 0x000F,
            Pkt::SkillStageNotify => 0x0010,
            Pkt::StatusEffectAddNotify => 0x0011,
            Pkt::StatusEffectRemoveNotify => 0x0012,
            Pkt::StatusEffectDurationNotify => 0x0013,
            Pkt::StatusEffectSyncDataNotify => 0x0014,
            Pkt::PartyInfo => 0x0015,
            Pkt::PartyLeaveResult => 0x0016,
            Pkt::PartyStatusEffectAddNotify => 0x0017,
            Pkt::PartyStatusEffectRemoveNotify => 0x0018,
            Pkt::PartyStatusEffectResultNotify => 0x0019,
            Pkt::PartyMemberUpdateMinNotify => 0x001A,
            Pkt::TroopMemberUpdateMinNotify => 0x001B,
            Pkt::ZoneMemberLoadStatusNotify => 0x001C,
            Pkt::ZoneObjectUnpublishNotify => 0x001D,
            Pkt::NewTransit => 0x001E,
            Pkt::TriggerStartNotify => 0x001F,
            Pkt::TriggerBossBattleStatus => 0x0020,
            Pkt::DeathNotify => 0x0021,
            Pkt::CounterAttackNotify => 0x0022,
            Pkt::RaidBegin => 0x0023,
            Pkt::RaidBossKillNotify => 0x0024,
            Pkt::RaidResult => 0x0025,
            Pkt::IdentityGaugeChangeNotify => 0x0026,
            Pkt::IdentityStanceChangeNotify => 0x0027,
            Pkt::ParalyzationStateNotify => 0x0028,
            Pkt::InitItem => 0x0029,
            Pkt::Unknown => 0xFFFF,
        }
    }
}

/// Every known code converts back to itself.
pub proof fn lemma_pkt_round_trip(v: u16)
    ensures
        Pkt::spec_from_u16(v) matches Some(p) ==> p.spec_code() == v,
{
}

} // verus!
