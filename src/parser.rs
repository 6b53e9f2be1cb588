//! Applies decoded payloads to the aggregate store: the attribute table, the
//! damage attribution rule, the dirty-buffer grammar and notify dispatch.
use vstd::prelude::*;
use crate::wire::{be32, le32, read_be32, read_le32};
use crate::model::UserAttr;
use crate::store::{DataManager, StoreView};
use crate::tables::{spec_profession_name, get_profession_name_from_id};
use crate::messages::{utf8_of, utf8_text, AttrView, Attr, attrs_view, SyncDamageInfo, AoiSyncDelta, AoiSyncDeltaView};
use crate::messages::{
    EntityView, VData, VDataView, deltas_view, entities_view, spec_container, spec_near_delta_info,
    spec_near_entities, spec_to_me_delta, decode_container, decode_near_delta_info, decode_near_entities,
    decode_to_me_delta,
};
use crate::envelope::{Message, MessageType, messages_view, envelope, decode_frame, notify_of, parse_notify, MAX_DEPTH};
use crate::stream::Frame;
use crate::ipv4::copy_range;

verus! {

pub const ATTR_NAME: u32 = 0x01;
pub const ATTR_ID: u32 = 0x0a;
pub const ATTR_PROFESSION_ID: u32 = 0xdc;
pub const ATTR_FIGHT_POINT: u32 = 0x272e;
pub const ATTR_LEVEL: u32 = 0x2710;
pub const ATTR_HP: u32 = 0x2c2e;
pub const ATTR_MAX_HP: u32 = 0x2c38;

pub open spec fn is_player_uuid(uuid: u64) -> bool {
    uuid % 0x10000 == 640
}

pub open spec fn is_monster_uuid(uuid: u64) -> bool {
    uuid % 0x10000 == 64
}

pub open spec fn uid_of(uuid: u64) -> u32 {
    (uuid / 0x10000) as u32
}

pub fn is_uuid_player(uuid: u64) -> (r: bool)
    ensures
        r == is_player_uuid(uuid),
{
    uuid % 0x10000 == 640
}

pub fn is_uuid_monster(uuid: u64) -> (r: bool)
    ensures
        r == is_monster_uuid(uuid),
{
    uuid % 0x10000 == 64
}

pub fn uuid_to_uid(uuid: u64) -> (r: u32)
    ensures
        r == uid_of(uuid),
{
    (uuid / 0x10000) as u32
}

/// A numeric attribute value: four big-endian bytes, or zero for any other length.
pub open spec fn raw_u32(raw: Seq<u8>) -> u32 {
    if raw.len() == 4 { be32(raw, 0) as u32 } else { 0 }
}

fn read_raw_u32(raw: &[u8]) -> (r: u32)
    ensures
        r == raw_u32(raw@),
{
    if raw.len() == 4 { read_be32(raw, 0) } else { 0 }
}

/// The store after one attribute `(id, raw)` of entity `uid`.
pub open spec fn spec_apply_attr(o: StoreView, uid: u32, id: u32, raw: Seq<u8>, is_player: bool, now: u64) -> StoreView {
    if id == ATTR_NAME {
        match utf8_of(raw) {
            Some(n) => if is_player { o.spec_set_user_name(uid, n, now) } else { o.spec_set_enemy_name(uid, n, now) },
            None => o,
        }
    } else if id == ATTR_PROFESSION_ID {
        if is_player {
            match spec_profession_name(raw_u32(raw)) {
                Some(p) => o.spec_set_user_profession(uid, p, now),
                None => o,
            }
        } else {
            o
        }
    } else if id == ATTR_FIGHT_POINT {
        if is_player { o.spec_set_user_fight_point(uid, raw_u32(raw), now) } else { o }
    } else if id == ATTR_LEVEL {
        if is_player { o.spec_set_user_attr(uid, UserAttr::Level, raw_u32(raw), now) } else { o }
    } else if id == ATTR_HP {
        if is_player {
            o.spec_set_user_attr(uid, UserAttr::Hp, raw_u32(raw), now)
        } else {
            o.spec_set_enemy_hp(uid, raw_u32(raw), now)
        }
    } else if id == ATTR_MAX_HP {
        if is_player {
            o.spec_set_user_attr(uid, UserAttr::MaxHp, raw_u32(raw), now)
        } else {
            o.spec_set_enemy_max_hp(uid, raw_u32(raw), now)
        }
    } else {
        o
    }
}

/// Applies one attribute of entity `uid`.
pub fn process_attr_data(store: &mut DataManager, uid: u32, id: u32, raw: &[u8], is_player: bool, now: u64)
    requires
        old(store).wf(),
    ensures
        final(store).wf(),
        final(store)@ == spec_apply_attr(old(store)@, uid, id, raw@, is_player, now),
{
    if id == ATTR_NAME {
        if let Some(n) = utf8_text(raw) {
            if is_player {
                store.set_user_name(uid, n, now);
            } else {
                store.set_enemy_name(uid, n, now);
            }
        }
    } else if id == ATTR_PROFESSION_ID {
        if is_player {
            if let Some(p) = get_profession_name_from_id(read_raw_u32(raw)) {
                store.set_user_profession(uid, p, now);
            }
        }
    } else if id == ATTR_FIGHT_POINT {
        if is_player {
            store.set_user_fight_point(uid, read_raw_u32(raw), now);
        }
    } else if id == ATTR_LEVEL {
        if is_player {
            store.set_user_attr(uid, UserAttr::Level, read_raw_u32(raw), now);
        }
    } else if id == ATTR_HP {
        if is_player {
            store.set_user_attr(uid, UserAttr::Hp, read_raw_u32(raw), now);
        } else {
            store.set_enemy_hp(uid, read_raw_u32(raw), now);
        }
    } else if id == ATTR_MAX_HP {
        if is_player {
            store.set_user_attr(uid, UserAttr::MaxHp, read_raw_u32(raw), now);
        } else {
            store.set_enemy_max_hp(uid, read_raw_u32(raw), now);
        }
    }
}

/// The store after the attributes `attrs` of entity `uid`, in order; an
/// attribute without a code or without bytes is skipped.
pub open spec fn spec_apply_attrs(o: StoreView, uid: u32, attrs: Seq<AttrView>, is_player: bool, now: u64) -> StoreView
    decreases attrs.len(),
{
    if attrs.len() == 0 {
        o
    } else {
        let prev = spec_apply_attrs(o, uid, attrs.drop_last(), is_player, now);
        let a = attrs.last();
        match (a.id, a.raw_data) {
            (Some(id), Some(raw)) => spec_apply_attr(prev, uid, id, raw, is_player, now),
            _ => prev,
        }
    }
}

/// Applies a list of attributes of entity `uid`.
pub fn process_attrs(store: &mut DataManager, uid: u32, attrs: &Vec<Attr>, is_player: bool, now: u64)
    requires
        old(store).wf(),
    ensures
        final(store).wf(),
        final(store)@ == spec_apply_attrs(old(store)@, uid, attrs_view(attrs@), is_player, now),
{
    let ghost av = attrs_view(attrs@);
    let mut i: usize = 0;
    while i < attrs.len()
        invariant
            i <= attrs@.len(),
            av == attrs_view(attrs@),
            store.wf(),
            store@ == spec_apply_attrs(old(store)@, uid, av.take(i as int), is_player, now),
        decreases attrs@.len() - i,
    {
        assert(av.take(i + 1).drop_last() =~= av.take(i as int));
        assert(av.take(i + 1).last() == attrs@[i as int]@);
        let a = &attrs[i];
        match (a.id, &a.raw_data) {
            (Some(id), Some(raw)) => {
                process_attr_data(store, uid, id, raw.as_slice(), is_player, now);
            },
            _ => {},
        }
        i = i + 1;
    }
    assert(av.take(attrs@.len() as int) =~= av);
}

/// The store after one damage record aimed at the entity `target_uuid`:
/// the damage attribution rule.
pub open spec fn spec_apply_damage(o: StoreView, d: SyncDamageInfo, target_uuid: u64, now: u64) -> StoreView {
    let skill_id = match d.owner_id { Some(v) => v, None => 0 };
    let attacker = match d.top_summoner_id {
        Some(v) => v,
        None => match d.attacker_uuid { Some(v) => v, None => 0 },
    };
    let value = match d.value { Some(v) => v, None => 0 };
    let lucky_value = match d.lucky_value { Some(v) => v, None => 0 };
    let amount = if value > 0 { value } else { lucky_value };
    let type_flag = match d.type_flag { Some(v) => v, None => 0 };
    let is_crit = type_flag & 1 == 1;
    let is_cause_lucky = type_flag & 4 == 4;
    let is_lucky = lucky_value > 0;
    let is_heal = d.damage_type == Some(1u32);
    let is_dead = match d.is_dead { Some(v) => v, None => false };
    let hp_lessen = match d.hp_lessen_value { Some(v) => v, None => 0 };
    let element = match d.property { Some(v) => v, None => 0 };
    let target_uid = uid_of(target_uuid);
    let attacker_uid = uid_of(attacker);
    let attacker_is_player = is_player_uuid(attacker);
    if skill_id == 0 || attacker == 0 || amount == 0 {
        o
    } else if is_player_uuid(target_uuid) {
        let s1 = if is_heal {
            o.spec_add_healing(if attacker_is_player { attacker_uid } else { 0 }, skill_id, element, amount,
                is_crit, is_lucky, is_cause_lucky, now)
        } else {
            o.spec_add_taken_damage(target_uid, amount, is_dead, now)
        };
        if is_dead { s1.spec_set_user_attr(target_uid, UserAttr::Hp, 0, now) } else { s1 }
    } else if is_monster_uuid(target_uuid) {
        let s1 = if !is_heal && attacker_is_player {
            o.spec_add_damage(attacker_uid, skill_id, element, amount, is_crit, is_lucky, is_cause_lucky,
                hp_lessen, target_uid, now)
        } else {
            o
        };
        if is_dead { s1.spec_set_enemy_hp(target_uid, 0, now) } else { s1 }
    } else {
        o
    }
}

/// Applies one damage record aimed at the entity `target_uuid`.
pub fn process_damage_info(store: &mut DataManager, d: &SyncDamageInfo, target_uuid: u64, now: u64)
    requires
        old(store).wf(),
    ensures
        final(store).wf(),
        final(store)@ == spec_apply_damage(old(store)@, *d, target_uuid, now),
{
    let skill_id = match d.owner_id { Some(v) => v, None => 0 };
    let attacker = match d.top_summoner_id {
        Some(v) => v,
        None => match d.attacker_uuid { Some(v) => v, None => 0 },
    };
    let value = match d.value { Some(v) => v, None => 0 };
    let lucky_value = match d.lucky_value { Some(v) => v, None => 0 };
    let amount = if value > 0 { value } else { lucky_value };
    if skill_id == 0 || attacker == 0 || amount == 0 {
        return;
    }
    let type_flag = match d.type_flag { Some(v) => v, None => 0 };
    let is_crit = type_flag & 1 == 1;
    let is_cause_lucky = type_flag & 4 == 4;
    let is_lucky = lucky_value > 0;
    let is_heal = d.damage_type == Some(1u32);
    let is_dead = match d.is_dead { Some(v) => v, None => false };
    let hp_lessen = match d.hp_lessen_value { Some(v) => v, None => 0 };
    let element = match d.property { Some(v) => v, None => 0 };
    let target_uid = uuid_to_uid(target_uuid);
    let attacker_uid = uuid_to_uid(attacker);
    let attacker_is_player = is_uuid_player(attacker);
    if is_uuid_player(target_uuid) {
        if is_heal {
            let healer = if attacker_is_player { attacker_uid } else { 0 };
            store.add_healing(healer, skill_id, element, amount, is_crit, is_lucky, is_cause_lucky, now);
        } else {
            store.add_taken_damage(target_uid, amount, is_dead, now);
        }
        if is_dead {
            store.set_user_attr(target_uid, UserAttr::Hp, 0, now);
        }
    } else if is_uuid_monster(target_uuid) {
        if !is_heal && attacker_is_player {
            store.add_damage(attacker_uid, skill_id, element, amount, is_crit, is_lucky, is_cause_lucky,
                hp_lessen, target_uid, now);
        }
        if is_dead {
            store.set_enemy_hp(target_uid, 0, now);
        }
    }
}

/// The store after the damage records `ds`, in order, all aimed at `target_uuid`.
pub open spec fn spec_apply_damages(o: StoreView, ds: Seq<SyncDamageInfo>, target_uuid: u64, now: u64) -> StoreView
    decreases ds.len(),
{
    if ds.len() == 0 {
        o
    } else {
        spec_apply_damage(spec_apply_damages(o, ds.drop_last(), target_uuid, now), ds.last(), target_uuid, now)
    }
}

/// The store after one area-of-interest delta: the entity's attributes (for a
/// player or a monster), then each damage record aimed at it.
pub open spec fn spec_apply_delta(o: StoreView, d: AoiSyncDeltaView, now: u64) -> StoreView {
    match d.uuid {
        None => o,
        Some(u) => {
            let s1 = if is_player_uuid(u) {
                spec_apply_attrs(o, uid_of(u), d.attrs, true, now)
            } else if is_monster_uuid(u) {
                spec_apply_attrs(o, uid_of(u), d.attrs, false, now)
            } else {
                o
            };
            spec_apply_damages(s1, d.damages, u, now)
        },
    }
}

/// Applies one area-of-interest delta.
pub fn process_aoi_sync_delta(store: &mut DataManager, d: &AoiSyncDelta, now: u64)
    requires
        old(store).wf(),
    ensures
        final(store).wf(),
        final(store)@ == spec_apply_delta(old(store)@, d@, now),
{
    let u = match d.uuid {
        Some(u) => u,
        None => return,
    };
    let uid = uuid_to_uid(u);
    if is_uuid_player(u) {
        process_attrs(store, uid, &d.attrs, true, now);
    } else if is_uuid_monster(u) {
        process_attrs(store, uid, &d.attrs, false, now);
    }
    let ghost s1 = store@;
    let mut i: usize = 0;
    while i < d.damages.len()
        invariant
            i <= d.damages@.len(),
            store.wf(),
            store@ == spec_apply_damages(s1, d.damages@.take(i as int), u, now),
        decreases d.damages@.len() - i,
    {
        assert(d.damages@.take(i + 1).drop_last() =~= d.damages@.take(i as int));
        process_damage_info(store, &d.damages[i], u, now);
        i = i + 1;
    }
    assert(d.damages@.take(d.damages@.len() as int) =~= d.damages@);
}

/// The store after a dirty-data buffer of the local player (`uuid`): a
/// little-endian field index, padding, a sub-field index, padding, then the value.
pub open spec fn spec_apply_dirty(o: StoreView, uuid: u64, b: Seq<u8>, now: u64) -> StoreView {
    let uid = uid_of(uuid);
    if b.len() < 16 {
        o
    } else {
        let field = le32(b, 0);
        let sub = le32(b, 8);
        if field == 2 && sub == 5 {
            if b.len() >= 24 && 24 + le32(b, 16) <= b.len() {
                match utf8_of(b.subrange(24, 24 + le32(b, 16))) {
                    Some(n) => o.spec_set_user_name(uid, n, now),
                    None => o,
                }
            } else {
                o
            }
        } else if b.len() < 20 {
            o
        } else if field == 2 && sub == 35 {
            o.spec_set_user_fight_point(uid, le32(b, 16) as u32, now)
        } else if field == 16 && sub == 1 {
            o.spec_set_user_attr(uid, UserAttr::Hp, le32(b, 16) as u32, now)
        } else if field == 16 && sub == 2 {
            o.spec_set_user_attr(uid, UserAttr::MaxHp, le32(b, 16) as u32, now)
        } else if field == 61 && sub == 1 {
            match spec_profession_name(le32(b, 16) as u32) {
                Some(p) => o.spec_set_user_profession(uid, p, now),
                None => o,
            }
        } else {
            o
        }
    }
}

/// Applies a dirty-data buffer of the local player `uuid`.
pub fn process_dirty_data_buffer(store: &mut DataManager, uuid: u64, b: &[u8], now: u64)
    requires
        old(store).wf(),
    ensures
        final(store).wf(),
        final(store)@ == spec_apply_dirty(old(store)@, uuid, b@, now),
{
    let uid = uuid_to_uid(uuid);
    let n = b.len();
    if n < 16 {
        return;
    }
    let field = read_le32(b, 0);
    let sub = read_le32(b, 8);
    if field == 2 && sub == 5 {
        if n >= 24 {
            let len = read_le32(b, 16) as usize;
            if len <= n - 24 {
                let bytes = copy_range(b, 24, 24 + len);
                if let Some(name) = utf8_text(bytes.as_slice()) {
                    store.set_user_name(uid, name, now);
                }
            }
        }
        return;
    }
    if n < 20 {
        return;
    }
    let v = read_le32(b, 16);
    if field == 2 && sub == 35 {
        store.set_user_fight_point(uid, v, now);
    } else if field == 16 && sub == 1 {
        store.set_user_attr(uid, UserAttr::Hp, v, now);
    } else if field == 16 && sub == 2 {
        store.set_user_attr(uid, UserAttr::MaxHp, v, now);
    } else if field == 61 && sub == 1 {
        if let Some(p) = get_profession_name_from_id(v) {
            store.set_user_profession(uid, p, now);
        }
    }
}

pub const METHOD_SYNC_NEAR_ENTITIES: u32 = 0x06;
pub const METHOD_SYNC_CONTAINER_DATA: u32 = 0x15;
pub const METHOD_SYNC_CONTAINER_DIRTY_DATA: u32 = 0x16;
pub const METHOD_SYNC_SERVER_TIME: u32 = 0x2b;
pub const METHOD_SYNC_NEAR_DELTA_INFO: u32 = 0x2d;
pub const METHOD_SYNC_TO_ME_DELTA_INFO: u32 = 0x2e;

/// Methods of the game's notify service.
#[derive(Clone, Copy, Debug, PartialEq, Eq, Structural)]
pub enum NotifyMethod {
    SyncNearEntities,
    SyncContainerData,
    SyncContainerDirtyData,
    SyncServerTime,
    SyncNearDeltaInfo,
    SyncToMeDeltaInfo,
}

impl NotifyMethod {
    pub open spec fn spec_code(self) -> u32 {
        match self {
            NotifyMethod::SyncNearEntities => METHOD_SYNC_NEAR_ENTITIES,
            NotifyMethod::SyncContainerData => METHOD_SYNC_CONTAINER_DATA,
            NotifyMethod::SyncContainerDirtyData => METHOD_SYNC_CONTAINER_DIRTY_DATA,
            NotifyMethod::SyncServerTime => METHOD_SYNC_SERVER_TIME,
            NotifyMethod::SyncNearDeltaInfo => METHOD_SYNC_NEAR_DELTA_INFO,
            NotifyMethod::SyncToMeDeltaInfo => METHOD_SYNC_TO_ME_DELTA_INFO,
        }
    }

    /// The method with code `m`, if the service defines one.
    pub fn from_u32(m: u32) -> (r: Option<NotifyMethod>)
        ensures
            match r {
                Some(x) => x.spec_code() == m,
                None => m != METHOD_SYNC_NEAR_ENTITIES && m != METHOD_SYNC_CONTAINER_DATA
                    && m != METHOD_SYNC_CONTAINER_DIRTY_DATA && m != METHOD_SYNC_SERVER_TIME
                    && m != METHOD_SYNC_NEAR_DELTA_INFO && m != METHOD_SYNC_TO_ME_DELTA_INFO,
            },
    {
        if m == METHOD_SYNC_NEAR_ENTITIES {
            Some(NotifyMethod::SyncNearEntities)
        } else if m == METHOD_SYNC_CONTAINER_DATA {
            Some(NotifyMethod::SyncContainerData)
        } else if m == METHOD_SYNC_CONTAINER_DIRTY_DATA {
            Some(NotifyMethod::SyncContainerDirtyData)
        } else if m == METHOD_SYNC_SERVER_TIME {
            Some(NotifyMethod::SyncServerTime)
        } else if m == METHOD_SYNC_NEAR_DELTA_INFO {
            Some(NotifyMethod::SyncNearDeltaInfo)
        } else if m == METHOD_SYNC_TO_ME_DELTA_INFO {
            Some(NotifyMethod::SyncToMeDeltaInfo)
        } else {
            None
        }
    }
}

/// Damage record types: `type` 1 is a heal.
#[derive(Clone, Copy, Debug, PartialEq, Eq, Structural)]
pub enum EDamageType {
    Damage,
    Heal,
}

/// Entity types of appearing entities: 1 is a character, 2 a monster.
#[derive(Clone, Copy, Debug, PartialEq, Eq, Structural)]
pub enum EEntityType {
    EntChar,
    EntMonster,
}

/// The store after the deltas `ds`, in order.
pub open spec fn spec_apply_deltas(o: StoreView, ds: Seq<AoiSyncDeltaView>, now: u64) -> StoreView
    decreases ds.len(),
{
    if ds.len() == 0 {
        o
    } else {
        spec_apply_delta(spec_apply_deltas(o, ds.drop_last(), now), ds.last(), now)
    }
}

/// The store after one appearing entity: its attributes, by its type (1 player, 2 monster).
pub open spec fn spec_apply_entity(o: StoreView, e: EntityView, now: u64) -> StoreView {
    match e.uuid {
        None => o,
        Some(u) => {
            let t = match e.ent_type { Some(t) => t, None => 0 };
            if t == 2 {
                spec_apply_attrs(o, uid_of(u), e.attrs, false, now)
            } else if t == 1 {
                spec_apply_attrs(o, uid_of(u), e.attrs, true, now)
            } else {
                o
            }
        },
    }
}

pub open spec fn spec_apply_entities(o: StoreView, es: Seq<EntityView>, now: u64) -> StoreView
    decreases es.len(),
{
    if es.len() == 0 {
        o
    } else {
        spec_apply_entity(spec_apply_entities(o, es.drop_last(), now), es.last(), now)
    }
}

/// The store after a character snapshot: each present field of character `charId`.
pub open spec fn spec_apply_vdata(o: StoreView, v: VDataView, now: u64) -> StoreView {
    match v.char_id {
        None => o,
        Some(c) => {
            let s1 = match v.level { Some(x) => o.spec_set_user_attr(c, UserAttr::Level, x, now), None => o };
            let s2 = match v.cur_hp { Some(x) => s1.spec_set_user_attr(c, UserAttr::Hp, x, now), None => s1 };
            let s3 = match v.max_hp { Some(x) => s2.spec_set_user_attr(c, UserAttr::MaxHp, x, now), None => s2 };
            let s4 = match v.name { Some(x) => s3.spec_set_user_name(c, x, now), None => s3 };
            let s5 = match v.fight_point { Some(x) => s4.spec_set_user_fight_point(c, x, now), None => s4 };
            match v.profession_id {
                Some(x) => match spec_profession_name(x) {
                    Some(p) => s5.spec_set_user_profession(c, p, now),
                    None => s5,
                },
                None => s5,
            }
        },
    }
}

/// The local player's uuid and the store after one notify of method `method`.
#[verifier::opaque]
pub open spec fn spec_notify(cur: u64, o: StoreView, method: u32, p: Seq<u8>, now: u64) -> (u64, StoreView) {
    if method == METHOD_SYNC_NEAR_ENTITIES {
        match spec_near_entities(p) {
            Some(es) => (cur, spec_apply_entities(o, es, now)),
            None => (cur, o),
        }
    } else if method == METHOD_SYNC_CONTAINER_DATA {
        match spec_container(p) {
            Some(Some(v)) => (cur, spec_apply_vdata(o, v, now)),
            _ => (cur, o),
        }
    } else if method == METHOD_SYNC_CONTAINER_DIRTY_DATA {
        if cur == 0 {
            (cur, o)
        } else {
            match spec_container(p) {
                Some(Some(v)) => match v.buffer {
                    Some(b) => (cur, spec_apply_dirty(o, cur, b, now)),
                    None => (cur, o),
                },
                _ => (cur, o),
            }
        }
    } else if method == METHOD_SYNC_NEAR_DELTA_INFO {
        match spec_near_delta_info(p) {
            Some(ds) => (cur, spec_apply_deltas(o, ds, now)),
            None => (cur, o),
        }
    } else if method == METHOD_SYNC_TO_ME_DELTA_INFO {
        match spec_to_me_delta(p) {
            Some(Some(d)) => (
                match d.uuid { Some(u) => u, None => cur },
                spec_apply_delta(o, d, now),
            ),
            _ => (cur, o),
        }
    } else {
        (cur, o)
    }
}

/// The local player's uuid and the store after the messages `ms`, in order.
pub open spec fn spec_messages(cur: u64, o: StoreView, ms: Seq<(MessageType, Seq<u8>)>, now: u64) -> (u64, StoreView)
    decreases ms.len(),
{
    if ms.len() == 0 {
        (cur, o)
    } else {
        let prev = spec_messages(cur, o, ms.drop_last(), now);
        let m = ms.last();
        if m.0 == MessageType::Notify {
            match notify_of(m.1) {
                Some((method, p)) => spec_notify(prev.0, prev.1, method, p, now),
                None => prev,
            }
        } else {
            prev
        }
    }
}

/// Decodes notify payloads and applies them to the store; remembers the local player.
pub struct PacketParser {
    pub current_user_uuid: u64,
}

impl PacketParser {
    pub fn new() -> (r: PacketParser)
        ensures
            r.current_user_uuid == 0,
    {
        PacketParser { current_user_uuid: 0 }
    }

    /// Applies one notify of method `method` with payload `p`.
    pub fn process_notify(&mut self, store: &mut DataManager, method: u32, p: &[u8], now: u64)
        requires
            old(store).wf(),
        ensures
            final(store).wf(),
            (final(self).current_user_uuid, final(store)@)
                == spec_notify(old(self).current_user_uuid, old(store)@, method, p@, now),
    {
        proof { reveal(spec_notify); }
        if method == METHOD_SYNC_NEAR_ENTITIES {
            if let Some(ne) = decode_near_entities(p) {
                let es = ne.appear;
                let ghost ev = entities_view(es@);
                let ghost s0 = store@;
                let mut i: usize = 0;
                while i < es.len()
                    invariant
                        i <= es@.len(),
                        ev == entities_view(es@),
                        store.wf(),
                        store@ == spec_apply_entities(s0, ev.take(i as int), now),
                    decreases es@.len() - i,
                {
                    assert(ev.take(i + 1).drop_last() =~= ev.take(i as int));
                    assert(ev.take(i + 1).last() == es@[i as int]@);
                    let e = &es[i];
                    if let Some(u) = e.uuid {
                        let t = match e.ent_type { Some(t) => t, None => 0 };
                        if t == 2 {
                            process_attrs(store, uuid_to_uid(u), &e.attrs, false, now);
                        } else if t == 1 {
                            process_attrs(store, uuid_to_uid(u), &e.attrs, true, now);
                        }
                    }
                    i = i + 1;
                }
                assert(ev.take(es@.len() as int) =~= ev);
            }
        } else if method == METHOD_SYNC_CONTAINER_DATA {
            if let Some(c) = decode_container(p) {
                if let Some(v) = &c.v_data {
                    self.apply_vdata(store, v, now);
                }
            }
        } else if method == METHOD_SYNC_CONTAINER_DIRTY_DATA {
            if self.current_user_uuid != 0 {
                if let Some(c) = decode_container(p) {
                    if let Some(v) = &c.v_data {
                        if let Some(b) = &v.buffer {
                            process_dirty_data_buffer(store, self.current_user_uuid, b.as_slice(), now);
                        }
                    }
                }
            }
        } else if method == METHOD_SYNC_NEAR_DELTA_INFO {
            if let Some(nd) = decode_near_delta_info(p) {
                let ds = nd.delta_infos;
                let ghost dv = deltas_view(ds@);
                let ghost s0 = store@;
                let mut i: usize = 0;
                while i < ds.len()
                    invariant
                        i <= ds@.len(),
                        dv == deltas_view(ds@),
                        store.wf(),
                        store@ == spec_apply_deltas(s0, dv.take(i as int), now),
                    decreases ds@.len() - i,
                {
                    assert(dv.take(i + 1).drop_last() =~= dv.take(i as int));
                    assert(dv.take(i + 1).last() == ds@[i as int]@);
                    process_aoi_sync_delta(store, &ds[i], now);
                    i = i + 1;
                }
                assert(dv.take(ds@.len() as int) =~= dv);
            }
        } else if method == METHOD_SYNC_TO_ME_DELTA_INFO {
            if let Some(m) = decode_to_me_delta(p) {
                if let Some(d) = m.base_delta() {
                    if let Some(u) = d.uuid {
                        self.current_user_uuid = u;
                    }
                    process_aoi_sync_delta(store, d, now);
                }
            }
        }
    }

    fn apply_vdata(&self, store: &mut DataManager, v: &VData, now: u64)
        requires
            old(store).wf(),
        ensures
            final(store).wf(),
            final(store)@ == spec_apply_vdata(old(store)@, v@, now),
    {
        let c = match v.char_id {
            Some(c) => c,
            None => return,
        };
        if let Some(x) = v.level {
            store.set_user_attr(c, UserAttr::Level, x, now);
        }
        if let Some(x) = v.cur_hp {
            store.set_user_attr(c, UserAttr::Hp, x, now);
        }
        if let Some(x) = v.max_hp {
            store.set_user_attr(c, UserAttr::MaxHp, x, now);
        }
        if let Some(x) = &v.name {
            let n = x.clone();
            store.set_user_name(c, n, now);
        }
        if let Some(x) = v.fight_point {
            store.set_user_fight_point(c, x, now);
        }
        if let Some(x) = v.profession_id {
            if let Some(p) = get_profession_name_from_id(x) {
                store.set_user_profession(c, p, now);
            }
        }
    }

    /// Applies unwrapped envelopes in order: each notify addressed to the game's service.
    pub fn process_messages(&mut self, store: &mut DataManager, ms: &Vec<Message>, now: u64)
        requires
            old(store).wf(),
        ensures
            final(store).wf(),
            (final(self).current_user_uuid, final(store)@)
                == spec_messages(old(self).current_user_uuid, old(store)@, messages_view(ms@), now),
    {
        let ghost mv = messages_view(ms@);
        let mut i: usize = 0;
        while i < ms.len()
            invariant
                i <= ms@.len(),
                mv == messages_view(ms@),
                store.wf(),
                (self.current_user_uuid, store@)
                    == spec_messages(old(self).current_user_uuid, old(store)@, mv.take(i as int), now),
            decreases ms@.len() - i,
        {
            assert(mv.take(i + 1).drop_last() =~= mv.take(i as int));
            assert(mv.take(i + 1).last() == ms@[i as int]@);
            let m = &ms[i];
            if m.kind == MessageType::Notify {
                if let Some((method, p)) = parse_notify(m.body.as_slice()) {
                    self.process_notify(store, method, p.as_slice(), now);
                }
            }
            i = i + 1;
        }
        assert(mv.take(ms@.len() as int) =~= mv);
    }

    /// Unwraps one framed message and applies what it carries.
    pub fn process_packet(&mut self, store: &mut DataManager, frame: &Frame, now: u64)
        requires
            old(store).wf(),
        ensures
            final(store).wf(),
            (final(self).current_user_uuid, final(store)@) == spec_messages(
                old(self).current_user_uuid, old(store)@, envelope(frame.opcode, frame.body@, MAX_DEPTH as nat), now),
    {
        let ms = decode_frame(frame.opcode, frame.body.as_slice(), MAX_DEPTH);
        self.process_messages(store, &ms, now);
    }
}

} // verus!
