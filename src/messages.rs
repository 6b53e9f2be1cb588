//! The payload messages of the game's notify service, decoded from field records.
use vstd::prelude::*;
use crate::proto::{
    FieldView, fields, fields_view, last_varint, last_bytes, all_bytes, parse_fields, get_varint,
    get_bytes, get_all_bytes,
};

verus! {

pub open spec fn opt_u32(o: Option<u64>) -> Option<u32> {
    match o {
        Some(v) => Some(v as u32),
        None => None,
    }
}

pub open spec fn opt_bool(o: Option<u64>) -> Option<bool> {
    match o {
        Some(v) => Some(v != 0),
        None => None,
    }
}

fn to_u32(o: Option<u64>) -> (r: Option<u32>)
    ensures
        r == opt_u32(o),
{
    match o {
        Some(v) => Some(v as u32),
        None => None,
    }
}

fn to_bool(o: Option<u64>) -> (r: Option<bool>)
    ensures
        r == opt_bool(o),
{
    match o {
        Some(v) => Some(v != 0),
        None => None,
    }
}

/// One damage or healing record of a skill effect.
#[derive(Clone, Copy, Debug, PartialEq, Eq, Structural)]
pub struct SyncDamageInfo {
    pub owner_id: Option<u32>,
    pub attacker_uuid: Option<u64>,
    pub target_uuid: Option<u64>,
    pub value: Option<u64>,
    pub lucky_value: Option<u64>,
    pub type_flag: Option<u32>,
    pub is_miss: Option<bool>,
    pub damage_source: Option<u32>,
    pub property: Option<u32>,
    pub hp_lessen_value: Option<u64>,
    pub is_dead: Option<bool>,
    pub summoner_id: Option<u64>,
    pub top_summoner_id: Option<u64>,
    pub damage_type: Option<u32>,
}

pub open spec fn damage_info_of(fs: Seq<FieldView>) -> SyncDamageInfo {
    SyncDamageInfo {
        owner_id: opt_u32(last_varint(fs, 1)),
        attacker_uuid: last_varint(fs, 2),
        target_uuid: last_varint(fs, 3),
        value: last_varint(fs, 4),
        lucky_value: last_varint(fs, 5),
        type_flag: opt_u32(last_varint(fs, 6)),
        is_miss: opt_bool(last_varint(fs, 7)),
        damage_source: opt_u32(last_varint(fs, 8)),
        property: opt_u32(last_varint(fs, 9)),
        hp_lessen_value: last_varint(fs, 10),
        is_dead: opt_bool(last_varint(fs, 11)),
        summoner_id: last_varint(fs, 12),
        top_summoner_id: last_varint(fs, 13),
        damage_type: opt_u32(last_varint(fs, 14)),
    }
}

pub open spec fn spec_damage_info(b: Seq<u8>) -> Option<SyncDamageInfo> {
    match fields(b) {
        Some(fs) => Some(damage_info_of(fs)),
        None => None,
    }
}

/// Decodes a damage record.
pub fn decode_damage_info(b: &[u8]) -> (r: Option<SyncDamageInfo>)
    ensures
        r == spec_damage_info(b@),
{
    let fs = match parse_fields(b) {
        Some(fs) => fs,
        None => return None,
    };
    Some(SyncDamageInfo {
        owner_id: to_u32(get_varint(&fs, 1)),
        attacker_uuid: get_varint(&fs, 2),
        target_uuid: get_varint(&fs, 3),
        value: get_varint(&fs, 4),
        lucky_value: get_varint(&fs, 5),
        type_flag: to_u32(get_varint(&fs, 6)),
        is_miss: to_bool(get_varint(&fs, 7)),
        damage_source: to_u32(get_varint(&fs, 8)),
        property: to_u32(get_varint(&fs, 9)),
        hp_lessen_value: get_varint(&fs, 10),
        is_dead: to_bool(get_varint(&fs, 11)),
        summoner_id: get_varint(&fs, 12),
        top_summoner_id: get_varint(&fs, 13),
        damage_type: to_u32(get_varint(&fs, 14)),
    })
}

/// One attribute of an entity: its code and raw bytes.
#[derive(Clone, Debug)]
pub struct Attr {
    pub id: Option<u32>,
    pub raw_data: Option<Vec<u8>>,
}

pub struct AttrView {
    pub id: Option<u32>,
    pub raw_data: Option<Seq<u8>>,
}

impl View for Attr {
    type V = AttrView;

    open spec fn view(&self) -> AttrView {
        AttrView {
            id: self.id,
            raw_data: match self.raw_data {
                Some(d) => Some(d@),
                None => None,
            },
        }
    }
}

pub open spec fn spec_attr(b: Seq<u8>) -> Option<AttrView> {
    match fields(b) {
        Some(fs) => Some(AttrView { id: opt_u32(last_varint(fs, 1)), raw_data: last_bytes(fs, 2) }),
        None => None,
    }
}

pub fn decode_attr(b: &[u8]) -> (r: Option<Attr>)
    ensures
        match r {
            Some(a) => spec_attr(b@) == Some(a@),
            None => spec_attr(b@).is_none(),
        },
{
    let fs = match parse_fields(b) {
        Some(fs) => fs,
        None => return None,
    };
    Some(Attr { id: to_u32(get_varint(&fs, 1)), raw_data: get_bytes(&fs, 2) })
}

/// The attributes of a list of encoded `Attr` records, if all decode.
pub open spec fn spec_attr_list(bs: Seq<Seq<u8>>) -> Option<Seq<AttrView>>
    decreases bs.len(),
{
    if bs.len() == 0 {
        Some(seq![])
    } else {
        match (spec_attr_list(bs.drop_last()), spec_attr(bs.last())) {
            (Some(a), Some(x)) => Some(a.push(x)),
            _ => None,
        }
    }
}

/// The damage records of a list of encoded records, if all decode.
pub open spec fn spec_damage_list(bs: Seq<Seq<u8>>) -> Option<Seq<SyncDamageInfo>>
    decreases bs.len(),
{
    if bs.len() == 0 {
        Some(seq![])
    } else {
        match (spec_damage_list(bs.drop_last()), spec_damage_info(bs.last())) {
            (Some(a), Some(x)) => Some(a.push(x)),
            _ => None,
        }
    }
}

/// A list fails to decode when one of its prefixes does.
pub proof fn lemma_attr_list_prefix(bs: Seq<Seq<u8>>, k: int)
    requires
        0 <= k <= bs.len(),
        spec_attr_list(bs.take(k)).is_none(),
    ensures
        spec_attr_list(bs).is_none(),
    decreases bs.len(),
{
    if k < bs.len() {
        assert(bs.drop_last().take(k) =~= bs.take(k));
        lemma_attr_list_prefix(bs.drop_last(), k);
    } else {
        assert(bs.take(k) =~= bs);
    }
}

pub proof fn lemma_damage_list_prefix(bs: Seq<Seq<u8>>, k: int)
    requires
        0 <= k <= bs.len(),
        spec_damage_list(bs.take(k)).is_none(),
    ensures
        spec_damage_list(bs).is_none(),
    decreases bs.len(),
{
    if k < bs.len() {
        assert(bs.drop_last().take(k) =~= bs.take(k));
        lemma_damage_list_prefix(bs.drop_last(), k);
    } else {
        assert(bs.take(k) =~= bs);
    }
}

pub open spec fn attrs_view(v: Seq<Attr>) -> Seq<AttrView> {
    v.map_values(|a: Attr| a@)
}

/// The attributes carried by an `AttrCollection` message.
pub open spec fn spec_attr_collection(b: Seq<u8>) -> Option<Seq<AttrView>> {
    match fields(b) {
        Some(fs) => spec_attr_list(all_bytes(fs, 1)),
        None => None,
    }
}

/// The damage records carried by a `SkillEffects` message.
pub open spec fn spec_skill_effects(b: Seq<u8>) -> Option<Seq<SyncDamageInfo>> {
    match fields(b) {
        Some(fs) => spec_damage_list(all_bytes(fs, 1)),
        None => None,
    }
}

pub fn decode_attr_collection(b: &[u8]) -> (r: Option<Vec<Attr>>)
    ensures
        match r {
            Some(v) => spec_attr_collection(b@) == Some(attrs_view(v@)),
            None => spec_attr_collection(b@).is_none(),
        },
{
    let fs = match parse_fields(b) {
        Some(fs) => fs,
        None => return None,
    };
    let items = get_all_bytes(&fs, 1);
    let ghost bs = items@.map_values(|x: Vec<u8>| x@);
    let mut out: Vec<Attr> = Vec::new();
    let mut i: usize = 0;
    while i < items.len()
        invariant
            i <= items@.len(),
            bs == items@.map_values(|x: Vec<u8>| x@),
            fields(b@) == Some(fields_view(fs@)),
            bs == all_bytes(fields_view(fs@), 1),
            spec_attr_list(bs.take(i as int)) == Some(attrs_view(out@)),
        decreases items@.len() - i,
    {
        assert(bs.take(i + 1).drop_last() =~= bs.take(i as int));
        assert(bs.take(i + 1).last() == items@[i as int]@);
        let a = match decode_attr(items[i].as_slice()) {
            Some(a) => a,
            None => {
                proof {
                    assert(bs.take(i + 1).last() == items@[i as int]@);
                    assert(spec_attr(bs.take(i + 1).last()).is_none());
                    assert(spec_attr_list(bs.take(i + 1)).is_none());
                    lemma_attr_list_prefix(bs, i + 1);
                }
                return None;
            },
        };
        let ghost prev = out@;
        out.push(a);
        assert(attrs_view(out@) =~= attrs_view(prev).push(a@));
        i = i + 1;
    }
    assert(bs.take(items@.len() as int) =~= bs);
    Some(out)
}

pub fn decode_skill_effects(b: &[u8]) -> (r: Option<Vec<SyncDamageInfo>>)
    ensures
        match r {
            Some(v) => spec_skill_effects(b@) == Some(v@),
            None => spec_skill_effects(b@).is_none(),
        },
{
    let fs = match parse_fields(b) {
        Some(fs) => fs,
        None => return None,
    };
    let items = get_all_bytes(&fs, 1);
    let ghost bs = items@.map_values(|x: Vec<u8>| x@);
    let mut out: Vec<SyncDamageInfo> = Vec::new();
    let mut i: usize = 0;
    while i < items.len()
        invariant
            i <= items@.len(),
            bs == items@.map_values(|x: Vec<u8>| x@),
            fields(b@) == Some(fields_view(fs@)),
            bs == all_bytes(fields_view(fs@), 1),
            spec_damage_list(bs.take(i as int)) == Some(out@),
        decreases items@.len() - i,
    {
        assert(bs.take(i + 1).drop_last() =~= bs.take(i as int));
        assert(bs.take(i + 1).last() == items@[i as int]@);
        let d = match decode_damage_info(items[i].as_slice()) {
            Some(d) => d,
            None => {
                proof {
                    assert(bs.take(i + 1).last() == items@[i as int]@);
                    assert(spec_damage_info(bs.take(i + 1).last()).is_none());
                    assert(spec_damage_list(bs.take(i + 1)).is_none());
                    lemma_damage_list_prefix(bs, i + 1);
                }
                return None;
            },
        };
        out.push(d);
        i = i + 1;
    }
    assert(bs.take(items@.len() as int) =~= bs);
    Some(out)
}

/// An area-of-interest delta: one entity's attribute and skill-effect changes.
#[derive(Clone, Debug)]
pub struct AoiSyncDelta {
    pub uuid: Option<u64>,
    pub attrs: Vec<Attr>,
    pub damages: Vec<SyncDamageInfo>,
}

pub struct AoiSyncDeltaView {
    pub uuid: Option<u64>,
    pub attrs: Seq<AttrView>,
    pub damages: Seq<SyncDamageInfo>,
}

impl View for AoiSyncDelta {
    type V = AoiSyncDeltaView;

    open spec fn view(&self) -> AoiSyncDeltaView {
        AoiSyncDeltaView { uuid: self.uuid, attrs: attrs_view(self.attrs@), damages: self.damages@ }
    }
}

/// An optional nested list: absent decodes as empty.
pub open spec fn spec_opt_attrs(b: Option<Seq<u8>>) -> Option<Seq<AttrView>> {
    match b {
        Some(b) => spec_attr_collection(b),
        None => Some(seq![]),
    }
}

pub open spec fn spec_opt_damages(b: Option<Seq<u8>>) -> Option<Seq<SyncDamageInfo>> {
    match b {
        Some(b) => spec_skill_effects(b),
        None => Some(seq![]),
    }
}

pub open spec fn spec_aoi_delta(b: Seq<u8>) -> Option<AoiSyncDeltaView> {
    match fields(b) {
        Some(fs) => match (spec_opt_attrs(last_bytes(fs, 2)), spec_opt_damages(last_bytes(fs, 3))) {
            (Some(attrs), Some(damages)) => Some(AoiSyncDeltaView { uuid: last_varint(fs, 1), attrs, damages }),
            _ => None,
        },
        None => None,
    }
}

pub fn decode_aoi_delta(b: &[u8]) -> (r: Option<AoiSyncDelta>)
    ensures
        match r {
            Some(d) => spec_aoi_delta(b@) == Some(d@),
            None => spec_aoi_delta(b@).is_none(),
        },
{
    let fs = match parse_fields(b) {
        Some(fs) => fs,
        None => return None,
    };
    let attrs = match get_bytes(&fs, 2) {
        Some(ab) => match decode_attr_collection(ab.as_slice()) {
            Some(a) => a,
            None => return None,
        },
        None => {
            let v: Vec<Attr> = Vec::new();
            assert(attrs_view(v@) =~= seq![]);
            v
        },
    };
    let damages = match get_bytes(&fs, 3) {
        Some(db) => match decode_skill_effects(db.as_slice()) {
            Some(d) => d,
            None => return None,
        },
        None => {
            let v: Vec<SyncDamageInfo> = Vec::new();
            assert(v@ =~= seq![]);
            v
        },
    };
    Some(AoiSyncDelta { uuid: get_varint(&fs, 1), attrs, damages })
}
/// What `String::from_utf8` makes of some bytes: the text if they are valid UTF-8.
pub uninterp spec fn utf8_of(b: Seq<u8>) -> Option<Seq<char>>;

/// Relies on `String::from_utf8`: the text when the bytes are valid UTF-8, an error otherwise.
#[verifier::external_body]
pub(crate) fn utf8_text(b: &[u8]) -> (r: Option<String>)
    ensures
        match r {
            Some(s) => utf8_of(b@) == Some(s@),
            None => utf8_of(b@).is_none(),
        },
{
    String::from_utf8(b.to_vec()).ok()
}


/// The deltas of a list of encoded `AoiSyncDelta` records, if all decode.
pub open spec fn spec_delta_list(bs: Seq<Seq<u8>>) -> Option<Seq<AoiSyncDeltaView>>
    decreases bs.len(),
{
    if bs.len() == 0 {
        Some(seq![])
    } else {
        match (spec_delta_list(bs.drop_last()), spec_aoi_delta(bs.last())) {
            (Some(a), Some(x)) => Some(a.push(x)),
            _ => None,
        }
    }
}

pub proof fn lemma_delta_list_prefix(bs: Seq<Seq<u8>>, k: int)
    requires
        0 <= k <= bs.len(),
        spec_delta_list(bs.take(k)).is_none(),
    ensures
        spec_delta_list(bs).is_none(),
    decreases bs.len(),
{
    if k < bs.len() {
        assert(bs.drop_last().take(k) =~= bs.take(k));
        lemma_delta_list_prefix(bs.drop_last(), k);
    } else {
        assert(bs.take(k) =~= bs);
    }
}

pub open spec fn deltas_view(v: Seq<AoiSyncDelta>) -> Seq<AoiSyncDeltaView> {
    v.map_values(|d: AoiSyncDelta| d@)
}

/// The deltas of a `SyncNearDeltaInfo` message.
pub open spec fn spec_near_delta_info(b: Seq<u8>) -> Option<Seq<AoiSyncDeltaView>> {
    match fields(b) {
        Some(fs) => spec_delta_list(all_bytes(fs, 1)),
        None => None,
    }
}

/// Deltas of the entities in view.
#[derive(Clone, Debug)]
pub struct SyncNearDeltaInfo {
    pub delta_infos: Vec<AoiSyncDelta>,
}

pub fn decode_near_delta_info(b: &[u8]) -> (r: Option<SyncNearDeltaInfo>)
    ensures
        match r {
            Some(v) => spec_near_delta_info(b@) == Some(deltas_view(v.delta_infos@)),
            None => spec_near_delta_info(b@).is_none(),
        },
{
    let fs = match parse_fields(b) {
        Some(fs) => fs,
        None => return None,
    };
    let items = get_all_bytes(&fs, 1);
    let ghost bs = items@.map_values(|x: Vec<u8>| x@);
    let mut out: Vec<AoiSyncDelta> = Vec::new();
    let mut i: usize = 0;
    while i < items.len()
        invariant
            i <= items@.len(),
            bs == items@.map_values(|x: Vec<u8>| x@),
            fields(b@) == Some(fields_view(fs@)),
            bs == all_bytes(fields_view(fs@), 1),
            spec_delta_list(bs.take(i as int)) == Some(deltas_view(out@)),
        decreases items@.len() - i,
    {
        assert(bs.take(i + 1).drop_last() =~= bs.take(i as int));
        assert(bs.take(i + 1).last() == items@[i as int]@);
        let d = match decode_aoi_delta(items[i].as_slice()) {
            Some(d) => d,
            None => {
                proof {
                    assert(spec_delta_list(bs.take(i + 1)).is_none());
                    lemma_delta_list_prefix(bs, i + 1);
                }
                return None;
            },
        };
        let ghost prev = out@;
        out.push(d);
        assert(deltas_view(out@) =~= deltas_view(prev).push(d@));
        i = i + 1;
    }
    assert(bs.take(items@.len() as int) =~= bs);
    Some(SyncNearDeltaInfo { delta_infos: out })
}

/// The base delta of a `SyncToMeDeltaInfo` message (`deltaInfo.baseDelta`), if present.
pub open spec fn spec_to_me_delta(b: Seq<u8>) -> Option<Option<AoiSyncDeltaView>> {
    match fields(b) {
        None => None,
        Some(fs) => match last_bytes(fs, 1) {
            None => Some(None),
            Some(inner) => match fields(inner) {
                None => None,
                Some(fs2) => match last_bytes(fs2, 1) {
                    None => Some(None),
                    Some(base) => match spec_aoi_delta(base) {
                        Some(d) => Some(Some(d)),
                        None => None,
                    },
                },
            },
        },
    }
}

/// The local player's own delta.
#[derive(Clone, Debug)]
pub struct AoiSyncToMeDelta {
    pub base_delta: Option<AoiSyncDelta>,
}

/// The delta addressed to the local player.
#[derive(Clone, Debug)]
pub struct SyncToMeDeltaInfo {
    pub delta_info: Option<AoiSyncToMeDelta>,
}

impl SyncToMeDeltaInfo {
    /// The base delta, if both layers are present.
    pub open spec fn spec_base(self) -> Option<AoiSyncDeltaView> {
        match self.delta_info {
            Some(t) => match t.base_delta {
                Some(d) => Some(d@),
                None => None,
            },
            None => None,
        }
    }

    pub fn base_delta(&self) -> (r: Option<&AoiSyncDelta>)
        ensures
            match r {
                Some(d) => self.spec_base() == Some(d@),
                None => self.spec_base().is_none(),
            },
    {
        match &self.delta_info {
            Some(t) => match &t.base_delta {
                Some(d) => Some(d),
                None => None,
            },
            None => None,
        }
    }
}

pub fn decode_to_me_delta(b: &[u8]) -> (r: Option<SyncToMeDeltaInfo>)
    ensures
        match r {
            Some(m) => spec_to_me_delta(b@) == Some(m.spec_base()),
            None => spec_to_me_delta(b@).is_none(),
        },
{
    let fs = match parse_fields(b) {
        Some(fs) => fs,
        None => return None,
    };
    let inner = match get_bytes(&fs, 1) {
        Some(x) => x,
        None => return Some(SyncToMeDeltaInfo { delta_info: None }),
    };
    let fs2 = match parse_fields(inner.as_slice()) {
        Some(fs2) => fs2,
        None => return None,
    };
    let base = match get_bytes(&fs2, 1) {
        Some(x) => x,
        None => return Some(SyncToMeDeltaInfo { delta_info: Some(AoiSyncToMeDelta { base_delta: None }) }),
    };
    match decode_aoi_delta(base.as_slice()) {
        Some(d) => Some(SyncToMeDeltaInfo { delta_info: Some(AoiSyncToMeDelta { base_delta: Some(d) }) }),
        None => None,
    }
}

/// An entity that appeared near the local player.
#[derive(Clone, Debug)]
pub struct Entity {
    pub uuid: Option<u64>,
    pub ent_type: Option<u32>,
    pub attrs: Vec<Attr>,
}

pub struct EntityView {
    pub uuid: Option<u64>,
    pub ent_type: Option<u32>,
    pub attrs: Seq<AttrView>,
}

impl View for Entity {
    type V = EntityView;

    open spec fn view(&self) -> EntityView {
        EntityView { uuid: self.uuid, ent_type: self.ent_type, attrs: attrs_view(self.attrs@) }
    }
}

pub open spec fn spec_entity(b: Seq<u8>) -> Option<EntityView> {
    match fields(b) {
        Some(fs) => match spec_opt_attrs(last_bytes(fs, 3)) {
            Some(attrs) => Some(EntityView { uuid: last_varint(fs, 1), ent_type: opt_u32(last_varint(fs, 2)), attrs }),
            None => None,
        },
        None => None,
    }
}

pub fn decode_entity(b: &[u8]) -> (r: Option<Entity>)
    ensures
        match r {
            Some(e) => spec_entity(b@) == Some(e@),
            None => spec_entity(b@).is_none(),
        },
{
    let fs = match parse_fields(b) {
        Some(fs) => fs,
        None => return None,
    };
    let attrs = match get_bytes(&fs, 3) {
        Some(ab) => match decode_attr_collection(ab.as_slice()) {
            Some(a) => a,
            None => return None,
        },
        None => {
            let v: Vec<Attr> = Vec::new();
            assert(attrs_view(v@) =~= seq![]);
            v
        },
    };
    Some(Entity { uuid: get_varint(&fs, 1), ent_type: to_u32(get_varint(&fs, 2)), attrs })
}

pub open spec fn spec_entity_list(bs: Seq<Seq<u8>>) -> Option<Seq<EntityView>>
    decreases bs.len(),
{
    if bs.len() == 0 {
        Some(seq![])
    } else {
        match (spec_entity_list(bs.drop_last()), spec_entity(bs.last())) {
            (Some(a), Some(x)) => Some(a.push(x)),
            _ => None,
        }
    }
}

pub proof fn lemma_entity_list_prefix(bs: Seq<Seq<u8>>, k: int)
    requires
        0 <= k <= bs.len(),
        spec_entity_list(bs.take(k)).is_none(),
    ensures
        spec_entity_list(bs).is_none(),
    decreases bs.len(),
{
    if k < bs.len() {
        assert(bs.drop_last().take(k) =~= bs.take(k));
        lemma_entity_list_prefix(bs.drop_last(), k);
    } else {
        assert(bs.take(k) =~= bs);
    }
}

pub open spec fn entities_view(v: Seq<Entity>) -> Seq<EntityView> {
    v.map_values(|e: Entity| e@)
}

/// The entities of a `SyncNearEntities` message.
pub open spec fn spec_near_entities(b: Seq<u8>) -> Option<Seq<EntityView>> {
    match fields(b) {
        Some(fs) => spec_entity_list(all_bytes(fs, 1)),
        None => None,
    }
}

/// Entities that appeared near the local player.
#[derive(Clone, Debug)]
pub struct SyncNearEntities {
    pub appear: Vec<Entity>,
}

pub fn decode_near_entities(b: &[u8]) -> (r: Option<SyncNearEntities>)
    ensures
        match r {
            Some(v) => spec_near_entities(b@) == Some(entities_view(v.appear@)),
            None => spec_near_entities(b@).is_none(),
        },
{
    let fs = match parse_fields(b) {
        Some(fs) => fs,
        None => return None,
    };
    let items = get_all_bytes(&fs, 1);
    let ghost bs = items@.map_values(|x: Vec<u8>| x@);
    let mut out: Vec<Entity> = Vec::new();
    let mut i: usize = 0;
    while i < items.len()
        invariant
            i <= items@.len(),
            bs == items@.map_values(|x: Vec<u8>| x@),
            fields(b@) == Some(fields_view(fs@)),
            bs == all_bytes(fields_view(fs@), 1),
            spec_entity_list(bs.take(i as int)) == Some(entities_view(out@)),
        decreases items@.len() - i,
    {
        assert(bs.take(i + 1).drop_last() =~= bs.take(i as int));
        assert(bs.take(i + 1).last() == items@[i as int]@);
        let e = match decode_entity(items[i].as_slice()) {
            Some(e) => e,
            None => {
                proof {
                    assert(spec_entity_list(bs.take(i + 1)).is_none());
                    lemma_entity_list_prefix(bs, i + 1);
                }
                return None;
            },
        };
        let ghost prev = out@;
        out.push(e);
        assert(entities_view(out@) =~= entities_view(prev).push(e@));
        i = i + 1;
    }
    assert(bs.take(items@.len() as int) =~= bs);
    Some(SyncNearEntities { appear: out })
}

/// The character snapshot of a container message, its nested records flattened.
#[derive(Clone, Debug)]
pub struct VData {
    pub char_id: Option<u32>,
    pub level: Option<u32>,
    pub cur_hp: Option<u32>,
    pub max_hp: Option<u32>,
    pub name: Option<String>,
    pub fight_point: Option<u32>,
    pub profession_id: Option<u32>,
    pub buffer: Option<Vec<u8>>,
}

pub struct VDataView {
    pub char_id: Option<u32>,
    pub level: Option<u32>,
    pub cur_hp: Option<u32>,
    pub max_hp: Option<u32>,
    pub name: Option<Seq<char>>,
    pub fight_point: Option<u32>,
    pub profession_id: Option<u32>,
    pub buffer: Option<Seq<u8>>,
}

impl View for VData {
    type V = VDataView;

    open spec fn view(&self) -> VDataView {
        VDataView {
            char_id: self.char_id,
            level: self.level,
            cur_hp: self.cur_hp,
            max_hp: self.max_hp,
            name: match self.name { Some(n) => Some(n@), None => None },
            fight_point: self.fight_point,
            profession_id: self.profession_id,
            buffer: match self.buffer { Some(b) => Some(b@), None => None },
        }
    }
}

/// Varint field `n` of an optional nested message; `None` when the nested message is malformed.
pub open spec fn nested_varint(o: Option<Seq<u8>>, n: u64) -> Option<Option<u32>> {
    match o {
        None => Some(None),
        Some(b) => match fields(b) {
            Some(fs) => Some(opt_u32(last_varint(fs, n))),
            None => None,
        },
    }
}

/// String field `n` of an optional nested message; `None` when malformed or not UTF-8.
pub open spec fn nested_string(o: Option<Seq<u8>>, n: u64) -> Option<Option<Seq<char>>> {
    match o {
        None => Some(None),
        Some(b) => match fields(b) {
            Some(fs) => match last_bytes(fs, n) {
                None => Some(None),
                Some(s) => match utf8_of(s) {
                    Some(t) => Some(Some(t)),
                    None => None,
                },
            },
            None => None,
        },
    }
}

fn read_nested_varint(o: &Option<Vec<u8>>, n: u64) -> (r: Option<Option<u32>>)
    ensures
        r == nested_varint(match o { Some(b) => Some(b@), None => None }, n),
{
    match o {
        None => Some(None),
        Some(b) => match parse_fields(b.as_slice()) {
            Some(fs) => Some(to_u32(get_varint(&fs, n))),
            None => None,
        },
    }
}

fn read_nested_string(o: &Option<Vec<u8>>, n: u64) -> (r: Option<Option<String>>)
    ensures
        match r {
            Some(Some(s)) => nested_string(match o { Some(b) => Some(b@), None => None }, n) == Some(Some(s@)),
            Some(None) => nested_string(match o { Some(b) => Some(b@), None => None }, n) == Some(None::<Seq<char>>),
            None => nested_string(match o { Some(b) => Some(b@), None => None }, n).is_none(),
        },
{
    match o {
        None => Some(None),
        Some(b) => match parse_fields(b.as_slice()) {
            Some(fs) => match get_bytes(&fs, n) {
                None => Some(None),
                Some(s) => match utf8_text(s.as_slice()) {
                    Some(t) => Some(Some(t)),
                    None => None,
                },
            },
            None => None,
        },
    }
}

pub open spec fn spec_vdata_of(fs: Seq<FieldView>) -> Option<VDataView> {
    let level = nested_varint(last_bytes(fs, 2), 1);
    let cur_hp = nested_varint(last_bytes(fs, 3), 1);
    let max_hp = nested_varint(last_bytes(fs, 3), 2);
    let name = nested_string(last_bytes(fs, 4), 1);
    let fight_point = nested_varint(last_bytes(fs, 4), 2);
    let profession_id = nested_varint(last_bytes(fs, 5), 1);
    if level.is_some() && cur_hp.is_some() && max_hp.is_some() && name.is_some() && fight_point.is_some()
        && profession_id.is_some() {
        Some(VDataView {
            char_id: opt_u32(last_varint(fs, 1)),
            level: level->Some_0,
            cur_hp: cur_hp->Some_0,
            max_hp: max_hp->Some_0,
            name: name->Some_0,
            fight_point: fight_point->Some_0,
            profession_id: profession_id->Some_0,
            buffer: last_bytes(fs, 6),
        })
    } else {
        None
    }
}

/// The `vData` record of a container message, if present; `None` when malformed.
pub open spec fn spec_container(b: Seq<u8>) -> Option<Option<VDataView>> {
    match fields(b) {
        None => None,
        Some(fs) => match last_bytes(fs, 1) {
            None => Some(None),
            Some(v) => match fields(v) {
                None => None,
                Some(vfs) => match spec_vdata_of(vfs) {
                    Some(d) => Some(Some(d)),
                    None => None,
                },
            },
        },
    }
}

/// A character snapshot.
#[derive(Clone, Debug)]
pub struct SyncContainerData {
    pub v_data: Option<VData>,
}

/// A compact update of the local player's snapshot; same layout as [`SyncContainerData`].
pub type SyncContainerDirtyData = SyncContainerData;

/// Decodes `SyncContainerData` or `SyncContainerDirtyData`: both carry one `vData`.
pub fn decode_container(b: &[u8]) -> (r: Option<SyncContainerData>)
    ensures
        match r {
            Some(c) => match c.v_data {
                Some(d) => spec_container(b@) == Some(Some(d@)),
                None => spec_container(b@) == Some(None::<VDataView>),
            },
            None => spec_container(b@).is_none(),
        },
{
    let fs = match parse_fields(b) {
        Some(fs) => fs,
        None => return None,
    };
    let v = match get_bytes(&fs, 1) {
        Some(v) => v,
        None => return Some(SyncContainerData { v_data: None }),
    };
    let vfs = match parse_fields(v.as_slice()) {
        Some(x) => x,
        None => return None,
    };
    let level = read_nested_varint(&get_bytes(&vfs, 2), 1);
    let attr = get_bytes(&vfs, 3);
    let cur_hp = read_nested_varint(&attr, 1);
    let max_hp = read_nested_varint(&attr, 2);
    let base = get_bytes(&vfs, 4);
    let name = read_nested_string(&base, 1);
    let fight_point = read_nested_varint(&base, 2);
    let profession_id = read_nested_varint(&get_bytes(&vfs, 5), 1);
    match (level, cur_hp, max_hp, name, fight_point, profession_id) {
        (Some(level), Some(cur_hp), Some(max_hp), Some(name), Some(fight_point), Some(profession_id)) => {
            let d = VData {
                char_id: to_u32(get_varint(&vfs, 1)),
                level,
                cur_hp,
                max_hp,
                name,
                fight_point,
                profession_id,
                buffer: get_bytes(&vfs, 6),
            };
            Some(SyncContainerData { v_data: Some(d) })
        },
        _ => None,
    }
}

} // verus!
