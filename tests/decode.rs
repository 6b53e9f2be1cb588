use meter_core::flow::{matches_login_response, matches_small_packet};
use meter_core::ipv4::{parse_ip_header, Skip};
use meter_core::messages::{decode_aoi_delta, decode_damage_info, SyncDamageInfo};
use meter_core::opcodes::Pkt;
use meter_core::parser::{process_attr_data, process_damage_info, process_dirty_data_buffer, ATTR_HP, ATTR_NAME, ATTR_PROFESSION_ID};
use meter_core::proto::{parse_fields, read_varint};
use meter_core::skill::SkillConfig;
use meter_core::store::DataManager;
use meter_core::structures::StatusEffectBuffTypeFlags;
use meter_core::tables::{get_damage_element_name, get_profession_name_from_id, get_sub_profession_by_skill_id};
use meter_core::wire::BinaryReader;

fn no_damage() -> SyncDamageInfo {
    SyncDamageInfo {
        owner_id: None,
        attacker_uuid: None,
        target_uuid: None,
        value: None,
        lucky_value: None,
        type_flag: None,
        is_miss: None,
        damage_source: None,
        property: None,
        hp_lessen_value: None,
        is_dead: None,
        summoner_id: None,
        top_summoner_id: None,
        damage_type: None,
    }
}

#[test]
fn varints_decode() {
    assert_eq!(read_varint(&[0xAC, 0x02], 0), Some((300, 2)));
    assert_eq!(read_varint(&[0x01], 0), Some((1, 1)));
    assert_eq!(read_varint(&[0x80], 0), None);
    let max = [0xff, 0xff, 0xff, 0xff, 0xff, 0xff, 0xff, 0xff, 0xff, 0x01];
    assert_eq!(read_varint(&max, 0), Some((u64::MAX, 10)));
    let over = [0xff, 0xff, 0xff, 0xff, 0xff, 0xff, 0xff, 0xff, 0xff, 0x02];
    assert_eq!(read_varint(&over, 0), None);
}

#[test]
fn fields_decode_and_reject() {
    let fs = parse_fields(&[0x08, 0x96, 0x01, 0x12, 0x02, 0xAA, 0xBB]).unwrap();
    assert_eq!(fs.len(), 2);
    assert_eq!((fs[0].number, fs[0].value), (1, 150));
    assert_eq!((fs[1].number, fs[1].data.clone()), (2, vec![0xAA, 0xBB]));
    assert!(parse_fields(&[0x12, 0x05, 0x01]).is_none());
    assert!(parse_fields(&[0x00, 0x01]).is_none());
    assert!(parse_fields(&[0x0b]).is_none());
}

#[test]
fn damage_record_decodes() {
    let d = decode_damage_info(&[0x08, 0xd9, 0x09, 0x20, 0x88, 0x27, 0x30, 0x01]).unwrap();
    assert_eq!(d.owner_id, Some(1241));
    assert_eq!(d.value, Some(5000));
    assert_eq!(d.type_flag, Some(1));
    assert_eq!(d.attacker_uuid, None);
}

#[test]
fn delta_with_bad_nested_message_is_rejected() {
    assert!(decode_aoi_delta(&[0x08, 0x01, 0x1a, 0x02, 0x0a, 0x05]).is_none());
    let d = decode_aoi_delta(&[0x08, 0x01]).unwrap();
    assert_eq!(d.uuid, Some(1));
    assert!(d.damages.is_empty());
}

#[test]
fn top_summoner_gets_the_credit() {
    let mut m = DataManager::new(0);
    let d = SyncDamageInfo {
        owner_id: Some(1241),
        attacker_uuid: Some(0x0000_0010_0000_0280),
        top_summoner_id: Some(0x0000_0020_0000_0280),
        value: Some(5000),
        type_flag: Some(1),
        property: Some(1),
        ..no_damage()
    };
    process_damage_info(&mut m, &d, 0x0000_00FF_0000_0040, 1);
    let u = m.get_user(0x20_0000).unwrap();
    assert_eq!(u.damage_stats.values.critical, 5000);
    assert_eq!(u.damage_stats.counts.total, 1);
    assert_eq!(u.skill_usage[0].skill_id, 1241);
    assert_eq!(u.sub_profession.unwrap().label(), "射线");
    assert!(m.get_user(0x10_0000).is_none());
}

#[test]
fn damage_to_player_target_is_taken_damage() {
    let mut m = DataManager::new(0);
    let d = SyncDamageInfo {
        owner_id: Some(1241),
        attacker_uuid: Some(0x0000_0010_0000_0280),
        top_summoner_id: Some(0x0000_0020_0000_0280),
        value: Some(5000),
        type_flag: Some(1),
        is_dead: Some(true),
        ..no_damage()
    };
    process_damage_info(&mut m, &d, 0x0000_00FF_0000_0280, 1);
    let t = m.get_user(0xFF_0000).unwrap();
    assert_eq!(t.taken_damage, 5000);
    assert_eq!(t.dead_count, 1);
    assert!(m.get_user(0x20_0000).is_none());
}

#[test]
fn lucky_value_and_heal_attribution() {
    let mut m = DataManager::new(0);
    let heal = SyncDamageInfo {
        owner_id: Some(20301),
        attacker_uuid: Some(0x0000_0003_0000_0280),
        lucky_value: Some(40),
        type_flag: Some(4),
        damage_type: Some(1),
        ..no_damage()
    };
    process_damage_info(&mut m, &heal, 0x0000_0004_0000_0280, 1);
    let u = m.get_user(0x3_0000).unwrap();
    assert_eq!(u.healing_stats.values.lucky, 40);
    assert_eq!(u.skill_usage[0].values.lucky, 40);
}

#[test]
fn records_without_skill_or_value_are_dropped() {
    let mut m = DataManager::new(0);
    let d = SyncDamageInfo { attacker_uuid: Some(0x0000_0003_0000_0280), value: Some(5), ..no_damage() };
    process_damage_info(&mut m, &d, 0x40, 1);
    let d2 = SyncDamageInfo { owner_id: Some(1), attacker_uuid: Some(0x0000_0003_0000_0280), ..no_damage() };
    process_damage_info(&mut m, &d2, 0x40, 1);
    assert!(m.get_user(0x3_0000).is_none());
}

#[test]
fn attributes_apply_by_code() {
    let mut m = DataManager::new(0);
    process_attr_data(&mut m, 9, ATTR_NAME, "Bob".as_bytes(), true, 0);
    process_attr_data(&mut m, 9, ATTR_HP, &[0, 0, 1, 0], true, 0);
    process_attr_data(&mut m, 9, ATTR_PROFESSION_ID, &[0, 0, 0, 11], true, 0);
    let u = m.get_user(9).unwrap();
    assert_eq!(u.name, "Bob");
    assert_eq!(u.hp, 256);
    assert_eq!(u.profession, "神射手");
    process_attr_data(&mut m, 9, ATTR_NAME, &[0xff, 0xfe], true, 0);
    assert_eq!(m.get_user(9).unwrap().name, "Bob");
    process_attr_data(&mut m, 4, ATTR_HP, &[0, 0, 0, 7], false, 0);
    assert_eq!(m.get_enemy(4).unwrap().hp, 7);
}

#[test]
fn dirty_buffer_grammar() {
    let mut m = DataManager::new(0);
    let uuid = 0x0000_0005_0000_0280u64;
    let mut name = vec![2, 0, 0, 0, 0, 0, 0, 0, 5, 0, 0, 0, 0, 0, 0, 0, 3, 0, 0, 0, 0, 0, 0, 0];
    name.extend_from_slice(b"Ann");
    name.extend_from_slice(&[0, 0, 0, 0]);
    process_dirty_data_buffer(&mut m, uuid, &name, 0);
    let hp = [16, 0, 0, 0, 0, 0, 0, 0, 2, 0, 0, 0, 0, 0, 0, 0, 0x10, 0x27, 0, 0];
    process_dirty_data_buffer(&mut m, uuid, &hp, 0);
    let fp = [2, 0, 0, 0, 0, 0, 0, 0, 35, 0, 0, 0, 0, 0, 0, 0, 100, 0, 0, 0, 0, 0, 0, 0];
    process_dirty_data_buffer(&mut m, uuid, &fp, 0);
    let u = m.get_user(0x5_0000).unwrap();
    assert_eq!(u.name, "Ann");
    assert_eq!(u.max_hp, 10000);
    assert_eq!(u.fight_point, 100);
    process_dirty_data_buffer(&mut m, uuid, &hp[..12], 0);
}

#[test]
fn signatures() {
    let mut p = vec![0u8; 48];
    p[13] = 12;
    p[19..25].copy_from_slice(&[0x00, 0x63, 0x33, 0x53, 0x42, 0x00]);
    assert!(matches_small_packet(&p));
    p[4] = 1;
    assert!(!matches_small_packet(&p));
    assert!(!matches_small_packet(&[0u8; 10]));
    let mut l = vec![0u8; 0x62];
    l[..10].copy_from_slice(&[0x00, 0x00, 0x00, 0x62, 0x00, 0x03, 0x00, 0x00, 0x00, 0x01]);
    l[14..20].copy_from_slice(&[0x00, 0x00, 0x00, 0x00, 0x0a, 0x4e]);
    assert!(matches_login_response(&l));
    l.push(0);
    assert!(!matches_login_response(&l));
}

#[test]
fn ip_header_reasons() {
    assert_eq!(parse_ip_header(&[0x45; 10]), Err(Skip::TooShort));
    let mut p = vec![0x45, 0, 0, 20, 0x12, 0x34, 0x20, 0x02, 64, 6, 0, 0, 1, 2, 3, 4, 5, 6, 7, 8];
    let h = parse_ip_header(&p).unwrap();
    assert_eq!(h.identification, 0x1234);
    assert!(h.more_fragments);
    assert_eq!(h.fragment_offset, 16);
    assert_eq!(h.src_ip, 0x0102_0304);
    p[9] = 17;
    assert_eq!(parse_ip_header(&p), Err(Skip::NotTcp));
    p[9] = 6;
    p[0] = 0x65;
    assert_eq!(parse_ip_header(&p), Err(Skip::NotIpv4));
}

#[test]
fn tables() {
    assert_eq!(get_profession_name_from_id(1).unwrap(), "雷影剑士");
    assert!(get_profession_name_from_id(6).is_none());
    assert_eq!(get_damage_element_name(1), "🔥火");
    assert_eq!(get_damage_element_name(99), "⚔️物");
    assert_eq!(get_sub_profession_by_skill_id(2406).unwrap(), "光盾");
    assert!(get_sub_profession_by_skill_id(1).is_none());
}

#[test]
fn skill_names_fall_back_to_id() {
    let mut c = SkillConfig::new();
    assert_eq!(c.get_skill_name(1241), "1241");
    c.add_skill(1241, "Ray".to_string());
    assert_eq!(c.get_skill_name(1241), "Ray");
    c.add_skill(1241, "Beam".to_string());
    assert_eq!(c.get_skill_name(1241), "Beam");
    assert_eq!(c.skills.len(), 1);
}

#[test]
fn binary_reader_reads_in_order() {
    let data = [0, 0, 0, 0, 0, 0, 1, 0, 0, 0, 0, 2, 3, 0, 0, 0, 0, 4, 9, 9];
    let mut r = BinaryReader::new(&data);
    assert_eq!(r.read_u64_be(), 256);
    assert_eq!(r.read_u32_be(), 2);
    assert_eq!(r.read_u32_le(), 3);
    assert_eq!(r.read_u16_be(), 4);
    assert_eq!(r.read_bytes(1), &[9]);
    assert_eq!(r.read_remaining(), &[9]);
}

#[test]
fn opcodes_and_flags() {
    assert_eq!(Pkt::from_u16(0x000C), Some(Pkt::SkillDamageNotify));
    assert_eq!(Pkt::from_u16(0x0100), None);
    assert_eq!(Pkt::InitItem.to_u16(), 0x0029);
    let f = StatusEffectBuffTypeFlags(0x5);
    assert!(f.has_dmg() && !f.has_heal() && f.has_shield());
    assert_eq!(f.bits(), 5);
}
