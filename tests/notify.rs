use meter_core::envelope::parse_notify;
use meter_core::fragment::FragmentCache;
use meter_core::ipv4::IpHeader;
use meter_core::parser::PacketParser;
use meter_core::store::DataManager;

fn varint(mut v: u64) -> Vec<u8> {
    let mut out = Vec::new();
    loop {
        let b = (v & 0x7f) as u8;
        v >>= 7;
        if v == 0 {
            out.push(b);
            return out;
        }
        out.push(b | 0x80);
    }
}

fn fv(n: u64, v: u64) -> Vec<u8> {
    let mut out = varint(n << 3);
    out.extend(varint(v));
    out
}

fn fb(n: u64, b: &[u8]) -> Vec<u8> {
    let mut out = varint((n << 3) | 2);
    out.extend(varint(b.len() as u64));
    out.extend_from_slice(b);
    out
}

fn attr(id: u64, raw: &[u8]) -> Vec<u8> {
    let mut a = fv(1, id);
    a.extend(fb(2, raw));
    a
}

#[test]
fn notify_header_filters_service() {
    let mut body = vec![0, 0, 0, 0, 0x63, 0x33, 0x53, 0x42, 0, 0, 0, 1, 0, 0, 0, 0x2d, 9];
    let (method, payload) = parse_notify(&body).unwrap();
    assert_eq!(method, 0x2d);
    assert_eq!(payload, vec![9]);
    body[7] = 0x43;
    assert!(parse_notify(&body).is_none());
    assert!(parse_notify(&body[..15]).is_none());
}

#[test]
fn near_entities_apply_attributes_by_type() {
    let mut m = DataManager::new(0);
    let mut p = PacketParser::new();
    let monster_attrs = fb(1, &attr(0x2c38, &[0, 0, 0x27, 0x10]));
    let mut monster = fv(1, 0x0000_0007_0000_0040);
    monster.extend(fv(2, 2));
    monster.extend(fb(3, &monster_attrs));
    let player_attrs = fb(1, &attr(0x2710, &[0, 0, 0, 60]));
    let mut player = fv(1, 0x0000_0008_0000_0280);
    player.extend(fv(2, 1));
    player.extend(fb(3, &player_attrs));
    let mut msg = fb(1, &monster);
    msg.extend(fb(1, &player));
    p.process_notify(&mut m, 0x06, &msg, 5);
    assert_eq!(m.get_enemy(0x7_0000).unwrap().max_hp, 10000);
    assert_eq!(m.get_user(0x8_0000).unwrap().level, 60);
}

#[test]
fn container_snapshot_sets_identity() {
    let mut m = DataManager::new(0);
    let mut p = PacketParser::new();
    let mut vdata = fv(1, 77);
    vdata.extend(fb(2, &fv(1, 42)));
    let mut hp = fv(1, 900);
    hp.extend(fv(2, 1000));
    vdata.extend(fb(3, &hp));
    let mut base = fb(1, "Cid".as_bytes());
    base.extend(fv(2, 12345));
    vdata.extend(fb(4, &base));
    vdata.extend(fb(5, &fv(1, 2)));
    p.process_notify(&mut m, 0x15, &fb(1, &vdata), 0);
    let u = m.get_user(77).unwrap();
    assert_eq!((u.level, u.hp, u.max_hp, u.fight_point), (42, 900, 1000, 12345));
    assert_eq!(u.name, "Cid");
    assert_eq!(u.profession, "冰魔导师");
}

#[test]
fn dirty_data_waits_for_the_local_player() {
    let mut m = DataManager::new(0);
    let mut p = PacketParser::new();
    let buf = [16u8, 0, 0, 0, 0, 0, 0, 0, 1, 0, 0, 0, 0, 0, 0, 0, 5, 0, 0, 0];
    let msg = fb(1, &fb(6, &buf));
    p.process_notify(&mut m, 0x16, &msg, 0);
    assert!(m.user_ids().is_empty());
    let to_me = fb(1, &fb(1, &fv(1, 0x0000_0009_0000_0280)));
    p.process_notify(&mut m, 0x2e, &to_me, 0);
    assert_eq!(p.current_user_uuid, 0x0000_0009_0000_0280);
    p.process_notify(&mut m, 0x16, &msg, 0);
    assert_eq!(m.get_user(0x9_0000).unwrap().hp, 5);
}

#[test]
fn malformed_payload_changes_nothing() {
    let mut m = DataManager::new(0);
    let mut p = PacketParser::new();
    p.process_notify(&mut m, 0x2d, &[0x0a, 0x05, 0x01], 0);
    p.process_notify(&mut m, 0x2b, &[1, 2, 3], 0);
    assert!(m.user_ids().is_empty());
}

fn header(id: u16, more: bool, offset: usize) -> IpHeader {
    IpHeader {
        header_len: 20,
        identification: id,
        more_fragments: more,
        fragment_offset: offset,
        src_ip: 1,
        dst_ip: 2,
    }
}

#[test]
fn fragments_with_a_gap_wait() {
    let mut c = FragmentCache::new();
    assert!(c.add(&header(1, true, 0), vec![1; 8], 0).is_none());
    assert!(c.add(&header(1, false, 16), vec![3; 4], 0).is_none());
    assert_eq!(c.len(), 1);
    let d = c.add(&header(1, true, 8), vec![2; 8], 0).unwrap();
    assert_eq!(d.len(), 20);
    assert_eq!(&d[..8], &[1; 8]);
    assert_eq!(&d[8..16], &[2; 8]);
    assert_eq!(&d[16..], &[3; 4]);
    assert_eq!(c.len(), 0);
}

#[test]
fn fragments_of_other_datagrams_stay_apart() {
    let mut c = FragmentCache::new();
    assert!(c.add(&header(1, true, 0), vec![1; 8], 0).is_none());
    assert!(c.add(&header(2, false, 8), vec![9; 8], 0).is_none());
    assert_eq!(c.len(), 2);
    let d = c.add(&header(1, false, 8), vec![4; 2], 0).unwrap();
    assert_eq!(d, vec![1, 1, 1, 1, 1, 1, 1, 1, 4, 4]);
    assert_eq!(c.len(), 1);
}
