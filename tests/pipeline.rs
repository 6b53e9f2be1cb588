use meter_core::envelope::{decode_frame, MessageType};
use meter_core::pipeline::{CoreContext, PacketOutcome};
use meter_core::stream::StreamBuffer;

const SERVER: [u8; 4] = [10, 0, 0, 5];
const CLIENT: [u8; 4] = [192, 168, 1, 8];

fn ipv4(src: [u8; 4], dst: [u8; 4], proto: u8, id: u16, more: bool, offset8: u16, body: &[u8]) -> Vec<u8> {
    let flags = if more { 0x20u8 } else { 0 } | ((offset8 >> 8) as u8 & 0x1f);
    let mut p = vec![0x45, 0, 0, 0, (id >> 8) as u8, id as u8, flags, offset8 as u8, 64, proto, 0, 0];
    p.extend_from_slice(&src);
    p.extend_from_slice(&dst);
    p.extend_from_slice(body);
    let total = p.len();
    p[2] = (total >> 8) as u8;
    p[3] = total as u8;
    p
}

fn tcp(sport: u16, dport: u16, payload: &[u8]) -> Vec<u8> {
    let mut t = vec![(sport >> 8) as u8, sport as u8, (dport >> 8) as u8, dport as u8, 0, 0, 0, 1, 0, 0, 0, 0, 0x50, 0x18, 0xff, 0xff, 0, 0, 0, 0];
    t.extend_from_slice(payload);
    t
}

fn packet(src: [u8; 4], sport: u16, dst: [u8; 4], dport: u16, payload: &[u8]) -> Vec<u8> {
    ipv4(src, dst, 6, 1, false, 0, &tcp(sport, dport, payload))
}

fn election_payload() -> Vec<u8> {
    let mut p = vec![0u8; 48];
    p[3] = 48;
    p[13] = 12;
    p[19..25].copy_from_slice(&[0x00, 0x63, 0x33, 0x53, 0x42, 0x00]);
    p
}

fn varint(mut v: u64) -> Vec<u8> {
    let mut out = Vec::new();
    loop {
        let b = (v & 0x7f) as u8;
        v >>= 7;
        if v == 0 {
            out.push(b);
            return out;
        }
        out.push(b | 0x80);
    }
}

fn field_varint(n: u64, v: u64) -> Vec<u8> {
    let mut out = varint(n << 3);
    out.extend(varint(v));
    out
}

fn field_bytes(n: u64, b: &[u8]) -> Vec<u8> {
    let mut out = varint((n << 3) | 2);
    out.extend(varint(b.len() as u64));
    out.extend_from_slice(b);
    out
}

fn notify_frame(method: u32, payload: &[u8]) -> Vec<u8> {
    let mut body = vec![0, 0, 0, 0, 0x63, 0x33, 0x53, 0x42, 0, 0, 0, 0];
    body.extend_from_slice(&method.to_be_bytes());
    body.extend_from_slice(payload);
    let mut f = ((body.len() + 6) as u32).to_be_bytes().to_vec();
    f.extend_from_slice(&[0x00, 0x02]);
    f.extend(body);
    f
}

fn damage_delta(target: u64, skill: u64, attacker: u64, value: u64, type_flag: u64) -> Vec<u8> {
    let mut dmg = field_varint(1, skill);
    dmg.extend(field_varint(2, attacker));
    dmg.extend(field_varint(4, value));
    dmg.extend(field_varint(6, type_flag));
    let effects = field_bytes(1, &dmg);
    let mut delta = field_varint(1, target);
    delta.extend(field_bytes(3, &effects));
    field_bytes(1, &delta)
}

fn elected() -> CoreContext {
    let mut ctx = CoreContext::new(0);
    let out = ctx.process_packet(&packet(SERVER, 30020, CLIENT, 51112, &election_payload()), 0);
    assert_eq!(out, PacketOutcome::Streamed);
    ctx
}

#[test]
fn small_packet_signature_elects_flow() {
    let ctx = elected();
    let s = ctx.flow.server.unwrap();
    assert_eq!(s.src_ip, 0x0a00_0005);
    assert_eq!(s.src_port, 30020);
    assert_eq!(s.dst_ip, 0xc0a8_0108);
    assert_eq!(s.dst_port, 51112);
    assert_eq!(ctx.stream.len(), 0);
}

#[test]
fn reverse_direction_is_in_scope() {
    let mut ctx = elected();
    let out = ctx.process_packet(&packet(CLIENT, 51112, SERVER, 30020, &[0, 0, 0, 1, 2]), 1);
    assert_eq!(out, PacketOutcome::Streamed);
    assert_eq!(ctx.flow.mismatch_count, 0);
}

#[test]
fn unmatched_payload_does_not_elect() {
    let mut ctx = CoreContext::new(0);
    let out = ctx.process_packet(&packet(SERVER, 30020, CLIENT, 51112, &[1, 2, 3, 4, 5, 6, 7, 8, 9, 10, 11, 12]), 0);
    assert_eq!(out, PacketOutcome::Ignored);
    assert!(ctx.flow.server.is_none());
}

#[test]
fn login_response_elects() {
    let mut p = vec![0u8; 0x62];
    p[..10].copy_from_slice(&[0x00, 0x00, 0x00, 0x62, 0x00, 0x03, 0x00, 0x00, 0x00, 0x01]);
    p[14..20].copy_from_slice(&[0x00, 0x00, 0x00, 0x00, 0x0a, 0x4e]);
    let mut ctx = CoreContext::new(0);
    assert_eq!(ctx.process_packet(&packet(SERVER, 1, CLIENT, 2, &p), 0), PacketOutcome::Streamed);
    assert!(ctx.flow.server.is_some());
}

#[test]
fn frames_reassemble_across_pushes() {
    let mut first = vec![0x00, 0x00, 0x00, 0x10, 0x00, 0x02];
    first.extend_from_slice(&[7u8; 10]);
    let nested = [0x00, 0x00, 0x00, 0x08, 0x00, 0x02, 0xAA, 0xBB];
    let mut second = vec![0x00, 0x00, 0x00, 0x12, 0x00, 0x06, 0x00, 0x00, 0x00, 0x01];
    second.extend_from_slice(&nested);
    let mut stream: Vec<u8> = first.clone();
    stream.extend_from_slice(&second);
    let mut buf = StreamBuffer::new();
    let a = buf.push(&stream[..9]);
    assert_eq!(a.len(), 0);
    let b = buf.push(&stream[9..]);
    assert_eq!(b.len(), 2);
    assert_eq!(buf.len(), 0);
    let m1 = decode_frame(b[0].opcode, &b[0].body, 8);
    assert_eq!(m1.len(), 1);
    assert_eq!(m1[0].kind, MessageType::Notify);
    assert_eq!(m1[0].body, vec![7u8; 10]);
    let m2 = decode_frame(b[1].opcode, &b[1].body, 8);
    assert_eq!(m2.len(), 1);
    assert_eq!(m2[0].kind, MessageType::Notify);
    assert_eq!(m2[0].body, vec![0xAA, 0xBB]);
}

#[test]
fn compressed_body_is_decompressed() {
    let inner = vec![1u8, 2, 3, 4, 5, 6, 7, 8, 9];
    let packed = zstd::encode_all(&inner[..], 0).unwrap();
    let m = decode_frame(0x8002, &packed, 8);
    assert_eq!(m.len(), 1);
    assert_eq!(m[0].body, inner);
    assert!(decode_frame(0x8002, &[1, 2, 3], 8).is_empty());
}

#[test]
fn nesting_is_bounded() {
    let mut frame = vec![0x00, 0x00, 0x00, 0x08, 0x00, 0x02, 0xAA, 0xBB];
    for _ in 0..9 {
        let mut outer = ((frame.len() + 10) as u32).to_be_bytes().to_vec();
        outer.extend_from_slice(&[0x00, 0x06, 0, 0, 0, 0]);
        outer.extend(frame);
        frame = outer;
    }
    assert!(decode_frame(0x0006, &frame[6..], 8).is_empty());
    assert_eq!(decode_frame(0x0006, &frame[6..], 9).len(), 1);
}

#[test]
fn frames_survive_any_chunking() {
    let frames = vec![notify_frame(1, &[1, 2, 3]), notify_frame(2, &[]), notify_frame(3, &[9; 40])];
    let stream: Vec<u8> = frames.concat();
    for chunk in 1..stream.len() {
        let mut buf = StreamBuffer::new();
        let mut out = Vec::new();
        for c in stream.chunks(chunk) {
            out.extend(buf.push(c));
        }
        assert_eq!(out.len(), 3);
        for (f, m) in frames.iter().zip(out.iter()) {
            assert_eq!(m.opcode, 2);
            assert_eq!(m.body, f[6..].to_vec());
        }
        assert_eq!(buf.len(), 0);
    }
}

#[test]
fn oversized_length_clears_buffer() {
    let mut buf = StreamBuffer::new();
    let out = buf.push(&[0x7f, 0xff, 0xff, 0xff, 0x00, 0x02, 1, 2]);
    assert!(out.is_empty());
    assert_eq!(buf.len(), 0);
    let good = notify_frame(5, &[4, 4]);
    let out = buf.push(&good);
    assert_eq!(out.len(), 1);
    assert_eq!(out[0].body, good[6..].to_vec());
}

#[test]
fn packets_to_localhost_are_skipped() {
    let mut ctx = CoreContext::new(0);
    let out = ctx.process_packet(&packet(SERVER, 30020, [127, 0, 0, 1], 51112, &election_payload()), 0);
    assert_eq!(out, PacketOutcome::Skipped);
    assert!(ctx.flow.server.is_none());
    assert_eq!(ctx.packets_captured, 1);
    assert_eq!(ctx.packets_filtered, 1);
}

#[test]
fn non_tcp_and_non_ipv4_are_dropped() {
    let mut ctx = CoreContext::new(0);
    let udp = ipv4(SERVER, CLIENT, 17, 1, false, 0, &tcp(30020, 51112, &election_payload()));
    assert_eq!(ctx.process_packet(&udp, 0), PacketOutcome::Skipped);
    let mut v6 = packet(SERVER, 30020, CLIENT, 51112, &election_payload());
    v6[0] = 0x65;
    assert_eq!(ctx.process_packet(&v6, 0), PacketOutcome::Skipped);
    assert_eq!(ctx.process_packet(&[0x45, 0, 0], 0), PacketOutcome::Skipped);
    assert!(ctx.flow.server.is_none());
    assert_eq!(ctx.packets_filtered, 3);
}

#[test]
fn captured_bytes_are_not_modified() {
    let mut ctx = CoreContext::new(0);
    let p = packet(SERVER, 30020, CLIENT, 51112, &election_payload());
    let before = p.clone();
    ctx.process_packet(&p, 0);
    assert_eq!(p, before);
}

#[test]
fn damage_through_the_pipeline_then_migration() {
    let mut ctx = elected();
    let frame = notify_frame(0x2d, &damage_delta(0x0000_00FF_0000_0040, 1241, 0x0000_0020_0000_0280, 5000, 1));
    assert_eq!(ctx.process_packet(&packet(SERVER, 30020, CLIENT, 51112, &frame), 1), PacketOutcome::Streamed);
    let u = ctx.store.get_user(0x20_0000).unwrap();
    assert_eq!(u.damage_stats.values.critical, 5000);
    let foreign = packet([10, 0, 0, 6], 30020, CLIENT, 51113, &[1, 2, 3]);
    for i in 0..4 {
        assert_eq!(ctx.process_packet(&foreign, 2 + i), PacketOutcome::Ignored);
        assert!(ctx.flow.server.is_some());
    }
    assert_eq!(ctx.process_packet(&foreign, 10), PacketOutcome::Migrated);
    assert!(ctx.flow.server.is_none());
    assert_eq!(ctx.stream.len(), 0);
    assert_eq!(ctx.store.get_user(0x20_0000).unwrap().damage_stats.values.total, 0);
}

#[test]
fn matching_packet_resets_mismatch_run() {
    let mut ctx = elected();
    let foreign = packet([10, 0, 0, 6], 30020, CLIENT, 51113, &[1, 2, 3]);
    for i in 0..4 {
        ctx.process_packet(&foreign, i);
    }
    assert_eq!(ctx.flow.mismatch_count, 4);
    ctx.process_packet(&packet(SERVER, 30020, CLIENT, 51112, &[0, 0, 0, 1, 0]), 5);
    assert_eq!(ctx.flow.mismatch_count, 0);
    for i in 0..4 {
        ctx.process_packet(&foreign, 6 + i);
    }
    assert!(ctx.flow.server.is_some());
}

#[test]
fn migration_keeps_stats_when_policy_is_off() {
    let mut ctx = elected();
    let mut s = ctx.store.get_settings();
    s.auto_clear_on_server_change = false;
    ctx.store.update_settings(s);
    let frame = notify_frame(0x2d, &damage_delta(0x0000_00FF_0000_0040, 7, 0x0000_0001_0000_0280, 10, 0));
    ctx.process_packet(&packet(SERVER, 30020, CLIENT, 51112, &frame), 1);
    let foreign = packet([10, 0, 0, 6], 30020, CLIENT, 51113, &[1, 2, 3]);
    for i in 0..5 {
        ctx.process_packet(&foreign, 2 + i);
    }
    assert!(ctx.flow.server.is_none());
    assert_eq!(ctx.store.get_user(0x1_0000).unwrap().damage_stats.values.normal, 10);
}

#[test]
fn tick_clears_after_silence() {
    let mut ctx = elected();
    let mut s = ctx.store.get_settings();
    s.auto_clear_on_timeout = true;
    ctx.store.update_settings(s);
    let frame = notify_frame(0x2d, &damage_delta(0x0000_00FF_0000_0040, 7, 0x0000_0001_0000_0280, 10, 0));
    ctx.process_packet(&packet(SERVER, 30020, CLIENT, 51112, &frame), 0);
    assert!(!ctx.tick(14_000));
    assert!(ctx.tick(15_100));
    assert_eq!(ctx.store.get_user(0x1_0000).unwrap().damage_stats.values.total, 0);
}

fn to_me_frame_of_size(uuid: u64, size: usize) -> Vec<u8> {
    for pad in 0..size {
        let mut delta = field_varint(1, uuid);
        delta.extend(field_bytes(15, &vec![0x11; pad]));
        let tome = field_bytes(1, &delta);
        let info = field_bytes(1, &tome);
        let f = notify_frame(0x2e, &info);
        if f.len() == size {
            return f;
        }
    }
    panic!("no padding gives that size");
}

#[test]
fn fragments_out_of_order_reassemble() {
    let mut ctx = elected();
    let uuid = 0x0000_0042_0000_0280u64;
    let frame = to_me_frame_of_size(uuid, 3000);
    assert_eq!(frame.len(), 3000);
    let seg = tcp(30020, 51112, &frame);
    let f1 = ipv4(SERVER, CLIENT, 6, 77, true, 0, &seg[0..1480]);
    let f2 = ipv4(SERVER, CLIENT, 6, 77, true, 185, &seg[1480..2960]);
    let f3 = ipv4(SERVER, CLIENT, 6, 77, false, 370, &seg[2960..]);
    assert_eq!(ctx.process_packet(&f3, 1), PacketOutcome::Buffered);
    assert_eq!(ctx.process_packet(&f1, 2), PacketOutcome::Buffered);
    assert_eq!(ctx.fragments.len(), 1);
    assert_eq!(ctx.process_packet(&f2, 3), PacketOutcome::Streamed);
    assert_eq!(ctx.fragments.len(), 0);
    assert_eq!(ctx.stream.len(), 0);
    assert_eq!(ctx.parser.current_user_uuid, uuid);
}

#[test]
fn stale_fragments_are_evicted() {
    let mut ctx = CoreContext::new(0);
    let seg = tcp(1, 2, &[0u8; 40]);
    let f1 = ipv4(SERVER, CLIENT, 6, 5, true, 0, &seg[0..16]);
    assert_eq!(ctx.process_packet(&f1, 1000), PacketOutcome::Buffered);
    ctx.evict_fragments(20_000);
    assert_eq!(ctx.fragments.len(), 1);
    ctx.evict_fragments(31_001);
    assert_eq!(ctx.fragments.len(), 0);
}
