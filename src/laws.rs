//! Statements that relate several operations of the pipeline and the store,
//! over the spec functions that the executable contracts use, with their proofs.
use vstd::prelude::*;
use crate::wire::be32;
use crate::ipv4::{LOOPBACK, spec_ip_header};
use crate::flow::{FlowIdentifier, FlowKey, FlowVerdict, flow_step, flow_run, in_flow};
use crate::stream::{frames, frame_msg, valid_size, STREAM_CAP};
use crate::model::{DamageBreakdown, DamageStats, UserAttr};
use crate::messages::SyncDamageInfo;
use crate::parser::spec_apply_damage;
use crate::pipeline::{CoreView, inc};
use crate::store::StoreView;
use crate::tables::SubProfession;

verus! {

/// A packet addressed to 127.0.0.1 changes nothing but the packet counters.
pub proof fn lemma_localhost_packets_skipped(c: CoreView, p: Seq<u8>, now: u64)
    requires
        p.len() >= 20,
        be32(p, 16) == LOOPBACK,
    ensures
        c.on_packet(p, now) == (CoreView {
            packets_captured: inc(c.packets_captured),
            packets_filtered: inc(c.packets_filtered),
            ..c
        }),
{
    assert(spec_ip_header(p).is_err());
}

/// A packet that is not IPv4, or does not carry TCP, changes nothing but the packet counters.
pub proof fn lemma_other_protocols_skipped(c: CoreView, p: Seq<u8>, now: u64)
    requires
        p.len() < 20 || p[0] / 16 != 4 || p[9] != 6,
    ensures
        c.on_packet(p, now) == (CoreView {
            packets_captured: inc(c.packets_captured),
            packets_filtered: inc(c.packets_filtered),
            ..c
        }),
{
    assert(spec_ip_header(p).is_err());
}

/// A complete frame: its length field counts all of its bytes, within the cap.
pub open spec fn well_formed_frame(f: Seq<u8>) -> bool {
    f.len() >= 6 && be32(f, 0) == f.len() && valid_size(f.len() as int)
}

/// The concatenation of frames.
pub open spec fn concat_frames(fs: Seq<Seq<u8>>) -> Seq<u8>
    decreases fs.len(),
{
    if fs.len() == 0 { seq![] } else { fs[0] + concat_frames(fs.drop_first()) }
}

pub open spec fn frame_msgs(fs: Seq<Seq<u8>>) -> Seq<(u16, Seq<u8>)> {
    fs.map_values(|f: Seq<u8>| frame_msg(f))
}

proof fn lemma_frames_step(f: Seq<u8>, tail: Seq<u8>)
    requires
        well_formed_frame(f),
    ensures
        frames(f + tail) == (seq![frame_msg(f)] + frames(tail).0, frames(tail).1),
{
    let s = f + tail;
    assert(be32(s, 0) == be32(f, 0));
    assert(s.take(f.len() as int) =~= f);
    assert(s.skip(f.len() as int) =~= tail);
}

proof fn lemma_frames_partial(f: Seq<u8>, c: int)
    requires
        well_formed_frame(f),
        0 <= c < f.len(),
    ensures
        frames(f.take(c)) == (Seq::<(u16, Seq<u8>)>::empty(), f.take(c)),
{
    let s = f.take(c);
    if s.len() > 4 {
        assert(be32(s, 0) == be32(f, 0));
    }
}

proof fn lemma_frames_full(fs: Seq<Seq<u8>>)
    requires
        forall|i: int| 0 <= i < fs.len() ==> well_formed_frame(#[trigger] fs[i]),
    ensures
        frames(concat_frames(fs)) == (frame_msgs(fs), Seq::<u8>::empty()),
    decreases fs.len(),
{
    if fs.len() == 0 {
        assert(frame_msgs(fs) =~= seq![]);
    } else {
        let rest = fs.drop_first();
        assert forall|i: int| 0 <= i < rest.len() implies well_formed_frame(#[trigger] rest[i]) by {
            assert(rest[i] == fs[i + 1]);
        }
        lemma_frames_full(rest);
        assert(well_formed_frame(fs[0]));
        lemma_frames_step(fs[0], concat_frames(rest));
        assert(frame_msgs(fs) =~= seq![frame_msg(fs[0])] + frame_msgs(rest));
    }
}

/// Chunks joined in order.
pub open spec fn concat_chunks(cs: Seq<Seq<u8>>) -> Seq<u8>
    decreases cs.len(),
{
    if cs.len() == 0 { seq![] } else { concat_chunks(cs.drop_last()) + cs.last() }
}

/// The messages emitted and the bytes left when the chunks are pushed one by
/// one into an empty stream buffer, as `StreamBuffer::push` states.
pub open spec fn push_all(cs: Seq<Seq<u8>>) -> (Seq<(u16, Seq<u8>)>, Seq<u8>)
    decreases cs.len(),
{
    if cs.len() == 0 {
        (seq![], seq![])
    } else {
        let prev = push_all(cs.drop_last());
        let step = frames(prev.1 + cs.last());
        (prev.0 + step.0, step.1)
    }
}

/// How many whole frames of `fs` the first `c` bytes of their concatenation hold.
pub open spec fn complete_frames(fs: Seq<Seq<u8>>, c: int) -> nat
    decreases fs.len(),
{
    if fs.len() == 0 || c < fs[0].len() { 0 } else { 1 + complete_frames(fs.drop_first(), c - fs[0].len()) }
}

proof fn lemma_frames_concat(g: Seq<Seq<u8>>, y: Seq<u8>)
    requires
        forall|i: int| 0 <= i < g.len() ==> well_formed_frame(#[trigger] g[i]),
    ensures
        frames(concat_frames(g) + y) == (frame_msgs(g) + frames(y).0, frames(y).1),
    decreases g.len(),
{
    if g.len() == 0 {
        assert(concat_frames(g) + y =~= y);
        assert(frame_msgs(g) + frames(y).0 =~= frames(y).0);
    } else {
        let rest = g.drop_first();
        assert forall|i: int| 0 <= i < rest.len() implies well_formed_frame(#[trigger] rest[i]) by {
            assert(rest[i] == g[i + 1]);
        }
        lemma_frames_concat(rest, y);
        assert(well_formed_frame(g[0]));
        assert(concat_frames(g) + y =~= g[0] + (concat_frames(rest) + y));
        lemma_frames_step(g[0], concat_frames(rest) + y);
        assert(frame_msgs(g) =~= seq![frame_msg(g[0])] + frame_msgs(rest));
        assert(seq![frame_msg(g[0])] + (frame_msgs(rest) + frames(y).0) =~= frame_msgs(g) + frames(y).0);
    }
}

proof fn lemma_frames_prefix(fs: Seq<Seq<u8>>, c: int)
    requires
        forall|i: int| 0 <= i < fs.len() ==> well_formed_frame(#[trigger] fs[i]),
        0 <= c <= concat_frames(fs).len(),
    ensures
        complete_frames(fs, c) <= fs.len(),
        frames(concat_frames(fs).take(c)).0 == frame_msgs(fs.take(complete_frames(fs, c) as int)),
        concat_frames(fs).take(c)
            == concat_frames(fs.take(complete_frames(fs, c) as int)) + frames(concat_frames(fs).take(c)).1,
    decreases fs.len(),
{
    let s = concat_frames(fs);
    if fs.len() == 0 {
        assert(s.take(c) =~= seq![]);
        assert(fs.take(0) =~= fs);
        assert(frame_msgs(fs) =~= seq![]);
        assert(Seq::<u8>::empty() + Seq::<u8>::empty() =~= Seq::<u8>::empty());
    } else {
        let f = fs[0];
        let rest = fs.drop_first();
        assert forall|i: int| 0 <= i < rest.len() implies well_formed_frame(#[trigger] rest[i]) by {
            assert(rest[i] == fs[i + 1]);
        }
        assert(well_formed_frame(f));
        let rs = concat_frames(rest);
        assert(s == f + rs);
        if c >= f.len() {
            let c2 = c - f.len();
            lemma_frames_prefix(rest, c2);
            let k2 = complete_frames(rest, c2) as int;
            assert(s.take(c) =~= f + rs.take(c2));
            lemma_frames_step(f, rs.take(c2));
            assert(fs.take(k2 + 1).drop_first() =~= rest.take(k2));
            assert(fs.take(k2 + 1)[0] == f);
            assert(frame_msgs(fs.take(k2 + 1)) =~= seq![frame_msg(f)] + frame_msgs(rest.take(k2)));
            assert(concat_frames(fs.take(k2 + 1)) == f + concat_frames(rest.take(k2)));
            let b = frames(rs.take(c2)).1;
            assert(f + (concat_frames(rest.take(k2)) + b) =~= (f + concat_frames(rest.take(k2))) + b);
        } else {
            assert(s.take(c) =~= f.take(c));
            lemma_frames_partial(f, c);
            assert(fs.take(0) =~= Seq::<Seq<u8>>::empty());
            assert(frame_msgs(fs.take(0)) =~= seq![]);
            assert(concat_frames(fs.take(0)) + f.take(c) =~= f.take(c));
        }
    }
}

proof fn lemma_push_all_prefix(fs: Seq<Seq<u8>>, cs: Seq<Seq<u8>>)
    requires
        forall|i: int| 0 <= i < fs.len() ==> well_formed_frame(#[trigger] fs[i]),
        concat_chunks(cs).len() <= concat_frames(fs).len(),
        concat_chunks(cs) == concat_frames(fs).take(concat_chunks(cs).len() as int),
    ensures
        push_all(cs) == frames(concat_chunks(cs)),
    decreases cs.len(),
{
    let s = concat_frames(fs);
    if cs.len() == 0 {
        assert(frames(Seq::<u8>::empty()) == (Seq::<(u16, Seq<u8>)>::empty(), Seq::<u8>::empty()));
    } else {
        let c0 = cs.drop_last();
        let p = concat_chunks(c0);
        let x = cs.last();
        assert(concat_chunks(cs) == p + x);
        assert(p == s.take(p.len() as int)) by {
            assert(p =~= concat_chunks(cs).take(p.len() as int));
        }
        lemma_push_all_prefix(fs, c0);
        lemma_frames_prefix(fs, p.len() as int);
        let k = complete_frames(fs, p.len() as int) as int;
        let g = fs.take(k);
        assert forall|i: int| 0 <= i < g.len() implies well_formed_frame(#[trigger] g[i]) by {
            assert(g[i] == fs[i]);
        }
        let b = frames(p).1;
        assert(p + x =~= concat_frames(g) + (b + x));
        lemma_frames_concat(g, b + x);
    }
}

/// A stream of well-formed frames pushed in chunks cut anywhere yields exactly
/// its frames' messages, in order, and leaves nothing waiting.
pub proof fn lemma_framing_any_chunks(fs: Seq<Seq<u8>>, cs: Seq<Seq<u8>>)
    requires
        forall|i: int| 0 <= i < fs.len() ==> well_formed_frame(#[trigger] fs[i]),
        concat_chunks(cs) == concat_frames(fs),
    ensures
        push_all(cs) == (frame_msgs(fs), Seq::<u8>::empty()),
{
    assert(concat_frames(fs).take(concat_frames(fs).len() as int) =~= concat_frames(fs));
    lemma_push_all_prefix(fs, cs);
    lemma_frames_full(fs);
}

/// A buffer that starts with a length field above the cap emits nothing and is
/// emptied; well-formed frames pushed afterwards are framed exactly.
pub proof fn lemma_oversized_length_clears(bad: Seq<u8>, fs: Seq<Seq<u8>>)
    requires
        bad.len() > 4,
        be32(bad, 0) > STREAM_CAP,
        forall|i: int| 0 <= i < fs.len() ==> well_formed_frame(#[trigger] fs[i]),
    ensures
        frames(bad) == (Seq::<(u16, Seq<u8>)>::empty(), Seq::<u8>::empty()),
        frames(frames(bad).1 + concat_frames(fs)) == (frame_msgs(fs), Seq::<u8>::empty()),
{
    assert(Seq::<u8>::empty() + concat_frames(fs) =~= concat_frames(fs));
    lemma_frames_full(fs);
}

/// One hit adds its amount to a single bucket, chosen by the critical and lucky
/// flags, and to the total, which stays the sum of the four buckets.
pub proof fn lemma_one_bucket_per_hit(b: DamageBreakdown, v: u64, crit: bool, lucky: bool)
    requires
        b.wf(),
        b.total + v <= u64::MAX,
    ensures
        ({
            let a = b.spec_add(v, crit, lucky);
            &&& a.wf()
            &&& a.total == b.total + v
            &&& a.crit_lucky == b.crit_lucky + (if crit && lucky { v as int } else { 0 })
            &&& a.critical == b.critical + (if crit && !lucky { v as int } else { 0 })
            &&& a.lucky == b.lucky + (if !crit && lucky { v as int } else { 0 })
            &&& a.normal == b.normal + (if !crit && !lucky { v as int } else { 0 })
        }),
{
}

/// A record that names both a top summoner and a direct attacker is credited
/// exactly as if the top summoner alone had attacked.
pub proof fn lemma_top_summoner_first(o: StoreView, d: SyncDamageInfo, top: u64, attacker: u64, target_uuid: u64, now: u64)
    requires
        d.top_summoner_id == Some(top),
        d.attacker_uuid == Some(attacker),
    ensures
        spec_apply_damage(o, d, target_uuid, now)
            == spec_apply_damage(o, SyncDamageInfo { attacker_uuid: Some(top), top_summoner_id: None, ..d }, target_uuid, now),
{
}

/// Once a flow is identified, four consecutive packets of other flows leave it
/// in place, a fifth consecutive one gives it up, and a packet of the flow
/// brings the count back to zero.
pub proof fn lemma_flow_given_up_after_five(s: FlowIdentifier, run: Seq<FlowKey>, fifth: FlowKey, back: FlowKey, p: Seq<u8>)
    requires
        s.wf(),
        s.server is Some,
        s.mismatch_count == 0,
        run.len() == 4,
        forall|i: int| 0 <= i < 4 ==> !in_flow(s.server->Some_0, #[trigger] run[i]),
        !in_flow(s.server->Some_0, fifth),
        in_flow(s.server->Some_0, back),
    ensures
        flow_run(s, run, p).server == s.server,
        flow_run(s, run, p).mismatch_count == 4,
        flow_step(flow_run(s, run, p), fifth, p).1 == FlowVerdict::Migrated,
        flow_step(flow_run(s, run, p), fifth, p).0.server is None,
        flow_step(flow_run(s, run, p), back, p).0.server == s.server,
        flow_step(flow_run(s, run, p), back, p).0.mismatch_count == 0,
{
    let srv = s.server->Some_0;
    let s1 = flow_step(s, run[0], p).0;
    let s2 = flow_step(s1, run[1], p).0;
    let s3 = flow_step(s2, run[2], p).0;
    let s4 = flow_step(s3, run[3], p).0;
    assert(s1.server == s.server && s1.mismatch_count == 1);
    assert(s2.server == s.server && s2.mismatch_count == 2);
    assert(s3.server == s.server && s3.mismatch_count == 3);
    assert(s4.server == s.server && s4.mismatch_count == 4);
    assert(run.drop_first().drop_first().drop_first().drop_first() =~= Seq::<FlowKey>::empty());
    assert(run.drop_first()[0] == run[1]);
    assert(run.drop_first().drop_first()[0] == run[2]);
    assert(run.drop_first().drop_first().drop_first()[0] == run[3]);
    assert(flow_run(s4, Seq::<FlowKey>::empty(), p) == s4);
    assert(flow_run(s3, run.drop_first().drop_first().drop_first(), p) == s4);
    assert(flow_run(s2, run.drop_first().drop_first(), p) == s4);
    assert(flow_run(s1, run.drop_first(), p) == s4);
    assert(flow_run(s, run, p) == s4);
}

/// A paused store is left exactly as it was by every write operation.
pub proof fn lemma_paused_writes_are_noops(
    o: StoreView,
    uid: u32,
    skill_id: u32,
    element: u32,
    value: u64,
    is_crit: bool,
    is_lucky: bool,
    is_cause_lucky: bool,
    hp_lessen: u64,
    target_uid: u32,
    is_dead: bool,
    name: Seq<char>,
    sub: SubProfession,
    key: UserAttr,
    n: u32,
    now: u64,
)
    requires
        o.paused,
    ensures
        o.spec_add_damage(uid, skill_id, element, value, is_crit, is_lucky, is_cause_lucky, hp_lessen, target_uid, now) == o,
        o.spec_add_healing(uid, skill_id, element, value, is_crit, is_lucky, is_cause_lucky, now) == o,
        o.spec_add_taken_damage(uid, value, is_dead, now) == o,
        o.spec_set_user_name(uid, name, now) == o,
        o.spec_set_user_profession(uid, name, now) == o,
        o.spec_set_user_sub_profession(uid, sub, now) == o,
        o.spec_set_user_fight_point(uid, n, now) == o,
        o.spec_set_user_attr(uid, key, n, now) == o,
        o.spec_set_enemy_name(uid, name, now) == o,
        o.spec_set_enemy_hp(uid, n, now) == o,
        o.spec_set_enemy_max_hp(uid, n, now) == o,
{
}

/// Over a non-empty time range the rate is `total * 1000 / (last - first)`;
/// recording a hit keeps the peak rate and deriving the rate never lowers it.
pub proof fn lemma_rate_and_peak(s: DamageStats, v: u64, crit: bool, lucky: bool, hp: u64, now: u64)
    requires
        s.wf(),
    ensures
        s.time_range is Some && s.time_range->Some_0.last > s.time_range->Some_0.first
            && s.values.total as int * 1000 / (s.time_range->Some_0.last - s.time_range->Some_0.first) <= u64::MAX
            ==> s.spec_update_rate().rate
                == s.values.total as int * 1000 / (s.time_range->Some_0.last - s.time_range->Some_0.first),
        s.spec_update_rate().rate_max >= s.rate_max,
        s.spec_record(v, crit, lucky, hp, now).rate_max == s.rate_max,
{
}

} // verus!
