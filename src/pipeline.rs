//! The core context: every stage of the pipeline, from a captured IPv4 packet
//! to the aggregate store, with its counters.
use vstd::prelude::*;
use crate::ipv4::{IpHeader, TcpSegment, TcpSegmentView, spec_ip_header, spec_tcp, is_fragment, parse_ip_header, parse_tcp, copy_from};
use crate::fragment::{FragmentCache, BucketView, stale};
use crate::flow::{FlowIdentifier, FlowKey, FlowVerdict, flow_step};
use crate::stream::{StreamBuffer, Frame, frames, frames_view};
use crate::envelope::{envelope, MAX_DEPTH};
use crate::parser::{PacketParser, spec_messages};
use crate::store::{DataManager, StoreView};

verus! {

pub open spec fn inc(x: u64) -> u64 {
    if x < u64::MAX { (x + 1) as u64 } else { x }
}

fn bump(x: u64) -> (r: u64)
    ensures
        r == inc(x),
{
    if x < u64::MAX { x + 1 } else { x }
}

/// The local player's uuid and the store after the framed messages `fs`, in order.
pub open spec fn spec_frames(cur: u64, o: StoreView, fs: Seq<(u16, Seq<u8>)>, now: u64) -> (u64, StoreView)
    decreases fs.len(),
{
    if fs.len() == 0 {
        (cur, o)
    } else {
        let prev = spec_frames(cur, o, fs.drop_last(), now);
        spec_messages(prev.0, prev.1, envelope(fs.last().0, fs.last().1, MAX_DEPTH as nat), now)
    }
}

/// What the pipeline did with one captured packet.
#[derive(Clone, Copy, Debug, PartialEq, Eq, Structural)]
pub enum PacketOutcome {
    /// Not an IPv4/TCP segment with payload, or loopback.
    Skipped,
    /// A fragment of a datagram that is not complete yet.
    Buffered,
    /// Not part of the game session.
    Ignored,
    /// Its payload was appended to the stream of the identified flow.
    Streamed,
    /// The identified flow was given up.
    Migrated,
}

pub struct CoreView {
    pub flow: FlowIdentifier,
    pub stream: Seq<u8>,
    pub fragments: Map<(u16, u32, u32), BucketView>,
    pub user_uuid: u64,
    pub store: StoreView,
    pub packets_captured: u64,
    pub packets_filtered: u64,
    pub mismatched_packets: u64,
}

/// Everything the pipeline keeps between packets.
pub struct CoreContext {
    pub flow: FlowIdentifier,
    pub stream: StreamBuffer,
    pub fragments: FragmentCache,
    pub parser: PacketParser,
    pub store: DataManager,
    pub packets_captured: u64,
    pub packets_filtered: u64,
    pub mismatched_packets: u64,
}

impl View for CoreContext {
    type V = CoreView;

    open spec fn view(&self) -> CoreView {
        CoreView {
            flow: self.flow,
            stream: self.stream.buf@,
            fragments: self.fragments@,
            user_uuid: self.parser.current_user_uuid,
            store: self.store@,
            packets_captured: self.packets_captured,
            packets_filtered: self.packets_filtered,
            mismatched_packets: self.mismatched_packets,
        }
    }
}

impl CoreView {
    pub open spec fn filtered(self) -> CoreView {
        CoreView { packets_filtered: inc(self.packets_filtered), ..self }
    }

    /// The context after appending `payload` to stream bytes `buf` and applying every complete frame.
    pub open spec fn feed(self, buf: Seq<u8>, payload: Seq<u8>, now: u64) -> CoreView {
        if buf.len() + payload.len() > usize::MAX {
            CoreView { stream: buf, ..self }
        } else {
            let (ms, rest) = frames(buf + payload);
            let (u, st) = spec_frames(self.user_uuid, self.store, ms, now);
            CoreView { stream: rest, user_uuid: u, store: st, ..self }
        }
    }

    /// The context after a TCP segment reaches flow identification.
    pub open spec fn on_segment(self, s: TcpSegmentView, now: u64) -> CoreView {
        let key = FlowKey { src_ip: s.src_ip, src_port: s.src_port, dst_ip: s.dst_ip, dst_port: s.dst_port };
        let (f2, v) = flow_step(self.flow, key, s.payload);
        let o = CoreView { flow: f2, ..self };
        match v {
            FlowVerdict::Elected => o.feed(seq![], s.payload, now),
            FlowVerdict::Accept => o.feed(self.stream, s.payload, now),
            FlowVerdict::Ignore => CoreView {
                mismatched_packets: if self.flow.server.is_some() { inc(self.mismatched_packets) } else { self.mismatched_packets },
                ..o
            }.filtered(),
            FlowVerdict::Migrated => CoreView {
                stream: seq![],
                store: if self.store.settings.auto_clear_on_server_change { self.store.spec_clear_all(now) } else { self.store },
                mismatched_packets: inc(self.mismatched_packets),
                ..o
            },
        }
    }

    /// The context after transport bytes `t` of a packet with header `h`.
    pub open spec fn on_transport(self, h: IpHeader, t: Seq<u8>, now: u64) -> CoreView {
        match spec_tcp(h, t) {
            Err(_) => self.filtered(),
            Ok(s) => self.on_segment(s, now),
        }
    }

    /// The context after one captured packet `p` at `now`.
    pub open spec fn on_packet(self, p: Seq<u8>, now: u64) -> CoreView {
        let o = CoreView { packets_captured: inc(self.packets_captured), ..self };
        match spec_ip_header(p) {
            Err(_) => o.filtered(),
            Ok(h) => {
                let t = p.skip(h.header_len as int);
                if is_fragment(h) {
                    if h.fragment_offset + t.len() > usize::MAX {
                        o.filtered()
                    } else {
                        let (m2, d) = FragmentCache::spec_add(self.fragments, h, t, now);
                        let o2 = CoreView { fragments: m2, ..o };
                        match d {
                            None => o2,
                            Some(dg) => o2.on_transport(h, dg, now),
                        }
                    }
                } else {
                    o.on_transport(h, t, now)
                }
            },
        }
    }
}

impl CoreContext {
    pub open spec fn wf(&self) -> bool {
        &&& self.flow.wf()
        &&& self.stream.wf()
        &&& self.fragments.wf()
        &&& self.store.wf()
    }

    /// A fresh context: no flow identified, empty buffers, an empty running store.
    pub fn new(now: u64) -> (r: CoreContext)
        ensures
            r.wf(),
            r@.flow.server.is_none(),
            r@.stream == Seq::<u8>::empty(),
            r@.fragments == Map::<(u16, u32, u32), BucketView>::empty(),
            r@.user_uuid == 0,
            r@.store.users == Map::<u32, crate::model::UserView>::empty(),
            r@.store.enemies == Map::<u32, crate::enemy::EnemyView>::empty(),
            !r@.store.paused,
            r@.packets_captured == 0,
            r@.packets_filtered == 0,
            r@.mismatched_packets == 0,
    {
        CoreContext {
            flow: FlowIdentifier::new(),
            stream: StreamBuffer::new(),
            fragments: FragmentCache::new(),
            parser: PacketParser::new(),
            store: DataManager::new(now),
            packets_captured: 0,
            packets_filtered: 0,
            mismatched_packets: 0,
        }
    }

    fn apply_frames(&mut self, fs: &Vec<Frame>, now: u64)
        requires
            old(self).wf(),
        ensures
            final(self).wf(),
            final(self).flow == old(self).flow,
            final(self).stream == old(self).stream,
            final(self).fragments == old(self).fragments,
            final(self).packets_captured == old(self).packets_captured,
            final(self).packets_filtered == old(self).packets_filtered,
            final(self).mismatched_packets == old(self).mismatched_packets,
            (final(self).parser.current_user_uuid, final(self).store@)
                == spec_frames(old(self).parser.current_user_uuid, old(self).store@, frames_view(fs@), now),
    {
        let ghost fv = frames_view(fs@);
        let mut i: usize = 0;
        while i < fs.len()
            invariant
                i <= fs@.len(),
                fv == frames_view(fs@),
                self.wf(),
                self.flow == old(self).flow,
                self.stream == old(self).stream,
                self.fragments == old(self).fragments,
                self.packets_captured == old(self).packets_captured,
                self.packets_filtered == old(self).packets_filtered,
                self.mismatched_packets == old(self).mismatched_packets,
                (self.parser.current_user_uuid, self.store@)
                    == spec_frames(old(self).parser.current_user_uuid, old(self).store@, fv.take(i as int), now),
            decreases fs@.len() - i,
        {
            assert(fv.take(i + 1).drop_last() =~= fv.take(i as int));
            assert(fv.take(i + 1).last() == fs@[i as int]@);
            self.parser.process_packet(&mut self.store, &fs[i], now);
            i = i + 1;
        }
        assert(fv.take(fs@.len() as int) =~= fv);
    }

    fn feed(&mut self, payload: &[u8], now: u64)
        requires
            old(self).wf(),
        ensures
            final(self).wf(),
            final(self)@ == old(self)@.feed(old(self).stream.buf@, payload@, now),
    {
        if payload.len() > usize::MAX - self.stream.len() {
            return;
        }
        let fs = self.stream.push(payload);
        self.apply_frames(&fs, now);
    }

    fn on_segment(&mut self, s: &TcpSegment, now: u64) -> (r: PacketOutcome)
        requires
            old(self).wf(),
        ensures
            final(self).wf(),
            final(self)@ == old(self)@.on_segment(s@, now),
    {
        let key = FlowKey { src_ip: s.src_ip, src_port: s.src_port, dst_ip: s.dst_ip, dst_port: s.dst_port };
        let was_identified = self.flow.is_identified();
        let v = self.flow.observe(key, s.payload.as_slice());
        match v {
            FlowVerdict::Elected => {
                self.stream.flush();
                self.feed(s.payload.as_slice(), now);
                PacketOutcome::Streamed
            },
            FlowVerdict::Accept => {
                self.feed(s.payload.as_slice(), now);
                PacketOutcome::Streamed
            },
            FlowVerdict::Ignore => {
                if was_identified {
                    self.mismatched_packets = bump(self.mismatched_packets);
                }
                self.packets_filtered = bump(self.packets_filtered);
                PacketOutcome::Ignored
            },
            FlowVerdict::Migrated => {
                self.stream.flush();
                if self.store.settings.auto_clear_on_server_change {
                    self.store.clear_all(now);
                }
                self.mismatched_packets = bump(self.mismatched_packets);
                PacketOutcome::Migrated
            },
        }
    }

    fn on_transport(&mut self, h: &IpHeader, t: &[u8], now: u64) -> (r: PacketOutcome)
        requires
            old(self).wf(),
        ensures
            final(self).wf(),
            final(self)@ == old(self)@.on_transport(*h, t@, now),
    {
        match parse_tcp(h, t) {
            Err(_) => {
                self.packets_filtered = bump(self.packets_filtered);
                PacketOutcome::Skipped
            },
            Ok(s) => self.on_segment(&s, now),
        }
    }

    /// Runs one captured packet through the pipeline. The packet itself is only read.
    pub fn process_packet(&mut self, p: &[u8], now: u64) -> (r: PacketOutcome)
        requires
            old(self).wf(),
        ensures
            final(self).wf(),
            final(self)@ == old(self)@.on_packet(p@, now),
    {
        self.packets_captured = bump(self.packets_captured);
        let h = match parse_ip_header(p) {
            Ok(h) => h,
            Err(_) => {
                self.packets_filtered = bump(self.packets_filtered);
                return PacketOutcome::Skipped;
            },
        };
        let t = copy_from(p, h.header_len);
        if h.more_fragments || h.fragment_offset != 0 {
            if t.len() > usize::MAX - h.fragment_offset {
                self.packets_filtered = bump(self.packets_filtered);
                return PacketOutcome::Skipped;
            }
            match self.fragments.add(&h, t, now) {
                None => PacketOutcome::Buffered,
                Some(d) => self.on_transport(&h, d.as_slice(), now),
            }
        } else {
            self.on_transport(&h, t.as_slice(), now)
        }
    }

    /// Periodic work: derives rates and applies the timeout policy. Returns whether it cleared.
    pub fn tick(&mut self, now: u64) -> (cleared: bool)
        requires
            old(self).wf(),
        ensures
            final(self).wf(),
            cleared == old(self)@.store.spec_rates().spec_timeout_due(now),
            final(self)@ == (CoreView {
                store: if cleared {
                    old(self)@.store.spec_rates().spec_clear_all(now)
                } else {
                    old(self)@.store.spec_rates()
                },
                ..old(self)@
            }),
    {
        self.store.update_dps();
        self.store.update_hps();
        self.store.check_timeout_clear(now)
    }

    /// Drops fragments of datagrams idle for longer than the fragment timeout.
    pub fn evict_fragments(&mut self, now: u64)
        requires
            old(self).wf(),
        ensures
            final(self).wf(),
            forall|k: (u16, u32, u32)| #[trigger] final(self)@.fragments.contains_key(k)
                == (old(self)@.fragments.contains_key(k) && !stale(old(self)@.fragments[k], now)),
            forall|k: (u16, u32, u32)| #[trigger] final(self)@.fragments.contains_key(k)
                ==> final(self)@.fragments[k] == old(self)@.fragments[k],
            final(self)@ == (CoreView { fragments: final(self)@.fragments, ..old(self)@ }),
    {
        self.fragments.evict_stale(now);
    }

    /// Forgets the identified flow and the stream, as on migration, without clearing the store.
    pub fn reset_server_identification(&mut self)
        requires
            old(self).wf(),
        ensures
            final(self).wf(),
            final(self)@ == (CoreView {
                flow: FlowIdentifier { server: None, mismatch_count: 0 },
                stream: Seq::<u8>::empty(),
                ..old(self)@
            }),
    {
        self.flow.reset();
        self.stream.flush();
    }
}

} // verus!
