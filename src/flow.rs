//! Recognition of the game session's TCP flow and detection of its migration.
use vstd::prelude::*;
use crate::wire::be32;
use crate::wire::read_be32;

verus! {

/// A directional endpoint pair.
#[derive(Clone, Copy, Debug, PartialEq, Eq, Structural)]
pub struct FlowKey {
    pub src_ip: u32,
    pub src_port: u16,
    pub dst_ip: u32,
    pub dst_port: u16,
}

impl FlowKey {
    pub open spec fn spec_reverse(self) -> FlowKey {
        FlowKey { src_ip: self.dst_ip, src_port: self.dst_port, dst_ip: self.src_ip, dst_port: self.src_port }
    }

    /// The same pair seen from the other side.
    pub fn reverse(&self) -> (r: FlowKey)
        ensures
            r == self.spec_reverse(),
    {
        FlowKey { src_ip: self.dst_ip, src_port: self.dst_port, dst_ip: self.src_ip, dst_port: self.src_port }
    }
}

/// Consecutive foreign packets after which the identified flow is given up.
pub const MIGRATION_THRESHOLD: u32 = 5;

/// Bytes 5..11 of a frame body that mark the game's notify service.
pub open spec fn service_marker() -> Seq<u8> {
    seq![0x00u8, 0x63, 0x33, 0x53, 0x42, 0x00]
}

/// Scans `d` from `off` as `len_be_u32 || body[len]` frames for a body that
/// carries the service marker at offset 5.
pub open spec fn marker_in_frames(d: Seq<u8>, off: int) -> bool
    decreases d.len() - off,
{
    if off < 0 || off + 4 > d.len() {
        false
    } else {
        let n = be32(d, off);
        if n == 0 || off + 4 + n > d.len() {
            false
        } else if n >= 11 && d.subrange(off + 9, off + 15) == service_marker() {
            true
        } else {
            marker_in_frames(d, off + 4 + n)
        }
    }
}

/// The small-packet signature.
pub open spec fn small_packet_signature(p: Seq<u8>) -> bool {
    p.len() > 10 && p[4] == 0 && marker_in_frames(p.skip(10), 0)
}

pub open spec fn login_head() -> Seq<u8> {
    seq![0x00u8, 0x00, 0x00, 0x62, 0x00, 0x03, 0x00, 0x00, 0x00, 0x01]
}

pub open spec fn login_tail() -> Seq<u8> {
    seq![0x00u8, 0x00, 0x00, 0x00, 0x0a, 0x4e]
}

/// The login-response signature.
pub open spec fn login_signature(p: Seq<u8>) -> bool {
    p.len() == 0x62 && p.subrange(0, 10) == login_head() && p.subrange(14, 20) == login_tail()
}

pub open spec fn signature(p: Seq<u8>) -> bool {
    small_packet_signature(p) || login_signature(p)
}

fn marker_at(d: &[u8], i: usize) -> (r: bool)
    requires
        i + 6 <= d@.len(),
    ensures
        r == (d@.subrange(i as int, i + 6) == service_marker()),
{
    let r = d[i] == 0x00 && d[i + 1] == 0x63 && d[i + 2] == 0x33 && d[i + 3] == 0x53
        && d[i + 4] == 0x42 && d[i + 5] == 0x00;
    assert(r == (d@.subrange(i as int, i + 6) == service_marker())) by {
        if r {
            assert(d@.subrange(i as int, i + 6) =~= service_marker());
        }
        if d@.subrange(i as int, i + 6) == service_marker() {
            assert(d@.subrange(i as int, i + 6)[0] == d@[i as int]);
            assert(d@.subrange(i as int, i + 6)[1] == d@[i + 1]);
            assert(d@.subrange(i as int, i + 6)[2] == d@[i + 2]);
            assert(d@.subrange(i as int, i + 6)[3] == d@[i + 3]);
            assert(d@.subrange(i as int, i + 6)[4] == d@[i + 4]);
            assert(d@.subrange(i as int, i + 6)[5] == d@[i + 5]);
        }
    }
    r
}

/// Tests a TCP payload for the small-packet signature.
pub fn matches_small_packet(p: &[u8]) -> (r: bool)
    ensures
        r == small_packet_signature(p@),
{
    let n = p.len();
    if n <= 10 || p[4] != 0 {
        return false;
    }
    let ghost d = p@.skip(10);
    let mut off: usize = 10;
    while n - off >= 4
        invariant
            10 <= off <= n,
            n == p@.len(),
            d == p@.skip(10),
            small_packet_signature(p@) == marker_in_frames(d, off - 10),
        decreases n - off,
    {
        let len = read_be32(p, off);
        assert(be32(d, off - 10) == be32(p@, off as int));
        if len == 0 || len as usize > n - off - 4 {
            return false;
        }
        let end = off + 4 + len as usize;
        if len >= 11 {
            let hit = marker_at(p, off + 9);
            assert(d.subrange(off - 10 + 9, off - 10 + 15) =~= p@.subrange(off + 9, off + 15));
            if hit {
                return true;
            }
        }
        off = end;
    }
    false
}

/// Tests a TCP payload for the login-response signature.
pub fn matches_login_response(p: &[u8]) -> (r: bool)
    ensures
        r == login_signature(p@),
{
    if p.len() != 0x62 {
        return false;
    }
    let head = p[0] == 0x00 && p[1] == 0x00 && p[2] == 0x00 && p[3] == 0x62 && p[4] == 0x00
        && p[5] == 0x03 && p[6] == 0x00 && p[7] == 0x00 && p[8] == 0x00 && p[9] == 0x01;
    let tail = p[14] == 0x00 && p[15] == 0x00 && p[16] == 0x00 && p[17] == 0x00 && p[18] == 0x0a
        && p[19] == 0x4e;
    proof {
        if head {
            assert(p@.subrange(0, 10) =~= login_head());
        }
        if p@.subrange(0, 10) == login_head() {
            assert forall|k: int| 0 <= k < 10 implies p@[k] == login_head()[k] by {
                assert(p@.subrange(0, 10)[k] == p@[k]);
            }
        }
        if tail {
            assert(p@.subrange(14, 20) =~= login_tail());
        }
        if p@.subrange(14, 20) == login_tail() {
            assert forall|k: int| 0 <= k < 6 implies p@[14 + k] == login_tail()[k] by {
                assert(p@.subrange(14, 20)[k] == p@[14 + k]);
            }
        }
    }
    head && tail
}

/// What the identifier decided about one packet.
#[derive(Clone, Copy, Debug, PartialEq, Eq, Structural)]
pub enum FlowVerdict {
    /// The packet elected its flow: flush the stream, then take its payload.
    Elected,
    /// The packet belongs to the identified flow.
    Accept,
    /// The packet is not part of the game session.
    Ignore,
    /// Sustained foreign traffic: the flow was given up.
    Migrated,
}

/// Flow identification state: `server` is the identified pair, if any.
#[derive(Clone, Copy, Debug)]
pub struct FlowIdentifier {
    pub server: Option<FlowKey>,
    pub mismatch_count: u32,
}

pub open spec fn in_flow(server: FlowKey, k: FlowKey) -> bool {
    k == server || k == server.spec_reverse()
}

/// One step of the identifier on a packet with endpoints `key` and payload `p`.
pub open spec fn flow_step(s: FlowIdentifier, key: FlowKey, p: Seq<u8>) -> (FlowIdentifier, FlowVerdict) {
    match s.server {
        None => if signature(p) {
            (FlowIdentifier { server: Some(key), mismatch_count: 0 }, FlowVerdict::Elected)
        } else {
            (s, FlowVerdict::Ignore)
        },
        Some(srv) => if in_flow(srv, key) {
            (FlowIdentifier { server: Some(srv), mismatch_count: 0 }, FlowVerdict::Accept)
        } else if s.mismatch_count + 1 >= MIGRATION_THRESHOLD {
            (FlowIdentifier { server: None, mismatch_count: 0 }, FlowVerdict::Migrated)
        } else {
            (FlowIdentifier { server: Some(srv), mismatch_count: (s.mismatch_count + 1) as u32 }, FlowVerdict::Ignore)
        },
    }
}

/// The identifier after a run of packets that all carry payload `p`.
pub open spec fn flow_run(s: FlowIdentifier, keys: Seq<FlowKey>, p: Seq<u8>) -> FlowIdentifier
    decreases keys.len(),
{
    if keys.len() == 0 {
        s
    } else {
        flow_run(flow_step(s, keys[0], p).0, keys.drop_first(), p)
    }
}

impl FlowIdentifier {
    pub open spec fn wf(&self) -> bool {
        self.mismatch_count < MIGRATION_THRESHOLD && (self.server.is_none() ==> self.mismatch_count == 0)
    }

    pub fn new() -> (r: FlowIdentifier)
        ensures
            r.server.is_none(),
            r.mismatch_count == 0,
            r.wf(),
    {
        FlowIdentifier { server: None, mismatch_count: 0 }
    }

    pub fn is_identified(&self) -> (r: bool)
        ensures
            r == self.server.is_some(),
    {
        self.server.is_some()
    }

    /// Forgets the identified flow.
    pub fn reset(&mut self)
        ensures
            final(self).server.is_none(),
            final(self).mismatch_count == 0,
            final(self).wf(),
    {
        self.server = None;
        self.mismatch_count = 0;
    }

    /// Feeds one packet's endpoints and payload through the state machine.
    pub fn observe(&mut self, key: FlowKey, payload: &[u8]) -> (v: FlowVerdict)
        requires
            old(self).wf(),
        ensures
            final(self).wf(),
            (*final(self), v) == flow_step(*old(self), key, payload@),
    {
        match self.server {
            None => {
                if matches_small_packet(payload) || matches_login_response(payload) {
                    self.server = Some(key);
                    self.mismatch_count = 0;
                    FlowVerdict::Elected
                } else {
                    FlowVerdict::Ignore
                }
            },
            Some(s) => {
                let rev = s.reverse();
                if key == s || key == rev {
                    self.mismatch_count = 0;
                    FlowVerdict::Accept
                } else if self.mismatch_count + 1 >= MIGRATION_THRESHOLD {
                    self.reset();
                    FlowVerdict::Migrated
                } else {
                    self.mismatch_count = self.mismatch_count + 1;
                    FlowVerdict::Ignore
                }
            },
        }
    }
}

} // verus!
