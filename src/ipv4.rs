//! IPv4 and TCP header decoding.
use vstd::prelude::*;
use crate::wire::{be16, be32, read_be16, read_be32};

verus! {

/// Why a captured packet was not turned into a TCP segment.
#[derive(Clone, Copy, Debug, PartialEq, Eq, Structural)]
pub enum Skip {
    TooShort,
    NotIpv4,
    NotTcp,
    Loopback,
    NoPayload,
}

/// The parts of an IPv4 header that the pipeline reads.
#[derive(Clone, Copy, Debug, PartialEq, Eq, Structural)]
pub struct IpHeader {
    pub header_len: usize,
    pub identification: u16,
    pub more_fragments: bool,
    /// Fragment offset in bytes (the header field times eight).
    pub fragment_offset: usize,
    pub src_ip: u32,
    pub dst_ip: u32,
}

/// A decoded TCP segment with its endpoints.
#[derive(Clone, Debug)]
pub struct TcpSegment {
    pub src_ip: u32,
    pub dst_ip: u32,
    pub src_port: u16,
    pub dst_port: u16,
    pub seq: u32,
    pub payload: Vec<u8>,
}

/// 127.0.0.1 as a big-endian address.
pub const LOOPBACK: u32 = 0x7f00_0001;

pub open spec fn ihl_bytes(p: Seq<u8>) -> int {
    (p[0] % 16) as int * 4
}

/// What the IPv4 header of `p` says, or why it is skipped.
pub open spec fn spec_ip_header(p: Seq<u8>) -> Result<IpHeader, Skip> {
    if p.len() < 20 {
        Err(Skip::TooShort)
    } else if p[0] / 16 != 4 {
        Err(Skip::NotIpv4)
    } else if p[9] != 6 {
        Err(Skip::NotTcp)
    } else if p.len() < ihl_bytes(p) || ihl_bytes(p) < 20 {
        Err(Skip::TooShort)
    } else if be32(p, 16) == LOOPBACK {
        Err(Skip::Loopback)
    } else {
        Ok(IpHeader {
            header_len: ihl_bytes(p) as usize,
            identification: be16(p[4], p[5]) as u16,
            more_fragments: p[6] & 0x20 != 0,
            fragment_offset: (((p[6] % 32) as int * 256 + p[7] as int) * 8) as usize,
            src_ip: be32(p, 12) as u32,
            dst_ip: be32(p, 16) as u32,
        })
    }
}

/// Decodes the IPv4 header of a captured packet.
pub fn parse_ip_header(p: &[u8]) -> (r: Result<IpHeader, Skip>)
    ensures
        r == spec_ip_header(p@),
{
    let n = p.len();
    if n < 20 {
        return Err(Skip::TooShort);
    }
    if p[0] / 16 != 4 {
        return Err(Skip::NotIpv4);
    }
    if p[9] != 6 {
        return Err(Skip::NotTcp);
    }
    let hl = ((p[0] % 16) as usize) * 4;
    if n < hl || hl < 20 {
        return Err(Skip::TooShort);
    }
    let dst = read_be32(p, 16);
    if dst == LOOPBACK {
        return Err(Skip::Loopback);
    }
    let off = (((p[6] % 32) as usize) * 256 + p[7] as usize) * 8;
    Ok(IpHeader {
        header_len: hl,
        identification: read_be16(p, 4),
        more_fragments: p[6] & 0x20 != 0,
        fragment_offset: off,
        src_ip: read_be32(p, 12),
        dst_ip: dst,
    })
}

/// True when the header says the packet is one fragment of a larger datagram.
pub open spec fn is_fragment(h: IpHeader) -> bool {
    h.more_fragments || h.fragment_offset != 0
}

pub open spec fn tcp_data_offset(t: Seq<u8>) -> int {
    (t[12] / 16) as int * 4
}

/// The TCP segment carried by transport bytes `t`, or why it is skipped.
pub open spec fn spec_tcp(h: IpHeader, t: Seq<u8>) -> Result<TcpSegmentView, Skip> {
    if t.len() < 20 {
        Err(Skip::TooShort)
    } else if t.len() <= tcp_data_offset(t) {
        Err(Skip::NoPayload)
    } else {
        Ok(TcpSegmentView {
            src_ip: h.src_ip,
            dst_ip: h.dst_ip,
            src_port: be16(t[0], t[1]) as u16,
            dst_port: be16(t[2], t[3]) as u16,
            seq: be32(t, 4) as u32,
            payload: t.skip(tcp_data_offset(t)),
        })
    }
}

/// The mathematical value of a [`TcpSegment`].
pub struct TcpSegmentView {
    pub src_ip: u32,
    pub dst_ip: u32,
    pub src_port: u16,
    pub dst_port: u16,
    pub seq: u32,
    pub payload: Seq<u8>,
}

impl View for TcpSegment {
    type V = TcpSegmentView;

    open spec fn view(&self) -> TcpSegmentView {
        TcpSegmentView {
            src_ip: self.src_ip,
            dst_ip: self.dst_ip,
            src_port: self.src_port,
            dst_port: self.dst_port,
            seq: self.seq,
            payload: self.payload@,
        }
    }
}

/// Copies `s[start..]` into a new vector.
pub fn copy_from(s: &[u8], start: usize) -> (r: Vec<u8>)
    requires
        start <= s@.len(),
    ensures
        r@ == s@.skip(start as int),
{
    let mut r: Vec<u8> = Vec::new();
    let mut i: usize = start;
    while i < s.len()
        invariant
            start <= i <= s@.len(),
            r@ == s@.subrange(start as int, i as int),
        decreases s@.len() - i,
    {
        r.push(s[i]);
        i = i + 1;
    }
    assert(r@ == s@.skip(start as int));
    r
}

/// Copies `s[start..end]` into a new vector.
pub fn copy_range(s: &[u8], start: usize, end: usize) -> (r: Vec<u8>)
    requires
        start <= end <= s@.len(),
    ensures
        r@ == s@.subrange(start as int, end as int),
{
    let mut r: Vec<u8> = Vec::new();
    let mut i: usize = start;
    while i < end
        invariant
            start <= i <= end <= s@.len(),
            r@ == s@.subrange(start as int, i as int),
        decreases end - i,
    {
        r.push(s[i]);
        i = i + 1;
    }
    r
}

/// Decodes the TCP header in transport bytes `t` of a packet with IPv4 header `h`.
pub fn parse_tcp(h: &IpHeader, t: &[u8]) -> (r: Result<TcpSegment, Skip>)
    ensures
        match r {
            Ok(s) => spec_tcp(*h, t@) == Ok::<TcpSegmentView, Skip>(s@),
            Err(e) => spec_tcp(*h, t@) == Err::<TcpSegmentView, Skip>(e),
        },
{
    if t.len() < 20 {
        return Err(Skip::TooShort);
    }
    let off = ((t[12] / 16) as usize) * 4;
    if t.len() <= off {
        return Err(Skip::NoPayload);
    }
    let payload = copy_from(t, off);
    let seg = TcpSegment {
        src_ip: h.src_ip,
        dst_ip: h.dst_ip,
        src_port: read_be16(t, 0),
        dst_port: read_be16(t, 2),
        seq: read_be32(t, 4),
        payload,
    };
    Ok(seg)
}

/// Decodes an unfragmented IPv4/TCP packet into its segment.
pub fn decode_packet(p: &[u8]) -> (r: Result<TcpSegment, Skip>)
    ensures
        match spec_ip_header(p@) {
            Err(e) => r == Err::<TcpSegment, Skip>(e),
            Ok(h) => match r {
                Ok(s) => spec_tcp(h, p@.skip(h.header_len as int)) == Ok::<TcpSegmentView, Skip>(s@),
                Err(e) => spec_tcp(h, p@.skip(h.header_len as int)) == Err::<TcpSegmentView, Skip>(e),
            },
        },
{
    let h = match parse_ip_header(p) {
        Ok(h) => h,
        Err(e) => return Err(e),
    };
    let t = copy_from(p, h.header_len);
    parse_tcp(&h, t.as_slice())
}

} // verus!
