//! The application envelope: compression flag, outer type, nested frames and
//! the notify header.
use vstd::prelude::*;
use crate::wire::{be16, be32, be64, read_be16, read_be32, read_be64};
use crate::ipv4::copy_from;

verus! {

/// Nesting depth beyond which nested frames are dropped.
pub const MAX_DEPTH: u32 = 8;

/// Opcode bit that marks a compressed body.
pub const COMPRESSED_BIT: u16 = 0x8000;

pub const TYPE_NOTIFY: u16 = 2;
pub const TYPE_RETURN: u16 = 3;
pub const TYPE_FRAME_DOWN: u16 = 6;

/// The game's notify service.
pub const GAME_SERVICE: u64 = 0x0000_0000_6333_5342;

/// Outer envelope types. Frame-down envelopes are unwrapped, so only notify and
/// return envelopes reach dispatch.
#[derive(Clone, Copy, Debug, PartialEq, Eq, Structural)]
pub enum MessageType {
    Notify,
    Return,
    FrameDown,
}

/// An unwrapped envelope: its kind and its (decompressed) body.
#[derive(Clone, Debug)]
pub struct Message {
    pub kind: MessageType,
    pub body: Vec<u8>,
}

impl View for Message {
    type V = (MessageType, Seq<u8>);

    open spec fn view(&self) -> (MessageType, Seq<u8>) {
        (self.kind, self.body@)
    }
}

pub open spec fn messages_view(v: Seq<Message>) -> Seq<(MessageType, Seq<u8>)> {
    v.map_values(|m: Message| m@)
}

/// What zstd's decoder makes of a compressed body, if it accepts it.
pub uninterp spec fn zstd_decoded(b: Seq<u8>) -> Option<Seq<u8>>;

/// Relies on `zstd::decode_all`: decompresses a whole zstd stream, or fails.
#[verifier::external_body]
fn zstd_decode(b: &[u8]) -> (r: Option<Vec<u8>>)
    ensures
        match r {
            Some(v) => zstd_decoded(b@) == Some(v@),
            None => zstd_decoded(b@).is_none(),
        },
{
    zstd::decode_all(b).ok()
}

/// The messages carried by a frame with `opcode` and `body`, nesting at most `depth` deeper.
pub open spec fn envelope(opcode: u16, body: Seq<u8>, depth: nat) -> Seq<(MessageType, Seq<u8>)>
    decreases depth, 1nat,
{
    if opcode & COMPRESSED_BIT != 0 {
        match zstd_decoded(body) {
            Some(d) => dispatch(opcode & 0x7fff, d, depth),
            None => seq![],
        }
    } else {
        dispatch(opcode & 0x7fff, body, depth)
    }
}

/// The messages carried by an uncompressed body of outer type `kind`.
pub open spec fn dispatch(kind: u16, p: Seq<u8>, depth: nat) -> Seq<(MessageType, Seq<u8>)>
    decreases depth, 0nat,
{
    if kind == TYPE_NOTIFY {
        seq![(MessageType::Notify, p)]
    } else if kind == TYPE_RETURN {
        seq![(MessageType::Return, p)]
    } else if kind == TYPE_FRAME_DOWN && depth > 0 && p.len() >= 10 {
        envelope(be16(p[8], p[9]) as u16, p.skip(10), (depth - 1) as nat)
    } else {
        seq![]
    }
}

/// Unwraps a frame: decompresses when flagged and expands nested frames.
pub fn decode_frame(opcode: u16, body: &[u8], depth: u32) -> (r: Vec<Message>)
    ensures
        messages_view(r@) == envelope(opcode, body@, depth as nat),
    decreases depth, 1nat,
{
    if opcode & COMPRESSED_BIT != 0 {
        match zstd_decode(body) {
            Some(d) => decode_plain(opcode & 0x7fff, d.as_slice(), depth),
            None => {
                let r: Vec<Message> = Vec::new();
                assert(messages_view(r@) =~= seq![]);
                r
            },
        }
    } else {
        decode_plain(opcode & 0x7fff, body, depth)
    }
}

/// Dispatches an uncompressed body by its outer type.
pub fn decode_plain(kind: u16, p: &[u8], depth: u32) -> (r: Vec<Message>)
    ensures
        messages_view(r@) == dispatch(kind, p@, depth as nat),
    decreases depth, 0nat,
{
    let mut r: Vec<Message> = Vec::new();
    if kind == TYPE_NOTIFY || kind == TYPE_RETURN {
        let body = copy_from(p, 0);
        assert(body@ =~= p@);
        let k = if kind == TYPE_NOTIFY { MessageType::Notify } else { MessageType::Return };
        r.push(Message { kind: k, body });
        assert(messages_view(r@) =~= dispatch(kind, p@, depth as nat));
        r
    } else if kind == TYPE_FRAME_DOWN && depth > 0 && p.len() >= 10 {
        let inner = read_be16(p, 8);
        let nested = copy_from(p, 10);
        decode_frame(inner, nested.as_slice(), depth - 1)
    } else {
        assert(messages_view(r@) =~= seq![]);
        r
    }
}

/// A notify addressed to the game's service: its method and its payload.
pub open spec fn notify_of(b: Seq<u8>) -> Option<(u32, Seq<u8>)> {
    if b.len() >= 16 && be64(b, 0) == GAME_SERVICE {
        Some((be32(b, 12) as u32, b.skip(16)))
    } else {
        None
    }
}

/// Reads the notify header `serviceUuid || stubId || methodId`.
pub fn parse_notify(b: &[u8]) -> (r: Option<(u32, Vec<u8>)>)
    ensures
        match r {
            Some((m, p)) => notify_of(b@) == Some((m, p@)),
            None => notify_of(b@).is_none(),
        },
{
    if b.len() < 16 {
        return None;
    }
    let service = read_be64(b, 0);
    if service != GAME_SERVICE {
        return None;
    }
    let method = read_be32(b, 12);
    let payload = copy_from(b, 16);
    Some((method, payload))
}

} // verus!
