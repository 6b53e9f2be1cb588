//! The ordered byte buffer of the identified flow and its length-prefixed framing.
use vstd::prelude::*;
use crate::wire::{be16, be32, read_be16, read_be32};

verus! {

/// Largest frame size accepted; a larger length field marks a corrupt stream.
pub const STREAM_CAP: u32 = 10485760;

/// One framed message: its opcode and the bytes after it.
#[derive(Clone, Debug)]
pub struct Frame {
    pub opcode: u16,
    pub body: Vec<u8>,
}

impl View for Frame {
    type V = (u16, Seq<u8>);

    open spec fn view(&self) -> (u16, Seq<u8>) {
        (self.opcode, self.body@)
    }
}

/// The message carried by a complete frame `f` (length field included).
pub open spec fn frame_msg(f: Seq<u8>) -> (u16, Seq<u8>) {
    (be16(f[4], f[5]) as u16, f.skip(6))
}

/// A length field that a frame may carry.
pub open spec fn valid_size(n: int) -> bool {
    6 <= n <= STREAM_CAP
}

/// Frames `s` from its start: the messages emitted and the bytes left waiting.
/// A length field outside the valid range empties the buffer.
pub open spec fn frames(s: Seq<u8>) -> (Seq<(u16, Seq<u8>)>, Seq<u8>)
    decreases s.len(),
{
    if s.len() <= 4 {
        (seq![], s)
    } else {
        let n = be32(s, 0);
        if !valid_size(n) {
            (seq![], seq![])
        } else if s.len() < n {
            (seq![], s)
        } else {
            let rest = frames(s.skip(n));
            (seq![frame_msg(s.take(n))] + rest.0, rest.1)
        }
    }
}

pub open spec fn frames_view(v: Seq<Frame>) -> Seq<(u16, Seq<u8>)> {
    v.map_values(|f: Frame| f@)
}

/// The reassembled tail of the identified flow.
pub struct StreamBuffer {
    pub buf: Vec<u8>,
}

impl StreamBuffer {
    pub open spec fn wf(&self) -> bool {
        self.buf@.len() <= STREAM_CAP
    }

    pub fn new() -> (r: StreamBuffer)
        ensures
            r.buf@ == Seq::<u8>::empty(),
            r.wf(),
    {
        StreamBuffer { buf: Vec::new() }
    }

    /// Drops every byte held.
    pub fn flush(&mut self)
        ensures
            final(self).buf@ == Seq::<u8>::empty(),
            final(self).wf(),
    {
        self.buf = Vec::new();
    }

    pub fn len(&self) -> (r: usize)
        ensures
            r == self.buf@.len(),
    {
        self.buf.len()
    }

    /// Appends `payload` and extracts every complete frame.
    pub fn push(&mut self, payload: &[u8]) -> (out: Vec<Frame>)
        requires
            old(self).buf@.len() + payload@.len() <= usize::MAX,
        ensures
            frames_view(out@) == frames(old(self).buf@ + payload@).0,
            final(self).buf@ == frames(old(self).buf@ + payload@).1,
            final(self).wf(),
    {
        crate::wire::append_bytes(&mut self.buf, payload);
        let (out, rest) = split_frames(self.buf.as_slice());
        self.buf = rest;
        proof { lemma_frames_rest_bounded(old(self).buf@ + payload@); }
        out
    }
}

/// What framing leaves waiting never exceeds the cap.
pub proof fn lemma_frames_rest_bounded(s: Seq<u8>)
    ensures
        frames(s).1.len() <= STREAM_CAP,
    decreases s.len(),
{
    if s.len() > 4 {
        let n = be32(s, 0);
        if valid_size(n) && s.len() >= n {
            lemma_frames_rest_bounded(s.skip(n));
        }
    }
}

/// Splits `s` into its complete frames and the bytes left over.
pub fn split_frames(s: &[u8]) -> (r: (Vec<Frame>, Vec<u8>))
    ensures
        frames_view(r.0@) == frames(s@).0,
        r.1@ == frames(s@).1,
{
    let mut out: Vec<Frame> = Vec::new();
    let mut off: usize = 0;
    let n = s.len();
    assert(s@.skip(0) =~= s@);
    assert(frames_view(out@) =~= Seq::<(u16, Seq<u8>)>::empty());
    assert(frames_view(out@) + frames(s@).0 =~= frames(s@).0);
    while n - off > 4
        invariant
            off <= n,
            n == s@.len(),
            frames(s@) == (frames_view(out@) + frames(s@.skip(off as int)).0, frames(s@.skip(off as int)).1),
        decreases n - off,
    {
        let ghost t = s@.skip(off as int);
        let size = read_be32(s, off);
        assert(be32(t, 0) == be32(s@, off as int));
        if size < 6 || size > STREAM_CAP {
            return (out, Vec::new());
        }
        let size = size as usize;
        if n - off < size {
            let rest = crate::ipv4::copy_from(s, off);
            assert(frames_view(out@) + seq![] =~= frames_view(out@));
            return (out, rest);
        }
        let opcode = read_be16(s, off + 4);
        let body = crate::ipv4::copy_range(s, off + 6, off + size);
        proof {
            let f = t.take(size as int);
            assert(f[4] == s@[off + 4]);
            assert(f[5] == s@[off + 5]);
            assert(f.skip(6) =~= s@.subrange(off + 6, off + size));
            assert(t.skip(size as int) =~= s@.skip(off + size));
        }
        let fr = Frame { opcode, body };
        let ghost old_out = out@;
        out.push(fr);
        proof {
            assert(frames_view(out@) =~= frames_view(old_out).push(fr@));
            let rest = frames(s@.skip(off + size));
            assert(frames_view(old_out) + (seq![fr@] + rest.0) =~= frames_view(out@) + rest.0);
        }
        off = off + size;
    }
    let rest = crate::ipv4::copy_from(s, off);
    assert(frames_view(out@) + seq![] =~= frames_view(out@));
    (out, rest)
}

} // verus!
