//! Fixed-width integer reads over byte sequences.
use vstd::prelude::*;

verus! {

/// Big-endian value of two bytes.
pub open spec fn be16(b0: u8, b1: u8) -> int {
    b0 as int * 256 + b1 as int
}

/// Big-endian value of four bytes.
pub open spec fn be32(s: Seq<u8>, i: int) -> int {
    ((s[i] as int * 256 + s[i + 1] as int) * 256 + s[i + 2] as int) * 256 + s[i + 3] as int
}

/// Little-endian value of four bytes.
pub open spec fn le32(s: Seq<u8>, i: int) -> int {
    ((s[i + 3] as int * 256 + s[i + 2] as int) * 256 + s[i + 1] as int) * 256 + s[i] as int
}

/// Big-endian value of eight bytes.
pub open spec fn be64(s: Seq<u8>, i: int) -> int {
    be32(s, i) * 0x1_0000_0000 + be32(s, i + 4)
}

pub fn read_be16(s: &[u8], i: usize) -> (r: u16)
    requires
        i + 2 <= s@.len(),
    ensures
        r as int == be16(s@[i as int], s@[i + 1]),
{
    (s[i] as u16) * 256 + (s[i + 1] as u16)
}

pub fn read_be32(s: &[u8], i: usize) -> (r: u32)
    requires
        i + 4 <= s@.len(),
    ensures
        r as int == be32(s@, i as int),
{
    let _n = s.len();
    let a = s[i] as u32;
    let b = s[i + 1] as u32;
    let c = s[i + 2] as u32;
    let d = s[i + 3] as u32;
    ((a * 256 + b) * 256 + c) * 256 + d
}

pub fn read_le32(s: &[u8], i: usize) -> (r: u32)
    requires
        i + 4 <= s@.len(),
    ensures
        r as int == le32(s@, i as int),
{
    let _n = s.len();
    let a = s[i + 3] as u32;
    let b = s[i + 2] as u32;
    let c = s[i + 1] as u32;
    let d = s[i] as u32;
    ((a * 256 + b) * 256 + c) * 256 + d
}

pub fn read_be64(s: &[u8], i: usize) -> (r: u64)
    requires
        i + 8 <= s@.len(),
    ensures
        r as int == be64(s@, i as int),
{
    let _n = s.len();
    let hi = read_be32(s, i) as u64;
    let lo = read_be32(s, i + 4) as u64;
    hi * 0x1_0000_0000 + lo
}

/// Appends the bytes of `p` to `v`.
pub fn append_bytes(v: &mut Vec<u8>, p: &[u8])
    requires
        old(v)@.len() + p@.len() <= usize::MAX,
    ensures
        final(v)@ == old(v)@ + p@,
{
    let mut i: usize = 0;
    while i < p.len()
        invariant
            i <= p@.len(),
            v@ == old(v)@ + p@.take(i as int),
        decreases p@.len() - i,
    {
        v.push(p[i]);
        i = i + 1;
        proof {
            assert(p@.take(i as int) =~= p@.take(i - 1).push(p@[i - 1]));
            assert(v@ =~= old(v)@ + p@.take(i as int));
        }
    }
    assert(p@.take(p@.len() as int) =~= p@);
}

/// A cursor over bytes.
pub struct BinaryReader<'a> {
    pub data: &'a [u8],
    pub position: usize,
}

impl<'a> BinaryReader<'a> {
    pub fn new(data: &'a [u8]) -> (r: BinaryReader<'a>)
        ensures
            r.data@ == data@,
            r.position == 0,
    {
        BinaryReader { data, position: 0 }
    }

    pub fn read_u64_be(&mut self) -> (r: u64)
        requires
            old(self).position + 8 <= old(self).data@.len(),
        ensures
            r as int == be64(old(self).data@, old(self).position as int),
            final(self).data@ == old(self).data@,
            final(self).position == old(self).position + 8,
    {
        let _n = self.data.len();
        let r = read_be64(self.data, self.position);
        self.position = self.position + 8;
        r
    }

    pub fn read_u32_be(&mut self) -> (r: u32)
        requires
            old(self).position + 4 <= old(self).data@.len(),
        ensures
            r as int == be32(old(self).data@, old(self).position as int),
            final(self).data@ == old(self).data@,
            final(self).position == old(self).position + 4,
    {
        let _n = self.data.len();
        let r = read_be32(self.data, self.position);
        self.position = self.position + 4;
        r
    }

    pub fn read_u32_le(&mut self) -> (r: u32)
        requires
            old(self).position + 4 <= old(self).data@.len(),
        ensures
            r as int == le32(old(self).data@, old(self).position as int),
            final(self).data@ == old(self).data@,
            final(self).position == old(self).position + 4,
    {
        let _n = self.data.len();
        let r = read_le32(self.data, self.position);
        self.position = self.position + 4;
        r
    }

    pub fn read_u16_be(&mut self) -> (r: u16)
        requires
            old(self).position + 2 <= old(self).data@.len(),
        ensures
            r as int == be16(old(self).data@[old(self).position as int], old(self).data@[old(self).position + 1]),
            final(self).data@ == old(self).data@,
            final(self).position == old(self).position + 2,
    {
        let _n = self.data.len();
        let r = read_be16(self.data, self.position);
        self.position = self.position + 2;
        r
    }

    pub fn read_bytes(&mut self, length: usize) -> (r: &'a [u8])
        requires
            old(self).position + length <= old(self).data@.len(),
        ensures
            r@ == old(self).data@.subrange(old(self).position as int, old(self).position + length),
            final(self).data@ == old(self).data@,
            final(self).position == old(self).position + length,
    {
        let _n = self.data.len();
        let start = self.position;
        let d: &'a [u8] = self.data;
        self.position = start + length;
        slice_range(d, start, start + length)
    }

    pub fn read_remaining(&mut self) -> (r: &'a [u8])
        requires
            old(self).position <= old(self).data@.len(),
        ensures
            r@ == old(self).data@.subrange(old(self).position as int, old(self).data@.len() as int),
            final(self).data@ == old(self).data@,
            final(self).position == old(self).data@.len(),
    {
        let start = self.position;
        let d: &'a [u8] = self.data;
        self.position = d.len();
        slice_range(d, start, d.len())
    }
}

/// The sub-slice `s[start..end]`.
pub fn slice_range<'a>(s: &'a [u8], start: usize, end: usize) -> (r: &'a [u8])
    requires
        start <= end <= s@.len(),
    ensures
        r@ == s@.subrange(start as int, end as int),
{
    &s[start..end]
}

} // verus!
