//! Reassembly of IPv4 fragments, keyed by (identification, source, destination).
use vstd::prelude::*;
use crate::keyed::{keys_unique, keyed_map, lemma_keyed_index, lemma_keyed_update, lemma_keyed_push, lemma_keyed_empty, lemma_keyed_remove};
use crate::ipv4::IpHeader;

verus! {

/// Idle time after which an incomplete datagram is dropped, in milliseconds.
pub const FRAGMENT_TIMEOUT_MS: u64 = 30000;

/// One fragment: its byte offset in the datagram and its bytes.
#[derive(Clone, Debug)]
pub struct Fragment {
    pub offset: usize,
    pub data: Vec<u8>,
}

impl View for Fragment {
    type V = (usize, Seq<u8>);

    open spec fn view(&self) -> (usize, Seq<u8>) {
        (self.offset, self.data@)
    }
}

pub open spec fn frag_key() -> spec_fn((usize, Seq<u8>)) -> usize {
    |f: (usize, Seq<u8>)| f.0
}

pub open spec fn frags_seq(s: Seq<Fragment>) -> Seq<(usize, Seq<u8>)> {
    s.map_values(|f: Fragment| f@)
}

/// The datagram's bytes from `cur` to `total`, if the fragments cover that span
/// as a chain without gaps.
pub open spec fn assemble(m: Map<usize, (usize, Seq<u8>)>, cur: int, total: int) -> Option<Seq<u8>>
    decreases total - cur,
{
    if cur >= total {
        if cur == total { Some(seq![]) } else { None }
    } else if cur >= 0 && m.contains_key(cur as usize) && m[cur as usize].1.len() > 0 {
        let len = m[cur as usize].1.len() as int;
        if cur + len > total {
            None
        } else {
            match assemble(m, cur + len, total) {
                Some(r) => Some(m[cur as usize].1 + r),
                None => None,
            }
        }
    } else {
        None
    }
}

/// The fragments received so far of one datagram.
pub struct FragmentBucket {
    pub identification: u16,
    pub src_ip: u32,
    pub dst_ip: u32,
    pub fragments: Vec<Fragment>,
    /// End of the datagram, known once the last fragment has arrived.
    pub total: Option<usize>,
    pub last_touch: u64,
}

pub struct BucketView {
    pub key: (u16, u32, u32),
    pub frags: Map<usize, (usize, Seq<u8>)>,
    pub total: Option<usize>,
    pub last_touch: u64,
}

impl View for FragmentBucket {
    type V = BucketView;

    open spec fn view(&self) -> BucketView {
        BucketView {
            key: (self.identification, self.src_ip, self.dst_ip),
            frags: keyed_map(frags_seq(self.fragments@), frag_key()),
            total: self.total,
            last_touch: self.last_touch,
        }
    }
}

impl FragmentBucket {
    pub open spec fn wf(&self) -> bool {
        keys_unique(frags_seq(self.fragments@), frag_key())
    }
}

impl BucketView {
    /// The datagram, once the last fragment has arrived and the chain is complete.
    pub open spec fn datagram(self) -> Option<Seq<u8>> {
        match self.total {
            Some(t) => assemble(self.frags, 0, t as int),
            None => None,
        }
    }

    /// The bucket after fragment `(offset, data)` arrives at `now`; `last` marks the final fragment.
    pub open spec fn spec_add(self, offset: usize, data: Seq<u8>, last: bool, now: u64) -> BucketView {
        BucketView {
            frags: self.frags.insert(offset, (offset, data)),
            total: if last { Some((offset + data.len()) as usize) } else { self.total },
            last_touch: now,
            ..self
        }
    }
}

pub open spec fn empty_bucket(key: (u16, u32, u32), now: u64) -> BucketView {
    BucketView { key, frags: Map::empty(), total: None, last_touch: now }
}

pub open spec fn bucket_key() -> spec_fn(BucketView) -> (u16, u32, u32) {
    |b: BucketView| b.key
}

pub open spec fn buckets_seq(s: Seq<FragmentBucket>) -> Seq<BucketView> {
    s.map_values(|b: FragmentBucket| b@)
}

pub open spec fn stale(b: BucketView, now: u64) -> bool {
    now > b.last_touch && now - b.last_touch > FRAGMENT_TIMEOUT_MS
}

/// Datagrams being reassembled.
pub struct FragmentCache {
    pub buckets: Vec<FragmentBucket>,
}

impl View for FragmentCache {
    type V = Map<(u16, u32, u32), BucketView>;

    open spec fn view(&self) -> Map<(u16, u32, u32), BucketView> {
        keyed_map(buckets_seq(self.buckets@), bucket_key())
    }
}

fn concat_fragments(b: &FragmentBucket, total: usize) -> (r: Option<Vec<u8>>)
    requires
        b.wf(),
    ensures
        match r {
            Some(v) => assemble(b@.frags, 0, total as int) == Some(v@),
            None => assemble(b@.frags, 0, total as int).is_none(),
        },
{
    let ghost m = b@.frags;
    let mut out: Vec<u8> = Vec::new();
    let mut cur: usize = 0;
    while cur < total
        invariant
            cur <= total,
            out@.len() == cur,
            m == b@.frags,
            b.wf(),
            assemble(m, 0, total as int) == match assemble(m, cur as int, total as int) {
                Some(r) => Some(out@ + r),
                None => None::<Seq<u8>>,
            },
        decreases total - cur,
    {
        let mut j: usize = 0;
        while j < b.fragments.len() && b.fragments[j].offset != cur
            invariant
                j <= b.fragments@.len(),
                forall|k: int| 0 <= k < j ==> (#[trigger] b.fragments@[k]).offset != cur,
            decreases b.fragments@.len() - j,
        {
            j = j + 1;
        }
        let found: Option<usize> = if j < b.fragments.len() && b.fragments[j].offset == cur { Some(j) } else { None };
        match found {
            None => {
                assert(j == b.fragments@.len());
                proof {
                    assert forall|k: int| 0 <= k < frags_seq(b.fragments@).len()
                        implies (frag_key())(frags_seq(b.fragments@)[k]) != cur by {
                        assert(frags_seq(b.fragments@)[k] == b.fragments@[k]@);
                        assert(b.fragments@[k].offset != cur);
                    }
                    assert(!m.contains_key(cur));
                }
                return None;
            },
            Some(j) => {
                proof {
                    assert(frags_seq(b.fragments@)[j as int] == b.fragments@[j as int]@);
                    lemma_keyed_index(frags_seq(b.fragments@), frag_key(), j as int);
                }
                let f = &b.fragments[j];
                let len = f.data.len();
                assert(m.contains_key(cur) && m[cur] == f@);
                if len == 0 || len > total - cur {
                    return None;
                }
                let ghost prev = out@;
                crate::wire::append_bytes(&mut out, f.data.as_slice());
                proof {
                    let rest = assemble(m, cur + len, total as int);
                    assert(assemble(m, cur as int, total as int) == match rest {
                        Some(r) => Some(f.data@ + r),
                        None => None::<Seq<u8>>,
                    });
                    if let Some(r) = rest {
                        assert(prev + (f.data@ + r) =~= out@ + r);
                    }
                }
                cur = cur + len;
            },
        }
    }
    assert(out@ + seq![] =~= out@);
    Some(out)
}

impl FragmentBucket {
    pub fn new(identification: u16, src_ip: u32, dst_ip: u32, now: u64) -> (r: FragmentBucket)
        ensures
            r.wf(),
            r@ == empty_bucket((identification, src_ip, dst_ip), now),
    {
        let r = FragmentBucket { identification, src_ip, dst_ip, fragments: Vec::new(), total: None, last_touch: now };
        proof {
            assert(frags_seq(r.fragments@) =~= Seq::<(usize, Seq<u8>)>::empty());
            lemma_keyed_empty(frag_key());
        }
        r
    }

    /// Stores fragment `(offset, data)`; a fragment at the same offset is replaced.
    pub fn add(&mut self, offset: usize, data: Vec<u8>, last: bool, now: u64)
        requires
            old(self).wf(),
            offset + data@.len() <= usize::MAX,
        ensures
            final(self).wf(),
            final(self)@ == old(self)@.spec_add(offset, data@, last, now),
    {
        let len = data.len();
        let ghost dv = data@;
        let mut j: usize = 0;
        while j < self.fragments.len() && self.fragments[j].offset != offset
            invariant
                j <= self.fragments@.len(),
                self.wf(),
                self.fragments@ == old(self).fragments@,
                self.total == old(self).total,
                self.last_touch == old(self).last_touch,
                self.identification == old(self).identification,
                self.src_ip == old(self).src_ip,
                self.dst_ip == old(self).dst_ip,
                forall|k: int| 0 <= k < j ==> (#[trigger] self.fragments@[k]).offset != offset,
            decreases self.fragments@.len() - j,
        {
            j = j + 1;
        }
        let f = Fragment { offset, data };
        let ghost s0 = self.fragments@;
        if j < self.fragments.len() && self.fragments[j].offset == offset {
            proof {
                assert(frags_seq(s0)[j as int] == s0[j as int]@);
                assert(frags_seq(s0.update(j as int, f)) =~= frags_seq(s0).update(j as int, f@));
                lemma_keyed_update(frags_seq(s0), frag_key(), j as int, f@);
            }
            self.fragments.set(j, f);
        } else {
            proof {
                assert forall|k: int| 0 <= k < frags_seq(s0).len()
                    implies (frag_key())(frags_seq(s0)[k]) != offset by {
                    assert(frags_seq(s0)[k] == s0[k]@);
                }
                assert(frags_seq(s0.push(f)) =~= frags_seq(s0).push(f@));
                lemma_keyed_push(frags_seq(s0), frag_key(), f@);
            }
            self.fragments.push(f);
        }
        if last {
            self.total = Some(offset + len);
        }
        self.last_touch = now;
    }
}

impl FragmentCache {
    pub open spec fn wf(&self) -> bool {
        &&& keys_unique(buckets_seq(self.buckets@), bucket_key())
        &&& forall|i: int| 0 <= i < self.buckets@.len() ==> (#[trigger] self.buckets@[i]).wf()
    }

    pub fn new() -> (r: FragmentCache)
        ensures
            r.wf(),
            r@ == Map::<(u16, u32, u32), BucketView>::empty(),
    {
        let r = FragmentCache { buckets: Vec::new() };
        proof {
            assert(buckets_seq(r.buckets@) =~= Seq::<BucketView>::empty());
            lemma_keyed_empty(bucket_key());
        }
        r
    }

    pub fn len(&self) -> (r: usize)
        ensures
            r == self.buckets@.len(),
    {
        self.buckets.len()
    }

    /// The cache after fragment `data` of the datagram that `h` describes arrives
    /// at `now`, and the datagram it completes, if any.
    pub open spec fn spec_add(m: Map<(u16, u32, u32), BucketView>, h: IpHeader, data: Seq<u8>, now: u64)
        -> (Map<(u16, u32, u32), BucketView>, Option<Seq<u8>>)
    {
        let key = (h.identification, h.src_ip, h.dst_ip);
        let b = if m.contains_key(key) { m[key] } else { empty_bucket(key, now) };
        let b2 = b.spec_add(h.fragment_offset, data, !h.more_fragments, now);
        match b2.datagram() {
            Some(d) => (m.remove(key), Some(d)),
            None => (m.insert(key, b2), None),
        }
    }

    /// Stores one fragment; returns the datagram's payload once every part has arrived.
    pub fn add(&mut self, h: &IpHeader, data: Vec<u8>, now: u64) -> (r: Option<Vec<u8>>)
        requires
            old(self).wf(),
            h.fragment_offset + data@.len() <= usize::MAX,
        ensures
            final(self).wf(),
            match r {
                Some(v) => FragmentCache::spec_add(old(self)@, *h, data@, now) == (final(self)@, Some(v@)),
                None => FragmentCache::spec_add(old(self)@, *h, data@, now) == (final(self)@, None::<Seq<u8>>),
            },
    {
        let ghost key = (h.identification, h.src_ip, h.dst_ip);
        let mut i: usize = 0;
        while i < self.buckets.len()
            && !(self.buckets[i].identification == h.identification && self.buckets[i].src_ip == h.src_ip
                && self.buckets[i].dst_ip == h.dst_ip)
            invariant
                i <= self.buckets@.len(),
                self.wf(),
                self.buckets@ == old(self).buckets@,
                key == (h.identification, h.src_ip, h.dst_ip),
                forall|k: int| 0 <= k < i ==> (#[trigger] self.buckets@[k])@.key != key,
            decreases self.buckets@.len() - i,
        {
            assert(!(self.buckets@[i as int].identification == h.identification
                && self.buckets@[i as int].src_ip == h.src_ip && self.buckets@[i as int].dst_ip == h.dst_ip));
            assert(self.buckets@[i as int]@.key != key);
            i = i + 1;
        }
        if i == self.buckets.len() {
            let b = FragmentBucket::new(h.identification, h.src_ip, h.dst_ip, now);
            let ghost s0 = self.buckets@;
            proof {
                assert forall|k: int| 0 <= k < buckets_seq(s0).len()
                    implies (bucket_key())(buckets_seq(s0)[k]) != key by {
                    assert(buckets_seq(s0)[k] == s0[k]@);
                }
                assert(buckets_seq(s0.push(b)) =~= buckets_seq(s0).push(b@));
                lemma_keyed_push(buckets_seq(s0), bucket_key(), b@);
            }
            self.buckets.push(b);
        } else {
            proof {
                assert(buckets_seq(self.buckets@)[i as int] == self.buckets@[i as int]@);
                lemma_keyed_index(buckets_seq(self.buckets@), bucket_key(), i as int);
            }
        }
        let ghost m1 = self@;
        let ghost s1 = self.buckets@;
        proof {
            assert(buckets_seq(s1)[i as int] == s1[i as int]@);
            lemma_keyed_index(buckets_seq(s1), bucket_key(), i as int);
            assert(s1[i as int]@ == (if old(self)@.contains_key(key) { old(self)@[key] } else { empty_bucket(key, now) }));
        }
        self.buckets[i].add(h.fragment_offset, data, !h.more_fragments, now);
        proof {
            assert(buckets_seq(self.buckets@) =~= buckets_seq(s1).update(i as int, self.buckets@[i as int]@));
            lemma_keyed_update(buckets_seq(s1), bucket_key(), i as int, self.buckets@[i as int]@);
            assert(self@ =~= old(self)@.insert(key, self.buckets@[i as int]@));
        }
        let done = match self.buckets[i].total {
            Some(t) => concat_fragments(&self.buckets[i], t),
            None => None,
        };
        match done {
            Some(d) => {
                let ghost s2 = self.buckets@;
                proof {
                    assert(buckets_seq(s2)[i as int] == s2[i as int]@);
                    assert(buckets_seq(s2.remove(i as int)) =~= buckets_seq(s2).remove(i as int));
                    lemma_keyed_remove(buckets_seq(s2), bucket_key(), i as int);
                    assert(s2.remove(i as int).len() == s2.len() - 1);
                }
                self.buckets.remove(i);
                proof {
                    assert forall|k: int| 0 <= k < self.buckets@.len() implies (#[trigger] self.buckets@[k]).wf() by {
                        if k < i {
                            assert(self.buckets@[k] == s2[k]);
                        } else {
                            assert(self.buckets@[k] == s2[k + 1]);
                        }
                    }
                    assert(self@ =~= old(self)@.remove(key));
                }
                Some(d)
            },
            None => None,
        }
    }

    /// Drops every datagram idle for longer than the fragment timeout.
    pub fn evict_stale(&mut self, now: u64)
        requires
            old(self).wf(),
        ensures
            final(self).wf(),
            forall|k: (u16, u32, u32)| #[trigger] final(self)@.contains_key(k)
                == (old(self)@.contains_key(k) && !stale(old(self)@[k], now)),
            forall|k: (u16, u32, u32)| #[trigger] final(self)@.contains_key(k) ==> final(self)@[k] == old(self)@[k],
    {
        let mut old_buckets: Vec<FragmentBucket> = Vec::new();
        std::mem::swap(&mut old_buckets, &mut self.buckets);
        let ghost s = old_buckets@;
        let ghost om = old(self)@;
        let mut kept: Vec<FragmentBucket> = Vec::new();
        proof {
            assert(buckets_seq(kept@) =~= Seq::<BucketView>::empty());
            lemma_keyed_empty(bucket_key());
        }
        while old_buckets.len() > 0
            invariant
                s == old(self).buckets@,
                om == keyed_map(buckets_seq(s), bucket_key()),
                keys_unique(buckets_seq(s), bucket_key()),
                forall|i: int| 0 <= i < s.len() ==> (#[trigger] s[i]).wf(),
                old_buckets@.len() <= s.len(),
                forall|i: int| 0 <= i < old_buckets@.len() ==> old_buckets@[i] == s[i],
                keys_unique(buckets_seq(kept@), bucket_key()),
                forall|i: int| 0 <= i < kept@.len() ==> (#[trigger] kept@[i]).wf(),
                forall|k: (u16, u32, u32)| #[trigger] keyed_map(buckets_seq(kept@), bucket_key()).contains_key(k)
                    == (exists|j: int| old_buckets@.len() <= j < s.len() && s[j]@.key == k && !stale(s[j]@, now)),
                forall|k: (u16, u32, u32)| #[trigger] keyed_map(buckets_seq(kept@), bucket_key()).contains_key(k)
                    ==> keyed_map(buckets_seq(kept@), bucket_key())[k] == om[k],
            decreases old_buckets@.len(),
        {
            let ghost n0 = old_buckets@.len();
            let b = old_buckets.pop().unwrap();
            let ghost j = n0 - 1;
            assert(b == s[j]);
            proof {
                assert(buckets_seq(s)[j] == s[j]@);
                lemma_keyed_index(buckets_seq(s), bucket_key(), j);
            }
            let st = now > b.last_touch && now - b.last_touch > FRAGMENT_TIMEOUT_MS;
            let ghost km = keyed_map(buckets_seq(kept@), bucket_key());
            if !st {
                let ghost k0 = kept@;
                proof {
                    assert(!km.contains_key(b@.key)) by {
                        if km.contains_key(b@.key) {
                            let j2 = choose|j2: int| old_buckets@.len() + 1 <= j2 < s.len() && s[j2]@.key == b@.key
                                && !stale(s[j2]@, now);
                            assert(buckets_seq(s)[j2] == s[j2]@);
                        }
                    }
                    assert(buckets_seq(k0.push(b)) =~= buckets_seq(k0).push(b@));
                    lemma_keyed_push(buckets_seq(k0), bucket_key(), b@);
                }
                kept.push(b);
                proof {
                    assert forall|i: int| 0 <= i < kept@.len() implies (#[trigger] kept@[i]).wf() by {
                        if i < k0.len() {
                            assert(kept@[i] == k0[i]);
                        }
                    }
                }
            }
            proof {
                let nm = keyed_map(buckets_seq(kept@), bucket_key());
                assert forall|k: (u16, u32, u32)| #[trigger] nm.contains_key(k)
                    == (exists|j3: int| old_buckets@.len() <= j3 < s.len() && s[j3]@.key == k && !stale(s[j3]@, now)) by {
                    if nm.contains_key(k) && k != b@.key {
                        assert(km.contains_key(k));
                        let j2 = choose|j2: int| n0 <= j2 < s.len() && s[j2]@.key == k && !stale(s[j2]@, now);
                        assert(old_buckets@.len() <= j2);
                    }
                    if nm.contains_key(k) && k == b@.key {
                        assert(old_buckets@.len() <= j && s[j]@.key == k);
                        if st {
                            assert(km.contains_key(k));
                        }
                    }
                    if exists|j3: int| old_buckets@.len() <= j3 < s.len() && s[j3]@.key == k && !stale(s[j3]@, now) {
                        let j3 = choose|j3: int| old_buckets@.len() <= j3 < s.len() && s[j3]@.key == k && !stale(s[j3]@, now);
                        if j3 != j {
                            assert(buckets_seq(s)[j3] == s[j3]@);
                            assert(km.contains_key(k));
                        }
                    }
                }
            }
        }
        proof {
            let nm = keyed_map(buckets_seq(kept@), bucket_key());
            assert forall|k: (u16, u32, u32)| #[trigger] nm.contains_key(k)
                == (om.contains_key(k) && !stale(om[k], now)) by {
                if om.contains_key(k) {
                    let j = choose|j: int| 0 <= j < buckets_seq(s).len() && (bucket_key())(buckets_seq(s)[j]) == k;
                    assert(buckets_seq(s)[j] == s[j]@);
                    lemma_keyed_index(buckets_seq(s), bucket_key(), j);
                    if nm.contains_key(k) {
                        let j2 = choose|j2: int| 0 <= j2 < s.len() && s[j2]@.key == k && !stale(s[j2]@, now);
                        assert(buckets_seq(s)[j2] == s[j2]@);
                        lemma_keyed_index(buckets_seq(s), bucket_key(), j2);
                    }
                } else if nm.contains_key(k) {
                    let j2 = choose|j2: int| 0 <= j2 < s.len() && s[j2]@.key == k && !stale(s[j2]@, now);
                    assert(buckets_seq(s)[j2] == s[j2]@);
                    lemma_keyed_index(buckets_seq(s), bucket_key(), j2);
                }
            }
        }
        self.buckets = kept;
    }
}

} // verus!
