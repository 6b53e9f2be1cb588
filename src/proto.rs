//! A minimal decoder for the protocol-buffer wire format: varints, field
//! records, and typed lookups by field number.
use vstd::prelude::*;
use crate::ipv4::copy_range;

verus! {

pub open spec fn pow128(k: nat) -> int
    decreases k,
{
    if k == 0 { 1 } else { 128 * pow128((k - 1) as nat) }
}

/// The varint whose bytes start at `s[i + k]`, weighted as digit `k`: its
/// value and the index after it. Ten bytes at most; the tenth may only be 0 or 1.
pub open spec fn varint_from(s: Seq<u8>, i: int, k: nat) -> Option<(int, int)>
    decreases 10 - k,
{
    if k >= 10 || i < 0 || i + k >= s.len() {
        None
    } else {
        let b = s[i + k] as int;
        if k == 9 && b > 1 {
            None
        } else if b < 128 {
            Some((b * pow128(k), i + k + 1))
        } else {
            match varint_from(s, i, k + 1) {
                Some((v, e)) => Some(((b - 128) * pow128(k) + v, e)),
                None => None,
            }
        }
    }
}

/// The varint at `s[i..]`.
pub open spec fn varint(s: Seq<u8>, i: int) -> Option<(int, int)> {
    varint_from(s, i, 0)
}

proof fn lemma_pow128_values()
    ensures
        pow128(0) == 1,
        pow128(1) == 128,
        pow128(2) == 16384,
        pow128(3) == 2097152,
        pow128(4) == 268435456,
        pow128(5) == 34359738368,
        pow128(6) == 4398046511104,
        pow128(7) == 562949953421312,
        pow128(8) == 72057594037927936,
        pow128(9) == 9223372036854775808,
{
    reveal_with_fuel(pow128, 10);
}

proof fn lemma_pow128_pos(k: nat)
    ensures
        pow128(k) >= 1,
    decreases k,
{
    if k > 0 {
        lemma_pow128_pos((k - 1) as nat);
    }
}

proof fn lemma_pow128_step(k: nat)
    requires
        k <= 9,
    ensures
        k < 9 ==> pow128(k) <= 72057594037927936,
        k < 9 ==> pow128(k + 1) == 128 * pow128(k),
        k == 9 ==> pow128(k) == 9223372036854775808,
{
    lemma_pow128_values();
    assert(pow128(k + 1) == 128 * pow128(k));
    if k == 0 {} else if k == 1 {} else if k == 2 {} else if k == 3 {} else if k == 4 {}
    else if k == 5 {} else if k == 6 {} else if k == 7 {} else if k == 8 {} else {}
}

/// Reads the varint at `s[i..]`: its value and the index after it.
pub fn read_varint(s: &[u8], i: usize) -> (r: Option<(u64, usize)>)
    ensures
        match r {
            Some((v, e)) => varint(s@, i as int) == Some((v as int, e as int)),
            None => varint(s@, i as int).is_none(),
        },
{
    proof { lemma_pow128_values(); }
    let n = s.len();
    let mut acc: u64 = 0;
    let mut mult: u64 = 1;
    let mut k: usize = 0;
    while k < 10
        invariant
            k <= 10,
            n == s@.len(),
            mult as int == pow128(k as nat),
            0 <= acc < mult,
            varint(s@, i as int) == match varint_from(s@, i as int, k as nat) {
                Some((v, e)) => Some((acc + v, e)),
                None => None::<(int, int)>,
            },
        decreases 10 - k,
    {
        if i >= n || n - i <= k {
            return None;
        }
        let b = s[i + k];
        if k == 9 && b > 1 {
            return None;
        }
        proof { lemma_pow128_step(k as nat); }
        if b < 128 {
            if k < 9 {
                assert(acc + (b as int) * (mult as int) < 128 * (mult as int)) by (nonlinear_arith)
                    requires
                        acc < mult,
                        b < 128,
                {
                }
            } else {
                assert(acc + (b as int) * (mult as int) <= acc + mult) by (nonlinear_arith)
                    requires
                        b <= 1,
                        mult >= 0,
                {
                }
            }
            let v = acc + (b as u64) * mult;
            return Some((v, i + k + 1));
        }
        assert(k < 9);
        assert((b as int - 128) * (mult as int) <= 127 * (mult as int)) by (nonlinear_arith)
            requires
                128 <= b < 256,
                mult >= 0,
        {
        }
        assert(acc + (b as int - 128) * (mult as int) < 128 * (mult as int)) by (nonlinear_arith)
            requires
                acc < mult,
                128 <= b < 256,
        {
        }
        let d = ((b - 128) as u64) * mult;
        acc = acc + d;
        mult = mult * 128;
        k = k + 1;
    }
    None
}

/// One field record: number, wire type, and the value or the bytes it carries.
#[derive(Clone, Debug)]
pub struct Field {
    pub number: u64,
    pub wire: u8,
    pub value: u64,
    pub data: Vec<u8>,
}

pub struct FieldView {
    pub number: u64,
    pub wire: u8,
    pub value: u64,
    pub data: Seq<u8>,
}

impl View for Field {
    type V = FieldView;

    open spec fn view(&self) -> FieldView {
        FieldView { number: self.number, wire: self.wire, value: self.value, data: self.data@ }
    }
}

pub open spec fn fields_view(v: Seq<Field>) -> Seq<FieldView> {
    v.map_values(|f: Field| f@)
}

/// The record at `s[i..]` and the index after it. Wire types 0 (varint),
/// 1 (eight bytes), 2 (length-delimited) and 5 (four bytes) are read; field
/// number 0 and any other wire type are errors.
pub open spec fn field_at(s: Seq<u8>, i: int) -> Option<(FieldView, int)> {
    match varint(s, i) {
        None => None,
        Some((key, j)) => {
            let number = key / 8;
            let wire = key % 8;
            if number == 0 {
                None
            } else if wire == 0 {
                match varint(s, j) {
                    Some((v, e)) => Some((FieldView { number: number as u64, wire: 0, value: v as u64, data: seq![] }, e)),
                    None => None,
                }
            } else if wire == 2 {
                match varint(s, j) {
                    Some((len, d)) => if d + len <= s.len() {
                        Some((FieldView { number: number as u64, wire: 2, value: 0, data: s.subrange(d, d + len) }, d + len))
                    } else {
                        None
                    },
                    None => None,
                }
            } else if wire == 1 && j + 8 <= s.len() {
                Some((FieldView { number: number as u64, wire: 1, value: 0, data: s.subrange(j, j + 8) }, j + 8))
            } else if wire == 5 && j + 4 <= s.len() {
                Some((FieldView { number: number as u64, wire: 5, value: 0, data: s.subrange(j, j + 4) }, j + 4))
            } else {
                None
            }
        },
    }
}

pub proof fn lemma_varint_end(s: Seq<u8>, i: int, k: nat)
    ensures
        varint_from(s, i, k) matches Some((v, e)) ==> i + k < e <= s.len() && 0 <= v,
    decreases 10 - k,
{
    lemma_pow128_pos(k);
    if !(k >= 10 || i < 0 || i + k >= s.len()) {
        let b = s[i + k] as int;
        if b >= 128 && !(k == 9 && b > 1) {
            lemma_varint_end(s, i, k + 1);
        }
    }
}

pub proof fn lemma_field_end(s: Seq<u8>, i: int)
    ensures
        field_at(s, i) matches Some((f, e)) ==> i < e <= s.len(),
{
    lemma_varint_end(s, i, 0);
    if let Some((key, j)) = varint(s, i) {
        lemma_varint_end(s, j, 0);
    }
}

/// The records of `s[i..]`, or `None` if any is malformed.
pub open spec fn fields_from(s: Seq<u8>, i: int) -> Option<Seq<FieldView>>
    decreases s.len() - i,
{
    if i < 0 || i >= s.len() {
        Some(seq![])
    } else {
        match field_at(s, i) {
            None => None,
            Some((f, e)) => if e <= i || e > s.len() {
                None
            } else {
                match fields_from(s, e) {
                    Some(rest) => Some(seq![f] + rest),
                    None => None,
                }
            },
        }
    }
}

/// The records of a whole message.
pub open spec fn fields(s: Seq<u8>) -> Option<Seq<FieldView>> {
    fields_from(s, 0)
}

fn read_field(s: &[u8], i: usize) -> (r: Option<(Field, usize)>)
    ensures
        match r {
            Some((f, e)) => field_at(s@, i as int) == Some((f@, e as int)),
            None => field_at(s@, i as int).is_none(),
        },
{
    let n = s.len();
    let (key, j) = match read_varint(s, i) {
        Some(x) => x,
        None => return None,
    };
    proof { lemma_varint_end(s@, i as int, 0); }
    let number = key / 8;
    let wire = key % 8;
    if number == 0 {
        return None;
    }
    if wire == 0 {
        match read_varint(s, j) {
            Some((v, e)) => {
                let f = Field { number, wire: 0, value: v, data: Vec::new() };
                assert(f@.data =~= seq![]);
                Some((f, e))
            },
            None => None,
        }
    } else if wire == 2 {
        match read_varint(s, j) {
            Some((len, d)) => {
                proof { lemma_varint_end(s@, j as int, 0); }
                if len as usize as u64 == len && d <= n && (len as usize) <= n - d {
                    let data = copy_range(s, d, d + len as usize);
                    Some((Field { number, wire: 2, value: 0, data }, d + len as usize))
                } else {
                    assert(d + len > n);
                    None
                }
            },
            None => None,
        }
    } else if wire == 1 && j <= n && n - j >= 8 {
        let data = copy_range(s, j, j + 8);
        Some((Field { number, wire: 1, value: 0, data }, j + 8))
    } else if wire == 5 && j <= n && n - j >= 4 {
        let data = copy_range(s, j, j + 4);
        Some((Field { number, wire: 5, value: 0, data }, j + 4))
    } else {
        None
    }
}

/// Splits a message into its field records.
pub fn parse_fields(s: &[u8]) -> (r: Option<Vec<Field>>)
    ensures
        match r {
            Some(v) => fields(s@) == Some(fields_view(v@)),
            None => fields(s@).is_none(),
        },
{
    let n = s.len();
    let mut out: Vec<Field> = Vec::new();
    let mut i: usize = 0;
    while i < n
        invariant
            i <= n,
            n == s@.len(),
            fields(s@) == match fields_from(s@, i as int) {
                Some(rest) => Some(fields_view(out@) + rest),
                None => None::<Seq<FieldView>>,
            },
        decreases n - i,
    {
        let (f, e) = match read_field(s, i) {
            Some(x) => x,
            None => return None,
        };
        proof { lemma_field_end(s@, i as int); }
        let ghost prev = out@;
        out.push(f);
        proof {
            assert(fields_view(out@) =~= fields_view(prev).push(f@));
            if let Some(rest) = fields_from(s@, e as int) {
                assert(fields_view(prev) + (seq![f@] + rest) =~= fields_view(out@) + rest);
            }
        }
        i = e;
    }
    assert(fields_view(out@) + seq![] =~= fields_view(out@));
    Some(out)
}

/// The last varint record numbered `n` in `fs`.
pub open spec fn last_varint(fs: Seq<FieldView>, n: u64) -> Option<u64>
    decreases fs.len(),
{
    if fs.len() == 0 {
        None
    } else {
        let f = fs.last();
        if f.number == n && f.wire == 0 {
            Some(f.value)
        } else {
            last_varint(fs.drop_last(), n)
        }
    }
}

/// The last length-delimited record numbered `n` in `fs`.
pub open spec fn last_bytes(fs: Seq<FieldView>, n: u64) -> Option<Seq<u8>>
    decreases fs.len(),
{
    if fs.len() == 0 {
        None
    } else {
        let f = fs.last();
        if f.number == n && f.wire == 2 {
            Some(f.data)
        } else {
            last_bytes(fs.drop_last(), n)
        }
    }
}

/// Every length-delimited record numbered `n` in `fs`, in order.
pub open spec fn all_bytes(fs: Seq<FieldView>, n: u64) -> Seq<Seq<u8>>
    decreases fs.len(),
{
    if fs.len() == 0 {
        seq![]
    } else {
        let f = fs.last();
        if f.number == n && f.wire == 2 {
            all_bytes(fs.drop_last(), n).push(f.data)
        } else {
            all_bytes(fs.drop_last(), n)
        }
    }
}

/// Looks up the last varint record numbered `n`.
pub fn get_varint(fs: &Vec<Field>, n: u64) -> (r: Option<u64>)
    ensures
        r == last_varint(fields_view(fs@), n),
{
    let mut i: usize = fs.len();
    assert(fs@.take(i as int) =~= fs@);
    while i > 0
        invariant
            i <= fs@.len(),
            last_varint(fields_view(fs@), n) == last_varint(fields_view(fs@.take(i as int)), n),
        decreases i,
    {
        let ghost t = fields_view(fs@.take(i as int));
        assert(t.drop_last() =~= fields_view(fs@.take(i - 1)));
        assert(t.last() == fs@[i - 1]@);
        if fs[i - 1].number == n && fs[i - 1].wire == 0 {
            return Some(fs[i - 1].value);
        }
        i = i - 1;
    }
    assert(fields_view(fs@.take(0)) =~= seq![]);
    None
}

/// Looks up the last length-delimited record numbered `n`.
pub fn get_bytes(fs: &Vec<Field>, n: u64) -> (r: Option<Vec<u8>>)
    ensures
        match r {
            Some(b) => last_bytes(fields_view(fs@), n) == Some(b@),
            None => last_bytes(fields_view(fs@), n).is_none(),
        },
{
    let mut i: usize = fs.len();
    assert(fs@.take(i as int) =~= fs@);
    while i > 0
        invariant
            i <= fs@.len(),
            last_bytes(fields_view(fs@), n) == last_bytes(fields_view(fs@.take(i as int)), n),
        decreases i,
    {
        let ghost t = fields_view(fs@.take(i as int));
        assert(t.drop_last() =~= fields_view(fs@.take(i - 1)));
        assert(t.last() == fs@[i - 1]@);
        if fs[i - 1].number == n && fs[i - 1].wire == 2 {
            let d = copy_range(fs[i - 1].data.as_slice(), 0, fs[i - 1].data.len());
            assert(d@ =~= fs@[i - 1].data@);
            return Some(d);
        }
        i = i - 1;
    }
    assert(fields_view(fs@.take(0)) =~= seq![]);
    None
}

/// Collects every length-delimited record numbered `n`, in order.
pub fn get_all_bytes(fs: &Vec<Field>, n: u64) -> (r: Vec<Vec<u8>>)
    ensures
        r@.map_values(|x: Vec<u8>| x@) == all_bytes(fields_view(fs@), n),
{
    let mut out: Vec<Vec<u8>> = Vec::new();
    let mut i: usize = 0;
    while i < fs.len()
        invariant
            i <= fs@.len(),
            out@.map_values(|x: Vec<u8>| x@) == all_bytes(fields_view(fs@.take(i as int)), n),
        decreases fs@.len() - i,
    {
        let ghost t = fields_view(fs@.take(i + 1));
        assert(t.drop_last() =~= fields_view(fs@.take(i as int)));
        assert(t.last() == fs@[i as int]@);
        if fs[i].number == n && fs[i].wire == 2 {
            let d = copy_range(fs[i].data.as_slice(), 0, fs[i].data.len());
            assert(d@ =~= fs@[i as int].data@);
            let ghost prev = out@;
            out.push(d);
            assert(out@.map_values(|x: Vec<u8>| x@) =~= prev.map_values(|x: Vec<u8>| x@).push(d@));
        }
        i = i + 1;
    }
    assert(fs@.take(fs@.len() as int) =~= fs@);
    out
}

} // verus!
