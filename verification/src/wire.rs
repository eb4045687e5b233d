//! Byte formats: fixed-width integers, variable-width integers, and records
//! with a length in front.
use vstd::prelude::*;

verus! {

/// 256 to the power `w`.
pub open spec fn pow256(w: nat) -> nat
    decreases w,
{
    if w == 0 {
        1
    } else {
        256 * pow256((w - 1) as nat)
    }
}

/// The low `w` bytes of `n`, least significant byte first.
pub open spec fn le_bytes(n: nat, w: nat) -> Seq<u8>
    decreases w,
{
    if w == 0 {
        Seq::empty()
    } else {
        seq![(n % 256) as u8] + le_bytes(n / 256, (w - 1) as nat)
    }
}

/// The number that bytes give, least significant byte first.
pub open spec fn le_value(s: Seq<u8>) -> nat
    decreases s.len(),
{
    if s.len() == 0 {
        0
    } else {
        s[0] as nat + 256 * le_value(s.drop_first())
    }
}

/// The low `w` bytes of `n`, most significant byte first.
pub open spec fn be_bytes(n: nat, w: nat) -> Seq<u8> {
    le_bytes(n, w).reverse()
}

/// The number that bytes give, most significant byte first.
pub open spec fn be_value(s: Seq<u8>) -> nat {
    le_value(s.reverse())
}

/// `n` in groups of seven bits, least significant group first; every byte but
/// the last has its top bit set.
pub open spec fn uvarint(n: nat) -> Seq<u8>
    decreases n,
{
    if n < 128 {
        seq![n as u8]
    } else {
        seq![(128 + n % 128) as u8] + uvarint(n / 128)
    }
}

/// The number at the front of `s` in the format of [`uvarint`], and how many
/// bytes it takes.
pub open spec fn uvarint_value(s: Seq<u8>) -> Option<(nat, nat)>
    decreases s.len(),
{
    if s.len() == 0 {
        None
    } else if s[0] < 128 {
        Some((s[0] as nat, 1))
    } else {
        match uvarint_value(s.drop_first()) {
            None => None,
            Some((high, used)) => Some((((s[0] - 128) + 128 * high) as nat, used + 1)),
        }
    }
}

/// One record: its length in four bytes, least significant first, and its bytes.
pub open spec fn record(data: Seq<u8>) -> Seq<u8> {
    le_bytes(data.len(), 4) + data
}

/// Records one after the other.
pub open spec fn records(items: Seq<Seq<u8>>) -> Seq<u8>
    decreases items.len(),
{
    if items.len() == 0 {
        Seq::empty()
    } else {
        record(items[0]) + records(items.drop_first())
    }
}

/// The first `count` records of `data`, if it holds that many.
pub open spec fn parse_records(data: Seq<u8>, count: nat) -> Option<Seq<Seq<u8>>>
    decreases count,
{
    if count == 0 {
        Some(Seq::empty())
    } else if data.len() < 4 {
        None
    } else {
        let n = le_value(data.subrange(0, 4)) as int;
        if data.len() < 4 + n {
            None
        } else {
            match parse_records(data.subrange(4 + n, data.len() as int), (count - 1) as nat) {
                None => None,
                Some(rest) => Some(seq![data.subrange(4, 4 + n)] + rest),
            }
        }
    }
}

/// The contents of a list of byte strings.
pub open spec fn contents(v: Seq<Vec<u8>>) -> Seq<Seq<u8>> {
    v.map_values(|x: Vec<u8>| x@)
}

proof fn lemma_pow256_values()
    ensures
        pow256(1) == 256,
        pow256(4) == 0x1_0000_0000,
        pow256(8) == 0x1_0000_0000_0000_0000,
{
    reveal_with_fuel(pow256, 9);
}

/// `w` bytes hold the numbers below 256 to the power `w`.
pub proof fn lemma_le_value_bound(s: Seq<u8>)
    ensures
        le_value(s) < pow256(s.len()),
    decreases s.len(),
{
    if s.len() > 0 {
        lemma_le_value_bound(s.drop_first());
    }
}

/// Four bytes hold the numbers that fit in 32 bits, eight those that fit in 64.
pub proof fn lemma_width_bounds(s: Seq<u8>)
    ensures
        s.len() == 4 ==> le_value(s) < 0x1_0000_0000 && be_value(s) < 0x1_0000_0000,
        s.len() == 8 ==> le_value(s) < 0x1_0000_0000_0000_0000,
{
    lemma_pow256_values();
    lemma_le_value_bound(s);
    lemma_le_value_bound(s.reverse());
}

/// Reading back the bytes of a number that fits gives the number.
pub proof fn lemma_le_roundtrip(n: nat, w: nat)
    requires
        n < pow256(w),
    ensures
        le_bytes(n, w).len() == w,
        le_value(le_bytes(n, w)) == n,
    decreases w,
{
    if w > 0 {
        lemma_le_roundtrip(n / 256, (w - 1) as nat);
        let s = le_bytes(n, w);
        assert(s.drop_first() =~= le_bytes(n / 256, (w - 1) as nat));
    }
}

/// The number of bytes of a fixed-width integer.
pub proof fn lemma_le_len(n: nat, w: nat)
    ensures
        le_bytes(n, w).len() == w,
        be_bytes(n, w).len() == w,
    decreases w,
{
    if w > 0 {
        lemma_le_len(n / 256, (w - 1) as nat);
    }
}

/// A 32-bit number survives being written and read in either byte order.
pub proof fn lemma_u32_roundtrip(n: u32)
    ensures
        le_value(le_bytes(n as nat, 4)) == n,
        be_value(be_bytes(n as nat, 4)) == n,
{
    lemma_pow256_values();
    lemma_le_roundtrip(n as nat, 4);
    assert(le_bytes(n as nat, 4).reverse().reverse() =~= le_bytes(n as nat, 4));
}

/// A 64-bit number survives being written and read.
pub proof fn lemma_u64_roundtrip(n: u64)
    ensures
        le_bytes(n as nat, 8).len() == 8,
        le_value(le_bytes(n as nat, 8)) == n,
{
    lemma_pow256_values();
    lemma_le_roundtrip(n as nat, 8);
}

/// A variable-width integer is read back whatever follows it.
pub proof fn lemma_uvarint_roundtrip(n: nat, rest: Seq<u8>)
    ensures
        uvarint_value(uvarint(n) + rest) == Some((n, uvarint(n).len())),
    decreases n,
{
    let s = uvarint(n) + rest;
    if n >= 128 {
        lemma_uvarint_roundtrip(n / 128, rest);
        assert(s.drop_first() =~= uvarint(n / 128) + rest);
        assert(s[0] == (128 + n % 128) as u8);
    } else {
        assert(s[0] == n as u8);
    }
}

/// Records are read back as they were written, whatever follows them.
pub proof fn lemma_records_roundtrip(items: Seq<Seq<u8>>, rest: Seq<u8>)
    requires
        forall|i: int| 0 <= i < items.len() ==> (#[trigger] items[i]).len() <= u32::MAX,
    ensures
        parse_records(records(items) + rest, items.len()) == Some(items),
    decreases items.len(),
{
    let data = records(items) + rest;
    if items.len() > 0 {
        let head = items[0];
        let tail = items.drop_first();
        assert forall|i: int| 0 <= i < tail.len() implies (#[trigger] tail[i]).len() <= u32::MAX by {
            assert(tail[i] == items[i + 1]);
        }
        lemma_records_roundtrip(tail, rest);
        lemma_pow256_values();
        lemma_le_roundtrip(head.len(), 4);
        let n = head.len() as int;
        assert(data.subrange(0, 4) =~= le_bytes(head.len(), 4));
        assert(data.subrange(4, 4 + n) =~= head);
        assert(data.subrange(4 + n, data.len() as int) =~= records(tail) + rest);
        assert(items =~= seq![head] + tail);
    } else {
        assert(items =~= Seq::<Seq<u8>>::empty());
    }
}

proof fn lemma_records_push(items: Seq<Seq<u8>>, x: Seq<u8>)
    ensures
        records(items.push(x)) == records(items) + record(x),
    decreases items.len(),
{
    let all = items.push(x);
    if items.len() > 0 {
        assert(all.drop_first() =~= items.drop_first().push(x));
        lemma_records_push(items.drop_first(), x);
        assert(records(all) =~= records(items) + record(x));
    } else {
        assert(all.drop_first() =~= items);
        assert(all[0] == x);
        assert(records(items) =~= Seq::<u8>::empty());
        assert(records(all) =~= records(items) + record(x));
    }
}

proof fn lemma_pow256_positive(w: nat)
    ensures
        pow256(w) > 0,
    decreases w,
{
    if w > 0 {
        lemma_pow256_positive((w - 1) as nat);
    }
}

/// Appends the low `w` bytes of `n`, least significant byte first.
pub fn put_le(buf: &mut Vec<u8>, n: u64, w: usize)
    ensures
        final(buf)@ == old(buf)@ + le_bytes(n as nat, w as nat),
{
    let mut rest: u64 = n;
    let mut i: usize = 0;
    let ghost start = buf@;
    assert(buf@ =~= start + le_bytes(n as nat, 0));
    while i < w
        invariant
            i <= w,
            buf@ + le_bytes(rest as nat, (w - i) as nat) == start + le_bytes(n as nat, w as nat),
        decreases w - i,
    {
        proof {
            let b = (rest % 256) as u8;
            assert(buf@.push(b) + le_bytes((rest / 256) as nat, (w - i - 1) as nat) =~= buf@
                + le_bytes(rest as nat, (w - i) as nat));
        }
        buf.push((rest % 256) as u8);
        rest = rest / 256;
        i += 1;
    }
    assert(buf@ + le_bytes(rest as nat, 0) =~= buf@);
}

/// Appends the four bytes of `n`, most significant byte first.
pub fn put_u32_be(buf: &mut Vec<u8>, n: u32)
    ensures
        final(buf)@ == old(buf)@ + be_bytes(n as nat, 4),
{
    let ghost start = buf@;
    proof {
        reveal_with_fuel(le_bytes, 5);
        let m = n as nat;
        assert(m / 256 / 256 == m / 65536);
        assert(m / 256 / 256 / 256 == m / 16777216);
        lemma_le_len(m, 4);
    }
    buf.push((n / 16777216) as u8);
    buf.push(((n / 65536) % 256) as u8);
    buf.push(((n / 256) % 256) as u8);
    buf.push((n % 256) as u8);
    assert(buf@ =~= start + be_bytes(n as nat, 4));
}

/// Appends bytes.
pub fn put_bytes(buf: &mut Vec<u8>, data: &[u8])
    ensures
        final(buf)@ == old(buf)@ + data@,
{
    let ghost start = buf@;
    let mut i: usize = 0;
    assert(buf@ =~= start + data@.subrange(0, 0));
    while i < data.len()
        invariant
            i <= data.len(),
            buf@ == start + data@.subrange(0, i as int),
        decreases data.len() - i,
    {
        buf.push(data[i]);
        i += 1;
        assert(data@.subrange(0, i as int) =~= data@.subrange(0, i - 1).push(data@[i - 1]));
        assert(buf@ =~= start + data@.subrange(0, i as int));
    }
    assert(data@.subrange(0, data@.len() as int) =~= data@);
}

/// The number in `w` bytes at `pos`, least significant byte first.
pub fn get_le(data: &[u8], pos: usize, w: usize) -> (n: u64)
    requires
        pos + w <= data@.len(),
        w <= 8,
    ensures
        n == le_value(data@.subrange(pos as int, pos + w)),
{
    let total: usize = data.len();
    let mut v: u64 = 0;
    let mut i: usize = w;
    assert(data@.subrange(pos + w, pos + w) =~= Seq::<u8>::empty());
    while i > 0
        invariant
            i <= w,
            w <= 8,
            pos + w <= data@.len(),
            data@.len() == total,
            v == le_value(data@.subrange(pos + i, pos + w)),
        decreases i,
    {
        i -= 1;
        proof {
            let s = data@.subrange(pos + i, pos + w);
            assert(s.drop_first() =~= data@.subrange(pos + i + 1, pos + w));
            assert(s[0] == data@[pos + i]);
            lemma_le_value_bound(s);
            lemma_pow256_values();
            lemma_pow256_monotone(s.len(), 8);
        }
        v = v * 256 + data[pos + i] as u64;
    }
    v
}

proof fn lemma_pow256_monotone(a: nat, b: nat)
    requires
        a <= b,
    ensures
        pow256(a) <= pow256(b),
    decreases b,
{
    if a < b {
        lemma_pow256_monotone(a, (b - 1) as nat);
        lemma_pow256_positive((b - 1) as nat);
    }
}

/// The number in four bytes, most significant byte first.
pub fn get_u32_be(data: &[u8]) -> (n: u32)
    requires
        data@.len() == 4,
    ensures
        n == be_value(data@),
{
    proof {
        reveal_with_fuel(le_value, 5);
        let s = data@.reverse();
        assert(s[0] == data@[3] && s.drop_first()[0] == data@[2]);
        assert(s.drop_first().drop_first()[0] == data@[1]);
        assert(s.drop_first().drop_first().drop_first()[0] == data@[0]);
        assert(s.drop_first().drop_first().drop_first().drop_first().len() == 0);
    }
    data[0] as u32 * 16777216 + data[1] as u32 * 65536 + data[2] as u32 * 256 + data[3] as u32
}

/// A copy of part of `data`.
pub fn copy_range(data: &[u8], from: usize, to: usize) -> (out: Vec<u8>)
    requires
        from <= to <= data@.len(),
    ensures
        out@ == data@.subrange(from as int, to as int),
{
    let mut out: Vec<u8> = Vec::new();
    let mut i: usize = from;
    assert(out@ =~= data@.subrange(from as int, from as int));
    while i < to
        invariant
            from <= i <= to <= data@.len(),
            out@ == data@.subrange(from as int, i as int),
        decreases to - i,
    {
        out.push(data[i]);
        i += 1;
        assert(out@ =~= data@.subrange(from as int, i as int));
    }
    out
}

/// Copies of the byte strings of `v`.
pub fn copy_list(v: &Vec<Vec<u8>>) -> (out: Vec<Vec<u8>>)
    ensures
        contents(out@) == contents(v@),
{
    let mut out: Vec<Vec<u8>> = Vec::new();
    let mut i: usize = 0;
    while i < v.len()
        invariant
            i <= v@.len(),
            contents(out@) == contents(v@).subrange(0, i as int),
        decreases v.len() - i,
    {
        let ghost before = contents(out@);
        let item = copy_range(v[i].as_slice(), 0, v[i].len());
        assert(item@ =~= v@[i as int]@);
        out.push(item);
        i += 1;
        assert(contents(out@) =~= before.push(v@[i - 1]@));
        assert(contents(out@) =~= contents(v@).subrange(0, i as int));
    }
    assert(contents(v@).subrange(0, v@.len() as int) =~= contents(v@));
    out
}

/// Appends the records that hold the byte strings of `items`.
pub fn put_records(buf: &mut Vec<u8>, items: &Vec<Vec<u8>>)
    ensures
        final(buf)@ == old(buf)@ + records(contents(items@)),
{
    let ghost start = buf@;
    let ghost all = contents(items@);
    let mut i: usize = 0;
    assert(all.subrange(0, 0) =~= Seq::<Seq<u8>>::empty());
    assert(buf@ =~= start + records(all.subrange(0, 0)));
    while i < items.len()
        invariant
            i <= items@.len(),
            all == contents(items@),
            buf@ == start + records(all.subrange(0, i as int)),
        decreases items.len() - i,
    {
        let ghost before = buf@;
        put_le(buf, items[i].len() as u64, 4);
        put_bytes(buf, items[i].as_slice());
        proof {
            let x = items@[i as int]@;
            assert(all.subrange(0, i + 1) =~= all.subrange(0, i as int).push(x));
            lemma_records_push(all.subrange(0, i as int), x);
            assert(buf@ =~= start + (records(all.subrange(0, i as int)) + record(x)));
        }
        i += 1;
    }
    assert(all.subrange(0, all.len() as int) =~= all);
}

/// The result of reading `done` records before the others.
pub open spec fn with_front(
    done: Seq<Seq<u8>>,
    rest: Option<Seq<Seq<u8>>>,
) -> Option<Seq<Seq<u8>>> {
    match rest {
        None => None,
        Some(r) => Some(done + r),
    }
}

/// Reads `count` records from `pos` on, see [`parse_records`].
pub fn get_records(data: &[u8], pos: usize, count: u64) -> (r: Option<Vec<Vec<u8>>>)
    requires
        pos <= data@.len(),
    ensures
        match r {
            Some(v) => parse_records(data@.subrange(pos as int, data@.len() as int), count as nat)
                == Some(contents(v@)),
            None => parse_records(data@.subrange(pos as int, data@.len() as int), count as nat)
                is None,
        },
{
    let mut out: Vec<Vec<u8>> = Vec::new();
    let mut at: usize = pos;
    let mut left: u64 = count;
    let ghost whole = parse_records(data@.subrange(pos as int, data@.len() as int), count as nat);
    proof {
        let rest = parse_records(data@.subrange(at as int, data@.len() as int), left as nat);
        match rest {
            Some(r) => {
                assert(contents(out@) + r =~= r);
            },
            None => {},
        }
    }
    while left > 0
        invariant
            pos <= at <= data@.len(),
            whole == parse_records(data@.subrange(pos as int, data@.len() as int), count as nat),
            whole == with_front(
                contents(out@),
                parse_records(data@.subrange(at as int, data@.len() as int), left as nat),
            ),
        decreases left,
    {
        let ghost rest = data@.subrange(at as int, data@.len() as int);
        if data.len() - at < 4 {
            return None;
        }
        assert(rest.subrange(0, 4) =~= data@.subrange(at as int, at + 4));
        let n: usize = get_le(data, at, 4) as usize;
        proof {
            lemma_width_bounds(data@.subrange(at as int, at + 4));
        }
        if data.len() - at - 4 < n {
            return None;
        }
        let ghost before = contents(out@);
        let item = copy_range(data, at + 4, at + 4 + n);
        out.push(item);
        proof {
            let tail = rest.subrange(4 + n, rest.len() as int);
            assert(tail =~= data@.subrange(at + 4 + n, data@.len() as int));
            assert(rest.subrange(4, 4 + n) =~= item@);
            assert(contents(out@) =~= before.push(item@));
            match parse_records(tail, (left - 1) as nat) {
                Some(r) => {
                    assert(before + (seq![item@] + r) =~= contents(out@) + r);
                },
                None => {},
            }
        }
        at = at + 4 + n;
        left -= 1;
    }
    assert(contents(out@) + Seq::<Seq<u8>>::empty() =~= contents(out@));
    Some(out)
}

/// Appends `n` in groups of seven bits, see [`uvarint`].
pub fn put_uvarint(buf: &mut Vec<u8>, n: u64)
    ensures
        final(buf)@ == old(buf)@ + uvarint(n as nat),
{
    let ghost start = buf@;
    let mut rest: u64 = n;
    while rest >= 128
        invariant
            buf@ + uvarint(rest as nat) == start + uvarint(n as nat),
        decreases rest,
    {
        proof {
            let b = (128 + rest % 128) as u8;
            assert(buf@.push(b) + uvarint((rest / 128) as nat) =~= buf@ + uvarint(rest as nat));
        }
        buf.push((128 + rest % 128) as u8);
        rest = rest / 128;
    }
    buf.push(rest as u8);
    assert(buf@ =~= start + uvarint(n as nat));
}

/// `data` with its length in front, in four bytes, most significant first.
pub fn frame_be(data: &[u8]) -> (out: Vec<u8>)
    ensures
        out@ == be_bytes(data@.len(), 4) + data@,
{
    let mut out: Vec<u8> = Vec::new();
    let ghost n = data@.len();
    proof {
        lemma_le_truncated(n, 4);
        lemma_pow256_values();
    }
    let low: u32 = (data.len() as u64 % 0x1_0000_0000) as u32;
    put_u32_be(&mut out, low);
    assert(out@ =~= be_bytes(n, 4));
    put_bytes(&mut out, data);
    out
}

/// Only the part of a number that fits in `w` bytes is written.
pub proof fn lemma_le_truncated(n: nat, w: nat)
    ensures
        le_bytes(n % pow256(w), w) == le_bytes(n, w),
    decreases w,
{
    lemma_pow256_positive(w);
    if w > 0 {
        let p = pow256((w - 1) as nat);
        lemma_pow256_positive((w - 1) as nat);
        lemma_le_truncated(n / 256, (w - 1) as nat);
        let m = n % pow256(w);
        vstd::arithmetic::div_mod::lemma_mod_breakdown(n as int, 256, p as int);
        assert(m == 256 * ((n / 256) % p) + n % 256);
        assert(m % 256 == n % 256);
        assert(m / 256 == (n / 256) % p);
    }
}

/// Each byte of a number stands for its place: the byte at place `i` counts how
/// often 256 to the power `i` goes into what the places above it leave. With the
/// least significant byte first, the first byte is the remainder by 256; with
/// the most significant byte first the order is turned round.
pub proof fn law_bytes_by_place(n: nat, w: nat, i: int)
    requires
        0 <= i < w,
    ensures
        le_bytes(n, w).len() == w,
        le_bytes(n, w)[i] == (n / pow256(i as nat)) % 256,
        be_bytes(n, w).len() == w,
        be_bytes(n, w)[w - 1 - i] == le_bytes(n, w)[i],
        pow256(0) == 1,
        pow256((i + 1) as nat) == 256 * pow256(i as nat),
    decreases w,
{
    lemma_le_len(n, w);
    if i > 0 {
        law_bytes_by_place(n / 256, (w - 1) as nat, i - 1);
        lemma_le_len(n / 256, (w - 1) as nat);
        let p = pow256((i - 1) as nat) as int;
        lemma_pow256_positive((i - 1) as nat);
        vstd::arithmetic::div_mod::lemma_div_denominator(n as int, 256, p);
        assert(le_bytes(n, w)[i] == le_bytes(n / 256, (w - 1) as nat)[i - 1]);
    } else {
        assert(pow256(0) == 1);
        assert(n as int / 1 == n as int) by (nonlinear_arith);
    }
}

/// A number in groups of seven bits begins with its lowest group; the top bit of
/// a byte says that more groups follow.
pub proof fn law_uvarint_groups(n: nat)
    ensures
        n < 128 ==> uvarint(n) == seq![n as u8],
        n >= 128 ==> uvarint(n).len() == uvarint(n / 128).len() + 1 && uvarint(n)[0] == 128 + n
            % 128 && uvarint(n).subrange(1, uvarint(n).len() as int) == uvarint(n / 128),
{
    if n >= 128 {
        assert(uvarint(n).subrange(1, uvarint(n).len() as int) =~= uvarint(n / 128));
    }
}

/// A record is its length in four bytes, the least significant one first, and
/// its bytes; records stand one after the other.
pub proof fn law_records_one_after_the_other(a: Seq<Seq<u8>>, b: Seq<Seq<u8>>, x: Seq<u8>)
    ensures
        records(a + b) == records(a) + records(b),
        records(seq![x]).len() == 4 + x.len(),
        le_value(records(seq![x]).subrange(0, 4)) == x.len() % 0x1_0000_0000,
        records(seq![x]).subrange(4, 4 + x.len() as int) == x,
        records(Seq::empty()).len() == 0,
    decreases a.len(),
{
    if a.len() > 0 {
        law_records_one_after_the_other(a.drop_first(), b, x);
        assert((a + b).drop_first() =~= a.drop_first() + b);
        assert((a + b)[0] == a[0]);
        assert(records(a + b) =~= records(a) + records(b));
    } else {
        assert(a + b =~= b);
        assert(records(a + b) =~= records(a) + records(b));
    }
    reveal_with_fuel(records, 2);
    assert(seq![x].drop_first() =~= Seq::<Seq<u8>>::empty());
    assert(records(seq![x]) =~= record(x));
    lemma_le_len(x.len(), 4);
    assert(record(x).subrange(0, 4) =~= le_bytes(x.len(), 4));
    assert(record(x).subrange(4, 4 + x.len() as int) =~= x);
    lemma_le_value_of_bytes(x.len(), 4);
    lemma_pow256_values();
}

proof fn lemma_le_value_of_bytes(n: nat, w: nat)
    ensures
        le_value(le_bytes(n, w)) == n % pow256(w),
    decreases w,
{
    if w > 0 {
        let rest = le_bytes(n / 256, (w - 1) as nat);
        lemma_le_value_of_bytes(n / 256, (w - 1) as nat);
        assert(le_bytes(n, w).drop_first() =~= rest);
        lemma_pow256_positive((w - 1) as nat);
        let p = pow256((w - 1) as nat) as int;
        vstd::arithmetic::div_mod::lemma_mod_breakdown(n as int, 256, p);
    } else {
        assert(n % 1 == 0) by (nonlinear_arith);
    }
}

} // verus!
