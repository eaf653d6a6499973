//! The snapshot format: one version byte, the number of entries as a little-endian `u64`,
//! then each key and each value as a little-endian `u64` length followed by its bytes.
use vstd::prelude::*;

verus! {

/// The version byte that leads every snapshot this library writes and reads.
pub const SNAPSHOT_VERSION: u8 = 1;

/// A key–value entry as byte strings.
pub type Entry = (Seq<u8>, Seq<u8>);

/// The eight little-endian bytes of `n`.
pub open spec fn u64_le(n: u64) -> Seq<u8> {
    seq![
        (n & 0xff) as u8,
        ((n >> 8u64) & 0xff) as u8,
        ((n >> 16u64) & 0xff) as u8,
        ((n >> 24u64) & 0xff) as u8,
        ((n >> 32u64) & 0xff) as u8,
        ((n >> 40u64) & 0xff) as u8,
        ((n >> 48u64) & 0xff) as u8,
        ((n >> 56u64) & 0xff) as u8,
    ]
}

/// The number whose little-endian bytes start `b`.
pub open spec fn le_u64(b: Seq<u8>) -> u64
    recommends
        b.len() >= 8,
{
    (b[0] as u64) | ((b[1] as u64) << 8u64) | ((b[2] as u64) << 16u64) | ((b[3] as u64) << 24u64)
        | ((b[4] as u64) << 32u64) | ((b[5] as u64) << 40u64) | ((b[6] as u64) << 48u64) | ((
    b[7] as u64) << 56u64)
}

/// One byte string with its length in front.
pub open spec fn encode_field(f: Seq<u8>) -> Seq<u8> {
    u64_le(f.len() as u64) + f
}

pub open spec fn encode_entries(es: Seq<Entry>) -> Seq<u8>
    decreases es.len(),
{
    if es.len() == 0 {
        seq![]
    } else {
        encode_field(es[0].0) + encode_field(es[0].1) + encode_entries(es.drop_first())
    }
}

/// The snapshot of a sequence of entries.
pub open spec fn encode_snapshot(es: Seq<Entry>) -> Seq<u8> {
    seq![SNAPSHOT_VERSION] + u64_le(es.len() as u64) + encode_entries(es)
}

/// A length-prefixed byte string at the start of `b`, and what follows it.
pub open spec fn parse_field(b: Seq<u8>) -> Option<(Seq<u8>, Seq<u8>)> {
    if b.len() < 8 {
        None
    } else {
        let n = le_u64(b) as int;
        if n <= b.len() - 8 {
            Some((b.subrange(8, 8 + n), b.subrange(8 + n, b.len() as int)))
        } else {
            None
        }
    }
}

/// Exactly `count` entries, which make up the whole of `b`.
pub open spec fn parse_entries(b: Seq<u8>, count: nat) -> Option<Seq<Entry>>
    decreases count,
{
    if count == 0 {
        if b.len() == 0 {
            Some(seq![])
        } else {
            None
        }
    } else {
        match parse_field(b) {
            None => None,
            Some((k, r1)) => match parse_field(r1) {
                None => None,
                Some((v, r2)) => match parse_entries(r2, (count - 1) as nat) {
                    None => None,
                    Some(es) => Some(seq![(k, v)] + es),
                },
            },
        }
    }
}

/// The entries that a snapshot holds, or `None` where the bytes are not a snapshot of the
/// current version.
pub open spec fn parse_snapshot(b: Seq<u8>) -> Option<Seq<Entry>> {
    if b.len() >= 9 && b[0] == SNAPSHOT_VERSION {
        parse_entries(b.subrange(9, b.len() as int), le_u64(b.subrange(1, 9)) as nat)
    } else {
        None
    }
}

/// Every entry's key and value fit a `u64` length, and so does their number.
pub open spec fn encodable(es: Seq<Entry>) -> bool {
    &&& es.len() <= u64::MAX
    &&& forall|i: int|
        0 <= i < es.len() ==> (#[trigger] es[i]).0.len() <= u64::MAX && es[i].1.len() <= u64::MAX
}

pub proof fn lemma_u64_le_round_trip(n: u64)
    ensures
        le_u64(u64_le(n)) == n,
        u64_le(n).len() == 8,
{
    assert(((n & 0xff) as u8 as u64) | ((((n >> 8u64) & 0xff) as u8 as u64) << 8u64) | ((((n
        >> 16u64) & 0xff) as u8 as u64) << 16u64) | ((((n >> 24u64) & 0xff) as u8 as u64) << 24u64)
        | ((((n >> 32u64) & 0xff) as u8 as u64) << 32u64) | ((((n >> 40u64) & 0xff) as u8 as u64)
        << 40u64) | ((((n >> 48u64) & 0xff) as u8 as u64) << 48u64) | ((((n >> 56u64) & 0xff) as u8
        as u64) << 56u64) == n) by (bit_vector);
}

pub proof fn lemma_parse_field(f: Seq<u8>, rest: Seq<u8>)
    requires
        f.len() <= u64::MAX,
    ensures
        parse_field(encode_field(f) + rest) == Some((f, rest)),
{
    let n = f.len() as u64;
    lemma_u64_le_round_trip(n);
    let b = encode_field(f) + rest;
    assert(b.subrange(0, 8) == u64_le(n));
    assert(le_u64(b) == le_u64(b.subrange(0, 8)));
    assert(b.subrange(8, 8 + f.len() as int) == f);
    assert(b.subrange(8 + f.len() as int, b.len() as int) == rest);
}

pub proof fn lemma_parse_entries(es: Seq<Entry>)
    requires
        encodable(es),
    ensures
        parse_entries(encode_entries(es), es.len()) == Some(es),
    decreases es.len(),
{
    if es.len() > 0 {
        let tail = es.drop_first();
        assert forall|i: int| 0 <= i < tail.len() implies (#[trigger] tail[i]).0.len() <= u64::MAX
            && tail[i].1.len() <= u64::MAX by {
            assert(tail[i] == es[i + 1]);
        }
        lemma_parse_entries(tail);
        let (k, v) = es[0];
        assert(es[0].0.len() <= u64::MAX && es[0].1.len() <= u64::MAX);
        let rest = encode_entries(tail);
        assert(encode_entries(es) == encode_field(k) + (encode_field(v) + rest));
        lemma_parse_field(k, encode_field(v) + rest);
        lemma_parse_field(v, rest);
        assert(seq![(k, v)] + tail == es);
    }
}

/// A snapshot reads back as exactly the entries it was written from.
pub proof fn lemma_snapshot_round_trip(es: Seq<Entry>)
    requires
        encodable(es),
    ensures
        parse_snapshot(encode_snapshot(es)) == Some(es),
{
    let b = encode_snapshot(es);
    let n = es.len() as u64;
    lemma_u64_le_round_trip(n);
    lemma_parse_entries(es);
    assert(b.subrange(1, 9) == u64_le(n));
    assert(b.subrange(9, b.len() as int) == encode_entries(es));
}

pub proof fn lemma_encode_entries_append(a: Seq<Entry>, b: Seq<Entry>)
    ensures
        encode_entries(a + b) == encode_entries(a) + encode_entries(b),
    decreases a.len(),
{
    if a.len() == 0 {
        assert(a + b == b);
    } else {
        lemma_encode_entries_append(a.drop_first(), b);
        assert((a + b).drop_first() == a.drop_first() + b);
    }
}

/// Appends the little-endian bytes of `n` to `out`.
pub fn push_u64_le(out: &mut Vec<u8>, n: u64)
    ensures
        final(out)@ == old(out)@ + u64_le(n),
{
    out.push((n & 0xff) as u8);
    out.push(((n >> 8u64) & 0xff) as u8);
    out.push(((n >> 16u64) & 0xff) as u8);
    out.push(((n >> 24u64) & 0xff) as u8);
    out.push(((n >> 32u64) & 0xff) as u8);
    out.push(((n >> 40u64) & 0xff) as u8);
    out.push(((n >> 48u64) & 0xff) as u8);
    out.push(((n >> 56u64) & 0xff) as u8);
    assert(final(out)@ == old(out)@ + u64_le(n));
}

/// Appends a length-prefixed byte string to `out`.
pub fn push_field(out: &mut Vec<u8>, f: &[u8])
    ensures
        final(out)@ == old(out)@ + encode_field(f@),
{
    push_u64_le(out, f.len() as u64);
    let ghost mid = out@;
    let mut i: usize = 0;
    while i < f.len()
        invariant
            i <= f@.len(),
            out@ == mid + f@.subrange(0, i as int),
        decreases f@.len() - i,
    {
        out.push(f[i]);
        assert(f@.subrange(0, i + 1) == f@.subrange(0, i as int).push(f@[i as int]));
        i = i + 1;
    }
    assert(f@.subrange(0, f@.len() as int) == f@);
}

/// Reads the little-endian `u64` at `pos`.
pub fn read_u64_le(b: &[u8], pos: usize) -> (r: u64)
    requires
        pos + 8 <= b@.len(),
    ensures
        r == le_u64(b@.subrange(pos as int, b@.len() as int)),
{
    (b[pos] as u64) | ((b[pos + 1] as u64) << 8u64) | ((b[pos + 2] as u64) << 16u64) | ((b[pos
        + 3] as u64) << 24u64) | ((b[pos + 4] as u64) << 32u64) | ((b[pos + 5] as u64) << 40u64)
        | ((b[pos + 6] as u64) << 48u64) | ((b[pos + 7] as u64) << 56u64)
}


/// The byte-string entries that a vector of entries holds.
pub open spec fn entries_view(es: Seq<(Vec<u8>, Vec<u8>)>) -> Seq<Entry> {
    es.map_values(|e: (Vec<u8>, Vec<u8>)| (e.0@, e.1@))
}

/// `acc` followed by the parsed entries, where there are any.
pub open spec fn prepend(acc: Seq<Entry>, o: Option<Seq<Entry>>) -> Option<Seq<Entry>> {
    match o {
        Some(es) => Some(acc + es),
        None => None,
    }
}

/// The snapshot of a sequence of entries, in order.
pub fn encode(entries: &Vec<(Vec<u8>, Vec<u8>)>) -> (r: Vec<u8>)
    ensures
        r@ == encode_snapshot(entries_view(entries@)),
{
    let ghost es = entries_view(entries@);
    let mut out: Vec<u8> = Vec::new();
    out.push(SNAPSHOT_VERSION);
    push_u64_le(&mut out, entries.len() as u64);
    let ghost head = out@;
    let mut i: usize = 0;
    while i < entries.len()
        invariant
            i <= entries@.len(),
            es == entries_view(entries@),
            head == seq![SNAPSHOT_VERSION] + u64_le(entries@.len() as u64),
            out@ == head + encode_entries(es.subrange(0, i as int)),
        decreases entries@.len() - i,
    {
        let ghost before = out@;
        push_field(&mut out, entries[i].0.as_slice());
        push_field(&mut out, entries[i].1.as_slice());
        proof {
            let one = seq![es[i as int]];
            lemma_encode_entries_append(es.subrange(0, i as int), one);
            assert(es.subrange(0, i + 1) == es.subrange(0, i as int) + one);
            assert(one.drop_first() == Seq::<Entry>::empty());
            assert(encode_entries(one) == encode_field(es[i as int].0) + encode_field(
                es[i as int].1,
            ) + encode_entries(Seq::<Entry>::empty()));
        }
        i = i + 1;
    }
    assert(es.subrange(0, entries@.len() as int) == es);
    out
}

/// The entries of a snapshot, or `None` where the bytes are not a snapshot of the current
/// version.
pub fn decode(b: &[u8]) -> (r: Option<Vec<(Vec<u8>, Vec<u8>)>>)
    ensures
        match r {
            Some(es) => parse_snapshot(b@) == Some(entries_view(es@)),
            None => parse_snapshot(b@) is None,
        },
{
    let n = b.len();
    if n < 9 || b[0] != SNAPSHOT_VERSION {
        return None;
    }
    let count = read_u64_le(b, 1);
    assert(b@.subrange(1, n as int).subrange(0, 8) == b@.subrange(1, 9));
    assert(le_u64(b@.subrange(1, n as int)) == le_u64(b@.subrange(1, 9)));
    let ghost body = b@.subrange(9, n as int);
    let mut acc: Vec<(Vec<u8>, Vec<u8>)> = Vec::new();
    let mut pos: usize = 9;
    let mut k: u64 = 0;
    while k < count
        invariant
            n == b@.len(),
            9 <= pos <= n,
            k <= count,
            body == b@.subrange(9, n as int),
            parse_snapshot(b@) == parse_entries(body, count as nat),
            parse_entries(body, count as nat) == prepend(
                entries_view(acc@),
                parse_entries(b@.subrange(pos as int, n as int), (count - k) as nat),
            ),
        decreases count - k,
    {
        let ghost rest = b@.subrange(pos as int, n as int);
        let ghost c = (count - k) as nat;
        if n - pos < 8 {
            assert(parse_field(rest) is None);
            return None;
        }
        let klen = read_u64_le(b, pos);
        assert(le_u64(rest) == klen);
        if klen > (n - pos - 8) as u64 {
            return None;
        }
        let kstart = pos + 8;
        let kend = kstart + klen as usize;
        let key = vstd::slice::slice_to_vec(vstd::slice::slice_subrange(b, kstart, kend));
        assert(rest.subrange(8, 8 + klen as int) == key@);
        let ghost r1 = b@.subrange(kend as int, n as int);
        assert(rest.subrange(8 + klen as int, rest.len() as int) == r1);
        if n - kend < 8 {
            assert(parse_field(r1) is None);
            return None;
        }
        let vlen = read_u64_le(b, kend);
        if vlen > (n - kend - 8) as u64 {
            return None;
        }
        let vstart = kend + 8;
        let vend = vstart + vlen as usize;
        let value = vstd::slice::slice_to_vec(vstd::slice::slice_subrange(b, vstart, vend));
        assert(r1.subrange(8, 8 + vlen as int) == value@);
        assert(r1.subrange(8 + vlen as int, r1.len() as int) == b@.subrange(vend as int, n as int));
        let ghost old_acc = entries_view(acc@);
        acc.push((key, value));
        assert(entries_view(acc@) == old_acc + seq![(key@, value@)]);
        proof {
            let tail = parse_entries(b@.subrange(vend as int, n as int), (c - 1) as nat);
            match tail {
                Some(t) => {
                    assert(old_acc + (seq![(key@, value@)] + t) == old_acc + seq![(key@, value@)]
                        + t);
                },
                None => {},
            }
        }
        pos = vend;
        k = k + 1;
    }
    if pos != n {
        assert(b@.subrange(pos as int, n as int).len() > 0);
        return None;
    }
    assert(entries_view(acc@) + Seq::<Entry>::empty() == entries_view(acc@));
    Some(acc)
}

} // verus!
