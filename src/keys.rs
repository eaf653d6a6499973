//! Object-store key layout: the optional bucket prefix, document keys, listing prefixes.
use vstd::prelude::*;

verus! {

/// `s` without the run of `c` at its end.
pub open spec fn trim_end(s: Seq<char>, c: char) -> Seq<char>
    decreases s.len(),
{
    if s.len() > 0 && s.last() == c {
        trim_end(s.drop_last(), c)
    } else {
        s
    }
}

/// `s` without the run of `c` at its start.
pub open spec fn trim_start(s: Seq<char>, c: char) -> Seq<char>
    decreases s.len(),
{
    if s.len() > 0 && s[0] == c {
        trim_start(s.drop_first(), c)
    } else {
        s
    }
}

/// `s` without the runs of `c` at either end.
pub open spec fn trim_both(s: Seq<char>, c: char) -> Seq<char> {
    trim_end(trim_start(s, c), c)
}

/// What follows `pre` in `s`, where `s` starts with `pre`.
pub open spec fn strip_prefix(s: Seq<char>, pre: Seq<char>) -> Option<Seq<char>> {
    if pre.len() <= s.len() && s.subrange(0, pre.len() as int) == pre {
        Some(s.subrange(pre.len() as int, s.len() as int))
    } else {
        None
    }
}

pub open spec fn slash() -> Seq<char> {
    seq!['/']
}

/// The store key under which a logical key lives, given the optional bucket prefix: the
/// prefix and the key joined by exactly one `/`; the prefix alone for the empty key.
pub open spec fn prefixed(prefix: Option<Seq<char>>, key: Seq<char>) -> Seq<char> {
    match prefix {
        None => key,
        Some(p) => if key.len() == 0 {
            p
        } else {
            trim_end(p, '/') + slash() + trim_start(key, '/')
        },
    }
}

/// The store prefix that a listing of the logical directory `dir` asks for: its store key
/// with exactly one trailing `/`.
pub open spec fn list_prefix(prefix: Option<Seq<char>>, dir: Seq<char>) -> Seq<char> {
    trim_end(prefixed(prefix, dir), '/') + slash()
}

/// The relative keys that a page of listed store keys yields: each key that starts with
/// the listing prefix, without it, and not empty.
pub open spec fn relative_keys(full_prefix: Seq<char>, keys: Seq<Seq<char>>) -> Seq<Seq<char>>
    decreases keys.len(),
{
    if keys.len() == 0 {
        seq![]
    } else {
        let rest = relative_keys(full_prefix, keys.drop_last());
        match strip_prefix(keys.last(), full_prefix) {
            Some(rel) => if rel.len() > 0 {
                rest.push(rel)
            } else {
                rest
            },
            None => rest,
        }
    }
}

/// `s` without its trailing `c`s.
pub fn trim_end_char(s: &str, c: char) -> (r: String)
    ensures
        r@ == trim_end(s@, c),
{
    let mut e: usize = s.unicode_len();
    assert(s@.subrange(0, e as int) == s@);
    while e > 0 && s.get_char(e - 1) == c
        invariant
            e <= s@.len(),
            trim_end(s@, c) == trim_end(s@.subrange(0, e as int), c),
        decreases e,
    {
        assert(s@.subrange(0, e as int).drop_last() == s@.subrange(0, e - 1));
        e = e - 1;
    }
    s.substring_char(0, e).to_owned()
}

/// `s` without its leading `c`s.
pub fn trim_start_char(s: &str, c: char) -> (r: String)
    ensures
        r@ == trim_start(s@, c),
{
    let n = s.unicode_len();
    let mut b: usize = 0;
    assert(s@.subrange(0, n as int) == s@);
    while b < n && s.get_char(b) == c
        invariant
            b <= n,
            n == s@.len(),
            trim_start(s@, c) == trim_start(s@.subrange(b as int, n as int), c),
        decreases n - b,
    {
        assert(s@.subrange(b as int, n as int).drop_first() == s@.subrange(b + 1, n as int));
        b = b + 1;
    }
    s.substring_char(b, n).to_owned()
}

/// `s` without the `c`s at either end.
pub fn trim_char(s: &str, c: char) -> (r: String)
    ensures
        r@ == trim_both(s@, c),
{
    let t = trim_start_char(s, c);
    trim_end_char(t.as_str(), c)
}

/// What follows `pre` in `s`, where `s` starts with `pre`.
pub fn strip_prefix_str(s: &str, pre: &str) -> (r: Option<String>)
    ensures
        opt_seq(r) == strip_prefix(s@, pre@),
{
    let n = s.unicode_len();
    let m = pre.unicode_len();
    if m > n {
        return None;
    }
    let mut i: usize = 0;
    while i < m
        invariant
            m <= n,
            n == s@.len(),
            m == pre@.len(),
            i <= m,
            s@.subrange(0, i as int) == pre.view().subrange(0, i as int),
        decreases m - i,
    {
        if s.get_char(i) != pre.get_char(i) {
            assert(s@.subrange(0, m as int)[i as int] != pre@[i as int]);
            return None;
        }
        assert(s@.subrange(0, i + 1) == pre@.subrange(0, i + 1));
        i = i + 1;
    }
    assert(pre@.subrange(0, m as int) == pre@);
    Some(s.substring_char(m, n).to_owned())
}

/// The view of an optional string.
pub open spec fn opt_seq(o: Option<String>) -> Option<Seq<char>> {
    match o {
        Some(t) => Some(t@),
        None => None,
    }
}

/// The view of an optional string.
pub open spec fn prefix_view(prefix: &Option<String>) -> Option<Seq<char>> {
    match prefix {
        Some(p) => Some(p@),
        None => None,
    }
}

/// The store key for a logical key under the optional bucket prefix.
pub fn prefixed_key(prefix: &Option<String>, key: &str) -> (r: String)
    ensures
        r@ == prefixed(prefix_view(prefix), key@),
{
    match prefix {
        None => key.to_owned(),
        Some(p) => {
            if key.unicode_len() == 0 {
                p.clone()
            } else {
                let mut r = trim_end_char(p.as_str(), '/');
                r.append("/");
                let k = trim_start_char(key, '/');
                r.append(k.as_str());
                proof {
                    reveal_strlit("/");
                }
                r
            }
        },
    }
}

/// The store prefix for listing the logical directory `dir`.
pub fn full_list_prefix(prefix: &Option<String>, dir: &str) -> (r: String)
    ensures
        r@ == list_prefix(prefix_view(prefix), dir@),
{
    let k = prefixed_key(prefix, dir);
    let mut r = trim_end_char(k.as_str(), '/');
    r.append("/");
    proof {
        reveal_strlit("/");
    }
    r
}

/// The relative keys of one page of listed store keys, appended to `out`.
pub fn collect_relative_keys(full_prefix: &str, keys: &Vec<String>, out: &mut Vec<String>)
    ensures
        final(out)@.map_values(|k: String| k@) == old(out)@.map_values(|k: String| k@)
            + relative_keys(full_prefix@, keys@.map_values(|k: String| k@)),
{
    let ghost start = out@.map_values(|k: String| k@);
    let mut i: usize = 0;
    while i < keys.len()
        invariant
            i <= keys@.len(),
            out@.map_values(|k: String| k@) == start + relative_keys(
                full_prefix@,
                keys@.subrange(0, i as int).map_values(|k: String| k@),
            ),
        decreases keys@.len() - i,
    {
        let ghost before = out@;
        assert(keys@.subrange(0, i + 1).map_values(|k: String| k@).drop_last() == keys@.subrange(
            0,
            i as int,
        ).map_values(|k: String| k@));
        assert(keys@.subrange(0, i + 1).map_values(|k: String| k@).last() == keys@[i as int]@);
        match strip_prefix_str(keys[i].as_str(), full_prefix) {
            Some(rel) => {
                if rel.unicode_len() > 0 {
                    out.push(rel);
                    assert(out@.map_values(|k: String| k@) == before.map_values(|k: String| k@).push(
                        out@.last()@,
                    ));
                }
            },
            None => {},
        }
        i = i + 1;
    }
    assert(keys@.subrange(0, keys@.len() as int) == keys@);
}

/// Keys under a bucket prefix, for logical keys that do not start with `/`, are distinct for
/// distinct logical keys.
pub proof fn lemma_prefixed_injective(prefix: Option<Seq<char>>, k1: Seq<char>, k2: Seq<char>)
    requires
        k1.len() > 0,
        k2.len() > 0,
        k1[0] != '/',
        k2[0] != '/',
        prefixed(prefix, k1) == prefixed(prefix, k2),
    ensures
        k1 == k2,
{
    if let Some(p) = prefix {
        let head = trim_end(p, '/') + slash();
        assert(trim_start(k1, '/') == k1);
        assert(trim_start(k2, '/') == k2);
        assert(k1 == (head + k1).subrange(head.len() as int, (head + k1).len() as int));
        assert(k2 == (head + k2).subrange(head.len() as int, (head + k2).len() as int));
    }
}

proof fn lemma_trim_end_no_trailing(s: Seq<char>, c: char)
    requires
        s.len() > 0,
        s.last() != c,
    ensures
        trim_end(s, c) == s,
{
}

/// `trim_end(s)` is a prefix of `s`, followed in `s` by `c`s only, and does not end in `c`.
pub proof fn lemma_trim_end_shape(s: Seq<char>, c: char)
    ensures
        trim_end(s, c).len() <= s.len(),
        s.subrange(0, trim_end(s, c).len() as int) == trim_end(s, c),
        forall|i: int| trim_end(s, c).len() <= i < s.len() ==> s[i] == c,
        trim_end(s, c).len() > 0 ==> trim_end(s, c).last() != c,
    decreases s.len(),
{
    if s.len() > 0 && s.last() == c {
        let d = s.drop_last();
        lemma_trim_end_shape(d, c);
        assert forall|i: int| trim_end(s, c).len() <= i < s.len() implies s[i] == c by {
            if i < s.len() - 1 {
                assert(d[i] == s[i]);
            }
        }
        assert(s.subrange(0, trim_end(s, c).len() as int) == d.subrange(
            0,
            trim_end(s, c).len() as int,
        ));
    } else {
        assert(s.subrange(0, s.len() as int) == s);
    }
}

/// Trailing `c`s appended to `a` are trimmed with those of `a`.
pub proof fn lemma_trim_end_append_run(a: Seq<char>, t: Seq<char>, c: char)
    requires
        forall|i: int| 0 <= i < t.len() ==> t[i] == c,
    ensures
        trim_end(a + t, c) == trim_end(a, c),
    decreases t.len(),
{
    if t.len() == 0 {
        assert(a + t == a);
    } else {
        assert((a + t).drop_last() == a + t.drop_last());
        assert((a + t).last() == t.last());
        lemma_trim_end_append_run(a, t.drop_last(), c);
    }
}

/// A sequence of `c`s trims to nothing from the start.
pub proof fn lemma_trim_start_run(t: Seq<char>, c: char)
    requires
        forall|i: int| 0 <= i < t.len() ==> t[i] == c,
    ensures
        trim_start(t, c).len() == 0,
    decreases t.len(),
{
    if t.len() > 0 {
        lemma_trim_start_run(t.drop_first(), c);
    }
}

/// A sequence that does not end in `c` keeps its last character, and something, when
/// trimmed from the start.
pub proof fn lemma_trim_start_keeps_last(s: Seq<char>, c: char)
    requires
        s.len() > 0,
        s.last() != c,
    ensures
        trim_start(s, c).len() > 0,
        trim_start(s, c).last() == s.last(),
    decreases s.len(),
{
    if s[0] == c {
        assert(s.len() > 1);
        assert(s.drop_first().last() == s.last());
        lemma_trim_start_keeps_last(s.drop_first(), c);
    }
}

/// Trimming `a + b` from the start trims `a` alone, where something of `a` remains.
pub proof fn lemma_trim_start_append(a: Seq<char>, b: Seq<char>, c: char)
    requires
        trim_start(a, c).len() > 0,
    ensures
        trim_start(a + b, c) == trim_start(a, c) + b,
    decreases a.len(),
{
    if a.len() > 0 && a[0] == c {
        assert((a + b).drop_first() == a.drop_first() + b);
        lemma_trim_start_append(a.drop_first(), b, c);
    }
}

/// A key written under any logical prefix `q` (as `q` without trailing slashes, `/`, and a
/// relative key `r`) lists back under `q` as exactly `r`, for every bucket prefix. The one
/// exception, left out here: with a bucket prefix, a `q` of slashes only, and an `r` that
/// starts with `/`, the leading slashes of `r` are trimmed when the key is stored.
pub proof fn lemma_logical_key_round_trip(prefix: Option<Seq<char>>, q: Seq<char>, r: Seq<char>)
    requires
        r.len() > 0,
        prefix is None || trim_end(q, '/').len() > 0 || r[0] != '/',
    ensures
        relative_keys(list_prefix(prefix, q), seq![prefixed(prefix, trim_end(q, '/') + slash() + r)])
            == seq![r],
{
    let d = trim_end(q, '/');
    let key = d + slash() + r;
    lemma_trim_end_shape(q, '/');
    let t = q.subrange(d.len() as int, q.len() as int);
    assert(q == d + t);
    assert forall|i: int| 0 <= i < t.len() implies t[i] == '/' by {
        assert(t[i] == q[d.len() + i]);
    }
    let full = list_prefix(prefix, q);
    match prefix {
        None => {
            assert(full == d + slash());
            assert(prefixed(prefix, key) == full + r);
        },
        Some(p) => {
            let head = trim_end(p, '/') + slash();
            assert(key.len() > 0);
            if d.len() > 0 {
                lemma_trim_start_keeps_last(d, '/');
                let sd = trim_start(d, '/');
                assert(key == d + (slash() + r));
                lemma_trim_start_append(d, slash() + r, '/');
                assert(prefixed(prefix, key) == head + (sd + (slash() + r)));
                assert(q.len() > 0);
                lemma_trim_start_append(d, t, '/');
                assert(prefixed(prefix, q) == head + (sd + t));
                assert(head + (sd + t) == (head + sd) + t);
                lemma_trim_end_append_run(head + sd, t, '/');
                assert((head + sd).last() == sd.last());
                lemma_trim_end_no_trailing(head + sd, '/');
                assert(full == head + sd + slash());
                assert(prefixed(prefix, key) == full + r);
            } else {
                assert(d == Seq::<char>::empty());
                assert(key == slash() + r);
                assert(key.drop_first() == r);
                assert(trim_start(key, '/') == trim_start(r, '/'));
                assert(trim_start(r, '/') == r);
                assert(prefixed(prefix, key) == head + r);
                lemma_trim_end_shape(p, '/');
                let tp = trim_end(p, '/');
                if tp.len() > 0 {
                    lemma_trim_end_no_trailing(tp, '/');
                }
                assert(head.drop_last() == tp);
                assert(trim_end(head, '/') == trim_end(tp, '/'));
                assert(trim_end(tp, '/') == tp);
                if q.len() == 0 {
                    assert(prefixed(prefix, q) == p);
                    assert(full == tp + slash());
                } else {
                    assert(t == q);
                    lemma_trim_start_run(q, '/');
                    assert(prefixed(prefix, q) == head + trim_start(q, '/'));
                    assert(head + trim_start(q, '/') == head);
                    assert(full == tp + slash());
                }
                assert(prefixed(prefix, key) == full + r);
            }
        },
    }
    let stored = full + r;
    assert(stored.subrange(0, full.len() as int) == full);
    assert(stored.subrange(full.len() as int, stored.len() as int) == r);
    let keys = seq![stored];
    assert(keys.drop_last() == Seq::<Seq<char>>::empty());
    assert(relative_keys(full, Seq::<Seq<char>>::empty()) == Seq::<Seq<char>>::empty());
    assert(Seq::<Seq<char>>::empty().push(r) == seq![r]);
}

/// `a` followed by `b`.
pub fn concat(a: &str, b: &str) -> (r: String)
    ensures
        r@ == a@ + b@,
{
    let mut r = a.to_owned();
    r.append(b);
    r
}

/// The key of a document's snapshot.
pub open spec fn data_key_of(doc_id: Seq<char>) -> Seq<char> {
    doc_id + "/data.ysweet"@
}

/// The directory under which a document's assets are stored, trailing `/` included.
pub open spec fn assets_prefix_of(doc_id: Seq<char>) -> Seq<char> {
    doc_id + "/assets/"@
}

/// The key of one of a document's assets.
pub open spec fn asset_key_of(doc_id: Seq<char>, filename: Seq<char>) -> Seq<char> {
    assets_prefix_of(doc_id) + filename
}

/// The directory that holds every object of a document, trailing `/` included.
pub open spec fn doc_dir_of(doc_id: Seq<char>) -> Seq<char> {
    trim_both(doc_id, '/') + slash()
}

/// The key of a document's snapshot.
pub fn data_key(doc_id: &str) -> (r: String)
    ensures
        r@ == data_key_of(doc_id@),
{
    concat(doc_id, "/data.ysweet")
}

/// The directory of a document's assets.
pub fn assets_prefix(doc_id: &str) -> (r: String)
    ensures
        r@ == assets_prefix_of(doc_id@),
{
    concat(doc_id, "/assets/")
}

/// The key of one of a document's assets.
pub fn asset_key(doc_id: &str, filename: &str) -> (r: String)
    ensures
        r@ == asset_key_of(doc_id@, filename@),
{
    let p = assets_prefix(doc_id);
    concat(p.as_str(), filename)
}

/// The directory that holds every object of a document.
pub fn doc_dir(doc_id: &str) -> (r: String)
    ensures
        r@ == doc_dir_of(doc_id@),
{
    let t = trim_char(doc_id, '/');
    proof {
        reveal_strlit("/");
    }
    concat(t.as_str(), "/")
}

/// The keys to copy a document's objects between: for each key relative to the source
/// document's directory, the same relative key under the source and under the destination.
pub fn copy_pairs(source_doc_id: &str, destination_doc_id: &str, relative: &Vec<String>) -> (r: Vec<
    (String, String),
>)
    ensures
        r@.len() == relative@.len(),
        forall|i: int|
            0 <= i < r@.len() ==> (#[trigger] r@[i]).0@ == doc_dir_of(source_doc_id@)
                + relative@[i]@ && r@[i].1@ == doc_dir_of(destination_doc_id@) + relative@[i]@,
{
    let src = doc_dir(source_doc_id);
    let dst = doc_dir(destination_doc_id);
    let mut out: Vec<(String, String)> = Vec::new();
    let mut i: usize = 0;
    while i < relative.len()
        invariant
            i <= relative@.len(),
            src@ == doc_dir_of(source_doc_id@),
            dst@ == doc_dir_of(destination_doc_id@),
            out@.len() == i,
            forall|j: int|
                0 <= j < i ==> (#[trigger] out@[j]).0@ == src@ + relative@[j]@ && out@[j].1@
                    == dst@ + relative@[j]@,
        decreases relative@.len() - i,
    {
        let a = concat(src.as_str(), relative[i].as_str());
        let b = concat(dst.as_str(), relative[i].as_str());
        out.push((a, b));
        i = i + 1;
    }
    out
}

/// The source of a server-side copy: the bucket, `/`, and the object's store key.
pub fn copy_source(bucket: &str, prefix: &Option<String>, key: &str) -> (r: String)
    ensures
        r@ == bucket@ + slash() + prefixed(prefix_view(prefix), key@),
{
    let k = prefixed_key(prefix, key);
    let b = concat(bucket, "/");
    proof {
        reveal_strlit("/");
    }
    concat(b.as_str(), k.as_str())
}

} // verus!
