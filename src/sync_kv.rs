//! The in-memory key–value map of a document, persisted as one snapshot object.
use vstd::prelude::*;
use crate::snapshot::{
    decode, encode, encodable, encode_snapshot, entries_view, lemma_snapshot_round_trip,
    parse_snapshot, Entry,
};

verus! {

/// The map that a sequence of entries writes, later entries overriding earlier ones.
pub open spec fn to_map(es: Seq<Entry>) -> Map<Seq<u8>, Seq<u8>>
    decreases es.len(),
{
    if es.len() == 0 {
        Map::empty()
    } else {
        to_map(es.drop_last()).insert(es.last().0, es.last().1)
    }
}

/// No two entries share a key.
pub open spec fn unique_keys(es: Seq<Entry>) -> bool {
    forall|i: int, j: int|
        0 <= i < es.len() && 0 <= j < es.len() && i != j ==> (#[trigger] es[i]).0 != (
        #[trigger] es[j]).0
}

pub proof fn lemma_to_map_domain(es: Seq<Entry>, k: Seq<u8>)
    ensures
        to_map(es).contains_key(k) <==> exists|i: int| 0 <= i < es.len() && (#[trigger] es[i]).0
            == k,
    decreases es.len(),
{
    if es.len() > 0 {
        lemma_to_map_domain(es.drop_last(), k);
        if exists|i: int| 0 <= i < es.drop_last().len() && (#[trigger] es.drop_last()[i]).0 == k {
            let i = choose|i: int| 0 <= i < es.drop_last().len() && (#[trigger] es.drop_last()[i]).0
                == k;
            assert(es[i].0 == k);
        }
        if exists|i: int| 0 <= i < es.len() && (#[trigger] es[i]).0 == k {
            let i = choose|i: int| 0 <= i < es.len() && (#[trigger] es[i]).0 == k;
            if i < es.len() - 1 {
                assert(es.drop_last()[i].0 == k);
            }
        }
    }
}

pub proof fn lemma_to_map_value(es: Seq<Entry>, i: int)
    requires
        unique_keys(es),
        0 <= i < es.len(),
    ensures
        to_map(es).contains_key(es[i].0),
        to_map(es)[es[i].0] == es[i].1,
    decreases es.len(),
{
    if i < es.len() - 1 {
        let d = es.drop_last();
        assert(d[i] == es[i]);
        assert(unique_keys(d)) by {
            assert forall|a: int, b: int|
                0 <= a < d.len() && 0 <= b < d.len() && a != b implies (#[trigger] d[a]).0 != (
            #[trigger] d[b]).0 by {
                assert(d[a] == es[a] && d[b] == es[b]);
            }
        }
        lemma_to_map_value(d, i);
        assert(es[es.len() - 1].0 != es[i].0);
    }
}

/// Why a stored snapshot could not be loaded.
#[derive(Debug, Clone, Copy, PartialEq, Eq, Structural)]
pub enum LoadError {
    /// The bytes are not a snapshot of the version this library reads.
    MalformedSnapshot,
}

/// A document's key–value map, with the flags that drive its persistence.
///
/// Every mutation marks the map dirty and, unless the map has been shut down, asks its
/// owner to signal the persistence worker (the `bool` that `set` and `remove` return).
pub struct SyncKv {
    entries: Vec<(Vec<u8>, Vec<u8>)>,
    dirty: bool,
    shutdown: bool,
}

impl SyncKv {
    /// The entries, in the order a snapshot lists them.
    pub closed spec fn entries(&self) -> Seq<Entry> {
        entries_view(self.entries@)
    }

    /// The map's contents.
    pub open spec fn view(&self) -> Map<Seq<u8>, Seq<u8>> {
        to_map(self.entries())
    }

    /// Mutations since the last snapshot have not been persisted.
    pub closed spec fn dirty(&self) -> bool {
        self.dirty
    }

    /// The map has been shut down: mutations no longer signal the persistence worker.
    pub closed spec fn is_shut_down(&self) -> bool {
        self.shutdown
    }

    /// Keys are unique and every entry can be written to a snapshot.
    pub closed spec fn wf(&self) -> bool {
        unique_keys(self.entries()) && encodable(self.entries())
    }

    /// The snapshot that persisting the map now writes.
    pub open spec fn snapshot_bytes(&self) -> Seq<u8> {
        encode_snapshot(self.entries())
    }

    /// An empty map, clean and live.
    pub fn new() -> (r: SyncKv)
        ensures
            r.wf(),
            r@ == Map::<Seq<u8>, Seq<u8>>::empty(),
            !r.dirty(),
            !r.is_shut_down(),
    {
        let r = SyncKv { entries: Vec::new(), dirty: false, shutdown: false };
        assert(r.entries() == Seq::<Entry>::empty());
        r
    }

    /// The map that the stored snapshot holds: empty where there is none yet.
    pub fn load(stored: Option<Vec<u8>>) -> (r: Result<SyncKv, LoadError>)
        ensures
            match stored {
                None => r matches Ok(kv) && kv@ == Map::<Seq<u8>, Seq<u8>>::empty(),
                Some(b) => match parse_snapshot(b@) {
                    Some(es) => r matches Ok(kv) && kv@ == to_map(es),
                    None => r == Err::<SyncKv, LoadError>(LoadError::MalformedSnapshot),
                },
            },
            r matches Ok(kv) ==> kv.wf() && !kv.dirty() && !kv.is_shut_down(),
    {
        match stored {
            None => Ok(SyncKv::new()),
            Some(b) => match decode(b.as_slice()) {
                None => Err(LoadError::MalformedSnapshot),
                Some(es) => {
                    let ghost target = entries_view(es@);
                    let mut kv = SyncKv::new();
                    let mut i: usize = 0;
                    while i < es.len()
                        invariant
                            i <= es@.len(),
                            target == entries_view(es@),
                            kv.wf(),
                            !kv.is_shut_down(),
                            kv@ == to_map(target.subrange(0, i as int)),
                        decreases es@.len() - i,
                    {
                        let k = es[i].0.clone();
                        let v = es[i].1.clone();
                        assert(k@ == target[i as int].0 && v@ == target[i as int].1);
                        kv.upsert(k, v);
                        assert(target.subrange(0, i + 1).drop_last() == target.subrange(
                            0,
                            i as int,
                        ));
                        i = i + 1;
                    }
                    kv.dirty = false;
                    assert(target.subrange(0, es@.len() as int) == target);
                    Ok(kv)
                },
            },
        }
    }

    fn find(&self, key: &[u8]) -> (r: Option<usize>)
        requires
            self.wf(),
        ensures
            match r {
                Some(i) => i < self.entries().len() && self.entries()[i as int].0 == key@,
                None => forall|i: int|
                    0 <= i < self.entries().len() ==> (#[trigger] self.entries()[i]).0 != key@,
            },
    {
        let mut i: usize = 0;
        while i < self.entries.len()
            invariant
                i <= self.entries@.len(),
                forall|j: int| 0 <= j < i ==> (#[trigger] self.entries()[j]).0 != key@,
            decreases self.entries@.len() - i,
        {
            if bytes_eq(self.entries[i].0.as_slice(), key) {
                return Some(i);
            }
            i = i + 1;
        }
        None
    }

    /// Inserts or replaces, and marks the map dirty.
    fn upsert(&mut self, key: Vec<u8>, value: Vec<u8>)
        requires
            old(self).wf(),
        ensures
            final(self).wf(),
            final(self)@ == old(self)@.insert(key@, value@),
            final(self).dirty(),
            final(self).is_shut_down() == old(self).is_shut_down(),
    {
        let ghost before = self.entries();
        assert(key.len() == key@.len() && value.len() == value@.len());
        assert(self.entries.len() == self.entries@.len());
        match self.find(key.as_slice()) {
            Some(i) => {
                let ghost k = key@;
                let ghost v = value@;
                self.entries.set(i, (key, value));
                let ghost after = self.entries();
                assert(after == before.update(i as int, (k, v)));
                assert(encodable(after)) by {
                    assert forall|a: int| 0 <= a < after.len() implies (#[trigger] after[a]).0.len()
                        <= u64::MAX && after[a].1.len() <= u64::MAX by {
                        if a != i {
                            assert(after[a] == before[a]);
                        }
                    }
                }
                assert(unique_keys(after)) by {
                    assert forall|a: int, b: int|
                        0 <= a < after.len() && 0 <= b < after.len() && a != b implies (
                    #[trigger] after[a]).0 != (#[trigger] after[b]).0 by {
                        assert(after[a].0 == before[a].0 && after[b].0 == before[b].0);
                    }
                }
                proof {
                    lemma_update_is_insert(before, i as int, k, v);
                }
            },
            None => {
                let ghost k = key@;
                let ghost v = value@;
                self.entries.push((key, value));
                let ghost after = self.entries();
                assert(after == before.push((k, v)));
                assert(self.entries.len() == self.entries@.len());
                assert(encodable(after)) by {
                    assert forall|a: int| 0 <= a < after.len() implies (#[trigger] after[a]).0.len()
                        <= u64::MAX && after[a].1.len() <= u64::MAX by {
                        if a < before.len() {
                            assert(after[a] == before[a]);
                        }
                    }
                }
                assert(after.drop_last() == before);
                assert(unique_keys(after)) by {
                    assert forall|a: int, b: int|
                        0 <= a < after.len() && 0 <= b < after.len() && a != b implies (
                    #[trigger] after[a]).0 != (#[trigger] after[b]).0 by {
                        if a < before.len() && b < before.len() {
                            assert(after[a] == before[a] && after[b] == before[b]);
                        } else if a < before.len() {
                            assert(after[a] == before[a]);
                        } else {
                            assert(after[b] == before[b]);
                        }
                    }
                }
            },
        }
        self.dirty = true;
    }

    /// The current value of `key`.
    pub fn get(&self, key: &[u8]) -> (r: Option<Vec<u8>>)
        requires
            self.wf(),
        ensures
            match r {
                Some(v) => self@.contains_key(key@) && self@[key@] == v@,
                None => !self@.contains_key(key@),
            },
    {
        proof {
            lemma_to_map_domain(self.entries(), key@);
        }
        match self.find(key) {
            Some(i) => {
                proof {
                    lemma_to_map_value(self.entries(), i as int);
                }
                Some(self.entries[i].1.clone())
            },
            None => None,
        }
    }

    /// Sets `key` to `value` and marks the map dirty. Returns whether to signal the
    /// persistence worker: always, unless the map has been shut down.
    pub fn set(&mut self, key: Vec<u8>, value: Vec<u8>) -> (notify: bool)
        requires
            old(self).wf(),
        ensures
            final(self).wf(),
            final(self)@ == old(self)@.insert(key@, value@),
            final(self).dirty(),
            final(self).is_shut_down() == old(self).is_shut_down(),
            notify == !old(self).is_shut_down(),
    {
        self.upsert(key, value);
        !self.shutdown
    }

    /// Removes `key`, present or not, and marks the map dirty. Returns whether to signal the
    /// persistence worker: always, unless the map has been shut down.
    pub fn remove(&mut self, key: &[u8]) -> (notify: bool)
        requires
            old(self).wf(),
        ensures
            final(self).wf(),
            final(self)@ == old(self)@.remove(key@),
            final(self).dirty(),
            final(self).is_shut_down() == old(self).is_shut_down(),
            notify == !old(self).is_shut_down(),
    {
        let ghost before = self.entries();
        proof {
            lemma_to_map_domain(before, key@);
        }
        match self.find(key) {
            Some(i) => {
                self.entries.remove(i);
                let ghost after = self.entries();
                assert(after == before.remove(i as int));
                assert forall|a: int| 0 <= a < after.len() implies #[trigger] after[a] == (if a
                    < i {
                    before[a]
                } else {
                    before[a + 1]
                }) by {}
                assert(unique_keys(after)) by {
                    assert forall|a: int, b: int|
                        0 <= a < after.len() && 0 <= b < after.len() && a != b implies (
                    #[trigger] after[a]).0 != (#[trigger] after[b]).0 by {
                        let a2 = if a < i { a } else { a + 1 };
                        let b2 = if b < i { b } else { b + 1 };
                        assert(after[a] == before[a2] && after[b] == before[b2]);
                    }
                }
                proof {
                    lemma_remove_is_map_remove(before, i as int);
                }
            },
            None => {
                assert(old(self)@.remove(key@) =~= old(self)@);
            },
        }
        self.dirty = true;
        !self.shutdown
    }

    /// Starts a persist: the snapshot to write, which reads back as the current map.
    /// The map is clean until the next mutation.
    pub fn snapshot(&mut self) -> (r: Vec<u8>)
        requires
            old(self).wf(),
        ensures
            r@ == old(self).snapshot_bytes(),
            final(self).wf(),
            final(self)@ == old(self)@,
            final(self).snapshot_bytes() == old(self).snapshot_bytes(),
            !final(self).dirty(),
            final(self).is_shut_down() == old(self).is_shut_down(),
    {
        self.dirty = false;
        encode(&self.entries)
    }

    /// A persist failed: the map stays dirty so that the next cycle retries.
    pub fn persist_failed(&mut self)
        ensures
            final(self).wf() == old(self).wf(),
            final(self)@ == old(self)@,
            final(self).snapshot_bytes() == old(self).snapshot_bytes(),
            final(self).dirty(),
            final(self).is_shut_down() == old(self).is_shut_down(),
    {
        self.dirty = true;
    }

    /// Stops signalling the persistence worker on later mutations.
    pub fn shutdown(&mut self)
        ensures
            final(self).wf() == old(self).wf(),
            final(self)@ == old(self)@,
            final(self).dirty() == old(self).dirty(),
            final(self).is_shut_down(),
    {
        self.shutdown = true;
    }

    /// Whether mutations await a persist.
    pub fn is_dirty(&self) -> (r: bool)
        ensures
            r == self.dirty(),
    {
        self.dirty
    }

    /// Whether the map has been shut down.
    pub fn is_shutdown(&self) -> (r: bool)
        ensures
            r == self.is_shut_down(),
    {
        self.shutdown
    }
}

/// Whether two byte strings are equal.
pub fn bytes_eq(a: &[u8], b: &[u8]) -> (r: bool)
    ensures
        r == (a@ == b@),
{
    if a.len() != b.len() {
        return false;
    }
    let mut i: usize = 0;
    while i < a.len()
        invariant
            a@.len() == b@.len(),
            i <= a@.len(),
            forall|j: int| 0 <= j < i ==> a@[j] == b@[j],
        decreases a@.len() - i,
    {
        if a[i] != b[i] {
            return false;
        }
        i = i + 1;
    }
    assert(a@ =~= b@);
    true
}

proof fn lemma_update_is_insert(es: Seq<Entry>, i: int, k: Seq<u8>, v: Seq<u8>)
    requires
        unique_keys(es),
        0 <= i < es.len(),
        es[i].0 == k,
    ensures
        unique_keys(es.update(i, (k, v))),
        to_map(es.update(i, (k, v))) == to_map(es).insert(k, v),
{
    let after = es.update(i, (k, v));
    assert(unique_keys(after)) by {
        assert forall|a: int, b: int|
            0 <= a < after.len() && 0 <= b < after.len() && a != b implies (
        #[trigger] after[a]).0 != (#[trigger] after[b]).0 by {
            assert(after[a].0 == es[a].0 && after[b].0 == es[b].0);
        }
    }
    assert forall|key: Seq<u8>| #[trigger]
        to_map(after).contains_key(key) == to_map(es).insert(k, v).contains_key(key) by {
        lemma_to_map_domain(after, key);
        lemma_to_map_domain(es, key);
        if exists|j: int| 0 <= j < es.len() && (#[trigger] es[j]).0 == key {
            let j = choose|j: int| 0 <= j < es.len() && (#[trigger] es[j]).0 == key;
            assert(after[j].0 == key);
        }
        if exists|j: int| 0 <= j < after.len() && (#[trigger] after[j]).0 == key {
            let j = choose|j: int| 0 <= j < after.len() && (#[trigger] after[j]).0 == key;
            assert(es[j].0 == key);
        }
    }
    assert forall|key: Seq<u8>| #[trigger] to_map(after).contains_key(key) implies to_map(after)[key]
        == to_map(es).insert(k, v)[key] by {
        lemma_to_map_domain(after, key);
        let j = choose|j: int| 0 <= j < after.len() && (#[trigger] after[j]).0 == key;
        lemma_to_map_value(after, j);
        if j != i {
            assert(after[j] == es[j]);
            lemma_to_map_value(es, j);
        }
    }
    assert(to_map(after) =~= to_map(es).insert(k, v));
}

proof fn lemma_remove_is_map_remove(es: Seq<Entry>, i: int)
    requires
        unique_keys(es),
        0 <= i < es.len(),
        unique_keys(es.remove(i)),
    ensures
        to_map(es.remove(i)) == to_map(es).remove(es[i].0),
{
    let k = es[i].0;
    let after = es.remove(i);
    assert forall|a: int| 0 <= a < after.len() implies #[trigger] after[a] == (if a < i {
        es[a]
    } else {
        es[a + 1]
    }) by {}
    assert forall|key: Seq<u8>| #[trigger]
        to_map(after).contains_key(key) == to_map(es).remove(k).contains_key(key) by {
        lemma_to_map_domain(after, key);
        lemma_to_map_domain(es, key);
        if exists|j: int| 0 <= j < es.len() && (#[trigger] es[j]).0 == key {
            let j = choose|j: int| 0 <= j < es.len() && (#[trigger] es[j]).0 == key;
            if j < i {
                assert(after[j].0 == key);
            } else if j > i {
                assert(after[j - 1].0 == key);
            }
        }
        if exists|j: int| 0 <= j < after.len() && (#[trigger] after[j]).0 == key {
            let j = choose|j: int| 0 <= j < after.len() && (#[trigger] after[j]).0 == key;
            let j2 = if j < i { j } else { j + 1 };
            assert(es[j2].0 == key);
        }
    }
    assert forall|key: Seq<u8>| #[trigger] to_map(after).contains_key(key) implies to_map(after)[key]
        == to_map(es).remove(k)[key] by {
        lemma_to_map_domain(after, key);
        let j = choose|j: int| 0 <= j < after.len() && (#[trigger] after[j]).0 == key;
        lemma_to_map_value(after, j);
        let j2 = if j < i { j } else { j + 1 };
        lemma_to_map_value(es, j2);
    }
    assert(to_map(after) =~= to_map(es).remove(k));
}

/// Persisting a map and loading the snapshot back yields the same map.
pub proof fn lemma_persist_load_round_trip(kv: SyncKv)
    requires
        kv.wf(),
    ensures
        parse_snapshot(kv.snapshot_bytes()) matches Some(es) && to_map(es) == kv@,
{
    lemma_snapshot_round_trip(kv.entries());
}

/// Removing a key twice leaves the map as removing it once does, present or absent.
pub proof fn lemma_remove_idempotent(m: Map<Seq<u8>, Seq<u8>>, k: Seq<u8>)
    ensures
        m.remove(k).remove(k) == m.remove(k),
{
    assert(m.remove(k).remove(k) =~= m.remove(k));
}

} // verus!
