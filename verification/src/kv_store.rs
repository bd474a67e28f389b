//! The snapshot store: a key→value map of byte strings. One entry per
//! (prover id, sector size) pair holds the engine's serialized state.
//! Durability of each put is the embedder's concern; the map semantics are
//! proved here.

use vstd::prelude::*;
use crate::codec::{spec_ser_bytes, spec_ser_u64};

verus! {

/// The key a prover's snapshot is stored under: its bytes combine the
/// prover id and the sector size, so one store serves several provers.
#[derive(Debug, Clone, PartialEq, Eq)]
pub struct SnapshotKey {
    pub prover_id: Vec<u8>,
    pub sector_size: u64,
}

/// The byte form of a snapshot key.
pub open spec fn spec_key_bytes(prover_id: Seq<u8>, sector_size: u64) -> Seq<u8> {
    spec_ser_bytes(prover_id) + spec_ser_u64(sector_size)
}

impl SnapshotKey {
    pub fn new(prover_id: Vec<u8>, sector_size: u64) -> (r: Self)
        ensures
            r.prover_id@ == prover_id@,
            r.sector_size == sector_size,
    {
        SnapshotKey { prover_id, sector_size }
    }

    pub open spec fn spec_bytes(&self) -> Seq<u8> {
        spec_key_bytes(self.prover_id@, self.sector_size)
    }

    /// The key as bytes, as the store indexes it.
    pub fn to_bytes(&self) -> (r: Vec<u8>)
        ensures
            r@ == self.spec_bytes(),
    {
        let mut out: Vec<u8> = Vec::new();
        crate::codec::ser_bytes(&mut out, &self.prover_id);
        crate::codec::ser_u64(&mut out, self.sector_size);
        out
    }
}

/// The map a sequence of entries denotes: later entries win, though a
/// well-formed store never repeats a key.
pub open spec fn kv_map(entries: Seq<(Vec<u8>, Vec<u8>)>) -> Map<Seq<u8>, Seq<u8>>
    decreases entries.len(),
{
    if entries.len() == 0 {
        Map::empty()
    } else {
        kv_map(entries.drop_last()).insert(entries.last().0@, entries.last().1@)
    }
}

/// Keys occur at most once.
pub open spec fn kv_keys_unique(entries: Seq<(Vec<u8>, Vec<u8>)>) -> bool {
    forall|i: int, j: int| 0 <= i < j < entries.len() ==> entries[i].0@ != entries[j].0@
}

/// An in-memory key→value map of byte strings with insert-or-replace put.
#[derive(Debug, Clone, PartialEq, Eq)]
pub struct KvStore {
    pub entries: Vec<(Vec<u8>, Vec<u8>)>,
}

impl View for KvStore {
    type V = Map<Seq<u8>, Seq<u8>>;

    open spec fn view(&self) -> Map<Seq<u8>, Seq<u8>> {
        kv_map(self.entries@)
    }
}

pub proof fn lemma_kv_map_entry(entries: Seq<(Vec<u8>, Vec<u8>)>, i: int)
    requires
        kv_keys_unique(entries),
        0 <= i < entries.len(),
    ensures
        kv_map(entries).contains_key(entries[i].0@),
        kv_map(entries)[entries[i].0@] == entries[i].1@,
    decreases entries.len(),
{
    if i < entries.len() - 1 {
        lemma_kv_map_entry(entries.drop_last(), i);
    }
}

pub proof fn lemma_kv_map_absent(entries: Seq<(Vec<u8>, Vec<u8>)>, k: Seq<u8>)
    requires
        forall|i: int| 0 <= i < entries.len() ==> (#[trigger] entries[i]).0@ != k,
    ensures
        !kv_map(entries).contains_key(k),
    decreases entries.len(),
{
    if entries.len() > 0 {
        lemma_kv_map_absent(entries.drop_last(), k);
    }
}

pub proof fn lemma_kv_map_push(entries: Seq<(Vec<u8>, Vec<u8>)>, e: (Vec<u8>, Vec<u8>))
    ensures
        kv_map(entries.push(e)) == kv_map(entries).insert(e.0@, e.1@),
{
    assert(entries.push(e).drop_last() =~= entries);
}

pub proof fn lemma_kv_map_update(entries: Seq<(Vec<u8>, Vec<u8>)>, i: int, e: (Vec<u8>, Vec<u8>))
    requires
        kv_keys_unique(entries),
        0 <= i < entries.len(),
        e.0@ == entries[i].0@,
    ensures
        kv_map(entries.update(i, e)) == kv_map(entries).insert(e.0@, e.1@),
    decreases entries.len(),
{
    let t = entries.update(i, e);
    if i == entries.len() - 1 {
        assert(t.drop_last() =~= entries.drop_last());
        assert(kv_map(entries).insert(e.0@, e.1@) =~= kv_map(entries.drop_last()).insert(
            e.0@,
            e.1@,
        ));
        assert(kv_map(t) =~= kv_map(entries.drop_last()).insert(e.0@, e.1@));
    } else {
        assert(t.drop_last() =~= entries.drop_last().update(i, e));
        lemma_kv_map_update(entries.drop_last(), i, e);
        assert(t.last() == entries.last());
        assert(entries.last().0@ != e.0@);
        assert(kv_map(t) == kv_map(entries.drop_last()).insert(e.0@, e.1@).insert(
            entries.last().0@,
            entries.last().1@,
        ));
        assert(kv_map(entries.drop_last()).insert(e.0@, e.1@).insert(
            entries.last().0@,
            entries.last().1@,
        ) =~= kv_map(entries.drop_last()).insert(entries.last().0@, entries.last().1@).insert(
            e.0@,
            e.1@,
        ));
    }
}

/// Byte-string equality.
pub(crate) fn bytes_eq(a: &Vec<u8>, b: &Vec<u8>) -> (r: bool)
    ensures
        r == (a@ == b@),
{
    if a.len() != b.len() {
        proof {
            assert(a@.len() != b@.len());
        }
        return false;
    }
    let mut i: usize = 0;
    while i < a.len()
        invariant
            0 <= i <= a@.len(),
            a@.len() == b@.len(),
            forall|j: int| 0 <= j < i ==> a@[j] == b@[j],
        decreases a@.len() - i,
    {
        if a[i] != b[i] {
            return false;
        }
        i = i + 1;
    }
    proof {
        assert(a@ =~= b@);
    }
    true
}

impl KvStore {
    /// An empty store.
    pub fn initialize() -> (r: Self)
        ensures
            r@ == Map::<Seq<u8>, Seq<u8>>::empty(),
            kv_keys_unique(r.entries@),
    {
        let r = KvStore { entries: Vec::new() };
        proof {
            assert(r.entries@ =~= Seq::<(Vec<u8>, Vec<u8>)>::empty());
        }
        r
    }

    pub open spec fn wf(&self) -> bool {
        kv_keys_unique(self.entries@)
    }

    /// The value stored under `key`, if any.
    pub fn get(&self, key: &Vec<u8>) -> (r: Option<&Vec<u8>>)
        requires
            self.wf(),
        ensures
            match r {
                Option::Some(v) => self@.contains_key(key@) && self@[key@] == v@,
                Option::None => !self@.contains_key(key@),
            },
    {
        let mut i: usize = 0;
        while i < self.entries.len()
            invariant
                self.wf(),
                0 <= i <= self.entries@.len(),
                forall|j: int| 0 <= j < i ==> (#[trigger] self.entries@[j]).0@ != key@,
            decreases self.entries@.len() - i,
        {
            if bytes_eq(&self.entries[i].0, key) {
                proof {
                    lemma_kv_map_entry(self.entries@, i as int);
                }
                return Option::Some(&self.entries[i].1);
            }
            i = i + 1;
        }
        proof {
            lemma_kv_map_absent(self.entries@, key@);
        }
        Option::None
    }

    /// Stores `value` under `key`, replacing any earlier value.
    pub fn put(&mut self, key: Vec<u8>, value: Vec<u8>)
        requires
            old(self).wf(),
        ensures
            final(self).wf(),
            final(self)@ == old(self)@.insert(key@, value@),
    {
        let ghost e0 = self.entries@;
        let mut i: usize = 0;
        while i < self.entries.len()
            invariant
                self.entries@ == e0,
                e0 == old(self).entries@,
                kv_keys_unique(e0),
                0 <= i <= e0.len(),
                forall|j: int| 0 <= j < i ==> (#[trigger] e0[j]).0@ != key@,
            decreases e0.len() - i,
        {
            if bytes_eq(&self.entries[i].0, &key) {
                let ghost ge = (key, value);
                proof {
                    lemma_kv_map_update(e0, i as int, ge);
                }
                self.entries[i] = (key, value);
                proof {
                    assert(self.entries@ =~= e0.update(i as int, ge));
                    assert(kv_keys_unique(self.entries@));
                }
                return ;
            }
            i = i + 1;
        }
        proof {
            lemma_kv_map_push(e0, (key, value));
        }
        self.entries.push((key, value));
    }
}

} // verus!
