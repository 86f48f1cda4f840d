//! One band's bucket table: a `hashbrown` map from band key to the ids
//! whose signature hashes to that key in this band.

use smallvec::SmallVec;
use vstd::prelude::*;

verus! {

/// A bucket table. The map itself is opaque; its contents are named
/// [`band_table_contents`].
#[verifier::external_body]
pub struct BandTable {
    map: hashbrown::HashMap<u64, SmallVec<[u64; 4]>>,
}

/// The buckets of a table: each band key with its ids, in insertion order.
pub uninterp spec fn band_table_contents(t: BandTable) -> Map<u64, Seq<u64>>;

/// The ids under `key`, empty when the key is absent.
pub open spec fn bucket_of(m: Map<u64, Seq<u64>>, key: u64) -> Seq<u64> {
    if m.contains_key(key) {
        m[key]
    } else {
        Seq::empty()
    }
}

impl BandTable {
    /// An empty table (`hashbrown::HashMap::new`).
    #[verifier::external_body]
    pub(crate) fn new() -> (table: BandTable)
        ensures
            band_table_contents(table).dom() == Set::<u64>::empty(),
    {
        BandTable { map: hashbrown::HashMap::new() }
    }

    /// A copy of the ids under `key` (`hashbrown::HashMap::get`), empty
    /// when the key is absent.
    #[verifier::external_body]
    pub(crate) fn bucket(&self, key: u64) -> (ids: Vec<u64>)
        ensures
            ids@ == bucket_of(band_table_contents(*self), key),
    {
        match self.map.get(&key) {
            Some(list) => list.to_vec(),
            None => Vec::new(),
        }
    }

    /// Store `ids` under `key`, replacing what was there
    /// (`hashbrown::HashMap::insert`).
    #[verifier::external_body]
    pub(crate) fn set_bucket(&mut self, key: u64, ids: Vec<u64>)
        ensures
            band_table_contents(*final(self)) == band_table_contents(*old(self)).insert(key, ids@),
    {
        self.map.insert(key, SmallVec::from_vec(ids));
    }

    /// Drop `key` and its ids (`hashbrown::HashMap::remove`).
    #[verifier::external_body]
    pub(crate) fn remove_bucket(&mut self, key: u64)
        ensures
            band_table_contents(*final(self)) == band_table_contents(*old(self)).remove(key),
    {
        self.map.remove(&key);
    }
}

/// The predicate "is not `id`".
pub open spec fn other_than(id: u64) -> spec_fn(u64) -> bool {
    |v: u64| v != id
}

/// `ids` without `id`.
pub open spec fn without(ids: Seq<u64>, id: u64) -> Seq<u64> {
    ids.filter(other_than(id))
}

/// The table once `id` is dropped from the bucket under `key`; a bucket
/// left empty is removed.
pub open spec fn scrubbed(m: Map<u64, Seq<u64>>, key: u64, id: u64) -> Map<u64, Seq<u64>> {
    let l = without(bucket_of(m, key), id);
    if l.len() == 0 {
        m.remove(key)
    } else {
        m.insert(key, l)
    }
}

/// The table once `id` is appended to the bucket under `key`.
pub open spec fn added(m: Map<u64, Seq<u64>>, key: u64, id: u64) -> Map<u64, Seq<u64>> {
    m.insert(key, bucket_of(m, key).push(id))
}

/// Append `id` to the bucket under `key`.
pub fn add_id(t: &mut BandTable, key: u64, id: u64)
    ensures
        band_table_contents(*final(t)) == added(band_table_contents(*old(t)), key, id),
{
    let mut ids = t.bucket(key);
    ids.push(id);
    t.set_bucket(key, ids);
}

/// Drop `id` from the bucket under `key`, removing the bucket once empty.
pub fn scrub_id(t: &mut BandTable, key: u64, id: u64)
    ensures
        band_table_contents(*final(t)) == scrubbed(band_table_contents(*old(t)), key, id),
{
    let ids = t.bucket(key);
    let mut kept: Vec<u64> = Vec::new();
    let mut i: usize = 0;
    while i < ids.len()
        invariant
            i <= ids@.len(),
            kept@ == without(ids@.take(i as int), id),
        decreases ids@.len() - i,
    {
        let v = ids[i];
        assert(ids@.take(i + 1) == ids@.take(i as int).push(v));
        proof {
            ids@.take(i as int).lemma_filter_push(v, other_than(id));
        }
        if v != id {
            kept.push(v);
        }
        i = i + 1;
    }
    assert(ids@.take(ids@.len() as int) == ids@);
    if kept.len() == 0 {
        t.remove_bucket(key);
    } else {
        t.set_bucket(key, kept);
    }
}

} // verus!
