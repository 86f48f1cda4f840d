//! The banded LSH index.
//!
//! Each of `bands` tables maps a band key (the xxh3 hash of one band's
//! `rows` slots) to the ids whose signature has that key. Two signatures
//! are candidates when they share a key in at least one band. A reverse
//! map from id to signature makes replacement and removal exact.

use rayon::iter::{IndexedParallelIterator, IntoParallelRefMutIterator, ParallelIterator};
use std::collections::HashMap;
use vstd::bytes::*;
use vstd::prelude::*;
use vstd::std_specs::iter::IteratorSpec;

use super::band_table::{
    add_id, added, band_table_contents, bucket_of, other_than, scrub_id, scrubbed, without,
    BandTable,
};
use crate::classical::hash::{xxh3_64, xxh3_64_of};
use crate::classical::minhash::sig::{lemma_words_le_layout, words_le, MinHashSig};
use crate::error::{config_error, invalid_input, Error, Result};
use crate::text::{decimal, decimal_string, push_str};

verus! {

broadcast use {
    vstd::std_specs::hash::group_hash_axioms,
    vstd::hash_map::group_hash_map_axioms,
};

/// The key of band `band` of a signature: xxh3 of the little-endian bytes
/// of its slots `band * rows .. band * rows + rows`.
pub open spec fn band_key_spec(hashes: Seq<u64>, band: int, rows: int) -> u64 {
    xxh3_64_of(words_le(hashes.subrange(band * rows, band * rows + rows)))
}

/// Every id in a bucket of band `b` is stored, under that bucket's key.
pub open spec fn band_sound<const H: usize>(
    t: Map<u64, Seq<u64>>,
    sigs: Map<u64, MinHashSig<H>>,
    b: int,
    rows: int,
) -> bool {
    forall|k: u64, i: int|
        #![trigger t[k][i]]
        t.contains_key(k) && 0 <= i < t[k].len() ==> sigs.contains_key(t[k][i]) && band_key_spec(
            sigs[t[k][i]].hashes@,
            b,
            rows,
        ) == k
}

/// Every stored id is in the bucket of its band-`b` key.
pub open spec fn band_complete<const H: usize>(
    t: Map<u64, Seq<u64>>,
    sigs: Map<u64, MinHashSig<H>>,
    b: int,
    rows: int,
) -> bool {
    forall|id: u64|
        #[trigger] sigs.contains_key(id) ==> bucket_of(
            t,
            band_key_spec(sigs[id].hashes@, b, rows),
        ).contains(id)
}

/// No bucket is empty.
pub open spec fn band_tidy(t: Map<u64, Seq<u64>>) -> bool {
    forall|k: u64| #[trigger] t.contains_key(k) ==> t[k].len() > 0
}

/// Band `b`'s table agrees with the stored signatures.
pub open spec fn band_ok<const H: usize>(
    t: Map<u64, Seq<u64>>,
    sigs: Map<u64, MinHashSig<H>>,
    b: int,
    rows: int,
) -> bool {
    &&& band_sound(t, sigs, b, rows)
    &&& band_complete(t, sigs, b, rows)
    &&& band_tidy(t)
}

/// An id is in a band-`b` bucket only under the key of its signature.
proof fn lemma_sound_bucket<const H: usize>(
    t: Map<u64, Seq<u64>>,
    sigs: Map<u64, MinHashSig<H>>,
    b: int,
    rows: int,
    k: u64,
    id: u64,
)
    requires
        band_sound(t, sigs, b, rows),
        bucket_of(t, k).contains(id),
    ensures
        sigs.contains_key(id),
        band_key_spec(sigs[id].hashes@, b, rows) == k,
{
    let i = choose|i: int| 0 <= i < bucket_of(t, k).len() && bucket_of(t, k)[i] == id;
    assert(t.contains_key(k));
    assert(t[k][i] == id);
}

/// Dropping `id` (stored as `old`) from its band-`b` bucket keeps the band
/// consistent with the map without `id`.
proof fn lemma_scrub_keeps_band_ok<const H: usize>(
    t: Map<u64, Seq<u64>>,
    sigs: Map<u64, MinHashSig<H>>,
    b: int,
    rows: int,
    id: u64,
)
    requires
        band_ok(t, sigs, b, rows),
        sigs.contains_key(id),
    ensures
        band_ok(
            scrubbed(t, band_key_spec(sigs[id].hashes@, b, rows), id),
            sigs.remove(id),
            b,
            rows,
        ),
{
    broadcast use vstd::seq_lib::group_filter_ensures;

    let key = band_key_spec(sigs[id].hashes@, b, rows);
    let t2 = scrubbed(t, key, id);
    let s2 = sigs.remove(id);
    let l = without(bucket_of(t, key), id);
    assert forall|k: u64, i: int| t2.contains_key(k) && 0 <= i < t2[k].len() implies s2.contains_key(
        #[trigger] t2[k][i],
    ) && band_key_spec(s2[t2[k][i]].hashes@, b, rows) == k by {
        if k == key {
            assert(t2[k] == l);
            let v = l[i];
            assert(l.contains(v));
            bucket_of(t, key).lemma_filter_contains_rev(other_than(id), v);
            assert(v != id);
            lemma_sound_bucket(t, sigs, b, rows, key, v);
        } else {
            assert(t2[k] == t[k]);
            let v = t[k][i];
            assert(bucket_of(t, k).contains(v));
            lemma_sound_bucket(t, sigs, b, rows, k, v);
            if v == id {
                assert(false);
            }
        }
    }
    assert forall|e: u64| #[trigger] s2.contains_key(e) implies bucket_of(
        t2,
        band_key_spec(s2[e].hashes@, b, rows),
    ).contains(e) by {
        let ke = band_key_spec(sigs[e].hashes@, b, rows);
        assert(sigs.contains_key(e));
        assert(bucket_of(t, ke).contains(e));
        if ke == key {
            let j = choose|j: int| 0 <= j < bucket_of(t, key).len() && bucket_of(t, key)[j] == e;
            bucket_of(t, key).lemma_filter_contains(other_than(id), j);
            assert(l.contains(e));
        }
    }
}

/// Appending a new `id` to the bucket of its band-`b` key keeps the band
/// consistent with the map extended by `id`.
proof fn lemma_add_keeps_band_ok<const H: usize>(
    t: Map<u64, Seq<u64>>,
    sigs: Map<u64, MinHashSig<H>>,
    b: int,
    rows: int,
    id: u64,
    sig: MinHashSig<H>,
)
    requires
        band_ok(t, sigs, b, rows),
        !sigs.contains_key(id),
    ensures
        band_ok(added(t, band_key_spec(sig.hashes@, b, rows), id), sigs.insert(id, sig), b, rows),
{
    let key = band_key_spec(sig.hashes@, b, rows);
    let t2 = added(t, key, id);
    let s2 = sigs.insert(id, sig);
    assert forall|k: u64, i: int| t2.contains_key(k) && 0 <= i < t2[k].len() implies s2.contains_key(
        #[trigger] t2[k][i],
    ) && band_key_spec(s2[t2[k][i]].hashes@, b, rows) == k by {
        if k == key && i == t2[k].len() - 1 {
            assert(t2[k][i] == id);
        } else {
            assert(t.contains_key(k));
            assert(t2[k][i] == t[k][i]);
            let v = t[k][i];
            assert(bucket_of(t, k).contains(v));
            lemma_sound_bucket(t, sigs, b, rows, k, v);
        }
    }
    assert forall|e: u64| #[trigger] s2.contains_key(e) implies bucket_of(
        t2,
        band_key_spec(s2[e].hashes@, b, rows),
    ).contains(e) by {
        if e == id {
            assert(bucket_of(t2, key)[bucket_of(t2, key).len() - 1] == id);
        } else {
            let ke = band_key_spec(sigs[e].hashes@, b, rows);
            assert(sigs.contains_key(e));
            assert(bucket_of(t, ke).contains(e));
            let j = choose|j: int| 0 <= j < bucket_of(t, ke).len() && bucket_of(t, ke)[j] == e;
            if ke == key {
                assert(bucket_of(t2, ke)[j] == e);
            }
        }
    }
}

/// The key of band `band` of `sig`.
fn band_key<const H: usize>(sig: &MinHashSig<H>, band: usize, rows: usize) -> (k: u64)
    requires
        band * rows + rows <= H,
    ensures
        k == band_key_spec(sig.hashes@, band as int, rows as int),
{
    proof {
        lemma_auto_spec_u64_to_from_le_bytes();
    }
    let start = band * rows;
    let end = start + rows;
    let ghost ws = sig.hashes@.subrange(start as int, end as int);
    let mut bytes: Vec<u8> = Vec::new();
    let mut i = start;
    while i < end
        invariant
            start <= i <= end <= H,
            ws == sig.hashes@.subrange(start as int, end as int),
            bytes@ == words_le(ws.take(i - start)),
        decreases end - i,
    {
        let w = u64_to_le_bytes(sig.hashes[i]);
        let mut j: usize = 0;
        let ghost before = bytes@;
        while j < 8
            invariant
                j <= 8,
                w@.len() == 8,
                bytes@ == before + w@.take(j as int),
            decreases 8 - j,
        {
            bytes.push(w[j]);
            j = j + 1;
            assert(bytes@ =~= before + w@.take(j as int));
        }
        assert(w@.take(8) == w@);
        assert(ws.take(i + 1 - start).drop_last() == ws.take(i - start));
        assert(ws.take(i + 1 - start).last() == sig.hashes@[i as int]);
        i = i + 1;
    }
    assert(ws.take(end - start) == ws);
    xxh3_64(bytes.as_slice())
}

/// Band `b`'s table once the ids of `items` are appended, in order, each
/// to the bucket of its band-`b` key.
pub open spec fn batch_added<const H: usize>(
    t: Map<u64, Seq<u64>>,
    items: Seq<(u64, MinHashSig<H>)>,
    b: int,
    rows: int,
) -> Map<u64, Seq<u64>>
    decreases items.len(),
{
    if items.len() == 0 {
        t
    } else {
        let last = items.last();
        added(batch_added(t, items.drop_last(), b, rows), band_key_spec(last.1.hashes@, b, rows), last.0)
    }
}

/// Append the ids of `items`, in order, to band `band`'s table.
fn add_batch_to_band<const H: usize>(
    table: &mut BandTable,
    band: usize,
    items: &[(u64, MinHashSig<H>)],
    rows: usize,
)
    requires
        band * rows + rows <= H,
    ensures
        band_table_contents(*final(table)) == batch_added(
            band_table_contents(*old(table)),
            items@,
            band as int,
            rows as int,
        ),
{
    let mut i: usize = 0;
    while i < items.len()
        invariant
            band * rows + rows <= H,
            i <= items@.len(),
            band_table_contents(*table) == batch_added(
                band_table_contents(*old(table)),
                items@.take(i as int),
                band as int,
                rows as int,
            ),
        decreases items@.len() - i,
    {
        let (id, sig) = items[i];
        assert(items@.take(i + 1).drop_last() == items@.take(i as int));
        let key = band_key(&sig, band, rows);
        add_id(table, key, id);
        i = i + 1;
    }
    assert(items@.take(items@.len() as int) == items@);
}

/// Runs [`add_batch_to_band`] on every table, in parallel on the rayon
/// pool (`par_iter_mut().enumerate().for_each`). As rayon documents,
/// `for_each` calls the closure once on each table, paired with its
/// index; the tables are disjoint, so each ends as that call leaves it.
#[verifier::external_body]
fn par_add_batch<const H: usize>(
    tables: &mut Vec<BandTable>,
    items: &[(u64, MinHashSig<H>)],
    rows: usize,
)
    requires
        old(tables)@.len() * rows <= H,
    ensures
        final(tables)@.len() == old(tables)@.len(),
        forall|b: int|
            0 <= b < old(tables)@.len() ==> band_table_contents(#[trigger] final(tables)@[b])
                == batch_added(band_table_contents(old(tables)@[b]), items@, b, rows as int),
{
    tables.par_iter_mut().enumerate().for_each(
        |(band, table)| add_batch_to_band(table, band, items, rows),
    );
}

/// The keys of `m` after inserting `items`: those of `m` and the ids of
/// `items`.
proof fn lemma_inserted_all_keys<const H: usize>(
    m: Map<u64, MinHashSig<H>>,
    items: Seq<(u64, MinHashSig<H>)>,
    k: u64,
)
    ensures
        inserted_all(m, items).contains_key(k) <==> (m.contains_key(k) || exists|i: int|
            0 <= i < items.len() && #[trigger] items[i].0 == k),
    decreases items.len(),
{
    if items.len() > 0 {
        let init = items.drop_last();
        lemma_inserted_all_keys(m, init, k);
        if exists|i: int| 0 <= i < init.len() && #[trigger] init[i].0 == k {
            let i = choose|i: int| 0 <= i < init.len() && #[trigger] init[i].0 == k;
            assert(items[i].0 == k);
        }
        if exists|i: int| 0 <= i < items.len() && #[trigger] items[i].0 == k {
            let i = choose|i: int| 0 <= i < items.len() && #[trigger] items[i].0 == k;
            if i < items.len() - 1 {
                assert(init[i].0 == k);
            }
        }
    }
}

/// Appending a batch of new, distinct ids keeps a band consistent with the
/// map extended by the batch.
proof fn lemma_batch_keeps_band_ok<const H: usize>(
    t: Map<u64, Seq<u64>>,
    sigs: Map<u64, MinHashSig<H>>,
    items: Seq<(u64, MinHashSig<H>)>,
    b: int,
    rows: int,
)
    requires
        band_ok(t, sigs, b, rows),
        forall|i: int| 0 <= i < items.len() ==> !sigs.contains_key(#[trigger] items[i].0),
        forall|i: int, j: int| 0 <= i < j < items.len() ==> items[i].0 != items[j].0,
    ensures
        band_ok(batch_added(t, items, b, rows), inserted_all(sigs, items), b, rows),
    decreases items.len(),
{
    if items.len() > 0 {
        let init = items.drop_last();
        let last = items.last();
        assert forall|i: int| 0 <= i < init.len() implies !sigs.contains_key(#[trigger] init[i].0) by {
            assert(init[i] == items[i]);
        }
        assert forall|i: int, j: int| 0 <= i < j < init.len() implies init[i].0 != init[j].0 by {
            assert(init[i] == items[i]);
            assert(init[j] == items[j]);
        }
        lemma_batch_keeps_band_ok(t, sigs, init, b, rows);
        lemma_inserted_all_keys(sigs, init, last.0);
        if exists|i: int| 0 <= i < init.len() && #[trigger] init[i].0 == last.0 {
            let i = choose|i: int| 0 <= i < init.len() && #[trigger] init[i].0 == last.0;
            assert(items[i].0 == items[items.len() - 1].0);
            assert(false);
        }
        assert(!sigs.contains_key(items[items.len() - 1].0));
        lemma_add_keeps_band_ok(
            batch_added(t, init, b, rows),
            inserted_all(sigs, init),
            b,
            rows,
            last.0,
            last.1,
        );
    }
}

/// Sort ascending (`slice::sort_unstable`): the result is an ordered
/// permutation of the input.
#[verifier::external_body]
fn sort_ids(v: &mut Vec<u64>)
    ensures
        final(v)@.to_multiset() == old(v)@.to_multiset(),
        forall|i: int, j: int| 0 <= i < j < final(v)@.len() ==> final(v)@[i] <= final(v)@[j],
{
    v.sort_unstable()
}

/// `s` is strictly increasing.
pub open spec fn strictly_increasing(s: Seq<u64>) -> bool {
    forall|i: int, j: int| 0 <= i < j < s.len() ==> s[i] < s[j]
}

/// Drop repeated elements of an ascending sequence.
fn dedup_sorted(v: &Vec<u64>) -> (out: Vec<u64>)
    requires
        forall|i: int, j: int| 0 <= i < j < v@.len() ==> v@[i] <= v@[j],
    ensures
        strictly_increasing(out@),
        forall|x: u64| out@.contains(x) <==> v@.contains(x),
{
    let mut out: Vec<u64> = Vec::new();
    let mut i: usize = 0;
    while i < v.len()
        invariant
            i <= v@.len(),
            forall|a: int, b: int| 0 <= a < b < v@.len() ==> v@[a] <= v@[b],
            strictly_increasing(out@),
            forall|x: u64| out@.contains(x) <==> v@.take(i as int).contains(x),
            out@.len() > 0 ==> i > 0 && out@.last() == v@[i - 1],
        decreases v@.len() - i,
    {
        let x = v[i];
        let ghost before = out@;
        let ghost pre = v@.take(i as int);
        let ghost post = v@.take(i + 1);
        assert(post == pre.push(x));
        if out.len() == 0 || out[out.len() - 1] != x {
            proof {
                if before.len() > 0 {
                    assert(v@[i - 1] <= x);
                }
            }
            out.push(x);
            assert(out@ == before.push(x));
            assert forall|y: u64| out@.contains(y) <==> post.contains(y) by {
                if out@.contains(y) {
                    let k = choose|k: int| 0 <= k < out@.len() && out@[k] == y;
                    if k < before.len() {
                        assert(before[k] == y);
                        assert(before.contains(y));
                        assert(pre.contains(y));
                        let m = choose|m: int| 0 <= m < pre.len() && pre[m] == y;
                        assert(post[m] == y);
                    } else {
                        assert(post[i as int] == y);
                    }
                }
                if post.contains(y) {
                    let k = choose|k: int| 0 <= k < post.len() && post[k] == y;
                    if k < i {
                        assert(pre[k] == y);
                        assert(before.contains(y));
                        let m = choose|m: int| 0 <= m < before.len() && before[m] == y;
                        assert(out@[m] == y);
                    } else {
                        assert(out@[before.len() as int] == y);
                    }
                }
            }
        } else {
            assert forall|y: u64| out@.contains(y) <==> post.contains(y) by {
                if out@.contains(y) {
                    assert(before.contains(y));
                    assert(pre.contains(y));
                    let m = choose|m: int| 0 <= m < pre.len() && pre[m] == y;
                    assert(post[m] == y);
                }
                if post.contains(y) {
                    let k = choose|k: int| 0 <= k < post.len() && post[k] == y;
                    if k < i {
                        assert(pre[k] == y);
                    } else {
                        assert(out@[out@.len() - 1] == y);
                    }
                }
            }
        }
        i = i + 1;
    }
    assert(v@.take(v@.len() as int) == v@);
    out
}

/// Why a partition of `h` slots into `bands` bands of `rows` rows is
/// refused.
pub open spec fn partition_error(bands: nat, rows: nat, h: nat) -> Seq<char> {
    if bands == 0 || rows == 0 {
        "bands and rows must be > 0"@
    } else if bands * rows > usize::MAX {
        "bands * rows overflow: "@ + decimal(bands) + " * "@ + decimal(rows)
    } else {
        "bands * rows ("@ + decimal(bands) + " * "@ + decimal(rows) + " = "@ + decimal(bands * rows)
            + ") must equal H = "@ + decimal(h)
    }
}

/// Banded LSH index over MinHash signatures with `H` slots.
pub struct LshIndex<const H: usize> {
    bands: usize,
    rows: usize,
    tables: Vec<BandTable>,
    sigs: HashMap<u64, MinHashSig<H>>,
}

impl<const H: usize> View for LshIndex<H> {
    type V = Map<u64, MinHashSig<H>>;

    /// The stored signatures by id.
    closed spec fn view(&self) -> Map<u64, MinHashSig<H>> {
        self.sigs@
    }
}

impl<const H: usize> LshIndex<H> {
    /// Number of bands.
    pub closed spec fn spec_bands(&self) -> usize {
        self.bands
    }

    /// Rows per band.
    pub closed spec fn spec_rows(&self) -> usize {
        self.rows
    }

    /// The buckets of band `b`.
    pub closed spec fn table(&self, b: int) -> Map<u64, Seq<u64>> {
        band_table_contents(self.tables@[b])
    }

    /// The index is consistent: the partition covers `H`, and every band
    /// table holds each stored id exactly under its band key.
    pub closed spec fn wf(&self) -> bool {
        &&& self.bands > 0
        &&& self.rows > 0
        &&& self.bands * self.rows == H
        &&& self.tables@.len() == self.bands
        &&& forall|b: int|
            0 <= b < self.bands ==> #[trigger] band_ok(
                band_table_contents(self.tables@[b]),
                self.sigs@,
                b,
                self.rows as int,
            )
    }

    /// `id` is stored and shares at least one band key with `hashes`.
    pub open spec fn is_candidate(&self, hashes: Seq<u64>, id: u64) -> bool {
        &&& self@.contains_key(id)
        &&& exists|b: int|
            0 <= b < self.spec_bands() && #[trigger] band_key_spec(
                self@[id].hashes@,
                b,
                self.spec_rows() as int,
            ) == band_key_spec(hashes, b, self.spec_rows() as int)
    }

    /// An empty index with `bands` bands of `rows` rows. Refused unless
    /// both are positive and `bands * rows == H` (an overflowing product
    /// is refused too).
    pub fn with_bands_rows(bands: usize, rows: usize) -> (r: Result<Self>)
        ensures
            r is Ok <==> bands > 0 && rows > 0 && bands * rows == H,
            r matches Ok(idx) ==> idx.wf() && idx@ == Map::<u64, MinHashSig<H>>::empty()
                && idx.spec_bands() == bands && idx.spec_rows() == rows,
            r matches Err(e) ==> e is Config && e->Config_0@ == partition_error(
                bands as nat,
                rows as nat,
                H as nat,
            ),
    {
        if bands == 0 || rows == 0 {
            return Err(config_error("bands and rows must be > 0"));
        }
        let product = match bands.checked_mul(rows) {
            Some(p) => p,
            None => {
                let mut m = String::new();
                push_str(&mut m, "bands * rows overflow: ");
                push_str(&mut m, decimal_string(bands as u64).as_str());
                push_str(&mut m, " * ");
                push_str(&mut m, decimal_string(rows as u64).as_str());
                return Err(Error::Config(m));
            },
        };
        if product != H {
            let mut m = String::new();
            push_str(&mut m, "bands * rows (");
            push_str(&mut m, decimal_string(bands as u64).as_str());
            push_str(&mut m, " * ");
            push_str(&mut m, decimal_string(rows as u64).as_str());
            push_str(&mut m, " = ");
            push_str(&mut m, decimal_string(product as u64).as_str());
            push_str(&mut m, ") must equal H = ");
            push_str(&mut m, decimal_string(H as u64).as_str());
            return Err(Error::Config(m));
        }
        let mut tables: Vec<BandTable> = Vec::new();
        let mut b: usize = 0;
        while b < bands
            invariant
                b <= bands,
                tables@.len() == b,
                forall|c: int| 0 <= c < b ==> band_table_contents(#[trigger] tables@[c]) == Map::<
                    u64,
                    Seq<u64>,
                >::empty(),
            decreases bands - b,
        {
            tables.push(BandTable::new());
            b = b + 1;
        }
        let idx = LshIndex { bands, rows, tables, sigs: HashMap::new() };
        assert forall|c: int| 0 <= c < bands implies #[trigger] band_ok(
            idx.table(c),
            idx.sigs@,
            c,
            rows as int,
        ) by {
            assert(idx.table(c) == Map::<u64, Seq<u64>>::empty());
        }
        Ok(idx)
    }

    /// Number of bands.
    pub fn bands(&self) -> (n: usize)
        ensures
            n == self.spec_bands(),
    {
        self.bands
    }

    /// Rows per band.
    pub fn rows(&self) -> (n: usize)
        ensures
            n == self.spec_rows(),
    {
        self.rows
    }

    /// Number of stored signatures.
    pub fn len(&self) -> (n: usize)
        ensures
            n == self@.len(),
    {
        self.sigs.len()
    }

    /// True when nothing is stored.
    pub fn is_empty(&self) -> (b: bool)
        ensures
            b == (self@.len() == 0),
    {
        self.sigs.len() == 0
    }

    /// The signature stored under `id`.
    pub fn get(&self, id: u64) -> (r: Option<&MinHashSig<H>>)
        ensures
            r matches Some(s) ==> self@.contains_key(id) && *s == self@[id],
            r is None ==> !self@.contains_key(id),
    {
        self.sigs.get(&id)
    }

    /// The stored ids, each once, in no particular order.
    pub fn ids(&self) -> (v: Vec<u64>)
        ensures
            v@.to_set() == self@.dom(),
            v@.no_duplicates(),
            v@.len() == self@.len(),
    {
        let ghost all: Seq<u64> = vstd::std_specs::hash::spec_keys_iter(&self.sigs).remaining().unref();
        let mut v: Vec<u64> = Vec::new();
        for k in it: self.sigs.keys()
            invariant
                it.seq().unref() == all,
                v@ == all.take(it.index() as int),
        {
            assert(all.take(it.index() + 1) == all.take(it.index() as int).push(*k));
            v.push(*k);
        }
        assert(v@ =~= all);
        v
    }

    /// The stored `(id, signature)` pairs, each id once, in no particular
    /// order.
    pub fn iter(&self) -> (v: Vec<(u64, MinHashSig<H>)>)
        ensures
            v@.len() == self@.len(),
            forall|i: int|
                0 <= i < v@.len() ==> self@.contains_key((#[trigger] v@[i]).0) && v@[i].1
                    == self@[v@[i].0],
            forall|id: u64|
                self@.contains_key(id) ==> exists|i: int| 0 <= i < v@.len() && (#[trigger] v@[i]).0 == id,
    {
        let ids = self.ids();
        let mut v: Vec<(u64, MinHashSig<H>)> = Vec::new();
        let mut i: usize = 0;
        while i < ids.len()
            invariant
                i <= ids@.len(),
                ids@.to_set() == self@.dom(),
                ids@.len() == self@.len(),
                v@.len() == i,
                forall|j: int|
                    0 <= j < i ==> (#[trigger] v@[j]).0 == ids@[j] && self@.contains_key(ids@[j])
                        && v@[j].1 == self@[ids@[j]],
            decreases ids@.len() - i,
        {
            let id = ids[i];
            assert(ids@.to_set().contains(id));
            match self.sigs.get(&id) {
                Some(s) => {
                    v.push((id, *s));
                },
                None => {
                    assert(false);
                },
            }
            i = i + 1;
        }
        assert forall|id: u64| self@.contains_key(id) implies exists|j: int|
            0 <= j < v@.len() && (#[trigger] v@[j]).0 == id by {
            assert(ids@.to_set().contains(id));
            let j = choose|j: int| 0 <= j < ids@.len() && ids@[j] == id;
            assert(v@[j].0 == id);
        }
        v
    }

    /// Drop `id` (stored as `old`) from every band table.
    fn scrub_bands(&mut self, id: u64, prev: &MinHashSig<H>)
        requires
            old(self).bands > 0,
            old(self).rows > 0,
            old(self).bands * old(self).rows == H,
            old(self).tables@.len() == old(self).bands,
            forall|b: int|
                0 <= b < old(self).bands ==> #[trigger] band_ok(
                    band_table_contents(old(self).tables@[b]),
                    old(self).sigs@.insert(id, *prev),
                    b,
                    old(self).rows as int,
                ),
            !old(self).sigs@.contains_key(id),
        ensures
            final(self).wf(),
            final(self).sigs@ == old(self).sigs@,
            final(self).bands == old(self).bands,
            final(self).rows == old(self).rows,
    {
        let ghost full = self.sigs@.insert(id, *prev);
        let bands = self.bands;
        let rows = self.rows;
        let mut b: usize = 0;
        while b < bands
            invariant
                bands == self.bands,
                rows == self.rows,
                bands > 0,
                rows > 0,
                bands * rows == H,
                b <= bands,
                self.tables@.len() == bands,
                full == self.sigs@.insert(id, *prev),
                !self.sigs@.contains_key(id),
                self.sigs@ == old(self).sigs@,
                forall|c: int| 0 <= c < b ==> #[trigger] band_ok(band_table_contents(self.tables@[c]), self.sigs@, c, rows as int),
                forall|c: int| b <= c < bands ==> #[trigger] band_ok(band_table_contents(self.tables@[c]), full, c, rows as int),
            decreases bands - b,
        {
            assert(b * rows + rows <= H) by (nonlinear_arith)
                requires
                    b < bands,
                    bands * rows == H,
            ;
            let key = band_key(prev, b, rows);
            proof {
                let t = band_table_contents(self.tables@[b as int]);
                assert(band_ok(t, full, b as int, rows as int));
                lemma_scrub_keeps_band_ok(t, full, b as int, rows as int, id);
                assert(full.remove(id) == self.sigs@);
                assert(full[id] == *prev);
            }
            let ghost before = self.tables@;
            scrub_id(&mut self.tables[b], key, id);
            assert(self.tables@ == before.update(b as int, self.tables@[b as int]));
            assert forall|c: int| 0 <= c < b + 1 implies #[trigger] band_ok(
                band_table_contents(self.tables@[c]),
                self.sigs@,
                c,
                rows as int,
            ) by {
                if c < b {
                    assert(self.tables@[c] == before[c]);
                }
            }
            assert forall|c: int| b + 1 <= c < bands implies #[trigger] band_ok(
                band_table_contents(self.tables@[c]),
                full,
                c,
                rows as int,
            ) by {
                assert(self.tables@[c] == before[c]);
            }
            b = b + 1;
        }
    }

    /// Store `sig` under `id`, replacing (and scrubbing) any signature
    /// already stored there.
    pub fn insert(&mut self, id: u64, sig: MinHashSig<H>)
        requires
            old(self).wf(),
        ensures
            final(self).wf(),
            final(self)@ == old(self)@.insert(id, sig),
            final(self).spec_bands() == old(self).spec_bands(),
            final(self).spec_rows() == old(self).spec_rows(),
    {
        match self.sigs.remove(&id) {
            Some(prev) => {
                proof {
                    assert(self.sigs@.insert(id, prev) == old(self).sigs@);
                }
                self.scrub_bands(id, &prev);
            },
            None => {
                assert(self.sigs@ =~= old(self).sigs@);
            },
        }
        let bands = self.bands;
        let rows = self.rows;
        let mut b: usize = 0;
        while b < bands
            invariant
                bands == self.bands,
                rows == self.rows,
                bands > 0,
                rows > 0,
                bands * rows == H,
                b <= bands,
                self.tables@.len() == bands,
                !self.sigs@.contains_key(id),
                self.sigs@ == old(self).sigs@.remove(id),
                forall|c: int|
                    0 <= c < b ==> #[trigger] band_ok(
                        band_table_contents(self.tables@[c]),
                        self.sigs@.insert(id, sig),
                        c,
                        rows as int,
                    ),
                forall|c: int| b <= c < bands ==> #[trigger] band_ok(band_table_contents(self.tables@[c]), self.sigs@, c, rows as int),
            decreases bands - b,
        {
            assert(b * rows + rows <= H) by (nonlinear_arith)
                requires
                    b < bands,
                    bands * rows == H,
            ;
            let key = band_key(&sig, b, rows);
            proof {
                let t = band_table_contents(self.tables@[b as int]);
                assert(band_ok(t, self.sigs@, b as int, rows as int));
                lemma_add_keeps_band_ok(t, self.sigs@, b as int, rows as int, id, sig);
            }
            let ghost before = self.tables@;
            add_id(&mut self.tables[b], key, id);
            assert(self.tables@ == before.update(b as int, self.tables@[b as int]));
            assert forall|c: int| 0 <= c < b + 1 implies #[trigger] band_ok(
                band_table_contents(self.tables@[c]),
                self.sigs@.insert(id, sig),
                c,
                rows as int,
            ) by {
                if c < b {
                    assert(self.tables@[c] == before[c]);
                }
            }
            assert forall|c: int| b + 1 <= c < bands implies #[trigger] band_ok(
                band_table_contents(self.tables@[c]),
                self.sigs@,
                c,
                rows as int,
            ) by {
                assert(self.tables@[c] == before[c]);
            }
            b = b + 1;
        }
        self.sigs.insert(id, sig);
        assert(self.sigs@ == old(self).sigs@.insert(id, sig));
    }

    /// Remove `id`, returning its signature if it was stored.
    pub fn remove(&mut self, id: u64) -> (r: Option<MinHashSig<H>>)
        requires
            old(self).wf(),
        ensures
            final(self).wf(),
            final(self)@ == old(self)@.remove(id),
            r matches Some(s) ==> old(self)@.contains_key(id) && s == old(self)@[id],
            r is None ==> !old(self)@.contains_key(id),
            final(self).spec_bands() == old(self).spec_bands(),
            final(self).spec_rows() == old(self).spec_rows(),
    {
        match self.sigs.remove(&id) {
            Some(prev) => {
                proof {
                    assert(self.sigs@.insert(id, prev) == old(self).sigs@);
                }
                self.scrub_bands(id, &prev);
                Some(prev)
            },
            None => {
                assert(self.sigs@ =~= old(self).sigs@);
                assert(self.sigs@ == old(self).sigs@.remove(id));
                None
            },
        }
    }

    /// Candidate ids for `sig`: the stored ids that share a band key with
    /// it in at least one band, ascending and without repeats.
    pub fn query(&self, sig: &MinHashSig<H>) -> (out: Vec<u64>)
        requires
            self.wf(),
        ensures
            strictly_increasing(out@),
            forall|id: u64| out@.contains(id) <==> self.is_candidate(sig.hashes@, id),
    {
        let bands = self.bands;
        let rows = self.rows;
        let mut out: Vec<u64> = Vec::new();
        let mut b: usize = 0;
        while b < bands
            invariant
                self.wf(),
                bands == self.bands,
                rows == self.rows,
                b <= bands,
                forall|id: u64|
                    out@.contains(id) <==> exists|c: int|
                        0 <= c < b && #[trigger] bucket_of(
                            band_table_contents(self.tables@[c]),
                            band_key_spec(sig.hashes@, c, rows as int),
                        ).contains(id),
            decreases bands - b,
        {
            assert(b * rows + rows <= H) by (nonlinear_arith)
                requires
                    b < bands,
                    bands * rows == H,
            ;
            let key = band_key(sig, b, rows);
            let list = self.tables[b].bucket(key);
            let ghost before = out@;
            let mut i: usize = 0;
            while i < list.len()
                invariant
                    i <= list@.len(),
                    out@ == before + list@.take(i as int),
                decreases list@.len() - i,
            {
                out.push(list[i]);
                i = i + 1;
                assert(out@ =~= before + list@.take(i as int));
            }
            assert(list@.take(list@.len() as int) == list@);
            assert forall|id: u64| out@.contains(id) <==> exists|c: int|
                0 <= c < b + 1 && #[trigger] bucket_of(
                    band_table_contents(self.tables@[c]),
                    band_key_spec(sig.hashes@, c, rows as int),
                ).contains(id) by {
                if out@.contains(id) {
                    let k = choose|k: int| 0 <= k < out@.len() && out@[k] == id;
                    if k < before.len() {
                        assert(before.contains(id));
                    } else {
                        assert(list@[k - before.len()] == id);
                        assert(list@.contains(id));
                    }
                }
                if exists|c: int|
                    0 <= c < b + 1 && #[trigger] bucket_of(
                        band_table_contents(self.tables@[c]),
                        band_key_spec(sig.hashes@, c, rows as int),
                    ).contains(id) {
                    let c = choose|c: int|
                        0 <= c < b + 1 && #[trigger] bucket_of(
                            band_table_contents(self.tables@[c]),
                            band_key_spec(sig.hashes@, c, rows as int),
                        ).contains(id);
                    if c < b {
                        assert(before.contains(id));
                        let k = choose|k: int| 0 <= k < before.len() && before[k] == id;
                        assert(out@[k] == id);
                    } else {
                        let k = choose|k: int| 0 <= k < list@.len() && list@[k] == id;
                        assert(out@[before.len() + k] == id);
                    }
                }
            }
            b = b + 1;
        }
        assert forall|id: u64| out@.contains(id) <==> self.is_candidate(sig.hashes@, id) by {
            let r = self.spec_rows() as int;
            assert(r == rows as int);
            assert(self@ == self.sigs@);
            if out@.contains(id) {
                let c = choose|c: int|
                    0 <= c < bands && #[trigger] bucket_of(
                        band_table_contents(self.tables@[c]),
                        band_key_spec(sig.hashes@, c, rows as int),
                    ).contains(id);
                assert(band_ok(band_table_contents(self.tables@[c]), self.sigs@, c, rows as int));
                lemma_sound_bucket(
                    band_table_contents(self.tables@[c]),
                    self.sigs@,
                    c,
                    rows as int,
                    band_key_spec(sig.hashes@, c, rows as int),
                    id,
                );
                assert(band_key_spec(self@[id].hashes@, c, r) == band_key_spec(sig.hashes@, c, r));
                assert(self.is_candidate(sig.hashes@, id));
            }
            if self.is_candidate(sig.hashes@, id) {
                let c = choose|c: int|
                    0 <= c < self.spec_bands() && #[trigger] band_key_spec(self@[id].hashes@, c, r)
                        == band_key_spec(sig.hashes@, c, r);
                assert(band_ok(band_table_contents(self.tables@[c]), self.sigs@, c, rows as int));
                assert(self.sigs@.contains_key(id));
                assert(bucket_of(
                    band_table_contents(self.tables@[c]),
                    band_key_spec(sig.hashes@, c, rows as int),
                ).contains(id));
                assert(out@.contains(id));
            }
        }
        let ghost unsorted = out@;
        sort_ids(&mut out);
        proof {
            assert forall|id: u64| out@.contains(id) <==> unsorted.contains(id) by {
                vstd::seq_lib::to_multiset_contains(out@, id);
                vstd::seq_lib::to_multiset_contains(unsorted, id);
            }
        }
        let result = dedup_sorted(&out);
        assert forall|id: u64| result@.contains(id) <==> self.is_candidate(sig.hashes@, id) by {
            assert(result@.contains(id) <==> out@.contains(id));
            assert(out@.contains(id) <==> unsorted.contains(id));
        }
        result
    }

    /// Insert a batch of distinct ids none of which is stored yet: the
    /// reverse map is filled first, then every band table takes the batch,
    /// the tables in parallel.
    pub fn extend_par(&mut self, items: Vec<(u64, MinHashSig<H>)>)
        requires
            old(self).wf(),
            forall|i: int| 0 <= i < items@.len() ==> !old(self)@.contains_key(#[trigger] items@[i].0),
            forall|i: int, j: int| 0 <= i < j < items@.len() ==> items@[i].0 != items@[j].0,
        ensures
            final(self).wf(),
            final(self)@ == inserted_all(old(self)@, items@),
            final(self).spec_bands() == old(self).spec_bands(),
            final(self).spec_rows() == old(self).spec_rows(),
    {
        self.extend_par_inner(&items);
    }

    /// Insert a batch of distinct ids, refusing it whole (nothing changes)
    /// when one of its ids is already stored.
    pub fn try_extend_par(&mut self, items: Vec<(u64, MinHashSig<H>)>) -> (r: Result<()>)
        requires
            old(self).wf(),
            forall|i: int, j: int| 0 <= i < j < items@.len() ==> items@[i].0 != items@[j].0,
        ensures
            final(self).wf(),
            r is Ok <==> forall|i: int|
                0 <= i < items@.len() ==> !old(self)@.contains_key(#[trigger] items@[i].0),
            r is Ok ==> final(self)@ == inserted_all(old(self)@, items@),
            r is Err ==> final(self)@ == old(self)@,
            r matches Err(e) ==> e is InvalidInput && exists|i: int|
                0 <= i < items@.len() && old(self)@.contains_key(#[trigger] items@[i].0) && (forall|
                    j: int,
                | 0 <= j < i ==> !old(self)@.contains_key(items@[j].0)) && e->InvalidInput_0@
                    == "LshIndex::try_extend_par: id "@ + decimal(items@[i].0 as nat)
                    + " already exists; remove() first"@,
            final(self).spec_bands() == old(self).spec_bands(),
            final(self).spec_rows() == old(self).spec_rows(),
    {
        let mut i: usize = 0;
        while i < items.len()
            invariant
                i <= items@.len(),
                forall|j: int| 0 <= j < i ==> !self@.contains_key(#[trigger] items@[j].0),
                *self == *old(self),
                self.wf(),
            decreases items@.len() - i,
        {
            let id = items[i].0;
            if self.sigs.contains_key(&id) {
                let mut m = String::new();
                push_str(&mut m, "LshIndex::try_extend_par: id ");
                push_str(&mut m, decimal_string(id).as_str());
                push_str(&mut m, " already exists; remove() first");
                return Err(Error::InvalidInput(m));
            }
            i = i + 1;
        }
        self.extend_par_inner(&items);
        Ok(())
    }

    /// Shared body of the batch inserts: fill the reverse map, then append
    /// the batch to every band table, the tables in parallel.
    fn extend_par_inner(&mut self, items: &Vec<(u64, MinHashSig<H>)>)
        requires
            old(self).wf(),
            forall|i: int| 0 <= i < items@.len() ==> !old(self)@.contains_key(#[trigger] items@[i].0),
            forall|i: int, j: int| 0 <= i < j < items@.len() ==> items@[i].0 != items@[j].0,
        ensures
            final(self).wf(),
            final(self)@ == inserted_all(old(self)@, items@),
            final(self).spec_bands() == old(self).spec_bands(),
            final(self).spec_rows() == old(self).spec_rows(),
    {
        let mut i: usize = 0;
        while i < items.len()
            invariant
                i <= items@.len(),
                self.sigs@ == inserted_all(old(self).sigs@, items@.take(i as int)),
                self.tables@ == old(self).tables@,
                self.bands == old(self).bands,
                self.rows == old(self).rows,
            decreases items@.len() - i,
        {
            let (id, sig) = items[i];
            assert(items@.take(i + 1).drop_last() == items@.take(i as int));
            self.sigs.insert(id, sig);
            i = i + 1;
        }
        assert(items@.take(items@.len() as int) == items@);
        let rows = self.rows;
        par_add_batch(&mut self.tables, items.as_slice(), rows);
        assert forall|b: int| 0 <= b < self.bands implies #[trigger] band_ok(
            band_table_contents(self.tables@[b]),
            self.sigs@,
            b,
            self.rows as int,
        ) by {
            assert(band_ok(
                band_table_contents(old(self).tables@[b]),
                old(self).sigs@,
                b,
                rows as int,
            ));
            lemma_batch_keeps_band_ok(
                band_table_contents(old(self).tables@[b]),
                old(self).sigs@,
                items@,
                b,
                rows as int,
            );
        }
    }
}

/// The map after inserting `items` in order.
pub open spec fn inserted_all<const H: usize>(
    m: Map<u64, MinHashSig<H>>,
    items: Seq<(u64, MinHashSig<H>)>,
) -> Map<u64, MinHashSig<H>>
    decreases items.len(),
{
    if items.len() == 0 {
        m
    } else {
        inserted_all(m, items.drop_last()).insert(items.last().0, items.last().1)
    }
}

/// A stored signature is always among its own candidates: querying an
/// index with a signature stored under `id` returns `id`.
pub proof fn lemma_stored_is_candidate<const H: usize>(idx: LshIndex<H>, id: u64)
    requires
        idx.wf(),
        idx@.contains_key(id),
    ensures
        idx.is_candidate(idx@[id].hashes@, id),
{
    assert(idx.spec_bands() > 0) by {
        reveal_wf(idx);
    }
    let k0 = band_key_spec(idx@[id].hashes@, 0, idx.spec_rows() as int);
    assert(k0 == band_key_spec(idx@[id].hashes@, 0, idx.spec_rows() as int));
}

/// The bytes that band `band` of `hashes` is keyed by: the little-endian
/// bytes of its `rows` slots, in slot order.
pub open spec fn band_bytes(hashes: Seq<u64>, band: int, rows: int) -> Seq<u8> {
    words_le(Seq::new(rows as nat, |i: int| hashes[band * rows + i]))
}

/// A band key is the xxh3 hash of the whole band: eight little-endian
/// bytes for each of the band's `rows` slots `band * rows ..
/// band * rows + rows`, in order, and nothing else.
pub proof fn lemma_band_key_hashes_whole_band(hashes: Seq<u64>, band: int, rows: int)
    requires
        0 <= band,
        0 <= rows,
        band * rows + rows <= hashes.len(),
    ensures
        band_key_spec(hashes, band, rows) == xxh3_64_of(band_bytes(hashes, band, rows)),
        band_bytes(hashes, band, rows).len() == 8 * rows,
        forall|i: int|
            0 <= i < rows ==> #[trigger] band_bytes(hashes, band, rows).subrange(8 * i, 8 * i + 8)
                == spec_u64_to_le_bytes(hashes[band * rows + i]),
{
    assert(0 <= band * rows) by (nonlinear_arith)
        requires
            0 <= band,
            0 <= rows,
    ;
    let slots = Seq::new(rows as nat, |i: int| hashes[band * rows + i]);
    assert(slots =~= hashes.subrange(band * rows, band * rows + rows));
    lemma_words_le_layout(slots);
    assert forall|i: int| 0 <= i < rows implies #[trigger] band_bytes(hashes, band, rows).subrange(
        8 * i,
        8 * i + 8,
    ) == spec_u64_to_le_bytes(hashes[band * rows + i]) by {
        assert(slots[i] == hashes[band * rows + i]);
    }
}

/// Query candidates are exactly the stored ids whose signature, in at least
/// one band, hashes the bytes of that band's slots to the same xxh3 value
/// as the query's.
pub proof fn lemma_candidate_iff_band_collision<const H: usize>(
    idx: LshIndex<H>,
    hashes: Seq<u64>,
    id: u64,
)
    requires
        idx.wf(),
        hashes.len() == H,
    ensures
        idx.is_candidate(hashes, id) <==> idx@.contains_key(id) && exists|b: int|
            0 <= b < idx.spec_bands() && #[trigger] xxh3_64_of(
                band_bytes(idx@[id].hashes@, b, idx.spec_rows() as int),
            ) == xxh3_64_of(band_bytes(hashes, b, idx.spec_rows() as int)),
{
    reveal_wf(idx);
    let r = idx.spec_rows() as int;
    let bands = idx.spec_bands() as int;
    assert forall|b: int| 0 <= b < bands implies #[trigger] band_key_spec(
        hashes,
        b,
        r,
    ) == xxh3_64_of(band_bytes(hashes, b, r)) by {
        assert(b * r + r <= bands * r) by (nonlinear_arith)
            requires
                0 <= b < bands,
                0 < r,
        ;
        lemma_band_key_hashes_whole_band(hashes, b, r);
    }
    if idx@.contains_key(id) {
        let st = idx@[id].hashes@;
        assert forall|b: int| 0 <= b < bands implies #[trigger] band_key_spec(st, b, r)
            == xxh3_64_of(band_bytes(st, b, r)) by {
            assert(b * r + r <= bands * r) by (nonlinear_arith)
                requires
                    0 <= b < bands,
                    0 < r,
            ;
            lemma_band_key_hashes_whole_band(st, b, r);
            assert(band_key_spec(hashes, b, r) == xxh3_64_of(band_bytes(hashes, b, r)));
        }
        if idx.is_candidate(hashes, id) {
            let b = choose|b: int|
                0 <= b < bands && #[trigger] band_key_spec(st, b, r) == band_key_spec(hashes, b, r);
            assert(band_key_spec(hashes, b, r) == xxh3_64_of(band_bytes(hashes, b, r)));
            assert(xxh3_64_of(band_bytes(st, b, r)) == xxh3_64_of(band_bytes(hashes, b, r)));
        }
        if exists|b: int|
            0 <= b < bands && #[trigger] xxh3_64_of(band_bytes(st, b, r)) == xxh3_64_of(
                band_bytes(hashes, b, r),
            ) {
            let b = choose|b: int|
                0 <= b < bands && #[trigger] xxh3_64_of(band_bytes(st, b, r)) == xxh3_64_of(
                    band_bytes(hashes, b, r),
                );
            assert(band_key_spec(hashes, b, r) == xxh3_64_of(band_bytes(hashes, b, r)));
            assert(band_key_spec(st, b, r) == band_key_spec(hashes, b, r));
        }
    }
}

/// A stored id whose signature agrees with the query on every slot of some
/// band is always a candidate.
pub proof fn lemma_band_agreement_makes_candidate<const H: usize>(
    idx: LshIndex<H>,
    hashes: Seq<u64>,
    id: u64,
    b: int,
)
    requires
        idx.wf(),
        hashes.len() == H,
        idx@.contains_key(id),
        0 <= b < idx.spec_bands(),
        forall|j: int|
            b * idx.spec_rows() <= j < b * idx.spec_rows() + idx.spec_rows() ==> #[trigger] hashes[j]
                == idx@[id].hashes@[j],
    ensures
        idx.is_candidate(hashes, id),
{
    reveal_wf(idx);
    let r = idx.spec_rows() as int;
    let bands = idx.spec_bands() as int;
    let st = idx@[id].hashes@;
    assert(0 <= b * r && b * r + r <= bands * r) by (nonlinear_arith)
        requires
            0 <= b < bands,
            0 < r,
    ;
    assert forall|k: int| 0 <= k < r implies #[trigger] st.subrange(b * r, b * r + r)[k] == hashes.subrange(
        b * r,
        b * r + r,
    )[k] by {
        assert(hashes[b * r + k] == st[b * r + k]);
    }
    assert(st.subrange(b * r, b * r + r) =~= hashes.subrange(b * r, b * r + r));
    assert(band_key_spec(st, b, r) == band_key_spec(hashes, b, r));
}

/// The partition of a consistent index is positive.
proof fn reveal_wf<const H: usize>(idx: LshIndex<H>)
    requires
        idx.wf(),
    ensures
        idx.spec_bands() > 0,
        idx.spec_rows() > 0,
        idx.spec_bands() * idx.spec_rows() == H,
{
}

} // verus!
