use txtfp::classical::minhash::MinHashSig;
use txtfp::{
    Canonicalizer, Error, Fingerprinter, LshIndex, LshIndexBuilder, MinHashFingerprinter, Result,
    ShingleTokenizer, WordTokenizer,
};

fn make() -> LshIndex<128> {
    LshIndex::<128>::with_bands_rows(16, 8).unwrap()
}

fn fp() -> MinHashFingerprinter<ShingleTokenizer<WordTokenizer>, 128> {
    MinHashFingerprinter::<_, 128>::new(
        Canonicalizer::default(),
        ShingleTokenizer { k: 5, inner: WordTokenizer },
    )
}

#[test]
fn builder_new_round_trip() {
    let b = LshIndexBuilder::new(16, 8);
    assert_eq!(b.bands, 16);
    assert_eq!(b.rows, 8);
}

#[test]
fn try_build_rejects_mismatched_h() {
    let b = LshIndexBuilder::new(16, 8);
    let r: Result<LshIndex<64>> = b.try_build();
    assert!(matches!(r, Err(Error::Config(_))));
}

#[test]
fn try_build_succeeds_when_h_matches() {
    let b = LshIndexBuilder::new(16, 8);
    let r: Result<LshIndex<128>> = b.try_build();
    assert!(r.is_ok());
}

#[test]
fn rejects_mismatched_h() {
    let r = LshIndex::<128>::with_bands_rows(7, 9);
    assert!(matches!(r, Err(Error::Config(_))));
}

#[test]
fn rejects_zero_dimensions() {
    let r = LshIndex::<128>::with_bands_rows(0, 128);
    assert!(matches!(r, Err(Error::Config(_))));
    let r = LshIndex::<128>::with_bands_rows(128, 0);
    assert!(matches!(r, Err(Error::Config(_))));
}

#[test]
fn rejects_wrapping_product() {
    let r = LshIndex::<128>::with_bands_rows((1usize << 63) | 64, 2);
    assert!(matches!(r, Err(Error::Config(_))));
    let r = LshIndex::<128>::with_bands_rows(usize::MAX, 2);
    assert!(matches!(r, Err(Error::Config(_))));
}

#[test]
fn empty_index() {
    let idx = make();
    assert!(idx.is_empty());
    assert_eq!(idx.len(), 0);
    assert_eq!(idx.bands(), 16);
    assert_eq!(idx.rows(), 8);
}

#[test]
fn insert_and_get() {
    let mut idx = make();
    let f = fp();
    let s = f.fingerprint("the quick brown fox jumps").unwrap();
    idx.insert(42, s);
    assert_eq!(idx.len(), 1);
    assert_eq!(idx.get(42), Some(&s));
    assert!(idx.get(43).is_none());
}

#[test]
fn ids_and_iter_enumerate_stored_docs() {
    let mut idx = make();
    let f = fp();
    idx.insert(7, f.fingerprint("alpha beta gamma").unwrap());
    idx.insert(11, f.fingerprint("delta epsilon zeta").unwrap());
    let mut ids: Vec<u64> = idx.ids();
    ids.sort_unstable();
    assert_eq!(ids, vec![7, 11]);

    let mut pairs: Vec<_> = idx.iter().iter().map(|(id, sig)| (*id, sig.hashes[0])).collect();
    pairs.sort_by_key(|(id, _)| *id);
    assert_eq!(pairs.len(), 2);
}

#[test]
fn self_query_hits() {
    let mut idx = make();
    let f = fp();
    let s = f.fingerprint("the quick brown fox jumps over the lazy dog").unwrap();
    idx.insert(7, s);
    let neighbours = idx.query(&s);
    assert_eq!(neighbours, vec![7]);
}

#[test]
fn near_duplicate_is_a_candidate() {
    let mut idx = LshIndex::<128>::with_bands_rows(64, 2).unwrap();
    let f = fp();
    let s1 = f.fingerprint("the quick brown fox jumps over the lazy dog at noon today").unwrap();
    let s2 = f.fingerprint("the quick brown fox jumps over the lazy dog at dusk today").unwrap();
    idx.insert(1, s1);
    idx.insert(2, s2);
    let mut hits = idx.query(&s1);
    hits.sort();
    assert!(hits.contains(&1));
    assert!(hits.contains(&2), "near-duplicate missed: {hits:?}");
}

#[test]
fn dissimilar_doc_does_not_collide() {
    let mut idx = make();
    let f = fp();
    let s1 = f.fingerprint("the quick brown fox jumps over the lazy dog").unwrap();
    let s2 = f.fingerprint("astronomers detect cosmic background radiation in space").unwrap();
    idx.insert(1, s1);
    idx.insert(2, s2);
    let hits = idx.query(&s1);
    assert!(hits.contains(&1));
    assert!(!hits.contains(&2), "false positive: {hits:?}");
}

#[test]
fn dedup_repeat_inserts() {
    let mut idx = make();
    let f = fp();
    let s = f.fingerprint("the quick brown fox").unwrap();
    idx.insert(1, s);
    idx.insert(1, s);
    idx.insert(1, s);
    assert_eq!(idx.len(), 1);
    let hits = idx.query(&s);
    assert_eq!(hits, vec![1]);
}

#[test]
fn replace_changes_signature() {
    let mut idx = make();
    let f = fp();
    let s1 = f.fingerprint("alpha beta gamma delta epsilon").unwrap();
    let s2 = f.fingerprint("zeta eta theta iota kappa").unwrap();
    idx.insert(1, s1);
    idx.insert(1, s2);
    assert_eq!(idx.get(1), Some(&s2));
    assert_eq!(idx.query(&s2), vec![1]);
    let hits = idx.query(&s1);
    assert!(!hits.contains(&1), "old bands not scrubbed: {hits:?}");
}

#[test]
fn remove_takes_signature_out() {
    let mut idx = make();
    let f = fp();
    let s = f.fingerprint("the quick brown fox").unwrap();
    idx.insert(1, s);
    let removed = idx.remove(1);
    assert_eq!(removed, Some(s));
    assert!(idx.is_empty());
    assert!(idx.query(&s).is_empty());
}

#[test]
fn remove_missing_returns_none() {
    let mut idx = make();
    assert!(idx.remove(99).is_none());
}

#[test]
fn extend_par_matches_serial_insert() {
    let f = fp();
    let docs: Vec<String> =
        (0..200).map(|i| format!("the quick brown fox jumps over the lazy dog {i}")).collect();
    let sigs: Vec<_> = docs.iter().map(|d| f.fingerprint(d).unwrap()).collect();
    let mut serial = make();
    for (i, sig) in sigs.iter().enumerate() {
        serial.insert(i as u64, *sig);
    }
    let mut parallel = make();
    let pairs: Vec<_> = sigs.iter().enumerate().map(|(i, sig)| (i as u64, *sig)).collect();
    parallel.extend_par(pairs);
    assert_eq!(parallel.len(), serial.len());
    for i in 0..200u64 {
        assert_eq!(parallel.get(i), serial.get(i));
        let mut p = parallel.query(serial.get(i).unwrap());
        let mut s = serial.query(serial.get(i).unwrap());
        p.sort_unstable();
        s.sort_unstable();
        assert_eq!(p, s, "candidate set differs for id {i}");
    }
}

#[test]
fn try_extend_par_rejects_existing_ids() {
    let mut idx = make();
    let f = fp();
    idx.insert(1, f.fingerprint("alpha beta gamma").unwrap());
    let pairs: Vec<(u64, MinHashSig<128>)> = vec![(1, MinHashSig::empty()), (2, MinHashSig::empty())];
    let r = idx.try_extend_par(pairs);
    assert!(matches!(r, Err(Error::InvalidInput(_))));
    assert_eq!(idx.len(), 1);
}

#[test]
fn try_extend_par_matches_serial_insert() {
    let f = fp();
    let docs: Vec<String> =
        (0..100).map(|i| format!("the quick brown fox jumps over the lazy dog {i}")).collect();
    let sigs: Vec<_> = docs.iter().map(|d| f.fingerprint(d).unwrap()).collect();
    let mut serial = make();
    for (i, sig) in sigs.iter().enumerate() {
        serial.insert(i as u64, *sig);
    }
    let mut parallel = make();
    let pairs: Vec<_> = sigs.iter().enumerate().map(|(i, sig)| (i as u64, *sig)).collect();
    parallel.try_extend_par(pairs).unwrap();
    assert_eq!(parallel.len(), serial.len());
    for i in 0..100u64 {
        assert_eq!(parallel.get(i), serial.get(i));
        let mut p = parallel.query(serial.get(i).unwrap());
        let mut s = serial.query(serial.get(i).unwrap());
        p.sort_unstable();
        s.sort_unstable();
        assert_eq!(p, s, "candidate set differs for id {i}");
    }
}

// Further cases.

#[test]
fn query_is_sorted_and_unique() {
    let mut idx = LshIndex::<4>::with_bands_rows(4, 1).unwrap();
    let s = MinHashSig::<4> { schema: 1, _pad: [0; 6], hashes: [1, 2, 3, 4] };
    idx.insert(9, s);
    idx.insert(3, s);
    idx.insert(5, s);
    assert_eq!(idx.query(&s), vec![3, 5, 9]);
}

#[test]
fn removed_id_is_no_candidate_after_reinsert_elsewhere() {
    let mut idx = LshIndex::<4>::with_bands_rows(2, 2).unwrap();
    let a = MinHashSig::<4> { schema: 1, _pad: [0; 6], hashes: [1, 2, 3, 4] };
    let b = MinHashSig::<4> { schema: 1, _pad: [0; 6], hashes: [5, 6, 7, 8] };
    idx.insert(1, a);
    idx.insert(2, a);
    idx.remove(1);
    assert_eq!(idx.query(&a), vec![2]);
    idx.insert(2, b);
    assert!(idx.query(&a).is_empty());
    assert_eq!(idx.query(&b), vec![2]);
}
