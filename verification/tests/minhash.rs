use txtfp::classical::minhash::fingerprinter::MinHashFingerprinterBuilder;
use txtfp::classical::minhash::jaccard::matching_slots;
use txtfp::classical::minhash::sig::SCHEMA_VERSION;
use txtfp::{
    Canonicalizer, Error, Fingerprinter, HashFamily, MinHashFingerprinter, MinHashSig,
    ShingleTokenizer, WordTokenizer,
};

fn fp() -> MinHashFingerprinter<ShingleTokenizer<WordTokenizer>, 128> {
    MinHashFingerprinter::new(
        Canonicalizer::default(),
        ShingleTokenizer { k: 3, inner: WordTokenizer },
    )
}

#[test]
fn fingerprinter_empty_input_errors() {
    let f = fp();
    let r = f.fingerprint("");
    assert!(matches!(r, Err(Error::InvalidInput(_))));
}

#[test]
fn whitespace_only_errors() {
    let f = fp();
    let r = f.fingerprint("    \n\n\n");
    assert!(matches!(r, Err(Error::InvalidInput(_))));
}

#[test]
fn fingerprinter_deterministic() {
    let f = fp();
    let a = f.fingerprint("the quick brown fox jumps over the lazy dog").unwrap();
    let b = f.fingerprint("the quick brown fox jumps over the lazy dog").unwrap();
    assert_eq!(a, b);
}

#[test]
fn permutation_invariance() {
    let f = MinHashFingerprinter::<_, 64>::new(Canonicalizer::default(), WordTokenizer);
    let a = f.fingerprint("alpha beta gamma delta").unwrap();
    let b = f.fingerprint("delta gamma beta alpha").unwrap();
    assert_eq!(a, b);
}

#[test]
fn duplicate_insensitivity() {
    let f = MinHashFingerprinter::<_, 64>::new(Canonicalizer::default(), WordTokenizer);
    let a = f.fingerprint("alpha beta gamma delta").unwrap();
    let b = f.fingerprint("alpha beta gamma delta alpha beta gamma delta").unwrap();
    assert_eq!(a, b);
}

#[test]
fn schema_field_set() {
    let f = fp();
    let s = f.fingerprint("hello world hello world").unwrap();
    assert_eq!(s.schema, SCHEMA_VERSION);
}

#[test]
fn seed_change_changes_signature() {
    let f1 = fp();
    let f2 = fp().with_seed(42);
    let a = f1.fingerprint("the quick brown fox jumps").unwrap();
    let b = f2.fingerprint("the quick brown fox jumps").unwrap();
    assert_ne!(a, b);
}

#[test]
fn xxh3_hasher_is_selectable() {
    let f = fp().with_hasher(HashFamily::Xxh3_64);
    let a = f.fingerprint("the quick brown fox jumps").unwrap();
    assert!(a.hashes.iter().any(|h| *h != u64::MAX));
}

#[test]
fn fingerprinter_builder_default_matches_constructor() {
    let canon = Canonicalizer::default();
    let tok = ShingleTokenizer { k: 3, inner: WordTokenizer };
    let a = MinHashFingerprinterBuilder::default().build::<_, 128>(canon.clone(), tok.clone());
    let b: MinHashFingerprinter<_, 128> = MinHashFingerprinter::new(canon, tok);
    let s_a = a.fingerprint("the quick brown fox jumps over the lazy dog").unwrap();
    let s_b = b.fingerprint("the quick brown fox jumps over the lazy dog").unwrap();
    assert_eq!(s_a, s_b);
}

#[test]
fn empty_signature_has_schema_set() {
    let s: MinHashSig<128> = MinHashSig::empty();
    assert_eq!(s.schema, SCHEMA_VERSION);
    assert_eq!(s._pad, [0; 6]);
    assert!(s.hashes.iter().all(|h| *h == u64::MAX));
}

#[test]
fn slot_count_matches_const_generic() {
    let s: MinHashSig<64> = MinHashSig::empty();
    assert_eq!(s.slot_count(), 64);
}

#[test]
fn schema_version_is_frozen() {
    assert_eq!(SCHEMA_VERSION, 1);
}

// Further cases.

fn sig_with<const H: usize>(hashes: [u64; H]) -> MinHashSig<H> {
    MinHashSig { schema: SCHEMA_VERSION, _pad: [0; 6], hashes }
}

#[test]
fn matching_slots_counts_agreement() {
    let a: MinHashSig<8> = sig_with([1, 2, 3, 4, 5, 6, 7, 8]);
    let b: MinHashSig<8> = sig_with([1, 2, 3, 4, 99, 99, 99, 99]);
    assert_eq!(matching_slots(&a, &b), 4);
    assert_eq!(matching_slots(&a, &a), 8);
    assert_eq!(matching_slots(&b, &a), matching_slots(&a, &b));
}

#[test]
fn as_bytes_layout() {
    let s: MinHashSig<2> = sig_with([0x0102030405060708, 9]);
    let b = s.as_bytes();
    assert_eq!(b.len(), 8 + 8 * 2);
    assert_eq!(&b[0..8], &[1, 0, 0, 0, 0, 0, 0, 0]);
    assert_eq!(&b[8..16], &[8, 7, 6, 5, 4, 3, 2, 1]);
    assert_eq!(&b[16..24], &[9, 0, 0, 0, 0, 0, 0, 0]);
}

#[test]
fn sketch_canonical_refuses_no_tokens() {
    let f = fp();
    assert!(matches!(f.sketch_canonical("!!! ..."), Err(Error::InvalidInput(_))));
}

#[test]
fn default_hash_family_is_xxh3() {
    let canon = Canonicalizer::default();
    let tok = ShingleTokenizer { k: 3, inner: WordTokenizer };
    let f = MinHashFingerprinter::<_, 64>::new(canon, tok);
    assert_eq!(f.hasher(), HashFamily::Xxh3_64);
    let b = MinHashFingerprinterBuilder::default();
    let g = b.build::<_, 64>(Canonicalizer::default(), ShingleTokenizer { k: 3, inner: WordTokenizer });
    assert_eq!(g.hasher(), HashFamily::Xxh3_64);
    let m = f.with_hasher(HashFamily::MurmurHash3_x64_128);
    assert_eq!(m.hasher(), HashFamily::MurmurHash3_x64_128);
}
