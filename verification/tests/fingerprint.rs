use txtfp::algo;
use txtfp::fingerprint::UNCOMPUTED_CONFIG_HASH;
use txtfp::{config_hash, Canonicalizer, Fingerprint, MinHashSig, SimHash64, TlshFingerprint};

#[test]
fn config_hash_is_deterministic() {
    let c = Canonicalizer::default();
    let a = config_hash(&c, "word-uax29", "minhash-h128-mmh3");
    let b = config_hash(&c, "word-uax29", "minhash-h128-mmh3");
    assert_eq!(a, b);
}

#[test]
fn config_hash_differs_on_change() {
    let c = Canonicalizer::default();
    let a = config_hash(&c, "word-uax29", "minhash-h128-mmh3");
    let b = config_hash(&c, "grapheme-uax29", "minhash-h128-mmh3");
    assert_ne!(a, b);
}

#[test]
fn minhash_metadata_round_trip() {
    let sig = MinHashSig::<128>::empty();
    let fp = Fingerprint::MinHash(sig);
    let md = fp.metadata();
    assert_eq!(md.algorithm, algo::MINHASH_128);
    assert_eq!(md.config_hash, UNCOMPUTED_CONFIG_HASH);
    assert!(md.byte_size >= 128 * 8);
    assert_eq!(md.schema_version, 1);
}

#[test]
fn simhash_metadata_round_trip() {
    let fp = Fingerprint::SimHash(SimHash64::new(0xDEADBEEF));
    let md = fp.metadata();
    assert_eq!(md.algorithm, algo::SIMHASH_64);
    assert_eq!(md.byte_size, 8);
}

#[test]
fn metadata_with_populates_config_hash() {
    let sig = MinHashSig::<128>::empty();
    let fp = Fingerprint::MinHash(sig);
    let canon = Canonicalizer::default();
    let md = fp.metadata_with(&canon, "word-uax29", "h128-mmh3");
    let expected = config_hash(&canon, "word-uax29", "h128-mmh3");
    assert_eq!(md.config_hash, expected);
    assert_ne!(md.config_hash, UNCOMPUTED_CONFIG_HASH);
}

#[test]
fn with_config_hash_attaches_lazily() {
    let sig = MinHashSig::<128>::empty();
    let fp = Fingerprint::MinHash(sig);
    let md = fp.metadata().with_config_hash(0xDEAD_BEEF_CAFE_BABE);
    assert_eq!(md.config_hash, 0xDEAD_BEEF_CAFE_BABE);
}

#[test]
fn minhash_name_matches_documented_format() {
    let sig = MinHashSig::<128>::empty();
    let n = Fingerprint::MinHash(sig).name();
    assert_eq!(n, "minhash-h128-v1");
    assert!(!n.contains("cfg="), "name() must not include cfg=");
}

#[test]
fn simhash_name_is_stable() {
    let n = Fingerprint::SimHash(SimHash64::new(0)).name();
    assert_eq!(n, "simhash-b64-v1");
}

#[test]
fn uncomputed_sentinel_is_zero() {
    assert_eq!(UNCOMPUTED_CONFIG_HASH, 0);
}

// Further cases.

#[test]
fn tlsh_metadata_and_name() {
    let fp = Fingerprint::Tlsh(TlshFingerprint { hex: "T1ABCD".into() });
    let md = fp.metadata();
    assert_eq!(md.algorithm, algo::TLSH);
    assert_eq!(md.byte_size, 6);
    assert_eq!(fp.name(), "tlsh-v1");
}

#[test]
fn minhash_metadata_size_is_exact() {
    let md = Fingerprint::MinHash(MinHashSig::<128>::empty()).metadata();
    assert_eq!(md.byte_size, 8 + 8 * 128);
}
