use txtfp::classical::simhash::fingerprinter::{simhash_of_weighted, SimHashFingerprinterBuilder};
use txtfp::classical::simhash::sig::SCHEMA_VERSION;
use txtfp::classical::simhash::SimHashStreaming;
use txtfp::{
    hamming, Canonicalizer, Error, Fingerprinter, HashFamily, SimHash64, SimHashFingerprinter,
    StreamingFingerprinter, Weighting, WordTokenizer,
};

fn fp() -> SimHashFingerprinter<WordTokenizer> {
    SimHashFingerprinter::new(Canonicalizer::default(), WordTokenizer)
}

#[test]
fn self_distance_is_zero() {
    let s = SimHash64::new(0xAA55_AA55_AA55_AA55);
    assert_eq!(hamming(s, s), 0);
}

#[test]
fn full_inversion_is_64() {
    let a = SimHash64::new(0x0000_0000_0000_0000);
    let b = SimHash64::new(0xFFFF_FFFF_FFFF_FFFF);
    assert_eq!(hamming(a, b), 64);
}

#[test]
fn one_bit_flip_is_one() {
    let a = SimHash64::new(0);
    let b = SimHash64::new(1);
    assert_eq!(hamming(a, b), 1);
}

#[test]
fn distance_symmetric() {
    let a = SimHash64::new(0x1234_5678_9ABC_DEF0);
    let b = SimHash64::new(0x0FED_CBA9_8765_4321);
    assert_eq!(hamming(a, b), hamming(b, a));
}

#[test]
fn from_bytes_round_trips() {
    let s = SimHash64::new(0xDEAD_BEEF_CAFE_BABE);
    let back = SimHash64::from_bytes(&s.as_bytes()).unwrap();
    assert_eq!(s, back);
}

#[test]
fn from_bytes_rejects_wrong_length() {
    assert!(matches!(SimHash64::from_bytes(&[0_u8; 7]), Err(Error::InvalidInput(_))));
    assert!(matches!(SimHash64::from_bytes(&[0_u8; 9]), Err(Error::InvalidInput(_))));
    assert!(SimHash64::from_bytes(&[0_u8; 8]).is_ok());
}

#[test]
fn schema_constant_is_one() {
    assert_eq!(SCHEMA_VERSION, 1);
}

#[test]
fn from_into_u64() {
    let s: SimHash64 = 42u64.into();
    let n: u64 = s.into();
    assert_eq!(n, 42);
}

#[test]
fn simhash_fingerprinter_empty_input_errors() {
    assert!(matches!(fp().fingerprint(""), Err(Error::InvalidInput(_))));
}

#[test]
fn simhash_fingerprinter_deterministic() {
    let f = fp();
    let a = f.fingerprint("the quick brown fox jumps over the lazy dog").unwrap();
    let b = f.fingerprint("the quick brown fox jumps over the lazy dog").unwrap();
    assert_eq!(a, b);
}

#[test]
fn similar_docs_have_small_hamming() {
    let f = fp();
    let a = f.fingerprint("the quick brown fox jumps over the lazy dog").unwrap();
    let b = f.fingerprint("the quick brown fox leaps over the lazy dog").unwrap();
    let h = hamming(a, b);
    assert!(h < 16, "expected hamming < 16, got {h}");
}

#[test]
fn different_docs_have_large_hamming() {
    let f = fp();
    let a = f.fingerprint("the quick brown fox jumps over the lazy dog").unwrap();
    let b = f.fingerprint("astronomers map cosmic background radiation").unwrap();
    let h = hamming(a, b);
    assert!(h > 16, "expected hamming > 16, got {h}");
}

#[test]
fn uniform_vs_tf_can_differ() {
    let canon = Canonicalizer::default();
    let f1 = SimHashFingerprinter::new(canon.clone(), WordTokenizer).with_weighting(Weighting::Uniform);
    let f2 = SimHashFingerprinter::new(canon, WordTokenizer).with_weighting(Weighting::Tf);
    let a = f1.fingerprint("the the the the cat").unwrap();
    let b = f2.fingerprint("the the the the cat").unwrap();
    assert_ne!(a, b);
}

#[test]
fn xxh3_hasher_works() {
    let f = fp().with_hasher(HashFamily::Xxh3_64);
    let s = f.fingerprint("the quick brown fox jumps").unwrap();
    assert_ne!(s, SimHash64::new(0));
}

#[test]
fn simhash_builder_default_matches_constructor() {
    let canon = Canonicalizer::default();
    let a = SimHashFingerprinterBuilder::default().build(canon.clone(), WordTokenizer);
    let b = SimHashFingerprinter::new(canon, WordTokenizer);
    let s_a = a.fingerprint("hello world").unwrap();
    let s_b = b.fingerprint("hello world").unwrap();
    assert_eq!(s_a, s_b);
}

fn make_stream() -> SimHashStreaming<WordTokenizer> {
    SimHashStreaming::new(SimHashFingerprinter::new(Canonicalizer::default(), WordTokenizer))
}

#[test]
fn simhash_streaming_matches_offline_for_single_chunk() {
    let txt = "the quick brown fox jumps over the lazy dog";
    let mut s = make_stream();
    s.update(txt.as_bytes()).unwrap();
    let stream_sig = s.finalize().unwrap();
    let offline_sig = fp().fingerprint(txt).unwrap();
    assert_eq!(stream_sig, offline_sig);
}

#[test]
fn simhash_streaming_matches_offline_across_chunks() {
    let txt = "the quick brown fox jumps over the lazy dog";
    let mut s = make_stream();
    for chunk in txt.as_bytes().chunks(5) {
        s.update(chunk).unwrap();
    }
    let stream_sig = s.finalize().unwrap();
    let offline_sig = fp().fingerprint(txt).unwrap();
    assert_eq!(stream_sig, offline_sig);
}

#[test]
fn simhash_streaming_empty_finalize_errors() {
    assert!(matches!(make_stream().finalize(), Err(Error::InvalidInput(_))));
}

#[test]
fn simhash_streaming_invalid_utf8_errors() {
    let mut s = make_stream();
    assert!(matches!(s.update(&[0x80]), Err(Error::InvalidInput(_))));
}

#[test]
fn reset_clears() {
    let mut s = make_stream();
    s.update(b"hello world hello world").unwrap();
    s.reset();
    assert_eq!(s.buffered_bytes(), 0);
}

// Further cases.

#[test]
fn weighted_items_set_bits_by_majority() {
    let items = vec![(0b1011u64, 1i64), (0b0011u64, 1), (0b1000u64, -3)];
    // Bit 0: +1 +1 -(-3) = 5 > 0; bit 1: +1 +1 +3 = 5; bit 2: -1 -1 +3 = 1;
    // bit 3: +1 -1 -3 = -3; higher bits: -1 -1 +3 = 1.
    let s = simhash_of_weighted(&items);
    assert_eq!(s.bits(), !0b1000u64);
}

#[test]
fn display_string_is_hex() {
    assert_eq!(SimHash64::new(0xAB).to_display_string(), "SimHash64(00000000000000ab)");
}

#[test]
fn single_token_gives_its_own_hash() {
    let f = fp();
    let s = f.fingerprint("hello").unwrap();
    let (lo, _) = txtfp::classical::hash::hash128(f.hasher(), b"hello", f.seed());
    assert_eq!(s.bits(), lo);
}

#[test]
fn single_unit_item_gives_its_own_bits() {
    let s = simhash_of_weighted(&vec![(0x0123_4567_89ab_cdefu64, 1i64)]);
    assert_eq!(s.bits(), 0x0123_4567_89ab_cdef);
}

#[test]
fn unit_votes_decide_each_bit() {
    // Bit 0: three votes for, none against; bit 1: one for, two against.
    let items = vec![(0b01u64, 1i64), (0b11u64, 1), (0b01u64, 1)];
    let s = simhash_of_weighted(&items);
    assert_eq!(s.bits() & 0b11, 0b01);
}

#[test]
fn uniform_weighting_ignores_repeated_tokens() {
    let f = fp().with_weighting(Weighting::Uniform);
    let a = f.fingerprint("the cat sat").unwrap();
    let b = f.fingerprint("the cat sat the cat the").unwrap();
    assert_eq!(a, b);
}
