use txtfp::classical::hash::{hash128, murmur3_x64_128, XXH3_HIGH_LANE_SEED_OFFSET};
use xxhash_rust::xxh3::xxh3_64_with_seed;
use txtfp::HashFamily;

#[test]
fn empty_input_with_seed_zero_is_deterministic() {
    let a = murmur3_x64_128(b"", 0);
    let b = murmur3_x64_128(b"", 0);
    assert_eq!(a, b);
}

#[test]
fn different_seeds_produce_different_hashes() {
    let a = murmur3_x64_128(b"hello", 0);
    let b = murmur3_x64_128(b"hello", 1);
    assert_ne!(a, b);
}

#[test]
fn different_inputs_produce_different_hashes() {
    let a = murmur3_x64_128(b"hello", 0);
    let b = murmur3_x64_128(b"world", 0);
    assert_ne!(a, b);
}

#[test]
fn hash_is_deterministic() {
    let a = murmur3_x64_128(b"the quick brown fox", 0xDEAD_BEEF);
    let b = murmur3_x64_128(b"the quick brown fox", 0xDEAD_BEEF);
    assert_eq!(a, b);
}

#[test]
fn handles_inputs_at_block_boundary() {
    let s = b"0123456789ABCDEF";
    let a = murmur3_x64_128(s, 0);
    let b = murmur3_x64_128(s, 0);
    assert_eq!(a, b);
}

#[test]
fn handles_inputs_with_long_tail() {
    let s = b"0123456789ABCDEF1";
    let _ = murmur3_x64_128(s, 0);
}

#[test]
fn handles_inputs_with_9_byte_tail() {
    let s = b"0123456789ABCDEF1234567";
    let _ = murmur3_x64_128(s, 0);
}

#[test]
fn xxh3_pathway_compiles_and_differs_from_murmur() {
    let a = hash128(HashFamily::Xxh3_64, b"hello world", 0);
    let b = hash128(HashFamily::MurmurHash3_x64_128, b"hello world", 0);
    assert_ne!(a, b);
}

#[test]
fn family_as_str_is_stable() {
    assert_eq!(HashFamily::MurmurHash3_x64_128.as_str(), "mmh3-x64-128");
    assert_eq!(HashFamily::Xxh3_64.as_str(), "xxh3-64");
}

// Further cases: published MurmurHash3 x64-128 reference values.

#[test]
fn murmur3_empty_seed_zero_is_zero() {
    assert_eq!(murmur3_x64_128(b"", 0), (0, 0));
}

#[test]
fn murmur3_matches_known_vector() {
    // MurmurHash3_x64_128("hello", seed 0) as computed by SMHasher.
    assert_eq!(
        murmur3_x64_128(b"hello", 0),
        (0xcbd8a7b341bd9b02, 0x5b1e906a48ae1d19)
    );
}

#[test]
fn xxh3_high_lane_uses_offset_seed() {
    let (lo, hi) = hash128(HashFamily::Xxh3_64, b"abc", 7);
    assert_eq!(lo, xxh3_64_with_seed(b"abc", 7));
    assert_eq!(hi, xxh3_64_with_seed(b"abc", 7u64.wrapping_add(XXH3_HIGH_LANE_SEED_OFFSET)));
    assert_ne!(lo, hi);
}
