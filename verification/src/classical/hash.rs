//! Hash families shared by the classical fingerprinters.
//!
//! MurmurHash3 x64-128 is implemented (and proved against its functional
//! definition) here; xxHash3 is provided by the `xxhash-rust` crate.

use vstd::bytes::*;
use vstd::prelude::*;

verus! {

/// Selectable non-cryptographic hash family.
#[allow(non_camel_case_types)]
#[derive(Copy, Clone, Debug, PartialEq, Eq, Hash, Structural)]
pub enum HashFamily {
    /// MurmurHash3, 128-bit variant for x86_64.
    MurmurHash3_x64_128,
    /// xxHash3, 64-bit variant (the high lane comes from a derived seed).
    Xxh3_64,
}

impl HashFamily {
    /// Stable identifier of the family, used in fingerprint metadata.
    pub open spec fn spec_name(self) -> Seq<char> {
        match self {
            HashFamily::MurmurHash3_x64_128 => "mmh3-x64-128"@,
            HashFamily::Xxh3_64 => "xxh3-64"@,
        }
    }

    /// Stable string identifier used in fingerprint metadata.
    pub fn as_str(self) -> (s: &'static str)
        ensures
            s@ == self.spec_name(),
    {
        match self {
            HashFamily::MurmurHash3_x64_128 => "mmh3-x64-128",
            HashFamily::Xxh3_64 => "xxh3-64",
        }
    }
}

/// Multiplier applied to the first lane of each block.
pub const C1: u64 = 0x87c3_7b91_1142_53d5;

/// Multiplier applied to the second lane of each block.
pub const C2: u64 = 0x4cf5_ad43_2745_937f;

/// Rotate `x` left by `r` bits (`0 < r < 64`).
pub open spec fn rotl(x: u64, r: u64) -> u64 {
    (x << r) | (x >> ((64 - r) as u64))
}

fn rotl_exec(x: u64, r: u64) -> (res: u64)
    requires
        0 < r < 64,
    ensures
        res == rotl(x, r),
{
    (x << r) | (x >> (64 - r))
}

/// The MurmurHash3 finalization mix.
pub open spec fn fmix64_spec(k: u64) -> u64 {
    let k = k ^ (k >> 33u64);
    let k = k.wrapping_mul(0xff51_afd7_ed55_8ccdu64);
    let k = k ^ (k >> 33u64);
    let k = k.wrapping_mul(0xc4ce_b9fe_1a85_ec53u64);
    k ^ (k >> 33u64)
}

fn fmix64(k: u64) -> (res: u64)
    ensures
        res == fmix64_spec(k),
{
    let mut k = k;
    k = k ^ (k >> 33);
    k = k.wrapping_mul(0xff51_afd7_ed55_8ccd);
    k = k ^ (k >> 33);
    k = k.wrapping_mul(0xc4ce_b9fe_1a85_ec53);
    k ^ (k >> 33)
}

/// Mixing of a first-lane word.
pub open spec fn mix_k1(k: u64) -> u64 {
    rotl(k.wrapping_mul(C1), 31).wrapping_mul(C2)
}

/// Mixing of a second-lane word.
pub open spec fn mix_k2(k: u64) -> u64 {
    rotl(k.wrapping_mul(C2), 33).wrapping_mul(C1)
}

/// One 16-byte body block applied to the state `(h1, h2)`.
pub open spec fn murmur_block(h1: u64, h2: u64, k1: u64, k2: u64) -> (u64, u64) {
    let h1 = h1 ^ mix_k1(k1);
    let h1 = rotl(h1, 27).wrapping_add(h2).wrapping_mul(5).wrapping_add(0x52dc_e729u64);
    let h2 = h2 ^ mix_k2(k2);
    let h2 = rotl(h2, 31).wrapping_add(h1).wrapping_mul(5).wrapping_add(0x3849_5ab5u64);
    (h1, h2)
}

/// Little-endian word of at most 8 bytes, zero-extended.
pub open spec fn le_word(bytes: Seq<u8>) -> u64 {
    spec_u64_from_le_bytes(bytes + Seq::new((8 - bytes.len()) as nat, |i: int| 0u8))
}

/// State after the first `n` 16-byte blocks of `key`.
pub open spec fn murmur_body(key: Seq<u8>, seed: u64, n: nat) -> (u64, u64)
    decreases n,
{
    if n == 0 {
        (seed, seed)
    } else {
        let (h1, h2) = murmur_body(key, seed, (n - 1) as nat);
        let off = (n - 1) * 16;
        murmur_block(
            h1,
            h2,
            le_word(key.subrange(off, off + 8)),
            le_word(key.subrange(off + 8, off + 16)),
        )
    }
}

/// MurmurHash3 x64-128 of `key` with a 64-bit `seed` (both lanes of the
/// initial state are the seed), as `(low, high)`.
pub open spec fn murmur3_spec(key: Seq<u8>, seed: u64) -> (u64, u64) {
    let nb = key.len() / 16;
    let (h1, h2) = murmur_body(key, seed, nb);
    let tail = key.subrange((nb * 16) as int, key.len() as int);
    let h2 = if tail.len() > 8 {
        h2 ^ mix_k2(le_word(tail.subrange(8, tail.len() as int)))
    } else {
        h2
    };
    let h1 = if tail.len() > 0 {
        h1 ^ mix_k1(le_word(tail.subrange(0, if tail.len() < 8 { tail.len() as int } else { 8 })))
    } else {
        h1
    };
    let len = key.len() as u64;
    let h1 = h1 ^ len;
    let h2 = h2 ^ len;
    let h1 = h1.wrapping_add(h2);
    let h2 = h2.wrapping_add(h1);
    let h1 = fmix64_spec(h1);
    let h2 = fmix64_spec(h2);
    let h1 = h1.wrapping_add(h2);
    let h2 = h2.wrapping_add(h1);
    (h1, h2)
}

/// Little-endian load of `key[off..off + n]`, zero-extended to 8 bytes.
fn load_le(key: &[u8], off: usize, n: usize) -> (w: u64)
    requires
        n <= 8,
        off + n <= key@.len(),
    ensures
        w == le_word(key@.subrange(off as int, off + n)),
{
    let mut buf: Vec<u8> = Vec::new();
    let mut j: usize = 0;
    while j < n
        invariant
            j <= n <= 8,
            off + n <= key@.len(),
            key@.len() == key.len(),
            buf@ == key@.subrange(off as int, off + j),
        decreases n - j,
    {
        buf.push(key[off + j]);
        j = j + 1;
    }
    while j < 8
        invariant
            n <= j <= 8,
            off + n <= key@.len(),
            buf@ == key@.subrange(off as int, off + n) + Seq::new((j - n) as nat, |i: int| 0u8),
        decreases 8 - j,
    {
        buf.push(0u8);
        j = j + 1;
        assert(buf@ =~= key@.subrange(off as int, off + n) + Seq::new((j - n) as nat, |i: int| 0u8));
    }
    assert(buf@ =~= key@.subrange(off as int, off + n) + Seq::new(
        (8 - key@.subrange(off as int, off + n).len()) as nat,
        |i: int| 0u8,
    ));
    u64_from_le_bytes(buf.as_slice())
}

/// Compute MurmurHash3 x64-128 over `key` with `seed`, returning
/// `(low_64, high_64)`.
pub fn murmur3_x64_128(key: &[u8], seed: u64) -> (r: (u64, u64))
    ensures
        r == murmur3_spec(key@, seed),
{
    let len = key.len();
    let nblocks = len / 16;
    let mut h1: u64 = seed;
    let mut h2: u64 = seed;
    let mut i: usize = 0;
    while i < nblocks
        invariant
            len == key@.len(),
            nblocks == len / 16,
            i <= nblocks,
            (h1, h2) == murmur_body(key@, seed, i as nat),
        decreases nblocks - i,
    {
        let off = i * 16;
        let mut k1 = load_le(key, off, 8);
        let mut k2 = load_le(key, off + 8, 8);
        k1 = k1.wrapping_mul(C1);
        k1 = rotl_exec(k1, 31);
        k1 = k1.wrapping_mul(C2);
        h1 = h1 ^ k1;
        h1 = rotl_exec(h1, 27);
        h1 = h1.wrapping_add(h2);
        h1 = h1.wrapping_mul(5).wrapping_add(0x52dc_e729);
        k2 = k2.wrapping_mul(C2);
        k2 = rotl_exec(k2, 33);
        k2 = k2.wrapping_mul(C1);
        h2 = h2 ^ k2;
        h2 = rotl_exec(h2, 31);
        h2 = h2.wrapping_add(h1);
        h2 = h2.wrapping_mul(5).wrapping_add(0x3849_5ab5);
        i = i + 1;
    }
    let base = nblocks * 16;
    let tail_len = len - base;
    let ghost tail = key@.subrange(base as int, len as int);
    if tail_len > 8 {
        let mut k2 = load_le(key, base + 8, tail_len - 8);
        assert(key@.subrange(base + 8, base + tail_len) =~= tail.subrange(8, tail.len() as int));
        k2 = k2.wrapping_mul(C2);
        k2 = rotl_exec(k2, 33);
        k2 = k2.wrapping_mul(C1);
        h2 = h2 ^ k2;
    }
    if tail_len > 0 {
        let n1 = if tail_len < 8 { tail_len } else { 8 };
        let mut k1 = load_le(key, base, n1);
        assert(key@.subrange(base as int, base + n1) =~= tail.subrange(0, n1 as int));
        k1 = k1.wrapping_mul(C1);
        k1 = rotl_exec(k1, 31);
        k1 = k1.wrapping_mul(C2);
        h1 = h1 ^ k1;
    }
    h1 = h1 ^ (len as u64);
    h2 = h2 ^ (len as u64);
    h1 = h1.wrapping_add(h2);
    h2 = h2.wrapping_add(h1);
    h1 = fmix64(h1);
    h2 = fmix64(h2);
    h1 = h1.wrapping_add(h2);
    h2 = h2.wrapping_add(h1);
    (h1, h2)
}

/// `xxhash_rust::xxh3::xxh3_64_with_seed` applied to `key` and `seed`.
pub uninterp spec fn xxh3_64_seeded(key: Seq<u8>, seed: u64) -> u64;

/// `xxhash_rust::xxh3::xxh3_64` (default secret, no seed) applied to `key`.
pub uninterp spec fn xxh3_64_of(key: Seq<u8>) -> u64;

/// Calls `xxhash_rust::xxh3::xxh3_64_with_seed`; the result is named
/// `xxh3_64_seeded` and claimed to depend on the key bytes and seed alone.
#[verifier::external_body]
pub(crate) fn xxh3_64_with_seed(key: &[u8], seed: u64) -> (h: u64)
    ensures
        h == xxh3_64_seeded(key@, seed),
{
    xxhash_rust::xxh3::xxh3_64_with_seed(key, seed)
}

/// Calls `xxhash_rust::xxh3::xxh3_64`; the result is named `xxh3_64_of`
/// and claimed to depend on the key bytes alone.
#[verifier::external_body]
pub(crate) fn xxh3_64(key: &[u8]) -> (h: u64)
    ensures
        h == xxh3_64_of(key@),
{
    xxhash_rust::xxh3::xxh3_64(key)
}

/// Seed offset (the 64-bit golden ratio) that derives the high lane of
/// the xxh3 family from its low lane's seed.
pub const XXH3_HIGH_LANE_SEED_OFFSET: u64 = 0x9E37_79B9_7F4A_7C15;

/// The 128-bit hash of `key` under `family` and `seed`, as `(low, high)`.
pub open spec fn hash128_spec(family: HashFamily, key: Seq<u8>, seed: u64) -> (u64, u64) {
    match family {
        HashFamily::MurmurHash3_x64_128 => murmur3_spec(key, seed),
        HashFamily::Xxh3_64 => (
            xxh3_64_seeded(key, seed),
            xxh3_64_seeded(key, seed.wrapping_add(XXH3_HIGH_LANE_SEED_OFFSET)),
        ),
    }
}

/// Hash `key` to 128 bits under `family`. For xxh3 the two lanes are two
/// seeded 64-bit hashes, the second seed offset by
/// [`XXH3_HIGH_LANE_SEED_OFFSET`].
pub fn hash128(family: HashFamily, key: &[u8], seed: u64) -> (r: (u64, u64))
    ensures
        r == hash128_spec(family, key@, seed),
{
    match family {
        HashFamily::MurmurHash3_x64_128 => murmur3_x64_128(key, seed),
        HashFamily::Xxh3_64 => {
            let lo = xxh3_64_with_seed(key, seed);
            let hi = xxh3_64_with_seed(key, seed.wrapping_add(XXH3_HIGH_LANE_SEED_OFFSET));
            (lo, hi)
        },
    }
}

} // verus!
