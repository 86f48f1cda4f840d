//! Hamming distance between SimHash signatures.

use vstd::prelude::*;

use super::sig::SimHash64;

verus! {

/// Number of set bits among the low `n` bits of `x`.
pub open spec fn popcount(x: u64, n: nat) -> nat
    decreases n,
{
    if n == 0 {
        0
    } else {
        popcount(x, (n - 1) as nat) + (if (x >> ((n - 1) as u64)) & 1 == 1 {
            1nat
        } else {
            0nat
        })
    }
}

/// Number of differing bits.
pub fn hamming(a: SimHash64, b: SimHash64) -> (d: u32)
    ensures
        d == popcount(a.0 ^ b.0, 64),
        d <= 64,
{
    let x = a.0 ^ b.0;
    let mut d: u32 = 0;
    let mut i: u64 = 0;
    while i < 64
        invariant
            i <= 64,
            d == popcount(x, i as nat),
            d <= i,
        decreases 64 - i,
    {
        if (x >> i) & 1 == 1 {
            d = d + 1;
        }
        i = i + 1;
    }
    d
}

/// Hamming distance is symmetric.
pub proof fn lemma_hamming_symmetric(a: SimHash64, b: SimHash64)
    ensures
        popcount(a.0 ^ b.0, 64) == popcount(b.0 ^ a.0, 64),
{
    let x = a.0;
    let y = b.0;
    assert(x ^ y == y ^ x) by (bit_vector);
}

/// No bit of zero is set.
proof fn lemma_popcount_zero(n: nat)
    ensures
        popcount(0, n) == 0,
    decreases n,
{
    if n > 0 {
        lemma_popcount_zero((n - 1) as nat);
        let k = (n - 1) as u64;
        assert((0u64 >> k) & 1 == 0) by (bit_vector);
    }
}

/// A signature is at distance zero from itself.
pub proof fn lemma_hamming_self_zero(a: SimHash64)
    ensures
        popcount(a.0 ^ a.0, 64) == 0,
{
    let x = a.0;
    assert(x ^ x == 0) by (bit_vector);
    lemma_popcount_zero(64);
}

/// At most `n` of the low `n` bits are set.
pub proof fn lemma_popcount_bounded(x: u64, n: nat)
    ensures
        popcount(x, n) <= n,
    decreases n,
{
    if n > 0 {
        lemma_popcount_bounded(x, (n - 1) as nat);
    }
}

} // verus!
