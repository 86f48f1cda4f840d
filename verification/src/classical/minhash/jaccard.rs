//! Slot agreement between two MinHash signatures, the numerator of the
//! Jaccard estimate (the estimate is `matching_slots / H`).

use vstd::prelude::*;

use super::sig::MinHashSig;

verus! {

/// Number of positions `i < n` where `a[i] == b[i]`.
pub open spec fn agree_count(a: Seq<u64>, b: Seq<u64>, n: nat) -> nat
    decreases n,
{
    if n == 0 {
        0
    } else {
        agree_count(a, b, (n - 1) as nat) + if a[n - 1] == b[n - 1] {
            1nat
        } else {
            0nat
        }
    }
}

/// Number of slots on which `a` and `b` agree.
pub fn matching_slots<const H: usize>(a: &MinHashSig<H>, b: &MinHashSig<H>) -> (m: u64)
    requires
        H <= u64::MAX,
    ensures
        m == agree_count(a.hashes@, b.hashes@, H as nat),
        m <= H,
{
    let mut m: u64 = 0;
    let mut i: usize = 0;
    while i < H
        invariant
            i <= H <= u64::MAX,
            m == agree_count(a.hashes@, b.hashes@, i as nat),
            m <= i,
        decreases H - i,
    {
        if a.hashes[i] == b.hashes[i] {
            m = m + 1;
        }
        i = i + 1;
    }
    m
}

/// The slots `i < n` on which `a` and `b` agree, in increasing order.
pub open spec fn agreeing_slots(a: Seq<u64>, b: Seq<u64>, n: nat) -> Seq<int> {
    Seq::new(n, |i: int| i).filter(|i: int| a[i] == b[i])
}

/// The agreement count is the number of slots on which the signatures hold
/// equal values, one per such slot and none for any other: a slot counts
/// exactly when `a[i] == b[i]`, whatever its neighbours hold.
pub proof fn lemma_agree_count_counts_equal_slots(a: Seq<u64>, b: Seq<u64>, n: nat)
    ensures
        agree_count(a, b, n) == agreeing_slots(a, b, n).len(),
        forall|i: int| 0 <= i < n ==> (a[i] == b[i] <==> agreeing_slots(a, b, n).contains(i)),
    decreases n,
{
    broadcast use vstd::seq_lib::group_filter_ensures;

    let p = |i: int| a[i] == b[i];
    let idx = Seq::new(n, |i: int| i);
    if n > 0 {
        lemma_agree_count_counts_equal_slots(a, b, (n - 1) as nat);
        let prev = Seq::new((n - 1) as nat, |i: int| i);
        assert(idx == prev.push(n - 1));
        prev.lemma_filter_push(n - 1, p);
    }
    assert forall|i: int| 0 <= i < n implies (a[i] == b[i] <==> agreeing_slots(a, b, n).contains(
        i,
    )) by {
        assert(idx[i] == i);
        if a[i] == b[i] {
            assert(idx.contains(i));
        }
        if agreeing_slots(a, b, n).contains(i) {
            idx.lemma_filter_contains_rev(p, i);
        }
    }
}

/// Agreement is symmetric.
pub proof fn lemma_agree_count_symmetric(a: Seq<u64>, b: Seq<u64>, n: nat)
    ensures
        agree_count(a, b, n) == agree_count(b, a, n),
    decreases n,
{
    if n > 0 {
        lemma_agree_count_symmetric(a, b, (n - 1) as nat);
    }
}

/// A signature agrees with itself on every slot.
pub proof fn lemma_agree_count_self(a: Seq<u64>, n: nat)
    ensures
        agree_count(a, a, n) == n,
    decreases n,
{
    if n > 0 {
        lemma_agree_count_self(a, (n - 1) as nat);
    }
}

/// Agreement never exceeds the number of slots compared.
pub proof fn lemma_agree_count_bounded(a: Seq<u64>, b: Seq<u64>, n: nat)
    ensures
        agree_count(a, b, n) <= n,
    decreases n,
{
    if n > 0 {
        lemma_agree_count_bounded(a, b, (n - 1) as nat);
    }
}

} // verus!
