//! The SimHash fingerprinter.

use vstd::prelude::*;
use vstd::utf8::encode_utf8;

use super::sig::SimHash64;
use crate::canonical::{canonical_form, Canonicalizer};
use crate::classical::hash::{hash128, hash128_spec, HashFamily};
use crate::classical::Fingerprinter;
use crate::error::{invalid_input, Error, Result};
use crate::text::views;
use crate::tokenize::Tokenizer;

verus! {

/// Default SimHash seed.
pub const DEFAULT_SEED: u64 = 0x00C0_FFEE_5EED;

/// How tokens are weighted. Inverse-document-frequency weights are real
/// numbers; they are applied outside this crate, which then hands the
/// integer weights to [`simhash_of_weighted`].
#[derive(Copy, Clone, Debug, PartialEq, Eq, Structural)]
pub enum Weighting {
    /// Each distinct token counts once.
    Uniform,
    /// Each occurrence counts once (term frequency). The default.
    Tf,
}

impl Default for Weighting {
    fn default() -> (w: Self)
        ensures
            w == Weighting::Tf,
    {
        Weighting::Tf
    }
}

/// Bit `b` of `x`.
pub open spec fn bit_set(x: u64, b: int) -> bool {
    (x >> (b as u64)) & 1 == 1
}

/// `v` clamped to the `i64` range (saturating arithmetic).
pub open spec fn sat(v: int) -> i64 {
    if v > i64::MAX {
        i64::MAX
    } else if v < i64::MIN {
        i64::MIN
    } else {
        v as i64
    }
}

/// Counter `b` after the weighted items: each item adds its weight when
/// bit `b` of its hash is set and subtracts it otherwise, saturating.
pub open spec fn acc_slot(items: Seq<(u64, i64)>, b: int) -> i64
    decreases items.len(),
{
    if items.len() == 0 {
        0
    } else {
        let a = acc_slot(items.drop_last(), b);
        let (lo, w) = items.last();
        if bit_set(lo, b) {
            sat(a + w)
        } else {
            sat(a - w)
        }
    }
}

/// The signature bits of the first `n` counters: bit `b < n` is set when
/// counter `b` ends positive.
pub open spec fn bits_from(items: Seq<(u64, i64)>, n: nat) -> u64
    decreases n,
{
    if n == 0 {
        0
    } else {
        let r = bits_from(items, (n - 1) as nat);
        if acc_slot(items, n - 1) > 0 {
            r | (1u64 << ((n - 1) as u64))
        } else {
            r
        }
    }
}

/// The SimHash bits of weighted items.
pub open spec fn simhash_bits(items: Seq<(u64, i64)>) -> u64 {
    bits_from(items, 64)
}

/// Setting bit `k` changes bit `k` alone.
proof fn lemma_bit_step(r: u64, k: u64, j: u64)
    by (bit_vector)
    requires
        k < 64,
        j < 64,
    ensures
        ((r | (1u64 << k)) >> j) & 1 == (if j == k {
            1u64
        } else {
            (r >> j) & 1
        }),
{
}

/// Zero has no bit set.
proof fn lemma_zero_bit(j: u64)
    by (bit_vector)
    requires
        j < 64,
    ensures
        (0u64 >> j) & 1 == 0,
{
}

/// Bit `b < n` of `bits_from(items, n)` is set exactly when counter `b`
/// is positive, and no higher bit is set.
pub proof fn lemma_bits_from(items: Seq<(u64, i64)>, n: nat, b: int)
    requires
        n <= 64,
        0 <= b < 64,
    ensures
        bit_set(bits_from(items, n), b) <==> (b < n && acc_slot(items, b) > 0),
    decreases n,
{
    if n == 0 {
        lemma_zero_bit(b as u64);
    } else {
        lemma_bits_from(items, (n - 1) as nat, b);
        let r = bits_from(items, (n - 1) as nat);
        if acc_slot(items, n - 1) > 0 {
            lemma_bit_step(r, (n - 1) as u64, b as u64);
        }
    }
}

/// A bit of the SimHash is set exactly when its counter ends positive.
pub proof fn lemma_simhash_bit(items: Seq<(u64, i64)>, b: int)
    requires
        0 <= b < 64,
    ensures
        bit_set(simhash_bits(items), b) <==> acc_slot(items, b) > 0,
{
    lemma_bits_from(items, 64, b);
}

/// The vote of the items on bit `b`, one per item: +1 for each item whose
/// hash has bit `b` set, -1 for each other item.
pub open spec fn unit_votes(items: Seq<(u64, i64)>, b: int) -> int
    decreases items.len(),
{
    if items.len() == 0 {
        0
    } else {
        unit_votes(items.drop_last(), b) + if bit_set(items.last().0, b) {
            1int
        } else {
            -1int
        }
    }
}

/// Every item has weight 1.
pub open spec fn unit_weights(items: Seq<(u64, i64)>) -> bool {
    forall|i: int| 0 <= i < items.len() ==> (#[trigger] items[i]).1 == 1
}

/// With unit weights no counter saturates: each counter is the plain vote
/// on its bit, which is at most the number of items in size.
proof fn lemma_unit_counter(items: Seq<(u64, i64)>, b: int)
    requires
        unit_weights(items),
        items.len() <= i64::MAX,
    ensures
        acc_slot(items, b) == unit_votes(items, b),
        -items.len() <= unit_votes(items, b) <= items.len(),
    decreases items.len(),
{
    if items.len() > 0 {
        let p = items.drop_last();
        assert forall|i: int| 0 <= i < p.len() implies (#[trigger] p[i]).1 == 1 by {
            assert(p[i] == items[i]);
        }
        lemma_unit_counter(p, b);
        assert(items.last() == items[items.len() - 1]);
    }
}

/// With unit weights, bit `b` of the SimHash is set exactly when more items
/// have bit `b` set in their hash than not: the sign of the sum of the
/// per-item votes of +1 and -1.
pub proof fn lemma_simhash_majority(items: Seq<(u64, i64)>, b: int)
    requires
        unit_weights(items),
        items.len() <= i64::MAX,
        0 <= b < 64,
    ensures
        bit_set(simhash_bits(items), b) <==> unit_votes(items, b) > 0,
{
    lemma_unit_counter(items, b);
    lemma_simhash_bit(items, b);
}

/// The low `n` bits of `x` (all of `x` from 64 on).
spec fn low_bits(x: u64, n: nat) -> u64 {
    if n >= 64 {
        x
    } else {
        x & (((1u64 << (n as u64)) - 1) as u64)
    }
}

/// Adding bit `k` of `x` to its low `k` bits gives its low `k + 1` bits.
proof fn lemma_low_bits_step(x: u64, k: u64)
    by (bit_vector)
    requires
        k < 63,
    ensures
        (x >> k) & 1 == 1 ==> x & (((1u64 << ((k + 1) as u64)) - 1) as u64) == (x & (((1u64 << k)
            - 1) as u64)) | (1u64 << k),
        (x >> k) & 1 != 1 ==> x & (((1u64 << ((k + 1) as u64)) - 1) as u64) == x & (((1u64 << k)
            - 1) as u64),
{
}

/// Adding the top bit of `x` to its low 63 bits gives `x`.
proof fn lemma_low_bits_top(x: u64)
    by (bit_vector)
    ensures
        (x >> 63u64) & 1 == 1 ==> x == (x & (((1u64 << 63u64) - 1) as u64)) | (1u64 << 63u64),
        (x >> 63u64) & 1 != 1 ==> x == x & (((1u64 << 63u64) - 1) as u64),
        x & (((1u64 << 0u64) - 1) as u64) == 0,
{
}

/// The first `n` bits of the SimHash of a single unit-weight item are the
/// low `n` bits of its hash.
proof fn lemma_single_item_low_bits(lo: u64, n: nat)
    requires
        n <= 64,
    ensures
        bits_from(seq![(lo, 1i64)], n) == low_bits(lo, n),
    decreases n,
{
    let items = seq![(lo, 1i64)];
    lemma_low_bits_top(lo);
    if n > 0 {
        lemma_single_item_low_bits(lo, (n - 1) as nat);
        let k = (n - 1) as u64;
        assert(items.drop_last() == Seq::<(u64, i64)>::empty());
        assert(acc_slot(Seq::<(u64, i64)>::empty(), k as int) == 0);
        assert(items.last() == (lo, 1i64));
        assert(sat(1) == 1i64 && sat(-1) == -1i64);
        assert(acc_slot(items, k as int) == if bit_set(lo, k as int) {
            1i64
        } else {
            -1i64
        });
        if k < 63 {
            lemma_low_bits_step(lo, k);
        }
    }
}

/// One token gives its own bits: the SimHash of a single unit-weight item
/// is that item's hash.
pub proof fn lemma_single_item_simhash(lo: u64)
    ensures
        simhash_bits(seq![(lo, 1i64)]) == lo,
{
    lemma_single_item_low_bits(lo, 64);
}

/// Add `w` to each counter whose bit of `lo` is set and subtract it from
/// the others, saturating.
fn accumulate_bits(acc: &mut [i64; 64], lo: u64, w: i64)
    ensures
        forall|b: int|
            0 <= b < 64 ==> #[trigger] final(acc)@[b] == if bit_set(lo, b) {
                sat(old(acc)@[b] + w)
            } else {
                sat(old(acc)@[b] - w)
            },
{
    let mut b: usize = 0;
    while b < 64
        invariant
            b <= 64,
            acc@.len() == 64,
            forall|j: int|
                0 <= j < b ==> #[trigger] acc@[j] == if bit_set(lo, j) {
                    sat(old(acc)@[j] + w)
                } else {
                    sat(old(acc)@[j] - w)
                },
            forall|j: int| b <= j < 64 ==> #[trigger] acc@[j] == old(acc)@[j],
        decreases 64 - b,
    {
        let a = acc[b];
        let v = if (lo >> (b as u64)) & 1 == 1 {
            match a.checked_add(w) {
                Some(v) => v,
                None => if w > 0 {
                    i64::MAX
                } else {
                    i64::MIN
                },
            }
        } else {
            match a.checked_sub(w) {
                Some(v) => v,
                None => if w > 0 {
                    i64::MIN
                } else {
                    i64::MAX
                },
            }
        };
        acc.set(b, v);
        b = b + 1;
    }
}

/// The SimHash of weighted items `(hash, weight)`: one signed counter per
/// bit, and bit `b` of the result is set when counter `b` ends positive.
pub fn simhash_of_weighted(items: &Vec<(u64, i64)>) -> (s: SimHash64)
    ensures
        s.0 == simhash_bits(items@),
{
    let mut acc: [i64; 64] = [0i64; 64];
    let mut t: usize = 0;
    while t < items.len()
        invariant
            t <= items@.len(),
            acc@.len() == 64,
            forall|b: int| 0 <= b < 64 ==> #[trigger] acc@[b] == acc_slot(items@.take(t as int), b),
        decreases items@.len() - t,
    {
        let (lo, w) = items[t];
        assert(items@.take(t + 1).drop_last() == items@.take(t as int));
        accumulate_bits(&mut acc, lo, w);
        t = t + 1;
    }
    assert(items@.take(items@.len() as int) == items@);
    let mut bits: u64 = 0;
    let mut b: u64 = 0;
    while b < 64
        invariant
            b <= 64,
            acc@.len() == 64,
            forall|j: int| 0 <= j < 64 ==> #[trigger] acc@[j] == acc_slot(items@, j),
            bits == bits_from(items@, b as nat),
        decreases 64 - b,
    {
        if acc[b as usize] > 0 {
            bits = bits | (1u64 << b);
        }
        b = b + 1;
    }
    SimHash64(bits)
}

/// The low 64 bits of a token's 128-bit hash.
pub open spec fn token_lo(family: HashFamily, seed: u64, tok: Seq<char>) -> u64 {
    hash128_spec(family, encode_utf8(tok), seed).0
}

/// The distinct elements of `s`, in order of first occurrence.
pub open spec fn distinct(s: Seq<Seq<char>>) -> Seq<Seq<char>>
    decreases s.len(),
{
    if s.len() == 0 {
        Seq::empty()
    } else {
        let d = distinct(s.drop_last());
        if d.contains(s.last()) {
            d
        } else {
            d.push(s.last())
        }
    }
}

/// The weighted items of a token sequence: every occurrence (`Tf`) or
/// every distinct token (`Uniform`), with weight 1.
pub open spec fn weighted_items(
    family: HashFamily,
    seed: u64,
    weighting: Weighting,
    toks: Seq<Seq<char>>,
) -> Seq<(u64, i64)> {
    let chosen = match weighting {
        Weighting::Tf => toks,
        Weighting::Uniform => distinct(toks),
    };
    chosen.map_values(|t: Seq<char>| (token_lo(family, seed, t), 1i64))
}

/// Under term-frequency weighting every occurrence of a token casts one
/// vote: bit `b` of the SimHash is set exactly when more occurrences have
/// bit `b` set in their hash than not, and a single token gives the bits
/// of its own hash.
pub proof fn lemma_tf_simhash_votes(family: HashFamily, seed: u64, toks: Seq<Seq<char>>, b: int)
    requires
        toks.len() <= i64::MAX,
        0 <= b < 64,
    ensures
        ({
            let items = weighted_items(family, seed, Weighting::Tf, toks);
            &&& items.len() == toks.len()
            &&& forall|i: int|
                0 <= i < toks.len() ==> #[trigger] items[i] == (
                    token_lo(family, seed, toks[i]),
                    1i64,
                )
            &&& bit_set(simhash_bits(items), b) <==> unit_votes(items, b) > 0
            &&& toks.len() == 1 ==> simhash_bits(items) == token_lo(family, seed, toks[0])
        }),
{
    let items = weighted_items(family, seed, Weighting::Tf, toks);
    assert(unit_weights(items));
    lemma_simhash_majority(items, b);
    if toks.len() == 1 {
        assert(items == seq![(token_lo(family, seed, toks[0]), 1i64)]);
        lemma_single_item_simhash(token_lo(family, seed, toks[0]));
    }
}

/// A token is among the distinct tokens exactly when it occurs at all.
proof fn lemma_distinct_contains(s: Seq<Seq<char>>, x: Seq<char>)
    ensures
        distinct(s).contains(x) <==> s.contains(x),
    decreases s.len(),
{
    if s.len() > 0 {
        let p = s.drop_last();
        lemma_distinct_contains(p, x);
        lemma_distinct_contains(p, s.last());
        if p.contains(x) {
            let i = choose|i: int| 0 <= i < p.len() && p[i] == x;
            assert(s[i] == x);
        }
        if s.contains(x) && x != s.last() {
            let i = choose|i: int| 0 <= i < s.len() && s[i] == x;
            assert(p[i] == x);
        }
        if distinct(p).contains(x) {
            let d = distinct(p);
            let i = choose|i: int| 0 <= i < d.len() && d[i] == x;
            assert(d.push(s.last())[i] == x);
        }
        if x == s.last() && !distinct(p).contains(x) {
            let d = distinct(p);
            assert(d.push(s.last())[d.len() as int] == x);
        }
        if distinct(s).contains(x) && !distinct(p).contains(x) && !distinct(p).contains(s.last()) {
            let d = distinct(p);
            let i = choose|i: int| 0 <= i < d.len() + 1 && d.push(s.last())[i] == x;
            assert(i == d.len());
        }
        assert(s.contains(s.last()) && s.last() == s[s.len() - 1]);
    }
}

/// Under uniform weighting repeating a token that already occurred changes
/// nothing: every distinct token casts one vote however often it occurs.
pub proof fn lemma_uniform_ignores_repeats(
    family: HashFamily,
    seed: u64,
    toks: Seq<Seq<char>>,
    t: Seq<char>,
)
    requires
        toks.contains(t),
    ensures
        weighted_items(family, seed, Weighting::Uniform, toks.push(t)) == weighted_items(
            family,
            seed,
            Weighting::Uniform,
            toks,
        ),
{
    lemma_distinct_contains(toks, t);
    assert(toks.push(t).drop_last() == toks);
    assert(distinct(toks.push(t)) == distinct(toks));
}

/// The distinct strings of `ws`, in order of first occurrence.
fn distinct_strings(ws: &Vec<String>) -> (out: Vec<String>)
    ensures
        views(out@) == distinct(views(ws@)),
{
    let mut out: Vec<String> = Vec::new();
    let mut i: usize = 0;
    while i < ws.len()
        invariant
            i <= ws@.len(),
            views(out@) == distinct(views(ws@.take(i as int))),
        decreases ws@.len() - i,
    {
        let w = &ws[i];
        let ghost d = views(out@);
        assert(views(ws@.take(i + 1)).drop_last() == views(ws@.take(i as int)));
        assert(views(ws@.take(i + 1)).last() == w@);
        let mut found = false;
        let mut j: usize = 0;
        while j < out.len()
            invariant
                j <= out@.len(),
                d == views(out@),
                found <==> exists|k: int| 0 <= k < j && #[trigger] d[k] == w@,
            decreases out@.len() - j,
        {
            assert(d[j as int] == out@[j as int]@);
            if out[j] == *w {
                found = true;
            }
            j = j + 1;
        }
        if !found {
            out.push(w.clone());
            assert(views(out@) == d.push(w@));
        }
        i = i + 1;
    }
    assert(ws@.take(ws@.len() as int) == ws@);
    out
}

/// Builder for [`SimHashFingerprinter`].
#[derive(Copy, Clone, Debug)]
pub struct SimHashFingerprinterBuilder {
    seed: u64,
    weighting: Weighting,
    hasher: HashFamily,
}

impl SimHashFingerprinterBuilder {
    /// The configured seed.
    pub closed spec fn spec_seed(&self) -> u64 {
        self.seed
    }

    /// The configured weighting.
    pub closed spec fn spec_weighting(&self) -> Weighting {
        self.weighting
    }

    /// The configured hash family.
    pub closed spec fn spec_hasher(&self) -> HashFamily {
        self.hasher
    }

    /// Override the seed.
    pub fn seed(self, seed: u64) -> (b: Self)
        ensures
            b.spec_seed() == seed,
            b.spec_weighting() == self.spec_weighting(),
            b.spec_hasher() == self.spec_hasher(),
    {
        SimHashFingerprinterBuilder { seed, ..self }
    }

    /// Override the weighting.
    pub fn weighting(self, w: Weighting) -> (b: Self)
        ensures
            b.spec_seed() == self.spec_seed(),
            b.spec_weighting() == w,
            b.spec_hasher() == self.spec_hasher(),
    {
        SimHashFingerprinterBuilder { weighting: w, ..self }
    }

    /// Override the hash family.
    pub fn hasher(self, hasher: HashFamily) -> (b: Self)
        ensures
            b.spec_seed() == self.spec_seed(),
            b.spec_weighting() == self.spec_weighting(),
            b.spec_hasher() == hasher,
    {
        SimHashFingerprinterBuilder { hasher, ..self }
    }

    /// Finish the builder.
    pub fn build<T: Tokenizer>(self, canonicalizer: Canonicalizer, tokenizer: T) -> (f:
        SimHashFingerprinter<T>)
        ensures
            f.spec_canonicalizer() == canonicalizer,
            f.spec_tokenizer() == tokenizer,
            f.spec_seed() == self.spec_seed(),
            f.spec_weighting() == self.spec_weighting(),
            f.spec_hasher() == self.spec_hasher(),
    {
        SimHashFingerprinter {
            canonicalizer,
            tokenizer,
            seed: self.seed,
            weighting: self.weighting,
            hasher: self.hasher,
        }
    }
}

impl Default for SimHashFingerprinterBuilder {
    fn default() -> (b: Self)
        ensures
            b.spec_seed() == DEFAULT_SEED,
            b.spec_weighting() == Weighting::Tf,
            b.spec_hasher() == HashFamily::Xxh3_64,
    {
        SimHashFingerprinterBuilder {
            seed: DEFAULT_SEED,
            weighting: Weighting::Tf,
            hasher: HashFamily::Xxh3_64,
        }
    }
}

/// SimHash fingerprinter over a canonicalizer and a tokenizer.
#[derive(Clone, Debug)]
pub struct SimHashFingerprinter<T: Tokenizer> {
    canonicalizer: Canonicalizer,
    tokenizer: T,
    seed: u64,
    weighting: Weighting,
    hasher: HashFamily,
}

impl<T: Tokenizer> SimHashFingerprinter<T> {
    /// The canonicalizer.
    pub closed spec fn spec_canonicalizer(&self) -> Canonicalizer {
        self.canonicalizer
    }

    /// The tokenizer.
    pub closed spec fn spec_tokenizer(&self) -> T {
        self.tokenizer
    }

    /// The seed.
    pub closed spec fn spec_seed(&self) -> u64 {
        self.seed
    }

    /// The weighting.
    pub closed spec fn spec_weighting(&self) -> Weighting {
        self.weighting
    }

    /// The hash family.
    pub closed spec fn spec_hasher(&self) -> HashFamily {
        self.hasher
    }

    /// The tokens of already canonical text.
    pub open spec fn spec_tokens(&self, canonical: Seq<char>) -> Seq<Seq<char>> {
        self.spec_tokenizer().spec_tokens(canonical)
    }

    /// The tokens of a document.
    pub open spec fn doc_tokens(&self, input: Seq<char>) -> Seq<Seq<char>> {
        self.spec_tokens(canonical_form(self.spec_canonicalizer().spec_config(), input))
    }

    /// The weighted items of a token sequence under this configuration.
    pub open spec fn items_of(&self, toks: Seq<Seq<char>>) -> Seq<(u64, i64)> {
        weighted_items(self.spec_hasher(), self.spec_seed(), self.spec_weighting(), toks)
    }

    /// A fingerprinter with the default seed, term-frequency weighting and
    /// xxh3.
    pub fn new(canonicalizer: Canonicalizer, tokenizer: T) -> (f: Self)
        ensures
            f.spec_canonicalizer() == canonicalizer,
            f.spec_tokenizer() == tokenizer,
            f.spec_seed() == DEFAULT_SEED,
            f.spec_weighting() == Weighting::Tf,
            f.spec_hasher() == HashFamily::Xxh3_64,
    {
        SimHashFingerprinter {
            canonicalizer,
            tokenizer,
            seed: DEFAULT_SEED,
            weighting: Weighting::Tf,
            hasher: HashFamily::Xxh3_64,
        }
    }

    /// Override the seed.
    pub fn with_seed(self, seed: u64) -> (f: Self)
        ensures
            f.spec_canonicalizer() == self.spec_canonicalizer(),
            f.spec_tokenizer() == self.spec_tokenizer(),
            f.spec_seed() == seed,
            f.spec_weighting() == self.spec_weighting(),
            f.spec_hasher() == self.spec_hasher(),
    {
        SimHashFingerprinter { seed, ..self }
    }

    /// Override the hash family.
    pub fn with_hasher(self, hasher: HashFamily) -> (f: Self)
        ensures
            f.spec_canonicalizer() == self.spec_canonicalizer(),
            f.spec_tokenizer() == self.spec_tokenizer(),
            f.spec_seed() == self.spec_seed(),
            f.spec_weighting() == self.spec_weighting(),
            f.spec_hasher() == hasher,
    {
        SimHashFingerprinter { hasher, ..self }
    }

    /// Override the weighting.
    pub fn with_weighting(self, w: Weighting) -> (f: Self)
        ensures
            f.spec_canonicalizer() == self.spec_canonicalizer(),
            f.spec_tokenizer() == self.spec_tokenizer(),
            f.spec_seed() == self.spec_seed(),
            f.spec_weighting() == w,
            f.spec_hasher() == self.spec_hasher(),
    {
        SimHashFingerprinter { weighting: w, ..self }
    }

    /// The canonicalizer.
    pub fn canonicalizer(&self) -> (c: &Canonicalizer)
        ensures
            *c == self.spec_canonicalizer(),
    {
        &self.canonicalizer
    }

    /// The tokenizer.
    pub fn tokenizer(&self) -> (t: &T)
        ensures
            *t == self.spec_tokenizer(),
    {
        &self.tokenizer
    }

    /// The seed.
    pub fn seed(&self) -> (s: u64)
        ensures
            s == self.spec_seed(),
    {
        self.seed
    }

    /// The weighting.
    pub fn weighting(&self) -> (w: Weighting)
        ensures
            w == self.spec_weighting(),
    {
        self.weighting
    }

    /// The hash family.
    pub fn hasher(&self) -> (h: HashFamily)
        ensures
            h == self.spec_hasher(),
    {
        self.hasher
    }

    /// The weighted items of `toks`.
    fn items(&self, toks: &Vec<String>) -> (items: Vec<(u64, i64)>)
        ensures
            items@ == self.items_of(views(toks@)),
    {
        let chosen = match self.weighting {
            Weighting::Tf => toks.clone(),
            Weighting::Uniform => distinct_strings(toks),
        };
        let ghost cv = views(chosen@);
        proof {
            if self.weighting == Weighting::Tf {
                assert(views(chosen@) =~= views(toks@));
            }
        }
        let mut items: Vec<(u64, i64)> = Vec::new();
        let mut i: usize = 0;
        while i < chosen.len()
            invariant
                i <= chosen@.len(),
                cv == views(chosen@),
                items@ == cv.take(i as int).map_values(
                    |t: Seq<char>| (token_lo(self.spec_hasher(), self.spec_seed(), t), 1i64),
                ),
            decreases chosen@.len() - i,
        {
            let (lo, _hi) = hash128(self.hasher, chosen[i].as_str().as_bytes(), self.seed);
            items.push((lo, 1i64));
            i = i + 1;
            assert(items@ =~= cv.take(i as int).map_values(
                |t: Seq<char>| (token_lo(self.spec_hasher(), self.spec_seed(), t), 1i64),
            ));
        }
        assert(cv.take(cv.len() as int) == cv);
        items
    }

    /// Sketch already canonical text; refused when it has no token.
    pub fn sketch_canonical(&self, canonical: &str) -> (r: Result<SimHash64>)
        ensures
            r is Ok <==> self.spec_tokens(canonical@).len() > 0,
            r matches Ok(s) ==> s.0 == simhash_bits(self.items_of(self.spec_tokens(canonical@))),
            r matches Err(e) ==> e is InvalidInput && e->InvalidInput_0@ == "empty document"@,
    {
        let toks = self.tokenizer.tokens(canonical).into_string_iter();
        if toks.len() == 0 {
            return Err(invalid_input("empty document"));
        }
        let items = self.items(&toks);
        Ok(simhash_of_weighted(&items))
    }
}

impl<T: Tokenizer> Fingerprinter for SimHashFingerprinter<T> {
    type Output = SimHash64;

    open spec fn accepts(&self, input: Seq<char>) -> bool {
        input.len() > 0 && self.doc_tokens(input).len() > 0
    }

    open spec fn is_fingerprint_of(&self, input: Seq<char>, s: SimHash64) -> bool {
        s.0 == simhash_bits(self.items_of(self.doc_tokens(input)))
    }

    /// Canonicalize, tokenize and sketch `input`; refused when it is empty
    /// or yields no token.
    fn fingerprint(&self, input: &str) -> (r: Result<SimHash64>)
        ensures
            r matches Ok(s) ==> s.0 == simhash_bits(self.items_of(self.doc_tokens(input@))),
            r matches Err(e) ==> e is InvalidInput && e->InvalidInput_0@ == "empty document"@,
    {
        if input.unicode_len() == 0 {
            return Err(invalid_input("empty document"));
        }
        let canonical = self.canonicalizer.canonicalize(input);
        self.sketch_canonical(canonical.as_str())
    }
}

} // verus!
