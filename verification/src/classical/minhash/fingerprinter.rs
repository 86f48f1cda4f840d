//! The MinHash fingerprinter.

use vstd::prelude::*;
use vstd::utf8::encode_utf8;

use super::sig::{MinHashSig, SCHEMA_VERSION};
use crate::canonical::{canonical_form, Canonicalizer};
use crate::classical::hash::{hash128, hash128_spec, HashFamily};
use crate::classical::Fingerprinter;
use crate::error::{invalid_input, Error, Result};
use crate::tokenize::{TokenStream, Tokenizer};

verus! {

/// Default MinHash seed. Fingerprints made with different seeds are not
/// comparable.
pub const DEFAULT_SEED: u64 = 0x00C0_FFEE_5EED;

/// The value a token proposes for slot `i`: `lo + i * hi` (wrapping),
/// where `(lo, hi)` is the 128-bit hash of the token's UTF-8 bytes.
pub open spec fn token_slot(family: HashFamily, seed: u64, tok: Seq<char>, i: int) -> u64 {
    let h = hash128_spec(family, encode_utf8(tok), seed);
    h.0.wrapping_add((i as u64).wrapping_mul(h.1))
}

/// Slot `i` after folding in `toks`: the least proposed value, starting
/// from `u64::MAX`.
pub open spec fn min_slot(family: HashFamily, seed: u64, toks: Seq<Seq<char>>, i: int) -> u64
    decreases toks.len(),
{
    if toks.len() == 0 {
        u64::MAX
    } else {
        let m = min_slot(family, seed, toks.drop_last(), i);
        let v = token_slot(family, seed, toks.last(), i);
        if v < m {
            v
        } else {
            m
        }
    }
}

/// The `n` slots of the MinHash sketch of `toks`.
pub open spec fn sketch_of(family: HashFamily, seed: u64, toks: Seq<Seq<char>>, n: nat) -> Seq<
    u64,
> {
    Seq::new(n, |i: int| min_slot(family, seed, toks, i))
}

/// Lower every slot `j` to `lo + j * hi` (wrapping) where that is smaller.
fn fold_token<const H: usize>(hashes: &mut [u64; H], lo: u64, hi: u64)
    ensures
        forall|j: int|
            0 <= j < H ==> {
                let v = lo.wrapping_add((j as u64).wrapping_mul(hi));
                #[trigger] final(hashes)@[j] == if v < old(hashes)@[j] {
                    v
                } else {
                    old(hashes)@[j]
                }
            },
{
    let mut i: usize = 0;
    while i < H
        invariant
            i <= H,
            hashes@.len() == H,
            forall|j: int|
                0 <= j < i ==> {
                    let v = lo.wrapping_add((j as u64).wrapping_mul(hi));
                    #[trigger] hashes@[j] == if v < old(hashes)@[j] {
                        v
                    } else {
                        old(hashes)@[j]
                    }
                },
            forall|j: int| i <= j < H ==> #[trigger] hashes@[j] == old(hashes)@[j],
        decreases H - i,
    {
        let h = lo.wrapping_add((i as u64).wrapping_mul(hi));
        if h < hashes[i] {
            hashes.set(i, h);
        }
        i = i + 1;
    }
}

/// Builder for [`MinHashFingerprinter`] (seed and hash family).
#[derive(Copy, Clone, Debug)]
pub struct MinHashFingerprinterBuilder {
    seed: u64,
    hasher: HashFamily,
}

impl MinHashFingerprinterBuilder {
    /// The configured seed.
    pub closed spec fn spec_seed(&self) -> u64 {
        self.seed
    }

    /// The configured hash family.
    pub closed spec fn spec_hasher(&self) -> HashFamily {
        self.hasher
    }

    /// Override the seed.
    pub fn seed(self, seed: u64) -> (b: Self)
        ensures
            b.spec_seed() == seed,
            b.spec_hasher() == self.spec_hasher(),
    {
        MinHashFingerprinterBuilder { seed, hasher: self.hasher }
    }

    /// Override the hash family.
    pub fn hasher(self, hasher: HashFamily) -> (b: Self)
        ensures
            b.spec_seed() == self.spec_seed(),
            b.spec_hasher() == hasher,
    {
        MinHashFingerprinterBuilder { seed: self.seed, hasher }
    }

    /// Finish the builder.
    pub fn build<T: Tokenizer, const H: usize>(
        self,
        canonicalizer: Canonicalizer,
        tokenizer: T,
    ) -> (f: MinHashFingerprinter<T, H>)
        ensures
            f.spec_canonicalizer() == canonicalizer,
            f.spec_tokenizer() == tokenizer,
            f.spec_seed() == self.spec_seed(),
            f.spec_hasher() == self.spec_hasher(),
    {
        MinHashFingerprinter { canonicalizer, tokenizer, seed: self.seed, hasher: self.hasher }
    }
}

impl Default for MinHashFingerprinterBuilder {
    fn default() -> (b: Self)
        ensures
            b.spec_seed() == DEFAULT_SEED,
            b.spec_hasher() == HashFamily::Xxh3_64,
    {
        MinHashFingerprinterBuilder { seed: DEFAULT_SEED, hasher: HashFamily::Xxh3_64 }
    }
}

/// MinHash fingerprinter over a canonicalizer and a tokenizer, with `H`
/// slots.
#[derive(Clone, Debug)]
pub struct MinHashFingerprinter<T: Tokenizer, const H: usize> {
    canonicalizer: Canonicalizer,
    tokenizer: T,
    seed: u64,
    hasher: HashFamily,
}

impl<T: Tokenizer, const H: usize> MinHashFingerprinter<T, H> {
    /// The canonicalizer.
    pub closed spec fn spec_canonicalizer(&self) -> Canonicalizer {
        self.canonicalizer
    }

    /// The tokenizer.
    pub closed spec fn spec_tokenizer(&self) -> T {
        self.tokenizer
    }

    /// The seed.
    pub closed spec fn spec_seed(&self) -> u64 {
        self.seed
    }

    /// The hash family.
    pub closed spec fn spec_hasher(&self) -> HashFamily {
        self.hasher
    }

    /// The tokens of already canonical text.
    pub open spec fn spec_tokens(&self, canonical: Seq<char>) -> Seq<Seq<char>> {
        self.spec_tokenizer().spec_tokens(canonical)
    }

    /// The tokens of a document: its canonical form, tokenized.
    pub open spec fn doc_tokens(&self, input: Seq<char>) -> Seq<Seq<char>> {
        self.spec_tokens(canonical_form(self.spec_canonicalizer().spec_config(), input))
    }

    /// `sig` is the signature of the token sequence `toks`.
    pub open spec fn is_sketch_of(&self, toks: Seq<Seq<char>>, sig: MinHashSig<H>) -> bool {
        &&& sig.schema == SCHEMA_VERSION
        &&& sig._pad@ == Seq::new(6, |i: int| 0u8)
        &&& sig.hashes@ == sketch_of(self.spec_hasher(), self.spec_seed(), toks, H as nat)
    }

    /// A fingerprinter with the default seed and the xxh3 hash family.
    pub fn new(canonicalizer: Canonicalizer, tokenizer: T) -> (f: Self)
        ensures
            f.spec_canonicalizer() == canonicalizer,
            f.spec_tokenizer() == tokenizer,
            f.spec_seed() == DEFAULT_SEED,
            f.spec_hasher() == HashFamily::Xxh3_64,
    {
        MinHashFingerprinter {
            canonicalizer,
            tokenizer,
            seed: DEFAULT_SEED,
            hasher: HashFamily::Xxh3_64,
        }
    }

    /// Override the seed.
    pub fn with_seed(self, seed: u64) -> (f: Self)
        ensures
            f.spec_canonicalizer() == self.spec_canonicalizer(),
            f.spec_tokenizer() == self.spec_tokenizer(),
            f.spec_seed() == seed,
            f.spec_hasher() == self.spec_hasher(),
    {
        MinHashFingerprinter { seed, ..self }
    }

    /// Override the hash family.
    pub fn with_hasher(self, hasher: HashFamily) -> (f: Self)
        ensures
            f.spec_canonicalizer() == self.spec_canonicalizer(),
            f.spec_tokenizer() == self.spec_tokenizer(),
            f.spec_seed() == self.spec_seed(),
            f.spec_hasher() == hasher,
    {
        MinHashFingerprinter { hasher, ..self }
    }

    /// The canonicalizer.
    pub fn canonicalizer(&self) -> (c: &Canonicalizer)
        ensures
            *c == self.spec_canonicalizer(),
    {
        &self.canonicalizer
    }

    /// The tokenizer.
    pub fn tokenizer(&self) -> (t: &T)
        ensures
            *t == self.spec_tokenizer(),
    {
        &self.tokenizer
    }

    /// The seed.
    pub fn seed(&self) -> (s: u64)
        ensures
            s == self.spec_seed(),
    {
        self.seed
    }

    /// The hash family.
    pub fn hasher(&self) -> (h: HashFamily)
        ensures
            h == self.spec_hasher(),
    {
        self.hasher
    }

    /// Sketch already canonical text; refused when it has no token.
    pub fn sketch_canonical(&self, canonical: &str) -> (r: Result<MinHashSig<H>>)
        ensures
            r is Ok <==> self.spec_tokens(canonical@).len() > 0,
            r matches Ok(sig) ==> self.is_sketch_of(self.spec_tokens(canonical@), sig),
            r matches Err(e) ==> e is InvalidInput && e->InvalidInput_0@ == "empty document"@,
    {
        let toks = self.tokenizer.tokens(canonical).into_string_iter();
        let ghost tv = crate::text::views(toks@);
        if toks.len() == 0 {
            return Err(invalid_input("empty document"));
        }
        let mut sig = MinHashSig::<H>::empty();
        let family = self.hasher;
        let seed = self.seed;
        let mut t: usize = 0;
        while t < toks.len()
            invariant
                t <= toks@.len(),
                tv == crate::text::views(toks@),
                family == self.spec_hasher(),
                seed == self.spec_seed(),
                sig.schema == SCHEMA_VERSION,
                sig._pad@ == Seq::new(6, |i: int| 0u8),
                sig.hashes@ == sketch_of(family, seed, tv.take(t as int), H as nat),
            decreases toks@.len() - t,
        {
            let tok = &toks[t];
            let (lo, hi) = hash128(family, tok.as_str().as_bytes(), seed);
            let ghost prev = tv.take(t as int);
            let ghost next = tv.take(t + 1);
            assert(next.drop_last() == prev);
            assert(next.last() == tok@);
            fold_token(&mut sig.hashes, lo, hi);
            assert forall|j: int| 0 <= j < H implies #[trigger] sig.hashes@[j] == min_slot(
                family,
                seed,
                next,
                j,
            ) by {
                assert(token_slot(family, seed, tok@, j) == lo.wrapping_add(
                    (j as u64).wrapping_mul(hi),
                ));
            }
            assert(sig.hashes@ =~= sketch_of(family, seed, next, H as nat));
            t = t + 1;
        }
        assert(tv.take(toks@.len() as int) == tv);
        Ok(sig)
    }
}

impl<T: Tokenizer, const H: usize> Fingerprinter for MinHashFingerprinter<T, H> {
    type Output = MinHashSig<H>;

    open spec fn accepts(&self, input: Seq<char>) -> bool {
        input.len() > 0 && self.doc_tokens(input).len() > 0
    }

    open spec fn is_fingerprint_of(&self, input: Seq<char>, sig: MinHashSig<H>) -> bool {
        self.is_sketch_of(self.doc_tokens(input), sig)
    }

    /// Canonicalize, tokenize and sketch `input`; refused when it is empty
    /// or yields no token.
    fn fingerprint(&self, input: &str) -> (r: Result<MinHashSig<H>>)
        ensures
            r matches Ok(sig) ==> self.is_sketch_of(self.doc_tokens(input@), sig),
            r matches Err(e) ==> e is InvalidInput && e->InvalidInput_0@ == "empty document"@,
    {
        if input.unicode_len() == 0 {
            return Err(invalid_input("empty document"));
        }
        let canonical = self.canonicalizer.canonicalize(input);
        self.sketch_canonical(canonical.as_str())
    }
}

/// Slot `i` is no larger than any token's proposal, and is `u64::MAX` or
/// some token's proposal.
pub proof fn lemma_min_slot_is_least(family: HashFamily, seed: u64, toks: Seq<Seq<char>>, i: int)
    ensures
        forall|k: int|
            0 <= k < toks.len() ==> min_slot(family, seed, toks, i) <= token_slot(
                family,
                seed,
                #[trigger] toks[k],
                i,
            ),
        min_slot(family, seed, toks, i) == u64::MAX || exists|k: int|
            0 <= k < toks.len() && min_slot(family, seed, toks, i) == token_slot(
                family,
                seed,
                #[trigger] toks[k],
                i,
            ),
    decreases toks.len(),
{
    if toks.len() > 0 {
        let init = toks.drop_last();
        lemma_min_slot_is_least(family, seed, init, i);
        assert forall|k: int| 0 <= k < toks.len() implies min_slot(family, seed, toks, i)
            <= token_slot(family, seed, #[trigger] toks[k], i) by {
            if k < init.len() {
                assert(init[k] == toks[k]);
            }
        }
        if min_slot(family, seed, toks, i) != u64::MAX {
            if min_slot(family, seed, toks, i) == token_slot(family, seed, toks.last(), i) {
                assert(toks[toks.len() - 1] == toks.last());
            } else {
                let k = choose|k: int|
                    0 <= k < init.len() && min_slot(family, seed, init, i) == token_slot(
                        family,
                        seed,
                        #[trigger] init[k],
                        i,
                    );
                assert(init[k] == toks[k]);
            }
        }
    }
}

/// The sketch of a token sequence depends only on the set of its tokens:
/// reordering or repeating tokens leaves every slot unchanged.
pub proof fn lemma_sketch_depends_on_token_set(
    family: HashFamily,
    seed: u64,
    a: Seq<Seq<char>>,
    b: Seq<Seq<char>>,
    n: nat,
)
    requires
        a.to_set() == b.to_set(),
    ensures
        sketch_of(family, seed, a, n) == sketch_of(family, seed, b, n),
{
    assert forall|i: int| 0 <= i < n implies min_slot(family, seed, a, i) == min_slot(
        family,
        seed,
        b,
        i,
    ) by {
        lemma_min_slot_is_least(family, seed, a, i);
        lemma_min_slot_is_least(family, seed, b, i);
        if min_slot(family, seed, b, i) != u64::MAX {
            let k = choose|k: int|
                0 <= k < b.len() && min_slot(family, seed, b, i) == token_slot(
                    family,
                    seed,
                    #[trigger] b[k],
                    i,
                );
            assert(b.to_set().contains(b[k]));
            assert(a.contains(b[k]));
            let k2 = choose|k2: int| 0 <= k2 < a.len() && a[k2] == b[k];
            assert(min_slot(family, seed, a, i) <= token_slot(family, seed, a[k2], i));
        }
        if min_slot(family, seed, a, i) != u64::MAX {
            let k = choose|k: int|
                0 <= k < a.len() && min_slot(family, seed, a, i) == token_slot(
                    family,
                    seed,
                    #[trigger] a[k],
                    i,
                );
            assert(a.to_set().contains(a[k]));
            assert(b.contains(a[k]));
            let k2 = choose|k2: int| 0 <= k2 < b.len() && b[k2] == a[k];
            assert(min_slot(family, seed, b, i) <= token_slot(family, seed, b[k2], i));
        }
    }
    assert(sketch_of(family, seed, a, n) =~= sketch_of(family, seed, b, n));
}

/// Two documents whose token sets agree are both refused or both accepted,
/// with the same MinHash fingerprint: order and repetition of tokens do
/// not matter.
pub proof fn lemma_fingerprint_depends_on_token_set<T: Tokenizer, const H: usize>(
    f: MinHashFingerprinter<T, H>,
    a: Seq<char>,
    b: Seq<char>,
)
    requires
        a.len() > 0,
        b.len() > 0,
        f.doc_tokens(a).to_set() == f.doc_tokens(b).to_set(),
    ensures
        f.accepts(a) == f.accepts(b),
        forall|sig: MinHashSig<H>| f.is_fingerprint_of(a, sig) == f.is_fingerprint_of(b, sig),
{
    let ta = f.doc_tokens(a);
    let tb = f.doc_tokens(b);
    lemma_sketch_depends_on_token_set(f.spec_hasher(), f.spec_seed(), ta, tb, H as nat);
    if ta.len() > 0 {
        assert(ta.to_set().contains(ta[0]));
        assert(tb.contains(ta[0]));
    }
    if tb.len() > 0 {
        assert(tb.to_set().contains(tb[0]));
        assert(ta.contains(tb[0]));
    }
}

} // verus!
