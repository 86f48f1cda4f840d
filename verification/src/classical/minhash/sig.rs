//! The MinHash signature type and its byte layout.

use vstd::bytes::*;
use vstd::prelude::*;

verus! {

/// Schema version stamped into every signature.
pub const SCHEMA_VERSION: u16 = 1;

/// A MinHash signature of `H` 64-bit slots. Its byte layout is the
/// schema (2 bytes, little endian), 6 zero padding bytes, then each slot
/// as 8 little-endian bytes: `8 + 8 * H` bytes in all.
#[derive(Copy, Clone, Debug, PartialEq, Eq, Hash)]
pub struct MinHashSig<const H: usize> {
    /// Schema version; always [`SCHEMA_VERSION`] for signatures built here.
    pub schema: u16,
    /// Explicit padding that keeps the slots 8-byte aligned; always zero.
    pub _pad: [u8; 6],
    /// The slots.
    pub hashes: [u64; H],
}

/// The little-endian bytes of each word of `ws`, concatenated.
pub open spec fn words_le(ws: Seq<u64>) -> Seq<u8>
    decreases ws.len(),
{
    if ws.len() == 0 {
        Seq::empty()
    } else {
        words_le(ws.drop_last()) + spec_u64_to_le_bytes(ws.last())
    }
}

/// The layout of `words_le`: eight bytes per word, word `i` at bytes
/// `8 * i .. 8 * i + 8`, least significant byte first.
pub proof fn lemma_words_le_layout(ws: Seq<u64>)
    ensures
        words_le(ws).len() == 8 * ws.len(),
        forall|i: int|
            0 <= i < ws.len() ==> #[trigger] words_le(ws).subrange(8 * i, 8 * i + 8)
                == spec_u64_to_le_bytes(ws[i]),
    decreases ws.len(),
{
    lemma_auto_spec_u64_to_from_le_bytes();
    if ws.len() > 0 {
        let init = ws.drop_last();
        lemma_words_le_layout(init);
        let p = words_le(init);
        let l = spec_u64_to_le_bytes(ws.last());
        assert(words_le(ws) == p + l);
        assert forall|i: int| 0 <= i < ws.len() implies #[trigger] words_le(ws).subrange(
            8 * i,
            8 * i + 8,
        ) == spec_u64_to_le_bytes(ws[i]) by {
            if i < ws.len() - 1 {
                assert((p + l).subrange(8 * i, 8 * i + 8) =~= p.subrange(8 * i, 8 * i + 8));
                assert(init[i] == ws[i]);
            } else {
                assert((p + l).subrange(8 * i, 8 * i + 8) =~= l);
            }
        }
    }
}

/// The byte layout of a signature.
pub open spec fn sig_bytes<const H: usize>(s: MinHashSig<H>) -> Seq<u8> {
    spec_u16_to_le_bytes(s.schema) + s._pad@ + words_le(s.hashes@)
}

impl<const H: usize> MinHashSig<H> {
    /// The signature of no token: every slot is `u64::MAX`.
    pub fn empty() -> (s: Self)
        ensures
            s.schema == SCHEMA_VERSION,
            s._pad@ == Seq::new(6, |i: int| 0u8),
            s.hashes@ == Seq::new(H as nat, |i: int| u64::MAX),
    {
        let s = MinHashSig { schema: SCHEMA_VERSION, _pad: [0u8; 6], hashes: [u64::MAX; H] };
        assert(s._pad@ =~= Seq::new(6, |i: int| 0u8));
        assert(s.hashes@ =~= Seq::new(H as nat, |i: int| u64::MAX));
        s
    }

    /// Number of slots, `H`.
    pub fn slot_count(&self) -> (n: usize)
        ensures
            n == H,
    {
        H
    }

    /// The signature's bytes, in the layout documented on the type.
    pub fn as_bytes(&self) -> (b: Vec<u8>)
        requires
            8 + 8 * H <= usize::MAX,
        ensures
            b@ == sig_bytes(*self),
            b@.len() == 8 + 8 * H,
    {
        proof {
            lemma_auto_spec_u64_to_from_le_bytes();
            lemma_auto_spec_u16_to_from_le_bytes();
        }
        let mut b = u16_to_le_bytes(self.schema);
        let mut p: usize = 0;
        while p < 6
            invariant
                p <= 6,
                b@ == spec_u16_to_le_bytes(self.schema) + self._pad@.take(p as int),
            decreases 6 - p,
        {
            b.push(self._pad[p]);
            p = p + 1;
            assert(b@ =~= spec_u16_to_le_bytes(self.schema) + self._pad@.take(p as int));
        }
        assert(self._pad@.take(6) == self._pad@);
        let ghost head = b@;
        let mut i: usize = 0;
        while i < H
            invariant
                i <= H,
                8 + 8 * H <= usize::MAX,
                head == spec_u16_to_le_bytes(self.schema) + self._pad@,
                head.len() == 8,
                b@ == head + words_le(self.hashes@.take(i as int)),
                words_le(self.hashes@.take(i as int)).len() == 8 * i,
            decreases H - i,
        {
            let w = u64_to_le_bytes(self.hashes[i]);
            let mut j: usize = 0;
            let ghost before = b@;
            while j < 8
                invariant
                    j <= 8,
                    w@ == spec_u64_to_le_bytes(self.hashes@[i as int]),
                    w@.len() == 8,
                    b@ == before + w@.take(j as int),
                decreases 8 - j,
            {
                b.push(w[j]);
                j = j + 1;
                assert(b@ =~= before + w@.take(j as int));
            }
            assert(w@.take(8) == w@);
            assert(self.hashes@.take(i + 1).drop_last() == self.hashes@.take(i as int));
            i = i + 1;
            assert(b@ =~= head + words_le(self.hashes@.take(i as int)));
        }
        assert(self.hashes@.take(H as int) == self.hashes@);
        b
    }
}

} // verus!
