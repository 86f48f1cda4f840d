//! Byte-stream buffer that commits only complete UTF-8 and carries a
//! trailing partial codepoint over to the next chunk.

use vstd::prelude::*;
use vstd::utf8::{encode_utf8, valid_utf8};

use crate::error::{invalid_input, Error, Result};

verus! {

/// `core::str::from_utf8` on `bytes`, reduced to `(valid_up_to, hard)`:
/// on success `(bytes.len(), false)`; on failure the error's `valid_up_to()`
/// and whether its `error_len()` is `Some`. As documented, `valid_up_to`
/// is the largest index whose prefix is valid UTF-8; `error_len()` is
/// `Some` when an unexpected byte was met, and `None` when the input ends
/// inside a character whose encoding spans into what would come next, in
/// which case `valid_up_to` is one to three bytes from the end. So the
/// failure is hard exactly when no continuation completes the input to
/// valid UTF-8.
#[verifier::external_body]
fn utf8_validate(bytes: &[u8]) -> (r: (usize, bool))
    ensures
        r.0 <= bytes@.len(),
        valid_utf8(bytes@.take(r.0 as int)),
        forall|j: int| r.0 < j <= bytes@.len() ==> !valid_utf8(#[trigger] bytes@.take(j)),
        r.0 == bytes@.len() ==> !r.1,
        r.1 <==> !completable(bytes@),
        !r.1 ==> bytes@.len() - r.0 <= 3,
{
    match core::str::from_utf8(bytes) {
        Ok(_) => (bytes.len(), false),
        Err(e) => (e.valid_up_to(), e.error_len().is_some()),
    }
}

/// `core::str::from_utf8` on bytes known to be valid UTF-8, as an owned
/// string whose UTF-8 encoding is `bytes`.
#[verifier::external_body]
fn utf8_to_string(bytes: &[u8]) -> (s: String)
    requires
        valid_utf8(bytes@),
    ensures
        encode_utf8(s@) == bytes@,
{
    match core::str::from_utf8(bytes) {
        Ok(s) => String::from(s),
        Err(_) => String::new(),
    }
}

/// Some continuation makes `s` valid UTF-8.
pub open spec fn completable(s: Seq<u8>) -> bool {
    exists|ext: Seq<u8>| #[trigger] valid_utf8(s + ext)
}

/// `s.take(k)` is the longest prefix of `s` that is valid UTF-8.
pub open spec fn longest_valid_prefix(s: Seq<u8>, k: int) -> bool {
    &&& 0 <= k <= s.len()
    &&& valid_utf8(s.take(k))
    &&& forall|j: int| k < j <= s.len() ==> !valid_utf8(#[trigger] s.take(j))
}

/// A carried tail: at most three bytes that begin a character's encoding
/// without completing it (or nothing).
pub open spec fn partial_char(p: Seq<u8>) -> bool {
    &&& p.len() <= 3
    &&& completable(p)
    &&& p.len() > 0 ==> !valid_utf8(p)
}

/// Any split of a valid UTF-8 text into chunks is accepted: each prefix of
/// the text is completed to valid UTF-8 by the rest of the text, so every
/// `update` that feeds the text chunk by chunk (within the cap) succeeds.
pub proof fn lemma_prefix_of_valid_is_completable(text: Seq<u8>, k: int)
    requires
        valid_utf8(text),
        0 <= k <= text.len(),
    ensures
        completable(text.take(k)),
{
    assert(text.take(k) + text.skip(k) =~= text);
    assert(valid_utf8(text.take(k) + text.skip(k)));
}

/// The end of a valid prefix is a character boundary of any valid
/// extension of it.
proof fn lemma_valid_prefix_is_boundary(a: Seq<u8>, b: Seq<u8>)
    requires
        valid_utf8(a),
        valid_utf8(a + b),
    ensures
        vstd::utf8::is_char_boundary(a + b, a.len() as int),
    decreases a.len(),
{
    if a.len() > 0 {
        let ab = a + b;
        assert(ab[0] == a[0]);
        if a.len() >= 2 {
            assert(ab[1] == a[1]);
        }
        if a.len() >= 3 {
            assert(ab[2] == a[2]);
        }
        if a.len() >= 4 {
            assert(ab[3] == a[3]);
        }
        let l = vstd::utf8::length_of_first_scalar(a);
        assert(vstd::utf8::length_of_first_scalar(ab) == l);
        assert(l <= a.len());
        let pa = vstd::utf8::pop_first_scalar(a);
        assert(vstd::utf8::pop_first_scalar(ab) =~= pa + b);
        lemma_valid_prefix_is_boundary(pa, b);
    }
}

/// A valid extension of a valid prefix is valid past the prefix.
proof fn lemma_valid_suffix(a: Seq<u8>, b: Seq<u8>)
    requires
        valid_utf8(a),
        valid_utf8(a + b),
    ensures
        valid_utf8(b),
{
    lemma_valid_prefix_is_boundary(a, b);
    vstd::utf8::valid_utf8_split(a + b, a.len() as int);
    assert((a + b).subrange(a.len() as int, (a + b).len() as int) =~= b);
}

/// Append `src` to `dst`.
pub fn append_bytes(dst: &mut Vec<u8>, src: &[u8])
    ensures
        final(dst)@ == old(dst)@ + src@,
{
    let mut i: usize = 0;
    while i < src.len()
        invariant
            i <= src@.len(),
            dst@ == old(dst)@ + src@.take(i as int),
        decreases src@.len() - i,
    {
        dst.push(src[i]);
        i = i + 1;
        assert(dst@ =~= old(dst)@ + src@.take(i as int));
    }
    assert(src@.take(src@.len() as int) == src@);
}

/// Accumulates streamed bytes: `buffer` holds the committed bytes, always
/// valid UTF-8; `carry` holds a trailing partial codepoint.
pub struct Utf8StreamBuffer {
    buffer: Vec<u8>,
    carry: Vec<u8>,
    max_bytes: usize,
}

/// How `update` with `chunk` takes a buffer from `old` to `new` with
/// outcome `r`. Refused when the bytes received plus the chunk exceed the
/// cap (nothing changes); refused when no continuation could complete the
/// carry plus the chunk to valid UTF-8 (the carry is dropped); otherwise
/// the longest valid prefix of carry plus chunk is committed and the rest
/// is carried.
pub open spec fn update_step(
    old: Utf8StreamBuffer,
    chunk: Seq<u8>,
    r: Result<()>,
    new: Utf8StreamBuffer,
) -> bool {
    let combined = old.pending() + chunk;
    &&& new.cap() == old.cap()
    &&& if old.received().len() + chunk.len() > old.cap() {
        &&& r is Err
        &&& r->Err_0 is InvalidInput
        &&& r->Err_0->InvalidInput_0@ == "streaming buffer exceeded cap"@
        &&& new.committed() == old.committed()
        &&& new.pending() == old.pending()
    } else if !completable(combined) {
        &&& r is Err
        &&& r->Err_0 is InvalidInput
        &&& r->Err_0->InvalidInput_0@ == "invalid UTF-8 in stream"@
        &&& new.committed() == old.committed()
        &&& new.pending() == Seq::<u8>::empty()
    } else {
        &&& r is Ok
        &&& exists|k: int|
            longest_valid_prefix(combined, k) && new.committed() == old.committed()
                + combined.take(k) && #[trigger] new.pending() == combined.skip(k)
    }
}

/// The empty carry can be completed.
proof fn lemma_empty_is_partial()
    ensures
        partial_char(Seq::<u8>::empty()),
{
    assert(Seq::<u8>::empty() + Seq::<u8>::empty() =~= Seq::<u8>::empty());
    assert(valid_utf8(Seq::<u8>::empty() + Seq::<u8>::empty()));
}

impl Utf8StreamBuffer {
    #[verifier::type_invariant]
    spec fn inv(self) -> bool {
        &&& valid_utf8(self.buffer@)
        &&& partial_char(self.carry@)
    }

    /// The committed bytes.
    pub closed spec fn committed(&self) -> Seq<u8> {
        self.buffer@
    }

    /// The carried, not yet committed bytes.
    pub closed spec fn pending(&self) -> Seq<u8> {
        self.carry@
    }

    /// The cap on the bytes received.
    pub closed spec fn cap(&self) -> usize {
        self.max_bytes
    }

    /// All bytes received since the last reset.
    pub open spec fn received(&self) -> Seq<u8> {
        self.committed() + self.pending()
    }

    /// An empty buffer with the given cap.
    pub fn new(max_bytes: usize) -> (b: Self)
        ensures
            b.committed() == Seq::<u8>::empty(),
            b.pending() == Seq::<u8>::empty(),
            b.cap() == max_bytes,
    {
        proof {
            assert(valid_utf8(Seq::<u8>::empty()));
            lemma_empty_is_partial();
        }
        Utf8StreamBuffer { buffer: Vec::new(), carry: Vec::new(), max_bytes }
    }

    /// Change the cap.
    pub fn set_max_bytes(&mut self, max_bytes: usize)
        ensures
            final(self).committed() == old(self).committed(),
            final(self).pending() == old(self).pending(),
            final(self).cap() == max_bytes,
            valid_utf8(final(self).committed()),
            partial_char(final(self).pending()),
    {
        proof {
            use_type_invariant(&*self);
        }
        self.max_bytes = max_bytes;
    }

    /// Committed byte count (the carry is not counted).
    pub fn buffered_bytes(&self) -> (n: usize)
        ensures
            n == self.committed().len(),
            valid_utf8(self.committed()),
            partial_char(self.pending()),
    {
        proof {
            use_type_invariant(self);
        }
        self.buffer.len()
    }

    /// Drop everything received; the cap stays.
    pub fn reset(&mut self)
        ensures
            final(self).committed() == Seq::<u8>::empty(),
            final(self).pending() == Seq::<u8>::empty(),
            final(self).cap() == old(self).cap(),
    {
        proof {
            use_type_invariant(&*self);
            assert(valid_utf8(Seq::<u8>::empty()));
            lemma_empty_is_partial();
        }
        self.buffer = Vec::new();
        self.carry = Vec::new();
    }

    /// Feed `chunk`; see [`update_step`]. The committed bytes stay valid
    /// UTF-8, the carry stays a partial character, and on success all
    /// bytes received stay within the cap.
    #[verifier::rlimit(40)]
    pub fn update(&mut self, chunk: &[u8]) -> (r: Result<()>)
        ensures
            update_step(*old(self), chunk@, r, *final(self)),
            valid_utf8(final(self).committed()),
            partial_char(final(self).pending()),
            r is Ok ==> final(self).received() == old(self).received() + chunk@
                && final(self).received().len() <= final(self).cap(),
            old(self).received().len() + chunk@.len() <= old(self).cap() && valid_utf8(
                old(self).received() + chunk@,
            ) ==> r is Ok && final(self).pending() == Seq::<u8>::empty(),
            old(self).received().len() + chunk@.len() <= old(self).cap() && completable(
                old(self).received() + chunk@,
            ) ==> r is Ok,
            r matches Err(e) ==> e is InvalidInput,
    {
        proof {
            use_type_invariant(&*self);
        }
        let len = self.buffer.len();
        let clen = self.carry.len();
        if chunk.len() > self.max_bytes || len > self.max_bytes - chunk.len() || clen
            > self.max_bytes - chunk.len() - len {
            return Err(invalid_input("streaming buffer exceeded cap"));
        }
        let mut combined: Vec<u8> = Vec::new();
        proof {
            lemma_empty_is_partial();
        }
        std::mem::swap(&mut combined, &mut self.carry);
        append_bytes(&mut combined, chunk);
        assert(combined@ == old(self).pending() + chunk@);
        proof {
            if valid_utf8(old(self).received() + chunk@) {
                assert(old(self).received() + chunk@ =~= old(self).committed() + combined@);
                lemma_valid_suffix(old(self).committed(), combined@);
                assert(combined@ + Seq::<u8>::empty() =~= combined@);
                assert(completable(combined@));
            }
            if completable(old(self).received() + chunk@) {
                let ext = choose|ext: Seq<u8>|
                    #[trigger] valid_utf8(old(self).received() + chunk@ + ext);
                assert(old(self).received() + chunk@ + ext =~= old(self).committed() + (combined@
                    + ext));
                lemma_valid_suffix(old(self).committed(), combined@ + ext);
                assert(valid_utf8(combined@ + ext));
            }
        }
        let (valid_up_to, hard) = utf8_validate(combined.as_slice());
        if hard {
            return Err(invalid_input("invalid UTF-8 in stream"));
        }
        let head = vstd::slice::slice_subrange(combined.as_slice(), 0, valid_up_to);
        let tail = vstd::slice::slice_subrange(combined.as_slice(), valid_up_to, combined.len());
        proof {
            assert(head@ == combined@.take(valid_up_to as int));
            assert(tail@ == combined@.skip(valid_up_to as int));
            vstd::utf8::valid_utf8_concat(self.buffer@, head@);
            assert(combined@ == head@ + tail@);
            let ext = choose|ext: Seq<u8>| #[trigger] valid_utf8(combined@ + ext);
            assert(combined@ + ext =~= head@ + (tail@ + ext));
            lemma_valid_suffix(head@, tail@ + ext);
            assert(valid_utf8(tail@ + ext));
            if tail@.len() > 0 && valid_utf8(tail@) {
                vstd::utf8::valid_utf8_concat(head@, tail@);
                assert(combined@.take(combined@.len() as int) == combined@);
            }
            assert(longest_valid_prefix(combined@, valid_up_to as int));
        }
        let mut buf: Vec<u8> = Vec::new();
        std::mem::swap(&mut buf, &mut self.buffer);
        append_bytes(&mut buf, head);
        self.buffer = buf;
        let mut rest: Vec<u8> = Vec::new();
        append_bytes(&mut rest, tail);
        self.carry = rest;
        proof {
            if valid_utf8(combined@) {
                assert(combined@.take(combined@.len() as int) == combined@);
            }
            assert(self.received() =~= old(self).received() + chunk@);
        }
        Ok(())
    }

    /// The committed text. Refused while a partial codepoint is carried,
    /// and when nothing was committed.
    pub fn finalize_str(&self) -> (r: Result<String>)
        ensures
            r is Ok <==> self.pending().len() == 0 && self.committed().len() > 0,
            r matches Ok(s) ==> encode_utf8(s@) == self.committed(),
            r matches Err(e) ==> e is InvalidInput,
            self.pending().len() > 0 ==> r->Err_0->InvalidInput_0@ == "trailing incomplete UTF-8"@,
            self.pending().len() == 0 && self.committed().len() == 0 ==> r->Err_0->InvalidInput_0@
                == "empty document"@,
            valid_utf8(self.committed()),
            partial_char(self.pending()),
    {
        proof {
            use_type_invariant(self);
        }
        if self.carry.len() > 0 {
            return Err(invalid_input("trailing incomplete UTF-8"));
        }
        if self.buffer.len() == 0 {
            return Err(invalid_input("empty document"));
        }
        Ok(utf8_to_string(self.buffer.as_slice()))
    }
}

} // verus!
