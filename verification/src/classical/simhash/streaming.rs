//! Streaming SimHash: bytes arrive in chunks, the sketch is taken once the
//! whole document is in.

use vstd::prelude::*;
use vstd::utf8::{decode_utf8, encode_utf8, valid_utf8};

use super::fingerprinter::SimHashFingerprinter;
use super::sig::SimHash64;
use crate::classical::minhash::streaming::DEFAULT_MAX_BUFFER_BYTES;
use crate::canonical::canonical_form;
use crate::classical::utf8_stream::{completable, partial_char, update_step, Utf8StreamBuffer};
use crate::classical::{Fingerprinter, StreamingFingerprinter};
use crate::error::{Error, Result};
use crate::tokenize::Tokenizer;

verus! {

/// Streaming front end of a [`SimHashFingerprinter`].
pub struct SimHashStreaming<T: Tokenizer> {
    inner: SimHashFingerprinter<T>,
    buf: Utf8StreamBuffer,
}

impl<T: Tokenizer> SimHashStreaming<T> {
    /// The fingerprinter applied at finalization.
    pub closed spec fn spec_inner(&self) -> SimHashFingerprinter<T> {
        self.inner
    }

    /// The byte buffer.
    pub closed spec fn spec_buffer(&self) -> Utf8StreamBuffer {
        self.buf
    }

    /// A stream with the default cap.
    pub fn new(inner: SimHashFingerprinter<T>) -> (s: Self)
        ensures
            s.spec_inner() == inner,
            s.received() == Seq::<u8>::empty(),
            s.spec_buffer().cap() == DEFAULT_MAX_BUFFER_BYTES,
    {
        SimHashStreaming { inner, buf: Utf8StreamBuffer::new(DEFAULT_MAX_BUFFER_BYTES) }
    }

    /// Change the cap on buffered bytes.
    pub fn with_max_bytes(self, max_bytes: usize) -> (s: Self)
        ensures
            s.spec_inner() == self.spec_inner(),
            s.received() == self.received(),
            s.spec_buffer().committed() == self.spec_buffer().committed(),
            s.spec_buffer().cap() == max_bytes,
    {
        let mut s = self;
        s.buf.set_max_bytes(max_bytes);
        s
    }

    /// Committed bytes so far (a carried partial codepoint is not counted).
    pub fn buffered_bytes(&self) -> (n: usize)
        ensures
            n == self.spec_buffer().committed().len(),
            valid_utf8(self.spec_buffer().committed()),
            partial_char(self.spec_buffer().pending()),
    {
        self.buf.buffered_bytes()
    }
}

impl<T: Tokenizer> StreamingFingerprinter for SimHashStreaming<T> {
    type Output = SimHash64;

    open spec fn received(&self) -> Seq<u8> {
        self.spec_buffer().received()
    }

    /// Buffer a chunk; see [`Utf8StreamBuffer::update`] for when it is
    /// refused.
    fn update(&mut self, chunk: &[u8]) -> (r: Result<()>)
        ensures
            final(self).spec_inner() == old(self).spec_inner(),
            update_step(old(self).spec_buffer(), chunk@, r, final(self).spec_buffer()),
            valid_utf8(final(self).spec_buffer().committed()),
            partial_char(final(self).spec_buffer().pending()),
            r is Ok ==> final(self).received().len() <= final(self).spec_buffer().cap(),
            old(self).received().len() + chunk@.len() <= old(self).spec_buffer().cap()
                && valid_utf8(old(self).received() + chunk@) ==> r is Ok
                && final(self).spec_buffer().pending().len() == 0,
            old(self).received().len() + chunk@.len() <= old(self).spec_buffer().cap()
                && completable(old(self).received() + chunk@) ==> r is Ok,
            r matches Err(e) ==> e is InvalidInput,
    {
        self.buf.update(chunk)
    }

    /// Sketch the received document. Refused while a partial codepoint is
    /// carried, when nothing was received, and when the text has no token.
    /// Otherwise the result is the offline fingerprint of the received text.
    fn finalize(self) -> (r: Result<SimHash64>)
        ensures
            r is Ok <==> self.spec_buffer().pending().len() == 0 && self.spec_buffer().committed().len()
                > 0 && self.spec_inner().accepts(decode_utf8(self.received())),
            r matches Ok(sig) ==> self.spec_inner().is_fingerprint_of(
                decode_utf8(self.received()),
                sig,
            ),
            r matches Err(e) ==> e is InvalidInput,
    {
        let s = match self.buf.finalize_str() {
            Ok(s) => s,
            Err(e) => {
                return Err(e);
            },
        };
        proof {
            vstd::utf8::encode_utf8_decode_utf8(s@);
            assert(self.received() =~= self.spec_buffer().committed());
            assert(s@.len() > 0);
        }
        let canonical = self.inner.canonicalizer().canonicalize(s.as_str());
        self.inner.sketch_canonical(canonical.as_str())
    }

    fn reset(&mut self)
        ensures
            final(self).spec_inner() == old(self).spec_inner(),
            final(self).spec_buffer().cap() == old(self).spec_buffer().cap(),
    {
        self.buf.reset();
    }
}

/// Feeding the UTF-8 bytes of a text, in any chunking, and finalizing
/// gives the offline fingerprint of that text: the fingerprint of the
/// decoded received bytes is the fingerprint of `text`.
pub proof fn lemma_streaming_matches_offline<T: Tokenizer>(
    s: SimHashStreaming<T>,
    text: Seq<char>,
)
    requires
        s.received() == encode_utf8(text),
    ensures
        decode_utf8(s.received()) == text,
        s.spec_inner().accepts(decode_utf8(s.received())) == s.spec_inner().accepts(text),
        forall|o: SimHash64|
            s.spec_inner().is_fingerprint_of(decode_utf8(s.received()), o)
                == s.spec_inner().is_fingerprint_of(text, o),
{
    vstd::utf8::encode_utf8_decode_utf8(text);
}

} // verus!
