//! Classical (non-neural) fingerprinters: MinHash with banded LSH,
//! SimHash, and TLSH.

use vstd::prelude::*;

use crate::error::Result;

pub mod hash;
pub mod lsh;
pub mod minhash;
pub mod simhash;
pub mod tlsh;
pub mod utf8_stream;

pub use hash::HashFamily;

verus! {

/// Computes a fingerprint from a complete document.
pub trait Fingerprinter {
    /// The fingerprint type.
    type Output;

    /// `input` is fingerprinted rather than refused.
    spec fn accepts(&self, input: Seq<char>) -> bool;

    /// `out` is the fingerprint of `input`.
    spec fn is_fingerprint_of(&self, input: Seq<char>, out: Self::Output) -> bool;

    /// Fingerprint `input`.
    fn fingerprint(&self, input: &str) -> (r: Result<Self::Output>)
        ensures
            r is Ok <==> self.accepts(input@),
            r matches Ok(o) ==> self.is_fingerprint_of(input@, o),
    ;
}

/// Computes a fingerprint from a document fed as byte chunks.
pub trait StreamingFingerprinter: Sized {
    /// The fingerprint type.
    type Output;

    /// The bytes received since construction or the last reset.
    spec fn received(&self) -> Seq<u8>;

    /// Feed one chunk.
    fn update(&mut self, chunk: &[u8]) -> (r: Result<()>)
        ensures
            r is Ok ==> final(self).received() == old(self).received() + chunk@,
    ;

    /// Consume the stream and produce the fingerprint.
    fn finalize(self) -> (r: Result<Self::Output>);

    /// Drop everything received; the configuration stays.
    fn reset(&mut self)
        ensures
            final(self).received() == Seq::<u8>::empty(),
    ;
}

} // verus!
