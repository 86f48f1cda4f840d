//! Text fingerprinting: Unicode canonicalization, tokenization,
//! classical locality-sensitive sketches (MinHash + banded LSH, SimHash,
//! TLSH), markup-to-text conversion, chunking for embedding models and the
//! non-numeric decisions of embedding providers, with machine-checked
//! contracts.

use vstd::prelude::*;

pub mod algo;
pub mod canonical;
pub mod classical;
pub mod error;
pub mod fingerprint;
pub mod markup;
pub mod pdf;
pub mod semantic;
pub mod text;
pub mod tokenize;

pub use canonical::{canonicalize, CaseFold, Canonicalizer, CanonicalizerBuilder, Normalization};
pub use classical::lsh::{LshIndex, LshIndexBuilder};
pub use classical::minhash::{HashFamily, MinHashFingerprinter, MinHashSig};
pub use classical::simhash::{hamming, SimHash64, SimHashFingerprinter, Weighting};
pub use classical::{Fingerprinter, StreamingFingerprinter};
pub use error::{Error, Result};
pub use fingerprint::{config_hash, Fingerprint, FingerprintMetadata, TlshFingerprint};
pub use semantic::Pooling;
pub use tokenize::{GraphemeTokenizer, ShingleTokenizer, Tokenizer, WordTokenizer};

verus! {

/// Crate version.
pub const VERSION: &'static str = "0.2.1";

} // verus!
