//! SimHash (Charikar 2002): a 64-bit signature whose Hamming distance
//! tracks cosine distance of token-weight vectors.

pub mod distance;
pub mod fingerprinter;
pub mod sig;
pub mod streaming;

pub use super::HashFamily;
pub use distance::hamming;
pub use fingerprinter::{SimHashFingerprinter, SimHashFingerprinterBuilder, Weighting};
pub use sig::{SimHash64, SCHEMA_VERSION};
pub use streaming::SimHashStreaming;
