//! MinHash signatures (Broder 1997) with double hashing: one 128-bit hash
//! per token derives all `H` slots.

pub mod fingerprinter;
pub mod jaccard;
pub mod sig;
pub mod streaming;

pub use super::HashFamily;
pub use fingerprinter::{MinHashFingerprinter, MinHashFingerprinterBuilder, DEFAULT_SEED};
pub use jaccard::matching_slots;
pub use sig::{MinHashSig, SCHEMA_VERSION};
pub use streaming::{MinHashStreaming, DEFAULT_MAX_BUFFER_BYTES};
