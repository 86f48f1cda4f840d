//! Banded locality-sensitive hashing over MinHash signatures.

pub mod band_table;
pub mod builder;
pub mod index;

pub use builder::LshIndexBuilder;
pub use index::LshIndex;
