//! Stable algorithm identifiers, used in fingerprint metadata and names.

use vstd::prelude::*;

verus! {

/// MinHash with 128 slots.
pub const MINHASH_128: &'static str = "minhash-h128";

/// MinHash with any slot count.
pub const MINHASH: &'static str = "minhash";

/// 64-bit SimHash.
pub const SIMHASH_64: &'static str = "simhash-b64";

/// TLSH 128/1.
pub const TLSH: &'static str = "tlsh";

/// Dense embeddings.
pub const EMBEDDING: &'static str = "embedding";

} // verus!
