//! The fingerprint sum type, its metadata, and the configuration hash.

use vstd::prelude::*;
use vstd::utf8::encode_utf8;

use crate::algo;
use crate::canonical::{config_text, Canonicalizer};
use crate::classical::hash::{xxh3_64, xxh3_64_of};
use crate::classical::minhash::sig::{sig_bytes, MinHashSig};
use crate::classical::simhash::sig::SimHash64;
use crate::text::{decimal, decimal_string, push_str};

verus! {

/// A TLSH digest in its hexadecimal form (`T1` then 70 hex digits).
#[derive(Clone, Debug, PartialEq)]
pub struct TlshFingerprint {
    /// The digest string.
    pub hex: String,
}

/// A fingerprint of one of the classical algorithms.
#[non_exhaustive]
#[derive(Clone, Debug, PartialEq)]
pub enum Fingerprint {
    /// A 128-slot MinHash signature.
    MinHash(MinHashSig<128>),
    /// A 64-bit SimHash.
    SimHash(SimHash64),
    /// A TLSH digest.
    Tlsh(TlshFingerprint),
}

/// The `config_hash` of metadata that has not been given one.
pub const UNCOMPUTED_CONFIG_HASH: u64 = 0;

/// Describes a fingerprint: algorithm, configuration hash, schema and
/// size in bytes.
#[derive(Clone, Debug, PartialEq, Eq, Hash)]
pub struct FingerprintMetadata {
    /// Algorithm identifier (see [`crate::algo`]).
    pub algorithm: &'static str,
    /// Hash of the producing configuration, or [`UNCOMPUTED_CONFIG_HASH`].
    pub config_hash: u64,
    /// Model identifier, for embeddings only.
    pub model_id: Option<String>,
    /// Schema version of the fingerprint.
    pub schema_version: u16,
    /// Serialized size in bytes.
    pub byte_size: usize,
}

impl FingerprintMetadata {
    /// Attach a configuration hash.
    pub fn with_config_hash(self, hash: u64) -> (m: Self)
        ensures
            m.config_hash == hash,
            m.algorithm == self.algorithm,
            m.model_id == self.model_id,
            m.schema_version == self.schema_version,
            m.byte_size == self.byte_size,
    {
        FingerprintMetadata { config_hash: hash, ..self }
    }
}

/// The text hashed into the configuration hash: the canonicalizer's
/// configuration, the tokenizer name and the algorithm configuration,
/// separated by `|`.
pub open spec fn config_key(
    canon: crate::canonical::CanonicalizerBuilder,
    tokenizer_name: Seq<char>,
    algo_cfg: Seq<char>,
) -> Seq<char> {
    config_text(canon) + "|"@ + tokenizer_name + "|"@ + algo_cfg
}

/// Hash of a fingerprinting configuration: xxh3 of the UTF-8 bytes of
/// [`config_key`]. Fingerprints are comparable only under equal hashes.
pub fn config_hash(canonicalizer: &Canonicalizer, tokenizer_name: &str, algo_cfg: &str) -> (h: u64)
    ensures
        h == xxh3_64_of(
            encode_utf8(config_key(canonicalizer.spec_config(), tokenizer_name@, algo_cfg@)),
        ),
{
    let mut buf = canonicalizer.config_string();
    push_str(&mut buf, "|");
    push_str(&mut buf, tokenizer_name);
    push_str(&mut buf, "|");
    push_str(&mut buf, algo_cfg);
    xxh3_64(buf.as_str().as_bytes())
}

impl Fingerprint {
    /// The metadata of each variant, with the given configuration hash.
    pub open spec fn spec_metadata(&self, config_hash: u64) -> (Seq<char>, u16, nat) {
        match self {
            Fingerprint::MinHash(sig) => (algo::MINHASH_128@, sig.schema, sig_bytes(*sig).len()),
            Fingerprint::SimHash(_) => (algo::SIMHASH_64@, 1u16, 8nat),
            Fingerprint::Tlsh(t) => (algo::TLSH@, 1u16, encode_utf8(t.hex@).len()),
        }
    }

    /// Metadata with the configuration hash left uncomputed.
    pub fn metadata(&self) -> (m: FingerprintMetadata)
        ensures
            m.config_hash == UNCOMPUTED_CONFIG_HASH,
            m.algorithm@ == self.spec_metadata(UNCOMPUTED_CONFIG_HASH).0,
            m.schema_version == self.spec_metadata(UNCOMPUTED_CONFIG_HASH).1,
            m.byte_size == self.spec_metadata(UNCOMPUTED_CONFIG_HASH).2,
            m.model_id is None,
    {
        self.metadata_inner(UNCOMPUTED_CONFIG_HASH)
    }

    /// Metadata with the hash of the given configuration.
    pub fn metadata_with(
        &self,
        canonicalizer: &Canonicalizer,
        tokenizer_name: &str,
        algo_cfg: &str,
    ) -> (m: FingerprintMetadata)
        ensures
            m.config_hash == xxh3_64_of(
                encode_utf8(config_key(canonicalizer.spec_config(), tokenizer_name@, algo_cfg@)),
            ),
            m.algorithm@ == self.spec_metadata(m.config_hash).0,
            m.schema_version == self.spec_metadata(m.config_hash).1,
            m.byte_size == self.spec_metadata(m.config_hash).2,
            m.model_id is None,
    {
        let hash = config_hash(canonicalizer, tokenizer_name, algo_cfg);
        self.metadata_inner(hash)
    }

    fn metadata_inner(&self, config_hash: u64) -> (m: FingerprintMetadata)
        ensures
            m.config_hash == config_hash,
            m.algorithm@ == self.spec_metadata(config_hash).0,
            m.schema_version == self.spec_metadata(config_hash).1,
            m.byte_size == self.spec_metadata(config_hash).2,
            m.model_id is None,
    {
        match self {
            Fingerprint::MinHash(sig) => {
                proof {
                    vstd::bytes::lemma_auto_spec_u64_to_from_le_bytes();
                }
                let bytes = sig.as_bytes();
                FingerprintMetadata {
                    algorithm: algo::MINHASH_128,
                    config_hash,
                    model_id: None,
                    schema_version: sig.schema,
                    byte_size: bytes.len(),
                }
            },
            Fingerprint::SimHash(sig) => {
                let bytes = sig.as_bytes();
                FingerprintMetadata {
                    algorithm: algo::SIMHASH_64,
                    config_hash,
                    model_id: None,
                    schema_version: crate::classical::simhash::sig::SCHEMA_VERSION,
                    byte_size: bytes.len(),
                }
            },
            Fingerprint::Tlsh(t) => FingerprintMetadata {
                algorithm: algo::TLSH,
                config_hash,
                model_id: None,
                schema_version: 1,
                byte_size: t.hex.as_str().as_bytes().len(),
            },
        }
    }

    /// The versioned name of the fingerprint kind.
    pub open spec fn spec_name(&self) -> Seq<char> {
        match self {
            Fingerprint::MinHash(sig) => algo::MINHASH_128@ + "-v"@ + decimal(sig.schema as nat),
            Fingerprint::SimHash(_) => algo::SIMHASH_64@ + "-v1"@,
            Fingerprint::Tlsh(_) => algo::TLSH@ + "-v1"@,
        }
    }

    /// Versioned name such as `minhash-h128-v1`.
    pub fn name(&self) -> (n: String)
        ensures
            n@ == self.spec_name(),
    {
        let mut n = String::new();
        match self {
            Fingerprint::MinHash(sig) => {
                push_str(&mut n, algo::MINHASH_128);
                push_str(&mut n, "-v");
                push_str(&mut n, decimal_string(sig.schema as u64).as_str());
            },
            Fingerprint::SimHash(_) => {
                push_str(&mut n, algo::SIMHASH_64);
                push_str(&mut n, "-v");
                push_str(&mut n, "1");
                assert(n@ =~= algo::SIMHASH_64@ + "-v1"@) by {
                    reveal_strlit("-v");
                    reveal_strlit("1");
                    reveal_strlit("-v1");
                }
            },
            Fingerprint::Tlsh(_) => {
                push_str(&mut n, algo::TLSH);
                push_str(&mut n, "-v1");
            },
        }
        n
    }
}

} // verus!
