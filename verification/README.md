# txtfp

Text fingerprinting: Unicode canonicalization, tokenization, MinHash with
banded LSH, SimHash, TLSH, markup-to-text conversion, chunking of long
inputs for embedding models, and the non-numeric parts of local and cloud
embedding providers.

The library under `src/` is written in Verus. Every function carries a
`requires`/`ensures` contract stated over spec functions and views, and
Verus proves the bodies against them. Calls into outside crates
(`unicode-normalization`, `caseless`, `unicode-security`,
`unicode-segmentation`, `jieba-rs`, `xxhash-rust`, `tlsh2`, `hashbrown`,
`smallvec`, `html2text`, `pulldown-cmark`) go through small trusted
wrappers whose doc comments say what their contracts claim.

## Layout

- `src/canonical/` — Bidi/format stripping, NFC/NFKC, simple case folding,
  confusable skeletons, and the canonicalizer pipeline with its ASCII fast
  path.
- `src/tokenize/` — word, grapheme, shingle and Chinese tokenizers.
- `src/classical/` — hashing (MurmurHash3 x64/128 and xxh3), MinHash
  signatures and their streaming form, banded LSH, SimHash, TLSH, and the
  UTF-8 stream buffer.
- `src/markup/` — HTML and Markdown to text.
- `src/semantic/` — chunking, pooling choice, model tables, the decisions
  around a local inference run, embedding compatibility, provider model
  tables and the retry decision.
- `src/pdf.rs`, `src/fingerprint.rs`, `src/error.rs` — PDF limits and
  outcomes, the fingerprint sum type with its metadata, and errors.
- `tests/` — executable tests of the library.
- `app/` — ordinary Rust around the library: floating-point estimates
  (Jaccard, cosine, LSH threshold tuning, IDF weighting, pooling), the
  ONNX and cloud embedding providers, PDF extraction on a worker thread
  with a timeout, and serde / `thiserror` forms of the library's types.

## Laws proved

Among the properties Verus checks: the canonicalizer's ASCII fast path
returns exactly what the full strip, NFKC and case-fold pipeline would,
canonicalization is idempotent on text whose kept characters are ASCII
(under every setting without the confusable skeleton) and whenever only
stripping is configured, and the configuration identifier is injective; MinHash
signatures depend only on the set of tokens, slot agreement is symmetric
and bounded; each SimHash bit is the sign of the per-occurrence votes of
+1 and -1, a single token gives its own hash, uniform weighting ignores
repeated tokens, and Hamming distance is a symmetric, zero-on-self
measure; a stored LSH signature is always among its own query candidates
and queries return ascending, duplicate-free ids; streaming fingerprints
equal offline ones, and any chunking of valid UTF-8 within the cap is
accepted; Markdown output is already trimmed; no chunk is empty, fixed
windows fit the token cap, and without overlap they keep every word in
order.

## Collections

The LSH band tables are `hashbrown` maps of `smallvec` buckets behind
trusted wrappers whose contracts speak of one name for the table's
contents. They use `hashbrown`'s default hasher: an identity hasher for
the `u64` band keys would only be faster, not different. The id-to-
signature map is a `std::collections::HashMap`, which vstd specifies: its
values are `MinHashSig<H>` for the index's own `H`, and a name for the
contents of a declared `hashbrown` map of them would have to be generic
over `H`, which a name for an outside result cannot be.
