//! Local model configuration: the per-model pooling and prefix tables and
//! the builder that resolves a configuration before a model is loaded.

use vstd::prelude::*;

use super::pooling::Pooling;
use crate::error::{config_error, Error, Result};
use crate::text::{push_str, str_eq};

verus! {

/// Default maximum sequence length.
pub const DEFAULT_MAX_SEQ_LEN: usize = 512;

/// The value of the first entry of `t` whose key is `key`.
pub open spec fn table_lookup<T>(t: Seq<(Seq<char>, T)>, key: Seq<char>) -> Option<T>
    decreases t.len(),
{
    if t.len() == 0 {
        None
    } else if t[0].0 == key {
        Some(t[0].1)
    } else {
        table_lookup(t.drop_first(), key)
    }
}

/// The pooling each known model was trained with.
pub open spec fn pooling_table() -> Seq<(Seq<char>, Pooling)> {
    seq![
        ("BAAI/bge-small-en-v1.5"@, Pooling::Cls),
        ("BAAI/bge-base-en-v1.5"@, Pooling::Cls),
        ("BAAI/bge-large-en-v1.5"@, Pooling::Cls),
        ("BAAI/bge-m3"@, Pooling::Cls),
        ("intfloat/multilingual-e5-small"@, Pooling::Mean),
        ("intfloat/multilingual-e5-base"@, Pooling::Mean),
        ("intfloat/multilingual-e5-large"@, Pooling::Mean),
        ("intfloat/e5-small-v2"@, Pooling::Mean),
        ("intfloat/e5-base-v2"@, Pooling::Mean),
        ("intfloat/e5-large-v2"@, Pooling::Mean),
        ("sentence-transformers/all-MiniLM-L6-v2"@, Pooling::Mean),
        ("sentence-transformers/all-MiniLM-L12-v2"@, Pooling::Mean),
        ("sentence-transformers/all-mpnet-base-v2"@, Pooling::Mean),
        ("nomic-ai/nomic-embed-text-v1.5"@, Pooling::Mean),
        ("thenlper/gte-small"@, Pooling::Mean),
        ("thenlper/gte-base"@, Pooling::Mean),
        ("thenlper/gte-large"@, Pooling::Mean),
        ("Snowflake/snowflake-arctic-embed-m"@, Pooling::Cls),
        ("mixedbread-ai/mxbai-embed-large-v1"@, Pooling::Cls),
    ]
}

/// The instruction prefix each known model expects on queries.
pub open spec fn query_prefix_table() -> Seq<(Seq<char>, Seq<char>)> {
    seq![
        ("BAAI/bge-small-en-v1.5"@, "Represent this sentence for searching relevant passages: "@),
        ("BAAI/bge-base-en-v1.5"@, "Represent this sentence for searching relevant passages: "@),
        ("BAAI/bge-large-en-v1.5"@, "Represent this sentence for searching relevant passages: "@),
        ("intfloat/multilingual-e5-small"@, "query: "@),
        ("intfloat/multilingual-e5-base"@, "query: "@),
        ("intfloat/multilingual-e5-large"@, "query: "@),
        ("intfloat/e5-small-v2"@, "query: "@),
        ("intfloat/e5-base-v2"@, "query: "@),
        ("intfloat/e5-large-v2"@, "query: "@),
    ]
}

/// The instruction prefix each known model expects on documents.
pub open spec fn doc_prefix_table() -> Seq<(Seq<char>, Seq<char>)> {
    seq![
        ("intfloat/multilingual-e5-small"@, "passage: "@),
        ("intfloat/multilingual-e5-base"@, "passage: "@),
        ("intfloat/multilingual-e5-large"@, "passage: "@),
        ("intfloat/e5-small-v2"@, "passage: "@),
        ("intfloat/e5-base-v2"@, "passage: "@),
        ("intfloat/e5-large-v2"@, "passage: "@),
    ]
}

/// The pooling of a model: its table entry, or `Mean` when unknown.
pub open spec fn spec_pooling_for(model_id: Seq<char>) -> Pooling {
    match table_lookup(pooling_table(), model_id) {
        Some(p) => p,
        None => Pooling::Mean,
    }
}

/// The views of the entries of a string-keyed table.
pub open spec fn entry_views<T>(v: Seq<(&str, T)>) -> Seq<(Seq<char>, T)> {
    v.map_values(|e: (&str, T)| (e.0@, e.1))
}

/// The value stored under `key` in `entries`, first match first.
fn find_entry<T: Copy>(entries: &Vec<(&'static str, T)>, key: &str) -> (r: Option<T>)
    ensures
        r == table_lookup(entry_views(entries@), key@),
{
    let ghost t = entry_views(entries@);
    assert(t.skip(0) == t);
    let mut i: usize = 0;
    while i < entries.len()
        invariant
            i <= entries@.len(),
            t == entry_views(entries@),
            table_lookup(t, key@) == table_lookup(t.skip(i as int), key@),
        decreases entries@.len() - i,
    {
        assert(t.skip(i as int)[0] == t[i as int]);
        assert(t.skip(i as int).drop_first() == t.skip(i + 1));
        let (k, v) = entries[i];
        if str_eq(k, key) {
            return Some(v);
        }
        i = i + 1;
    }
    assert(t.skip(entries@.len() as int).len() == 0);
    None
}

/// The pooling of a known model, `Mean` otherwise.
pub fn pooling_for(model_id: &str) -> (p: Pooling)
    ensures
        p == spec_pooling_for(model_id@),
{
    let entries: Vec<(&'static str, Pooling)> = vec![
        ("BAAI/bge-small-en-v1.5", Pooling::Cls),
        ("BAAI/bge-base-en-v1.5", Pooling::Cls),
        ("BAAI/bge-large-en-v1.5", Pooling::Cls),
        ("BAAI/bge-m3", Pooling::Cls),
        ("intfloat/multilingual-e5-small", Pooling::Mean),
        ("intfloat/multilingual-e5-base", Pooling::Mean),
        ("intfloat/multilingual-e5-large", Pooling::Mean),
        ("intfloat/e5-small-v2", Pooling::Mean),
        ("intfloat/e5-base-v2", Pooling::Mean),
        ("intfloat/e5-large-v2", Pooling::Mean),
        ("sentence-transformers/all-MiniLM-L6-v2", Pooling::Mean),
        ("sentence-transformers/all-MiniLM-L12-v2", Pooling::Mean),
        ("sentence-transformers/all-mpnet-base-v2", Pooling::Mean),
        ("nomic-ai/nomic-embed-text-v1.5", Pooling::Mean),
        ("thenlper/gte-small", Pooling::Mean),
        ("thenlper/gte-base", Pooling::Mean),
        ("thenlper/gte-large", Pooling::Mean),
        ("Snowflake/snowflake-arctic-embed-m", Pooling::Cls),
        ("mixedbread-ai/mxbai-embed-large-v1", Pooling::Cls),
    ];
    assert(entry_views(entries@) =~= pooling_table());
    match find_entry(&entries, model_id) {
        Some(p) => p,
        None => Pooling::Mean,
    }
}

/// The query prefix of a known model.
pub fn query_prefix_for(model_id: &str) -> (r: Option<&'static str>)
    ensures
        (r matches Some(p) ==> table_lookup(query_prefix_table(), model_id@) == Some(p@)),
        (r is None ==> table_lookup(query_prefix_table(), model_id@) is None),
{
    let entries: Vec<(&'static str, &'static str)> = vec![
        ("BAAI/bge-small-en-v1.5", "Represent this sentence for searching relevant passages: "),
        ("BAAI/bge-base-en-v1.5", "Represent this sentence for searching relevant passages: "),
        ("BAAI/bge-large-en-v1.5", "Represent this sentence for searching relevant passages: "),
        ("intfloat/multilingual-e5-small", "query: "),
        ("intfloat/multilingual-e5-base", "query: "),
        ("intfloat/multilingual-e5-large", "query: "),
        ("intfloat/e5-small-v2", "query: "),
        ("intfloat/e5-base-v2", "query: "),
        ("intfloat/e5-large-v2", "query: "),
    ];
    let r = find_entry(&entries, model_id);
    proof {
        assert(entries@.map_values(|e: (&str, &str)| (e.0@, e.1@)) =~= query_prefix_table());
        lemma_lookup_views(entries@, query_prefix_table(), model_id@);
    }
    r
}

/// The document prefix of a known model.
pub fn doc_prefix_for(model_id: &str) -> (r: Option<&'static str>)
    ensures
        (r matches Some(p) ==> table_lookup(doc_prefix_table(), model_id@) == Some(p@)),
        (r is None ==> table_lookup(doc_prefix_table(), model_id@) is None),
{
    let entries: Vec<(&'static str, &'static str)> = vec![
        ("intfloat/multilingual-e5-small", "passage: "),
        ("intfloat/multilingual-e5-base", "passage: "),
        ("intfloat/multilingual-e5-large", "passage: "),
        ("intfloat/e5-small-v2", "passage: "),
        ("intfloat/e5-base-v2", "passage: "),
        ("intfloat/e5-large-v2", "passage: "),
    ];
    let r = find_entry(&entries, model_id);
    proof {
        assert(entries@.map_values(|e: (&str, &str)| (e.0@, e.1@)) =~= doc_prefix_table());
        lemma_lookup_views(entries@, doc_prefix_table(), model_id@);
    }
    r
}

/// Looking up in a table of strings and viewing the value agrees with
/// looking up in the table of views.
proof fn lemma_lookup_views(
    v: Seq<(&str, &str)>,
    t: Seq<(Seq<char>, Seq<char>)>,
    key: Seq<char>,
)
    requires
        t == v.map_values(|e: (&str, &str)| (e.0@, e.1@)),
    ensures
        match table_lookup(entry_views(v), key) {
            Some(p) => table_lookup(t, key) == Some(p@),
            None => table_lookup(t, key) is None,
        },
    decreases v.len(),
{
    if v.len() > 0 {
        assert(entry_views(v).drop_first() == entry_views(v.drop_first()));
        assert(t.drop_first() == v.drop_first().map_values(|e: (&str, &str)| (e.0@, e.1@)));
        lemma_lookup_views(v.drop_first(), t.drop_first(), key);
    }
}

/// The settings of a local embedding model before it is loaded. Paths
/// are file-system paths as text.
pub struct LocalProviderBuilder {
    model_id: Option<String>,
    onnx_path: Option<String>,
    tokenizer_path: Option<String>,
    pooling: Option<Pooling>,
    query_prefix: Option<Option<String>>,
    doc_prefix: Option<Option<String>>,
    max_seq_len: usize,
    intra_threads: Option<usize>,
}

/// A resolved local model configuration: every default applied.
pub struct LocalModelConfig {
    /// Model identifier (`local-onnx` when none was given).
    pub model_id: String,
    /// Path of the ONNX graph.
    pub onnx_path: String,
    /// Path of the tokenizer definition.
    pub tokenizer_path: String,
    /// Pooling strategy.
    pub pooling: Pooling,
    /// Prefix prepended to queries.
    pub query_prefix: Option<String>,
    /// Prefix prepended to documents.
    pub doc_prefix: Option<String>,
    /// Maximum sequence length, at least 1.
    pub max_seq_len: usize,
    /// Intra-op thread count, at least 1 when set.
    pub intra_threads: Option<usize>,
}

/// The view of an optional string.
pub open spec fn opt_view(o: Option<String>) -> Option<Seq<char>> {
    match o {
        Some(s) => Some(s@),
        None => None,
    }
}

impl LocalProviderBuilder {
    /// The model identifier, if set.
    pub closed spec fn spec_model_id(&self) -> Option<String> {
        self.model_id
    }

    /// The ONNX path, if set.
    pub closed spec fn spec_onnx_path(&self) -> Option<String> {
        self.onnx_path
    }

    /// The tokenizer path, if set.
    pub closed spec fn spec_tokenizer_path(&self) -> Option<String> {
        self.tokenizer_path
    }

    /// The pooling override, if set.
    pub closed spec fn spec_pooling(&self) -> Option<Pooling> {
        self.pooling
    }

    /// The query prefix override, if set.
    pub closed spec fn spec_query_prefix(&self) -> Option<Option<String>> {
        self.query_prefix
    }

    /// The document prefix override, if set.
    pub closed spec fn spec_doc_prefix(&self) -> Option<Option<String>> {
        self.doc_prefix
    }

    /// The maximum sequence length.
    pub closed spec fn spec_max_seq_len(&self) -> usize {
        self.max_seq_len
    }

    /// The thread count, if set.
    pub closed spec fn spec_intra_threads(&self) -> Option<usize> {
        self.intra_threads
    }

    /// Nothing set; sequence length [`DEFAULT_MAX_SEQ_LEN`].
    pub fn new() -> (b: Self)
        ensures
            b.spec_model_id() is None,
            b.spec_onnx_path() is None,
            b.spec_tokenizer_path() is None,
            b.spec_pooling() is None,
            b.spec_query_prefix() is None,
            b.spec_doc_prefix() is None,
            b.spec_max_seq_len() == DEFAULT_MAX_SEQ_LEN,
            b.spec_intra_threads() is None,
    {
        LocalProviderBuilder {
            model_id: None,
            onnx_path: None,
            tokenizer_path: None,
            pooling: None,
            query_prefix: None,
            doc_prefix: None,
            max_seq_len: DEFAULT_MAX_SEQ_LEN,
            intra_threads: None,
        }
    }

    /// Set the model identifier.
    pub fn model_id(self, id: String) -> (b: Self)
        ensures
            b.spec_model_id() == Some(id),
            b.spec_onnx_path() == self.spec_onnx_path(),
            b.spec_tokenizer_path() == self.spec_tokenizer_path(),
            b.spec_pooling() == self.spec_pooling(),
            b.spec_query_prefix() == self.spec_query_prefix(),
            b.spec_doc_prefix() == self.spec_doc_prefix(),
            b.spec_max_seq_len() == self.spec_max_seq_len(),
            b.spec_intra_threads() == self.spec_intra_threads(),
    {
        LocalProviderBuilder { model_id: Some(id), ..self }
    }

    /// Set the ONNX path.
    pub fn onnx_path(self, path: String) -> (b: Self)
        ensures
            b.spec_model_id() == self.spec_model_id(),
            b.spec_onnx_path() == Some(path),
            b.spec_tokenizer_path() == self.spec_tokenizer_path(),
            b.spec_pooling() == self.spec_pooling(),
            b.spec_query_prefix() == self.spec_query_prefix(),
            b.spec_doc_prefix() == self.spec_doc_prefix(),
            b.spec_max_seq_len() == self.spec_max_seq_len(),
            b.spec_intra_threads() == self.spec_intra_threads(),
    {
        LocalProviderBuilder { onnx_path: Some(path), ..self }
    }

    /// Set the tokenizer path.
    pub fn tokenizer_path(self, path: String) -> (b: Self)
        ensures
            b.spec_model_id() == self.spec_model_id(),
            b.spec_onnx_path() == self.spec_onnx_path(),
            b.spec_tokenizer_path() == Some(path),
            b.spec_pooling() == self.spec_pooling(),
            b.spec_query_prefix() == self.spec_query_prefix(),
            b.spec_doc_prefix() == self.spec_doc_prefix(),
            b.spec_max_seq_len() == self.spec_max_seq_len(),
            b.spec_intra_threads() == self.spec_intra_threads(),
    {
        LocalProviderBuilder { tokenizer_path: Some(path), ..self }
    }

    /// Override the pooling.
    pub fn pooling(self, p: Pooling) -> (b: Self)
        ensures
            b.spec_model_id() == self.spec_model_id(),
            b.spec_onnx_path() == self.spec_onnx_path(),
            b.spec_tokenizer_path() == self.spec_tokenizer_path(),
            b.spec_pooling() == Some(p),
            b.spec_query_prefix() == self.spec_query_prefix(),
            b.spec_doc_prefix() == self.spec_doc_prefix(),
            b.spec_max_seq_len() == self.spec_max_seq_len(),
            b.spec_intra_threads() == self.spec_intra_threads(),
    {
        LocalProviderBuilder { pooling: Some(p), ..self }
    }

    /// Override the query prefix.
    pub fn query_prefix(self, prefix: String) -> (b: Self)
        ensures
            b.spec_model_id() == self.spec_model_id(),
            b.spec_onnx_path() == self.spec_onnx_path(),
            b.spec_tokenizer_path() == self.spec_tokenizer_path(),
            b.spec_pooling() == self.spec_pooling(),
            b.spec_query_prefix() == Some(Some(prefix)),
            b.spec_doc_prefix() == self.spec_doc_prefix(),
            b.spec_max_seq_len() == self.spec_max_seq_len(),
            b.spec_intra_threads() == self.spec_intra_threads(),
    {
        LocalProviderBuilder { query_prefix: Some(Some(prefix)), ..self }
    }

    /// Override the document prefix.
    pub fn doc_prefix(self, prefix: String) -> (b: Self)
        ensures
            b.spec_model_id() == self.spec_model_id(),
            b.spec_onnx_path() == self.spec_onnx_path(),
            b.spec_tokenizer_path() == self.spec_tokenizer_path(),
            b.spec_pooling() == self.spec_pooling(),
            b.spec_query_prefix() == self.spec_query_prefix(),
            b.spec_doc_prefix() == Some(Some(prefix)),
            b.spec_max_seq_len() == self.spec_max_seq_len(),
            b.spec_intra_threads() == self.spec_intra_threads(),
    {
        LocalProviderBuilder { doc_prefix: Some(Some(prefix)), ..self }
    }

    /// Set the maximum sequence length (at least 1).
    pub fn max_seq_len(self, n: usize) -> (b: Self)
        ensures
            b.spec_model_id() == self.spec_model_id(),
            b.spec_onnx_path() == self.spec_onnx_path(),
            b.spec_tokenizer_path() == self.spec_tokenizer_path(),
            b.spec_pooling() == self.spec_pooling(),
            b.spec_query_prefix() == self.spec_query_prefix(),
            b.spec_doc_prefix() == self.spec_doc_prefix(),
            b.spec_max_seq_len() == if n == 0 {
                1
            } else {
                n
            },
            b.spec_intra_threads() == self.spec_intra_threads(),
    {
        let m = if n == 0 {
            1
        } else {
            n
        };
        LocalProviderBuilder { max_seq_len: m, ..self }
    }

    /// Set the intra-op thread count (at least 1).
    pub fn intra_threads(self, n: usize) -> (b: Self)
        ensures
            b.spec_model_id() == self.spec_model_id(),
            b.spec_onnx_path() == self.spec_onnx_path(),
            b.spec_tokenizer_path() == self.spec_tokenizer_path(),
            b.spec_pooling() == self.spec_pooling(),
            b.spec_query_prefix() == self.spec_query_prefix(),
            b.spec_doc_prefix() == self.spec_doc_prefix(),
            b.spec_max_seq_len() == self.spec_max_seq_len(),
            b.spec_intra_threads() == Some(
                if n == 0 {
                    1usize
                } else {
                    n
                },
            ),
    {
        let m = if n == 0 {
            1
        } else {
            n
        };
        LocalProviderBuilder { intra_threads: Some(m), ..self }
    }

    /// The model identifier, `local-onnx` by default.
    pub open spec fn resolved_model_id(&self) -> Seq<char> {
        match self.spec_model_id() {
            Some(id) => id@,
            None => "local-onnx"@,
        }
    }

    /// Apply the defaults. Refused (`Config`) without an ONNX path, then
    /// without a tokenizer path. Pooling and prefixes not set come from
    /// the model tables of the model identifier.
    pub fn resolve(self) -> (r: Result<LocalModelConfig>)
        ensures
            r is Ok <==> self.spec_onnx_path() is Some && self.spec_tokenizer_path() is Some,
            r matches Err(e) ==> e is Config,
            self.spec_onnx_path() is None ==> r->Err_0->Config_0@
                == "LocalProviderBuilder: onnx_path is required"@,
            self.spec_onnx_path() is Some && self.spec_tokenizer_path() is None ==> r->Err_0->Config_0@
                == "LocalProviderBuilder: tokenizer_path is required"@,
            r matches Ok(c) ==> {
                &&& c.model_id@ == self.resolved_model_id()
                &&& Some(c.onnx_path) == self.spec_onnx_path()
                &&& Some(c.tokenizer_path) == self.spec_tokenizer_path()
                &&& c.pooling == match self.spec_pooling() {
                    Some(p) => p,
                    None => spec_pooling_for(self.resolved_model_id()),
                }
                &&& opt_view(c.query_prefix) == match self.spec_query_prefix() {
                    Some(p) => opt_view(p),
                    None => table_lookup(query_prefix_table(), self.resolved_model_id()),
                }
                &&& opt_view(c.doc_prefix) == match self.spec_doc_prefix() {
                    Some(p) => opt_view(p),
                    None => table_lookup(doc_prefix_table(), self.resolved_model_id()),
                }
                &&& c.max_seq_len == self.spec_max_seq_len()
                &&& c.intra_threads == self.spec_intra_threads()
            },
    {
        let model_id = match self.model_id {
            Some(id) => id,
            None => {
                let mut s = String::new();
                push_str(&mut s, "local-onnx");
                s
            },
        };
        let onnx_path = match self.onnx_path {
            Some(p) => p,
            None => {
                return Err(config_error("LocalProviderBuilder: onnx_path is required"));
            },
        };
        let tokenizer_path = match self.tokenizer_path {
            Some(p) => p,
            None => {
                return Err(config_error("LocalProviderBuilder: tokenizer_path is required"));
            },
        };
        let pooling = match self.pooling {
            Some(p) => p,
            None => pooling_for(model_id.as_str()),
        };
        let query_prefix = match self.query_prefix {
            Some(p) => p,
            None => match query_prefix_for(model_id.as_str()) {
                Some(p) => {
                    let mut s = String::new();
                    push_str(&mut s, p);
                    Some(s)
                },
                None => None,
            },
        };
        let doc_prefix = match self.doc_prefix {
            Some(p) => p,
            None => match doc_prefix_for(model_id.as_str()) {
                Some(p) => {
                    let mut s = String::new();
                    push_str(&mut s, p);
                    Some(s)
                },
                None => None,
            },
        };
        Ok(
            LocalModelConfig {
                model_id,
                onnx_path,
                tokenizer_path,
                pooling,
                query_prefix,
                doc_prefix,
                max_seq_len: self.max_seq_len,
                intra_threads: self.intra_threads,
            },
        )
    }
}

} // verus!
