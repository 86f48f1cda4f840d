//! Tokenizers: UAX #29 words and graphemes, word shingles, and (through
//! `jieba-rs`) Chinese segmentation.
//!
//! Every tokenizer is described by two spec functions: the token sequence
//! it yields for an input and its stable name, which feeds the
//! configuration hash of a fingerprint.

use vstd::prelude::*;

use crate::text::views;

pub mod cjk;
pub mod grapheme;
pub mod shingle;
pub mod word;

pub use cjk::{CjkSegmenter, CjkTokenizer};
pub use grapheme::GraphemeTokenizer;
pub use shingle::ShingleTokenizer;
pub use word::WordTokenizer;

verus! {

/// The tokens of one input, in order.
pub struct TokenStream {
    toks: Vec<String>,
}

impl View for TokenStream {
    type V = Seq<Seq<char>>;

    closed spec fn view(&self) -> Seq<Seq<char>> {
        views(self.toks@)
    }
}

impl TokenStream {
    /// Wrap an owned token list.
    pub fn from_strings(toks: Vec<String>) -> (t: TokenStream)
        ensures
            t@ == views(toks@),
    {
        TokenStream { toks }
    }

    /// The tokens as owned strings.
    pub fn into_string_iter(self) -> (v: Vec<String>)
        ensures
            views(v@) == self@,
    {
        self.toks
    }

    /// Number of tokens.
    pub fn len(&self) -> (n: usize)
        ensures
            n == self@.len(),
    {
        self.toks.len()
    }
}

/// Splits canonicalized text into tokens.
pub trait Tokenizer {
    /// The tokens this tokenizer yields for `input`.
    spec fn spec_tokens(&self, input: Seq<char>) -> Seq<Seq<char>>;

    /// The stable identifier of this tokenizer.
    spec fn spec_name(&self) -> Seq<char>;

    /// Tokenize `input`.
    fn tokens(&self, input: &str) -> (t: TokenStream)
        ensures
            t@ == self.spec_tokens(input@),
    ;

    /// Stable identifier of the tokenizer, part of every fingerprint's
    /// configuration hash.
    fn name(&self) -> (n: String)
        ensures
            n@ == self.spec_name(),
    ;
}

/// The non-empty strings of `ws`, in order.
pub open spec fn nonempty(ws: Seq<Seq<char>>) -> Seq<Seq<char>> {
    ws.filter(|w: Seq<char>| w.len() > 0)
}

/// When no string of `ws` is empty, keeping the non-empty ones keeps all.
pub proof fn lemma_nonempty_keeps_all(ws: Seq<Seq<char>>)
    requires
        forall|i: int| 0 <= i < ws.len() ==> (#[trigger] ws[i]).len() > 0,
    ensures
        nonempty(ws) == ws,
    decreases ws.len(),
{
    if ws.len() > 0 {
        let init = ws.drop_last();
        assert forall|i: int| 0 <= i < init.len() implies (#[trigger] init[i]).len() > 0 by {
            assert(init[i] == ws[i]);
        }
        lemma_nonempty_keeps_all(init);
        init.lemma_filter_push(ws.last(), |w: Seq<char>| w.len() > 0);
        assert(init.push(ws.last()) == ws);
    }
}

/// Keep the non-empty strings of `ws`.
pub fn keep_nonempty(ws: Vec<String>) -> (out: Vec<String>)
    ensures
        views(out@) == nonempty(views(ws@)),
{
    let mut out: Vec<String> = Vec::new();
    let mut i: usize = 0;
    while i < ws.len()
        invariant
            i <= ws@.len(),
            views(out@) == nonempty(views(ws@.take(i as int))),
        decreases ws@.len() - i,
    {
        let w = ws[i].clone();
        assert(views(ws@.take(i + 1)) == views(ws@.take(i as int)).push(w@));
        proof {
            views(ws@.take(i as int)).lemma_filter_push(w@, |w: Seq<char>| w.len() > 0);
        }
        if w.as_str().unicode_len() > 0 {
            out.push(w);
            assert(views(out@) == views(out@.drop_last()).push(w@));
        }
        i = i + 1;
    }
    assert(ws@.take(ws@.len() as int) == ws@);
    out
}

} // verus!
