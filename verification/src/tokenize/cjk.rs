//! Chinese word segmentation over `jieba-rs`.

use vstd::prelude::*;

use super::{TokenStream, Tokenizer};
use crate::text::{chars_of, is_whitespace, push_str, spec_is_whitespace, views};

verus! {

/// Chinese segmentation backend.
#[non_exhaustive]
#[derive(Copy, Clone, Debug, PartialEq, Eq, Hash, Structural)]
pub enum CjkSegmenter {
    /// `jieba-rs` with its bundled dictionary.
    Jieba,
}

/// The segments `jieba_rs::Jieba::new().cut(input, hmm)` yields for a
/// character sequence, with its bundled dictionary.
pub uninterp spec fn jieba_cut_of(cs: Seq<char>, hmm: bool) -> Seq<Seq<char>>;

/// Runs `Jieba::cut` with the bundled default dictionary and collects the
/// words of the tokens; the result is named `jieba_cut_of` and claimed to
/// depend on the input and the HMM flag alone.
#[verifier::external_body]
fn jieba_cut(input: &str, hmm: bool) -> (v: Vec<String>)
    ensures
        views(v@) == jieba_cut_of(input@, hmm),
{
    jieba_rs::Jieba::new().cut(input, hmm).into_iter().map(|t| String::from(t.word)).collect()
}

/// `w` is empty once trimmed: all of its characters are whitespace.
pub open spec fn blank(w: Seq<char>) -> bool {
    forall|i: int| 0 <= i < w.len() ==> spec_is_whitespace(#[trigger] w[i])
}

/// The segments that are not blank.
pub open spec fn non_blank(ws: Seq<Seq<char>>) -> Seq<Seq<char>> {
    ws.filter(|w: Seq<char>| !blank(w))
}

/// `s.trim().is_empty()`.
fn is_blank(s: &str) -> (b: bool)
    ensures
        b == blank(s@),
{
    let cs = chars_of(s);
    let mut i: usize = 0;
    while i < cs.len()
        invariant
            i <= cs@.len(),
            cs@ == s@,
            forall|j: int| 0 <= j < i ==> spec_is_whitespace(#[trigger] cs@[j]),
        decreases cs@.len() - i,
    {
        if !is_whitespace(cs[i]) {
            return false;
        }
        i = i + 1;
    }
    true
}

/// Keep the segments that are not blank.
fn keep_non_blank(ws: Vec<String>) -> (out: Vec<String>)
    ensures
        views(out@) == non_blank(views(ws@)),
{
    let mut out: Vec<String> = Vec::new();
    let mut i: usize = 0;
    while i < ws.len()
        invariant
            i <= ws@.len(),
            views(out@) == non_blank(views(ws@.take(i as int))),
        decreases ws@.len() - i,
    {
        let w = ws[i].clone();
        assert(views(ws@.take(i + 1)) == views(ws@.take(i as int)).push(w@));
        proof {
            views(ws@.take(i as int)).lemma_filter_push(w@, |w: Seq<char>| !blank(w));
        }
        if !is_blank(w.as_str()) {
            out.push(w);
            assert(views(out@) == views(out@.drop_last()).push(w@));
        }
        i = i + 1;
    }
    assert(ws@.take(ws@.len() as int) == ws@);
    out
}

/// Chinese tokenizer; segments without HMM by default, which keeps the
/// output deterministic.
#[derive(Copy, Clone, Debug)]
pub struct CjkTokenizer {
    segmenter: CjkSegmenter,
    use_hmm: bool,
}

impl CjkTokenizer {
    /// The backend.
    pub closed spec fn spec_segmenter(&self) -> CjkSegmenter {
        self.segmenter
    }

    /// Whether jieba's HMM fallback for unknown words is on.
    pub closed spec fn spec_uses_hmm(&self) -> bool {
        self.use_hmm
    }

    /// A tokenizer on `segmenter`, HMM off.
    pub fn new(segmenter: CjkSegmenter) -> (t: Self)
        ensures
            t.spec_segmenter() == segmenter,
            !t.spec_uses_hmm(),
    {
        CjkTokenizer { segmenter, use_hmm: false }
    }

    /// Toggle the HMM fallback.
    pub fn with_hmm(self, use_hmm: bool) -> (t: Self)
        ensures
            t.spec_segmenter() == self.spec_segmenter(),
            t.spec_uses_hmm() == use_hmm,
    {
        CjkTokenizer { segmenter: self.segmenter, use_hmm }
    }

    /// The backend.
    pub fn segmenter(&self) -> (s: CjkSegmenter)
        ensures
            s == self.spec_segmenter(),
    {
        self.segmenter
    }

    /// Whether the HMM fallback is on.
    pub fn uses_hmm(&self) -> (b: bool)
        ensures
            b == self.spec_uses_hmm(),
    {
        self.use_hmm
    }
}

impl Default for CjkTokenizer {
    fn default() -> (t: Self)
        ensures
            t.spec_segmenter() == CjkSegmenter::Jieba,
            !t.spec_uses_hmm(),
    {
        CjkTokenizer { segmenter: CjkSegmenter::Jieba, use_hmm: false }
    }
}

impl Tokenizer for CjkTokenizer {
    open spec fn spec_tokens(&self, input: Seq<char>) -> Seq<Seq<char>> {
        non_blank(jieba_cut_of(input, self.spec_uses_hmm()))
    }

    open spec fn spec_name(&self) -> Seq<char> {
        if self.spec_uses_hmm() {
            "cjk-jieba-hmm"@
        } else {
            "cjk-jieba"@
        }
    }

    fn tokens(&self, input: &str) -> (t: TokenStream) {
        match self.segmenter {
            CjkSegmenter::Jieba => TokenStream::from_strings(
                keep_non_blank(jieba_cut(input, self.use_hmm)),
            ),
        }
    }

    fn name(&self) -> (n: String) {
        let mut n = String::new();
        match self.segmenter {
            CjkSegmenter::Jieba => {
                if self.use_hmm {
                    push_str(&mut n, "cjk-jieba-hmm");
                } else {
                    push_str(&mut n, "cjk-jieba");
                }
            },
        }
        n
    }
}

} // verus!
