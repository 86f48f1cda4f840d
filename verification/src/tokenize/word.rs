//! UAX #29 word tokenizer over `unicode-segmentation`.

use unicode_segmentation::UnicodeSegmentation;
use vstd::prelude::*;

use super::{keep_nonempty, lemma_nonempty_keeps_all, nonempty, TokenStream, Tokenizer};
use crate::text::{push_str, views};

verus! {

/// The UAX #29 words of a character sequence (punctuation and whitespace
/// segments left out), as `UnicodeSegmentation::unicode_words` yields them.
pub uninterp spec fn unicode_words_of(cs: Seq<char>) -> Seq<Seq<char>>;

/// The UAX #29 words of `cs`, each non-empty.
pub open spec fn words_of(cs: Seq<char>) -> Seq<Seq<char>> {
    nonempty(unicode_words_of(cs))
}

/// Collects `input.unicode_words()` into owned strings. The contract
/// claims that the result depends on the input alone (it is named
/// `unicode_words_of`) and that no word is empty: the crate keeps only the
/// segments that hold an alphanumeric character (`has_alphanumeric`, or
/// `has_ascii_alphanumeric` on ASCII input).
#[verifier::external_body]
fn unicode_words(input: &str) -> (v: Vec<String>)
    ensures
        views(v@) == unicode_words_of(input@),
        forall|i: int| 0 <= i < v@.len() ==> (#[trigger] v@[i])@.len() > 0,
{
    input.unicode_words().map(String::from).collect()
}

/// The UAX #29 words of `input`.
pub(crate) fn words(input: &str) -> (v: Vec<String>)
    ensures
        views(v@) == words_of(input@),
        views(v@) == unicode_words_of(input@),
{
    let v = unicode_words(input);
    proof {
        let ws = views(v@);
        assert forall|i: int| 0 <= i < ws.len() implies (#[trigger] ws[i]).len() > 0 by {
            assert(ws[i] == v@[i]@);
        }
        lemma_nonempty_keeps_all(ws);
    }
    v
}

/// Word tokenizer (UAX #29 word boundaries); yields only the non-empty
/// word segments.
#[derive(Default, Copy, Clone, Debug, PartialEq, Eq, Hash)]
pub struct WordTokenizer;

impl Tokenizer for WordTokenizer {
    open spec fn spec_tokens(&self, input: Seq<char>) -> Seq<Seq<char>> {
        nonempty(unicode_words_of(input))
    }

    open spec fn spec_name(&self) -> Seq<char> {
        "word-uax29"@
    }

    fn tokens(&self, input: &str) -> (t: TokenStream) {
        TokenStream::from_strings(keep_nonempty(words(input)))
    }

    fn name(&self) -> (n: String) {
        let mut n = String::new();
        push_str(&mut n, "word-uax29");
        n
    }
}

} // verus!
