//! Extended grapheme cluster tokenizer over `unicode-segmentation`.

use unicode_segmentation::UnicodeSegmentation;
use vstd::prelude::*;

use super::{keep_nonempty, nonempty, TokenStream, Tokenizer};
use crate::text::{push_str, views};

verus! {

/// The extended grapheme clusters of a character sequence, as
/// `UnicodeSegmentation::graphemes(true)` yields them.
pub uninterp spec fn graphemes_of(cs: Seq<char>) -> Seq<Seq<char>>;

/// Collects `input.graphemes(true)` into owned strings; the result is
/// named `graphemes_of` and claimed to depend on the input alone.
#[verifier::external_body]
fn graphemes(input: &str) -> (v: Vec<String>)
    ensures
        views(v@) == graphemes_of(input@),
{
    input.graphemes(true).map(String::from).collect()
}

/// Extended grapheme cluster tokenizer; the right unit for character
/// shingles over scripts without word spacing, and for emoji.
#[derive(Default, Copy, Clone, Debug, PartialEq, Eq, Hash)]
pub struct GraphemeTokenizer;

impl Tokenizer for GraphemeTokenizer {
    open spec fn spec_tokens(&self, input: Seq<char>) -> Seq<Seq<char>> {
        nonempty(graphemes_of(input))
    }

    open spec fn spec_name(&self) -> Seq<char> {
        "grapheme-uax29"@
    }

    fn tokens(&self, input: &str) -> (t: TokenStream) {
        TokenStream::from_strings(keep_nonempty(graphemes(input)))
    }

    fn name(&self) -> (n: String) {
        let mut n = String::new();
        push_str(&mut n, "grapheme-uax29");
        n
    }
}

} // verus!
