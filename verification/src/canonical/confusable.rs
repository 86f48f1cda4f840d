//! UTS #39 confusable skeleton via `unicode-security`.

use vstd::prelude::*;

verus! {

/// The UTS #39 §4 skeleton of a character sequence, as computed by
/// `unicode_security::confusable_detection::skeleton`.
pub uninterp spec fn skeleton_of(cs: Seq<char>) -> Seq<char>;

/// Collects `unicode_security::confusable_detection::skeleton(input)` into
/// a `String`; the result is named `skeleton_of` and claimed to depend on
/// the input characters alone.
#[verifier::external_body]
fn confusable_skeleton(input: &str) -> (s: String)
    ensures
        s@ == skeleton_of(input@),
{
    unicode_security::confusable_detection::skeleton(input).collect()
}

/// The confusable skeleton of `input`: homoglyphs mapped to their
/// prototypes, so that visually confusable strings compare equal.
pub fn skeleton(input: &str) -> (s: String)
    ensures
        s@ == skeleton_of(input@),
{
    confusable_skeleton(input)
}

} // verus!
