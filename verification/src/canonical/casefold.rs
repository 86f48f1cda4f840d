//! Default (locale-independent) Unicode case fold via `caseless`.

use vstd::prelude::*;

use crate::canonical::ascii_lowercase;

verus! {

/// The default Unicode case fold of a character sequence, as computed by
/// `caseless::default_case_fold_str`.
pub uninterp spec fn case_fold_of(cs: Seq<char>) -> Seq<char>;

/// The default case fold of `cs`: ASCII text folds to its ASCII
/// lowercase, any other text is named `case_fold_of`.
pub open spec fn case_fold_form(cs: Seq<char>) -> Seq<char> {
    if vstd::utf8::is_ascii_chars(cs) {
        ascii_lowercase(cs)
    } else {
        case_fold_of(cs)
    }
}

/// Calls `caseless::default_case_fold_str`. The contract claims that the
/// result depends on the input characters alone (it is named
/// `case_fold_of`) and that ASCII input comes back ASCII-lowercased: the
/// crate folds character by character through `CASE_FOLDING_TABLE`, whose
/// only ASCII entries map `A`..`Z` to `a`..`z`, and passes every other
/// ASCII character through.
#[verifier::external_body]
fn default_case_fold(input: &str) -> (s: String)
    ensures
        s@ == case_fold_of(input@),
        vstd::utf8::is_ascii_chars(input@) ==> s@ == ascii_lowercase(input@),
{
    caseless::default_case_fold_str(input)
}

/// Simple (default, locale-independent) case fold of `input`.
pub fn simple(input: &str) -> (s: String)
    ensures
        s@ == case_fold_form(input@),
{
    default_case_fold(input)
}

} // verus!
