//! NFC / NFKC over the `unicode-normalization` crate.

use unicode_normalization::UnicodeNormalization;
use vstd::prelude::*;

use crate::text::{chars_of, string_from_chars};

verus! {

/// The NFC form of a character sequence, as computed by
/// `unicode_normalization`'s `nfc` adaptor.
pub uninterp spec fn nfc_of(cs: Seq<char>) -> Seq<char>;

/// The NFKC form of a character sequence, as computed by
/// `unicode_normalization`'s `nfkc` adaptor.
pub uninterp spec fn nfkc_of(cs: Seq<char>) -> Seq<char>;

/// The NFC form of `cs`: ASCII text is its own NFC form, any other text
/// is named `nfc_of`.
pub open spec fn nfc_form(cs: Seq<char>) -> Seq<char> {
    if vstd::utf8::is_ascii_chars(cs) {
        cs
    } else {
        nfc_of(cs)
    }
}

/// The NFKC form of `cs`: ASCII text is its own NFKC form, any other text
/// is named `nfkc_of`.
pub open spec fn nfkc_form(cs: Seq<char>) -> Seq<char> {
    if vstd::utf8::is_ascii_chars(cs) {
        cs
    } else {
        nfkc_of(cs)
    }
}

/// Runs `UnicodeNormalization::nfc` over the characters `cs`. The contract
/// claims that the result depends on the characters alone (it is named
/// `nfc_of`) and that ASCII input comes back unchanged: in the crate's
/// source 7-bit ASCII never decomposes (`normalize.rs`), every ASCII
/// character is a starter, and no two ASCII characters compose.
#[verifier::external_body]
pub(crate) fn nfc_chars(cs: &Vec<char>) -> (out: Vec<char>)
    ensures
        out@ == nfc_of(cs@),
        vstd::utf8::is_ascii_chars(cs@) ==> out@ == cs@,
{
    cs.iter().copied().nfc().collect()
}

/// Runs `UnicodeNormalization::nfkc` over the characters `cs`. The
/// contract claims that the result depends on the characters alone (it is
/// named `nfkc_of`) and that ASCII input comes back unchanged, for the
/// reasons given at [`nfc_chars`]: ASCII has no compatibility
/// decompositions either.
#[verifier::external_body]
pub(crate) fn nfkc_chars(cs: &Vec<char>) -> (out: Vec<char>)
    ensures
        out@ == nfkc_of(cs@),
        vstd::utf8::is_ascii_chars(cs@) ==> out@ == cs@,
{
    cs.iter().copied().nfkc().collect()
}

/// Apply NFC.
pub fn nfc(input: &str) -> (s: String)
    ensures
        s@ == nfc_form(input@),
{
    let cs = chars_of(input);
    string_from_chars(&nfc_chars(&cs))
}

/// Apply NFKC.
pub fn nfkc(input: &str) -> (s: String)
    ensures
        s@ == nfkc_form(input@),
{
    let cs = chars_of(input);
    string_from_chars(&nfkc_chars(&cs))
}

} // verus!
