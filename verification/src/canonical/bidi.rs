//! Format-category and Bidi-control codepoints.
//!
//! These codepoints are invisible but change byte sequences; stripping
//! them defends against zero-width-joiner injection, BOM leakage and
//! Trojan Source (CVE-2021-42574).

use vstd::prelude::*;

verus! {

/// `c` is a Unicode Bidi-control codepoint (LRE..RLO, LRI..PDI, LRM, RLM).
pub open spec fn spec_is_bidi_control(c: char) -> bool {
    let u = c as u32;
    (0x202A <= u <= 0x202E) || (0x2066 <= u <= 0x2069) || u == 0x200E || u == 0x200F
}

/// `c` is in the curated set of format (`Cf`) codepoints that are stripped:
/// zero-widths, WJ.., ALM, Mongolian selectors, BOM, variation selectors,
/// tag characters, and the Bidi embeddings/isolates.
pub open spec fn spec_is_format(c: char) -> bool {
    let u = c as u32;
    ||| 0x200B <= u <= 0x200F
    ||| 0x2060 <= u <= 0x2064
    ||| u == 0x061C
    ||| 0x180B <= u <= 0x180F
    ||| u == 0xFEFF
    ||| 0xFE00 <= u <= 0xFE0F
    ||| 0xE0100 <= u <= 0xE01EF
    ||| u == 0xE0001
    ||| 0xE0020 <= u <= 0xE007F
    ||| 0x202A <= u <= 0x202E
    ||| 0x2066 <= u <= 0x2069
}

/// Returns true if `c` is a Unicode Bidi-control codepoint.
pub fn is_bidi_control(c: char) -> (b: bool)
    ensures
        b == spec_is_bidi_control(c),
{
    let u = c as u32;
    (0x202A <= u && u <= 0x202E) || (0x2066 <= u && u <= 0x2069) || u == 0x200E || u == 0x200F
}

/// Returns true if `c` is one of the stripped format (`Cf`) codepoints.
pub fn is_format(c: char) -> (b: bool)
    ensures
        b == spec_is_format(c),
{
    let u = c as u32;
    (0x200B <= u && u <= 0x200F) || (0x2060 <= u && u <= 0x2064) || u == 0x061C || (0x180B <= u
        && u <= 0x180F) || u == 0xFEFF || (0xFE00 <= u && u <= 0xFE0F) || (0xE0100 <= u && u
        <= 0xE01EF) || u == 0xE0001 || (0xE0020 <= u && u <= 0xE007F) || (0x202A <= u && u
        <= 0x202E) || (0x2066 <= u && u <= 0x2069)
}

} // verus!
