//! TLSH (Trend Micro locality-sensitive hash) over the `tlsh2` crate,
//! 128 buckets with a 1-byte checksum.

use std::str::FromStr;
use vstd::prelude::*;
use vstd::utf8::encode_utf8;

use crate::canonical::{canonical_form, Canonicalizer};
use crate::classical::Fingerprinter;
use crate::error::{invalid_input, Error, Result};
use crate::fingerprint::TlshFingerprint;
use crate::text::{decimal, decimal_string, push_char, push_str};

verus! {

/// Fewest input bytes TLSH accepts.
pub const MIN_INPUT_BYTES: usize = 50;

/// Most input bytes TLSH is run on. `TlshBuilder128_1::build` multiplies
/// the lower quartile and the median of its 128 bucket counts by 100 in
/// `u32`. An input of `len` bytes adds `6 * (len - 4)` to the counts, and at
/// least 65 counts are no smaller than the median, so the median is at most
/// `6 * (len - 4) / 65`. This is the largest length at which that bound keeps
/// `100 * median` within `u32`; past it, whether the product overflows
/// depends on the counts themselves, which only the builder computes.
pub const MAX_INPUT_BYTES: usize = 465288128;

/// `c` is an uppercase hexadecimal digit.
pub open spec fn is_upper_hex(c: u8) -> bool {
    (48 <= c <= 57) || (65 <= c <= 70)
}

/// `c` is a hexadecimal digit of either case.
pub open spec fn is_hex_char(c: char) -> bool {
    ('0' <= c <= '9') || ('a' <= c <= 'f') || ('A' <= c <= 'F')
}

/// The TLSH 128/1 hash string of `bytes` (`TlshBuilder128_1::build_from`
/// followed by `hash`), `None` when no hash can be built.
pub uninterp spec fn tlsh_hash_of(bytes: Seq<u8>) -> Option<Seq<u8>>;

/// Builds the TLSH 128/1 digest of `bytes` (`TlshBuilder128_1::build_from`,
/// then `Tlsh::hash`). The result is named `tlsh_hash_of`; as the source
/// shows, no digest is built from fewer than 50 bytes, and a digest is 72
/// ASCII bytes: `T1` then 70 uppercase hexadecimal digits. Inputs above
/// [`MAX_INPUT_BYTES`] are left out: on larger inputs the builder's
/// quartile arithmetic can overflow `u32`.
#[verifier::external_body]
fn tlsh_hash(bytes: &[u8]) -> (r: Option<Vec<u8>>)
    requires
        bytes@.len() <= MAX_INPUT_BYTES,
    ensures
        r matches Some(v) ==> tlsh_hash_of(bytes@) == Some(v@),
        r is None ==> tlsh_hash_of(bytes@) is None,
        bytes@.len() < 50 ==> r is None,
        r matches Some(v) ==> {
            &&& v@.len() == 72
            &&& v@[0] == 84u8
            &&& v@[1] == 49u8
            &&& forall|i: int| 2 <= i < 72 ==> is_upper_hex(#[trigger] v@[i])
        },
{
    match tlsh2::TlshBuilder128_1::build_from(bytes) {
        Some(t) => Some(t.hash().to_vec()),
        None => None,
    }
}

/// `hex` is what `Tlsh128_1::from_str` accepts: `T1` followed by 70
/// hexadecimal digits.
pub open spec fn valid_tlsh_hex(hex: Seq<char>) -> bool {
    &&& hex.len() == 72
    &&& hex[0] == 'T'
    &&& hex[1] == '1'
    &&& forall|i: int| 2 <= i < 72 ==> is_hex_char(#[trigger] hex[i])
}

/// The TLSH difference (`Tlsh::diff` with the length term) between the
/// digests that two valid hash strings parse to.
pub uninterp spec fn tlsh_diff_of(a: Seq<char>, b: Seq<char>) -> i32;

/// Parses both strings (`Tlsh128_1::from_str`, which accepts exactly the
/// valid strings) and returns `Tlsh::diff(.., true)`. The result is named
/// `tlsh_diff_of`; as the source shows, the difference is symmetric, not
/// negative, and zero between a string and itself.
#[verifier::external_body]
fn tlsh_hex_diff(a: &str, b: &str) -> (d: i32)
    requires
        valid_tlsh_hex(a@),
        valid_tlsh_hex(b@),
    ensures
        d == tlsh_diff_of(a@, b@),
        d == tlsh_diff_of(b@, a@),
        d >= 0,
        a@ == b@ ==> d == 0,
{
    match (tlsh2::Tlsh128_1::from_str(a), tlsh2::Tlsh128_1::from_str(b)) {
        (Ok(x), Ok(y)) => x.diff(&y, true),
        _ => 0,
    }
}

/// The characters of an ASCII byte string.
pub open spec fn ascii_chars(bytes: Seq<u8>) -> Seq<char> {
    bytes.map_values(|b: u8| b as char)
}

/// TLSH fingerprinter: canonicalize, then hash the UTF-8 bytes.
#[derive(Copy, Clone, Debug)]
pub struct TlshFingerprinter {
    canonicalizer: Canonicalizer,
}

impl TlshFingerprinter {
    /// The canonicalizer.
    pub closed spec fn spec_canonicalizer(&self) -> Canonicalizer {
        self.canonicalizer
    }

    /// The bytes that get hashed for a document.
    pub open spec fn doc_bytes(&self, input: Seq<char>) -> Seq<u8> {
        encode_utf8(canonical_form(self.spec_canonicalizer().spec_config(), input))
    }

    /// A fingerprinter over `canonicalizer`.
    pub fn new(canonicalizer: Canonicalizer) -> (f: Self)
        ensures
            f.spec_canonicalizer() == canonicalizer,
    {
        TlshFingerprinter { canonicalizer }
    }

    /// The canonicalizer.
    pub fn canonicalizer(&self) -> (c: &Canonicalizer)
        ensures
            *c == self.spec_canonicalizer(),
    {
        &self.canonicalizer
    }

    /// The TLSH digest of raw bytes. Refused below [`MIN_INPUT_BYTES`]
    /// bytes, above [`MAX_INPUT_BYTES`] bytes, and when TLSH builds no
    /// digest (too little variety).
    pub fn sketch_bytes(&self, bytes: &[u8]) -> (r: Result<TlshFingerprint>)
        ensures
            r is Ok <==> MIN_INPUT_BYTES <= bytes@.len() <= MAX_INPUT_BYTES && tlsh_hash_of(
                bytes@,
            ) is Some,
            r matches Ok(fp) ==> tlsh_hash_of(bytes@) matches Some(h) && fp.hex@ == ascii_chars(h),
            r matches Ok(fp) ==> valid_tlsh_hex(fp.hex@),
            r matches Err(e) ==> e is InvalidInput,
            bytes@.len() < MIN_INPUT_BYTES ==> r->Err_0->InvalidInput_0@
                == "tlsh requires at least 50 bytes, got "@ + decimal(bytes@.len()),
            bytes@.len() > MAX_INPUT_BYTES ==> r->Err_0->InvalidInput_0@ == "tlsh accepts at most "@
                + decimal(MAX_INPUT_BYTES as nat) + " bytes, got "@ + decimal(bytes@.len()),
            MIN_INPUT_BYTES <= bytes@.len() <= MAX_INPUT_BYTES && tlsh_hash_of(bytes@) is None
                ==> r->Err_0->InvalidInput_0@ == "tlsh build failed (insufficient entropy)"@,
    {
        if bytes.len() < MIN_INPUT_BYTES {
            let mut m = String::new();
            push_str(&mut m, "tlsh requires at least 50 bytes, got ");
            push_str(&mut m, decimal_string(bytes.len() as u64).as_str());
            return Err(Error::InvalidInput(m));
        }
        if bytes.len() > MAX_INPUT_BYTES {
            let mut m = String::new();
            push_str(&mut m, "tlsh accepts at most ");
            push_str(&mut m, decimal_string(MAX_INPUT_BYTES as u64).as_str());
            push_str(&mut m, " bytes, got ");
            push_str(&mut m, decimal_string(bytes.len() as u64).as_str());
            return Err(Error::InvalidInput(m));
        }
        let h = match tlsh_hash(bytes) {
            Some(h) => h,
            None => {
                return Err(invalid_input("tlsh build failed (insufficient entropy)"));
            },
        };
        let mut hex = String::new();
        let mut i: usize = 0;
        while i < h.len()
            invariant
                i <= h@.len(),
                hex@ == ascii_chars(h@.take(i as int)),
            decreases h@.len() - i,
        {
            push_char(&mut hex, h[i] as char);
            i = i + 1;
            assert(hex@ =~= ascii_chars(h@.take(i as int)));
        }
        assert(h@.take(h@.len() as int) == h@);
        Ok(TlshFingerprint { hex })
    }
}

impl Default for TlshFingerprinter {
    fn default() -> (f: Self)
        ensures
            f.spec_canonicalizer().spec_config() == crate::canonical::CanonicalizerBuilder::spec_default(),
    {
        TlshFingerprinter { canonicalizer: Canonicalizer::default() }
    }
}

impl Fingerprinter for TlshFingerprinter {
    type Output = TlshFingerprint;

    open spec fn accepts(&self, input: Seq<char>) -> bool {
        &&& input.len() > 0
        &&& MIN_INPUT_BYTES <= self.doc_bytes(input).len() <= MAX_INPUT_BYTES
        &&& tlsh_hash_of(self.doc_bytes(input)) is Some
    }

    open spec fn is_fingerprint_of(&self, input: Seq<char>, fp: TlshFingerprint) -> bool {
        tlsh_hash_of(self.doc_bytes(input)) matches Some(h) && fp.hex@ == ascii_chars(h)
    }

    /// Canonicalize `input` and take the TLSH digest of its UTF-8 bytes.
    fn fingerprint(&self, input: &str) -> (r: Result<TlshFingerprint>)
        ensures
            r matches Err(e) ==> e is InvalidInput,
            input@.len() == 0 ==> r->Err_0->InvalidInput_0@ == "empty document"@,
    {
        if input.unicode_len() == 0 {
            return Err(invalid_input("empty document"));
        }
        let canonical = self.canonicalizer.canonicalize(input);
        self.sketch_bytes(canonical.as_str().as_bytes())
    }
}

/// `hex` passes the parse check of `Tlsh128_1::from_str`.
fn is_valid_tlsh_hex(hex: &str) -> (b: bool)
    ensures
        b == valid_tlsh_hex(hex@),
{
    let cs = crate::text::chars_of(hex);
    if cs.len() != 72 || cs[0] != 'T' || cs[1] != '1' {
        return false;
    }
    let mut i: usize = 2;
    while i < 72
        invariant
            2 <= i <= 72,
            cs@ == hex@,
            cs@.len() == 72,
            forall|j: int| 2 <= j < i ==> is_hex_char(#[trigger] cs@[j]),
        decreases 72 - i,
    {
        let c = cs[i];
        if !(('0' <= c && c <= '9') || ('a' <= c && c <= 'f') || ('A' <= c && c <= 'F')) {
            return false;
        }
        i = i + 1;
    }
    true
}

/// TLSH difference between two fingerprints (lower is more similar).
/// Refused when either hash string does not parse.
pub fn tlsh_distance(a: &TlshFingerprint, b: &TlshFingerprint) -> (r: Result<i32>)
    ensures
        r is Ok <==> valid_tlsh_hex(a.hex@) && valid_tlsh_hex(b.hex@),
        r matches Ok(d) ==> d == tlsh_diff_of(a.hex@, b.hex@),
        r matches Ok(d) ==> d == tlsh_diff_of(b.hex@, a.hex@) && d >= 0,
        r matches Ok(d) ==> (a.hex@ == b.hex@ ==> d == 0),
        r matches Err(e) ==> e is InvalidInput,
        !valid_tlsh_hex(a.hex@) ==> r->Err_0->InvalidInput_0@ == parse_error_text(a.hex@),
        valid_tlsh_hex(a.hex@) && !valid_tlsh_hex(b.hex@) ==> r->Err_0->InvalidInput_0@
            == parse_error_text(b.hex@),
{
    if !is_valid_tlsh_hex(a.hex.as_str()) {
        return Err(parse_error(a.hex.as_str()));
    }
    if !is_valid_tlsh_hex(b.hex.as_str()) {
        return Err(parse_error(b.hex.as_str()));
    }
    Ok(tlsh_hex_diff(a.hex.as_str(), b.hex.as_str()))
}

/// The message for a hash string that does not parse; it gives the
/// string's length in bytes.
pub open spec fn parse_error_text(hex: Seq<char>) -> Seq<char> {
    "invalid TLSH hex string of length "@ + decimal(encode_utf8(hex).len())
}

/// The error for a hash string that does not parse.
fn parse_error(hex: &str) -> (e: Error)
    ensures
        e is InvalidInput,
        e->InvalidInput_0@ == parse_error_text(hex@),
{
    let mut m = String::new();
    push_str(&mut m, "invalid TLSH hex string of length ");
    push_str(&mut m, decimal_string(hex.as_bytes().len() as u64).as_str());
    Error::InvalidInput(m)
}

} // verus!
