//! The 64-bit SimHash signature.

use vstd::bytes::*;
use vstd::prelude::*;

use crate::error::{Error, Result};
use crate::text::{decimal, decimal_string, push_char, push_str};

verus! {

/// Schema version of SimHash signatures.
pub const SCHEMA_VERSION: u16 = 1;

/// A 64-bit SimHash signature. Its byte form is the 8 little-endian bytes
/// of the value.
#[derive(Copy, Clone, Debug, PartialEq, Eq, Hash, Structural)]
pub struct SimHash64(pub u64);

/// The lowercase hexadecimal digit for `d < 16`.
pub open spec fn hex_digit(d: u64) -> char {
    if d < 10 {
        (48 + d) as char
    } else {
        (87 + d) as char
    }
}

/// The 16 lowercase hexadecimal digits of `x`, most significant first.
pub open spec fn hex16(x: u64) -> Seq<char> {
    Seq::new(16, |i: int| hex_digit((x >> ((60 - 4 * i) as u64)) & 15))
}

impl SimHash64 {
    /// Wrap raw bits.
    pub fn new(bits: u64) -> (s: Self)
        ensures
            s.0 == bits,
    {
        SimHash64(bits)
    }

    /// The raw bits.
    pub fn bits(self) -> (b: u64)
        ensures
            b == self.0,
    {
        self.0
    }

    /// The 8 little-endian bytes of the signature.
    pub fn as_bytes(&self) -> (b: Vec<u8>)
        ensures
            b@ == spec_u64_to_le_bytes(self.0),
            b@.len() == 8,
    {
        proof {
            lemma_auto_spec_u64_to_from_le_bytes();
        }
        u64_to_le_bytes(self.0)
    }

    /// Read a signature from exactly 8 little-endian bytes.
    pub fn from_bytes(bytes: &[u8]) -> (r: Result<Self>)
        ensures
            r is Ok <==> bytes@.len() == 8,
            r matches Ok(s) ==> s.0 == spec_u64_from_le_bytes(bytes@),
            r matches Err(e) ==> e is InvalidInput && e->InvalidInput_0@ == "SimHash64 is 8 bytes, got "@
                + decimal(bytes@.len()),
    {
        if bytes.len() != 8 {
            let mut m = String::new();
            push_str(&mut m, "SimHash64 is 8 bytes, got ");
            push_str(&mut m, decimal_string(bytes.len() as u64).as_str());
            return Err(Error::InvalidInput(m));
        }
        Ok(SimHash64(u64_from_le_bytes(bytes)))
    }

    /// The display form `SimHash64(<16 lowercase hex digits>)`.
    pub fn to_display_string(&self) -> (s: String)
        ensures
            s@ == "SimHash64("@ + hex16(self.0) + ")"@,
    {
        let mut s = String::new();
        push_str(&mut s, "SimHash64(");
        let ghost start = s@;
        let x = self.0;
        let mut i: u64 = 0;
        while i < 16
            invariant
                i <= 16,
                s@ == start + hex16(self.0).take(i as int),
                x == self.0,
            decreases 16 - i,
        {
            let sh: u64 = 60 - 4 * i;
            let d = (x >> sh) & 15;
            assert(d < 16) by (bit_vector)
                requires
                    d == (x >> sh) & 15,
            ;
            let c = if d < 10 {
                ((48 + d) as u8) as char
            } else {
                ((87 + d) as u8) as char
            };
            push_char(&mut s, c);
            assert(hex16(self.0)[i as int] == c);
            i = i + 1;
            assert(s@ =~= start + hex16(self.0).take(i as int));
        }
        assert(hex16(self.0).take(16) == hex16(self.0));
        push_str(&mut s, ")");
        s
    }
}

/// Reading back the bytes of a signature gives the signature.
pub proof fn lemma_bytes_round_trip(s: SimHash64)
    ensures
        spec_u64_to_le_bytes(s.0).len() == 8,
        spec_u64_from_le_bytes(spec_u64_to_le_bytes(s.0)) == s.0,
{
    lemma_auto_spec_u64_to_from_le_bytes();
}

impl From<u64> for SimHash64 {
    fn from(v: u64) -> (s: Self) {
        SimHash64(v)
    }
}

impl vstd::std_specs::convert::FromSpecImpl<u64> for SimHash64 {
    open spec fn obeys_from_spec() -> bool {
        true
    }

    open spec fn from_spec(v: u64) -> SimHash64 {
        SimHash64(v)
    }
}

impl From<SimHash64> for u64 {
    fn from(v: SimHash64) -> (n: Self) {
        v.0
    }
}

impl vstd::std_specs::convert::FromSpecImpl<SimHash64> for u64 {
    open spec fn obeys_from_spec() -> bool {
        true
    }

    open spec fn from_spec(v: SimHash64) -> u64 {
        v.0
    }
}

} // verus!
