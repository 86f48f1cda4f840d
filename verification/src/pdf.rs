//! PDF text extraction: the size cap, the outcome of the extraction, and
//! the NUL scrub. The extraction itself runs on a worker thread with a
//! timeout, outside this crate, because the PDF parser may panic or hang
//! on hostile input.

use vstd::prelude::*;

use crate::error::{invalid_input, Error, Result};
use crate::text::{chars_of, decimal, decimal_string, push_char, push_str};

verus! {

/// Default cap on PDF input size (50 MiB).
pub const DEFAULT_MAX_BYTES: usize = 52428800;

/// Default extraction timeout in seconds.
pub const DEFAULT_TIMEOUT_SECS: u64 = 30;

/// Extraction limits.
#[derive(Copy, Clone, Debug)]
pub struct PdfOptions {
    /// Largest accepted input, in bytes.
    pub max_bytes: usize,
    /// Seconds the extraction may take.
    pub timeout_secs: u64,
}

impl Default for PdfOptions {
    fn default() -> (o: Self)
        ensures
            o.max_bytes == DEFAULT_MAX_BYTES,
            o.timeout_secs == DEFAULT_TIMEOUT_SECS,
    {
        PdfOptions { max_bytes: DEFAULT_MAX_BYTES, timeout_secs: DEFAULT_TIMEOUT_SECS }
    }
}

/// Refuse an input of `len` bytes above the cap.
pub fn check_size(len: usize, opts: PdfOptions) -> (r: Result<()>)
    ensures
        r is Ok <==> len <= opts.max_bytes,
        r matches Err(e) ==> e is InvalidInput && e->InvalidInput_0@ == "pdf input ("@ + decimal(
            len as nat,
        ) + " bytes) exceeds "@ + decimal(opts.max_bytes as nat) + "-byte cap"@,
{
    if len > opts.max_bytes {
        let mut m = String::new();
        push_str(&mut m, "pdf input (");
        push_str(&mut m, decimal_string(len as u64).as_str());
        push_str(&mut m, " bytes) exceeds ");
        push_str(&mut m, decimal_string(opts.max_bytes as u64).as_str());
        push_str(&mut m, "-byte cap");
        return Err(Error::InvalidInput(m));
    }
    Ok(())
}

/// How an extraction attempt ended.
pub enum Extraction {
    /// The parser returned this text.
    Text(String),
    /// The parser reported an error, with this description.
    ParseError(String),
    /// The parser did not finish within this many seconds.
    TimedOut(u64),
    /// The parser panicked.
    Panicked,
}

/// NUL replaced by U+FFFD, every other character kept.
pub open spec fn scrub_char(c: char) -> char {
    if c == '\0' {
        '\u{FFFD}'
    } else {
        c
    }
}

/// Replace every NUL by U+FFFD.
pub fn sanitize(text: &str) -> (s: String)
    ensures
        s@ == text@.map_values(|c: char| scrub_char(c)),
{
    let cs = chars_of(text);
    let mut s = String::new();
    let mut i: usize = 0;
    while i < cs.len()
        invariant
            i <= cs@.len(),
            cs@ == text@,
            s@ == cs@.take(i as int).map_values(|c: char| scrub_char(c)),
        decreases cs@.len() - i,
    {
        let c = cs[i];
        if c == '\0' {
            push_char(&mut s, '\u{FFFD}');
        } else {
            push_char(&mut s, c);
        }
        i = i + 1;
        assert(s@ =~= cs@.take(i as int).map_values(|c: char| scrub_char(c)));
    }
    assert(cs@.take(cs@.len() as int) == cs@);
    s
}

/// The text of an extraction, or its error: the text is scrubbed of NULs;
/// a parse error, a timeout and a panic each become `InvalidInput`.
pub fn extraction_result(e: Extraction) -> (r: Result<String>)
    ensures
        r is Ok <==> e is Text,
        r matches Ok(s) ==> e matches Extraction::Text(t) && s@ == t@.map_values(
            |c: char| scrub_char(c),
        ),
        r matches Err(err) ==> err is InvalidInput,
        e matches Extraction::ParseError(d) ==> (r matches Err(err) && err->InvalidInput_0@
            == "pdf parse error: "@ + d@),
        e matches Extraction::TimedOut(secs) ==> (r matches Err(err) && err->InvalidInput_0@
            == "pdf parse exceeded "@ + decimal(secs as nat) + "-second timeout"@),
        e is Panicked ==> (r matches Err(err) && err->InvalidInput_0@ == "pdf parser panicked"@),
{
    match e {
        Extraction::Text(t) => Ok(sanitize(t.as_str())),
        Extraction::ParseError(d) => {
            let mut m = String::new();
            push_str(&mut m, "pdf parse error: ");
            push_str(&mut m, d.as_str());
            Err(Error::InvalidInput(m))
        },
        Extraction::TimedOut(secs) => {
            let mut m = String::new();
            push_str(&mut m, "pdf parse exceeded ");
            push_str(&mut m, decimal_string(secs).as_str());
            push_str(&mut m, "-second timeout");
            Err(Error::InvalidInput(m))
        },
        Extraction::Panicked => Err(invalid_input("pdf parser panicked")),
    }
}

} // verus!
