use txtfp::pdf::{
    check_size, extraction_result, sanitize, Extraction, PdfOptions, DEFAULT_MAX_BYTES,
    DEFAULT_TIMEOUT_SECS,
};
use txtfp::Error;

#[test]
fn sanitize_replaces_nul() {
    assert_eq!(sanitize("a\u{0}b"), "a\u{FFFD}b");
    assert_eq!(sanitize("plain"), "plain");
}

#[test]
fn defaults_are_documented_constants() {
    let o = PdfOptions::default();
    assert_eq!(o.max_bytes, DEFAULT_MAX_BYTES);
    assert_eq!(o.timeout_secs, DEFAULT_TIMEOUT_SECS);
}

#[test]
fn rejects_oversized_input() {
    // The cap is checked before any parsing.
    let big = vec![0u8; 1024];
    let r = check_size(big.len(), PdfOptions { max_bytes: 100, timeout_secs: 30 });
    assert!(matches!(r, Err(Error::InvalidInput(_))));
    assert!(check_size(100, PdfOptions { max_bytes: 100, timeout_secs: 30 }).is_ok());
}

#[test]
fn invalid_pdf_errors_cleanly() {
    // The parser's verdict on bytes that are not a PDF, as the extraction
    // worker reports it.
    let outcome = match pdf_extract::extract_text_from_mem(b"not a pdf") {
        Ok(t) => Extraction::Text(t),
        Err(e) => Extraction::ParseError(e.to_string()),
    };
    let r = extraction_result(outcome);
    assert!(r.is_err());
}

// Further cases.

#[test]
fn extraction_outcomes() {
    assert_eq!(extraction_result(Extraction::Text("x\u{0}".into())).unwrap(), "x\u{FFFD}");
    assert!(matches!(extraction_result(Extraction::Panicked), Err(Error::InvalidInput(_))));
    match extraction_result(Extraction::TimedOut(30)) {
        Err(Error::InvalidInput(m)) => assert_eq!(m, "pdf parse exceeded 30-second timeout"),
        _ => panic!("expected a timeout error"),
    }
}
