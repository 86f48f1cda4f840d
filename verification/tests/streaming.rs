use txtfp::classical::minhash::MinHashStreaming;
use txtfp::classical::utf8_stream::Utf8StreamBuffer;
use txtfp::{
    Canonicalizer, Error, Fingerprinter, MinHashFingerprinter, ShingleTokenizer,
    StreamingFingerprinter, WordTokenizer,
};

fn make() -> MinHashStreaming<ShingleTokenizer<WordTokenizer>, 64> {
    MinHashStreaming::new(MinHashFingerprinter::new(
        Canonicalizer::default(),
        ShingleTokenizer { k: 3, inner: WordTokenizer },
    ))
}

#[test]
fn streaming_streaming_matches_offline_for_single_chunk() {
    let txt = "the quick brown fox jumps over the lazy dog";
    let mut s = make();
    s.update(txt.as_bytes()).unwrap();
    let stream_sig = s.finalize().unwrap();
    let offline = MinHashFingerprinter::<_, 64>::new(
        Canonicalizer::default(),
        ShingleTokenizer { k: 3, inner: WordTokenizer },
    );
    let offline_sig = offline.fingerprint(txt).unwrap();
    assert_eq!(stream_sig, offline_sig);
}

#[test]
fn streaming_streaming_matches_offline_across_chunks() {
    let txt = "the quick brown fox jumps over the lazy dog";
    let mut s = make();
    for chunk in txt.as_bytes().chunks(7) {
        s.update(chunk).unwrap();
    }
    let stream_sig = s.finalize().unwrap();
    let offline = MinHashFingerprinter::<_, 64>::new(
        Canonicalizer::default(),
        ShingleTokenizer { k: 3, inner: WordTokenizer },
    );
    let offline_sig = offline.fingerprint(txt).unwrap();
    assert_eq!(stream_sig, offline_sig);
}

#[test]
fn streaming_empty_finalize_errors() {
    let s = make();
    assert!(matches!(s.finalize(), Err(Error::InvalidInput(_))));
}

#[test]
fn streaming_invalid_utf8_errors() {
    let mut s = make();
    let r = s.update(&[0x80]);
    assert!(matches!(r, Err(Error::InvalidInput(_))));
}

#[test]
fn split_multibyte_works() {
    let mut s = make();
    s.update(&[0xC3]).unwrap();
    s.update(&[0xA9]).unwrap();
    s.update(b" cafe noir cafe noir cafe noir").unwrap();
    let sig = s.finalize().unwrap();
    assert_ne!(sig.hashes[0], u64::MAX);
}

#[test]
fn reset_clears_buffer() {
    let mut s = make();
    s.update(b"hello world").unwrap();
    s.reset();
    assert_eq!(s.buffered_bytes(), 0);
    assert!(matches!(s.finalize(), Err(Error::InvalidInput(_))));
}

#[test]
fn buffer_cap_enforced() {
    let mut s = make().with_max_bytes(16);
    s.update(b"0123456789ABCDEF").unwrap();
    let r = s.update(b"!");
    assert!(matches!(r, Err(Error::InvalidInput(_))));
}

#[test]
fn trailing_incomplete_multibyte_errors_on_finalize() {
    let mut s = make();
    s.update(&[0xC3]).unwrap();
    let r = s.finalize();
    assert!(matches!(r, Err(Error::InvalidInput(_))));
}

#[test]
fn utf8_stream_empty_finalize_errors() {
    let b = Utf8StreamBuffer::new(64);
    assert!(matches!(b.finalize_str(), Err(Error::InvalidInput(_))));
}

#[test]
fn single_chunk_round_trip() {
    let mut b = Utf8StreamBuffer::new(64);
    b.update(b"hello world").unwrap();
    assert_eq!(b.finalize_str().unwrap(), "hello world");
}

#[test]
fn split_multibyte_assembles() {
    let mut b = Utf8StreamBuffer::new(64);
    b.update(&[0xC3]).unwrap();
    b.update(&[0xA9]).unwrap();
    b.update(b" world").unwrap();
    assert_eq!(b.finalize_str().unwrap(), "é world");
}

#[test]
fn invalid_utf8_lone_continuation_errors() {
    let mut b = Utf8StreamBuffer::new(64);
    assert!(matches!(b.update(&[0x80]), Err(Error::InvalidInput(_))));
}

#[test]
fn cap_enforced_on_update() {
    let mut b = Utf8StreamBuffer::new(8);
    b.update(b"01234567").unwrap();
    assert!(matches!(b.update(b"8"), Err(Error::InvalidInput(_))));
}

#[test]
fn finalize_rejects_trailing_carry() {
    let mut b = Utf8StreamBuffer::new(64);
    b.update(&[0xC3]).unwrap();
    assert!(matches!(b.finalize_str(), Err(Error::InvalidInput(_))));
}

#[test]
fn reset_clears_state() {
    let mut b = Utf8StreamBuffer::new(64);
    b.update(b"hello").unwrap();
    b.reset();
    assert_eq!(b.buffered_bytes(), 0);
    assert!(matches!(b.finalize_str(), Err(Error::InvalidInput(_))));
}

#[test]
fn buffered_bytes_excludes_carry() {
    let mut b = Utf8StreamBuffer::new(64);
    b.update(b"abc").unwrap();
    assert_eq!(b.buffered_bytes(), 3);
    b.update(&[0xC3]).unwrap();
    assert_eq!(b.buffered_bytes(), 3);
}

// Further cases.

#[test]
fn three_byte_codepoint_split_three_ways() {
    let mut b = Utf8StreamBuffer::new(64);
    let euro = "€".as_bytes();
    b.update(&euro[..1]).unwrap();
    b.update(&euro[1..2]).unwrap();
    assert_eq!(b.buffered_bytes(), 0);
    b.update(&euro[2..]).unwrap();
    assert_eq!(b.finalize_str().unwrap(), "€");
}

#[test]
fn invalid_sequence_after_valid_prefix_is_refused() {
    let mut b = Utf8StreamBuffer::new(64);
    b.update(b"ok").unwrap();
    assert!(matches!(b.update(&[0xC3, 0x28]), Err(Error::InvalidInput(_))));
    assert_eq!(b.finalize_str().unwrap(), "ok");
}

#[test]
fn carried_bytes_count_toward_the_cap() {
    let mut b = Utf8StreamBuffer::new(4);
    b.update(b"ab").unwrap();
    b.update(&[0xC3]).unwrap();
    assert_eq!(b.buffered_bytes(), 2);
    // Two committed, one carried, two more would make five.
    assert!(matches!(b.update(&[0xA9, b'x']), Err(Error::InvalidInput(_))));
    assert_eq!(b.buffered_bytes(), 2);
    b.update(&[0xA9]).unwrap();
    assert_eq!(b.buffered_bytes(), 4);
    assert_eq!(b.finalize_str().unwrap(), "ab\u{e9}");
}
