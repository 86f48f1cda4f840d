use txtfp::classical::tlsh::{tlsh_distance, TlshFingerprinter, MAX_INPUT_BYTES};
use txtfp::{Error, Fingerprinter, TlshFingerprint};

fn long_text() -> String {
    let s = "the quick brown fox jumps over the lazy dog at noon today
the slow grey wolf creeps under the loud ravens at dusk
astronomers detect cosmic background radiation in the night sky
once upon a time in a galaxy far far away there lived a hero";
    s.to_string()
}

#[test]
fn rejects_short_input() {
    let f = TlshFingerprinter::default();
    let r = f.fingerprint("short");
    assert!(matches!(r, Err(Error::InvalidInput(_))));
}

#[test]
fn deterministic_on_long_input() {
    let f = TlshFingerprinter::default();
    let txt = long_text();
    let a = f.fingerprint(&txt).unwrap();
    let b = f.fingerprint(&txt).unwrap();
    assert_eq!(a, b);
}

#[test]
fn hex_is_well_formed() {
    let f = TlshFingerprinter::default();
    let s = f.fingerprint(&long_text()).unwrap();
    assert!(s.hex.is_ascii());
    assert!(s.hex.len() >= 70);
    assert!(s.hex.chars().all(|c| c.is_ascii_alphanumeric()));
}

#[test]
fn similar_docs_have_small_distance() {
    let f = TlshFingerprinter::default();
    let a = f.fingerprint(&long_text()).unwrap();
    let edited = long_text().replace("noon", "dusk");
    let b = f.fingerprint(&edited).unwrap();
    let d = tlsh_distance(&a, &b).unwrap();
    assert!(d < 200, "similar docs should have small distance, got {d}");
}

#[test]
fn different_docs_have_large_distance() {
    let f = TlshFingerprinter::default();
    let a = f.fingerprint(&long_text()).unwrap();
    let other = "completely unrelated paragraph about astronomy and stars
where the cosmic background radiation tells us about the early universe
and quantum mechanics weaves together space and time in unexpected ways
many particle physicists spend their careers searching for new particles"
        .to_string();
    let b = f.fingerprint(&other).unwrap();
    let d = tlsh_distance(&a, &b).unwrap();
    assert!(d > 50, "unrelated docs should have larger distance, got {d}");
}

#[test]
fn sketch_bytes_works_on_raw_input() {
    let f = TlshFingerprinter::default();
    let txt = long_text();
    let from_str = f.fingerprint(&txt).unwrap();
    let canonical = f.canonicalizer().canonicalize(&txt);
    let from_bytes = f.sketch_bytes(canonical.as_bytes()).unwrap();
    assert_eq!(from_str, from_bytes);
}

#[test]
fn parse_rejects_garbage_hex() {
    let bad = TlshFingerprint { hex: "nothex".into() };
    let good = TlshFingerprinter::default().fingerprint(&long_text()).unwrap();
    assert!(tlsh_distance(&bad, &good).is_err());
}

// Further cases.

#[test]
fn distance_to_self_is_zero_and_symmetric() {
    let f = TlshFingerprinter::default();
    let a = f.fingerprint(&long_text()).unwrap();
    let b = f.fingerprint(&long_text().replace("hero", "villain")).unwrap();
    assert_eq!(tlsh_distance(&a, &a).unwrap(), 0);
    assert_eq!(tlsh_distance(&a, &b).unwrap(), tlsh_distance(&b, &a).unwrap());
}

#[test]
fn sketch_bytes_refuses_49_bytes() {
    let f = TlshFingerprinter::default();
    assert!(matches!(f.sketch_bytes(&[b'a'; 49]), Err(Error::InvalidInput(_))));
}

#[test]
fn digest_starts_with_t1() {
    let f = TlshFingerprinter::default();
    let s = f.fingerprint(&long_text()).unwrap();
    assert!(s.hex.starts_with("T1"));
    assert_eq!(s.hex.len(), 72);
}

#[test]
fn oversized_input_is_refused_before_hashing() {
    let f = TlshFingerprinter::default();
    let big = vec![0u8; MAX_INPUT_BYTES + 1];
    match f.sketch_bytes(&big) {
        Err(Error::InvalidInput(m)) => {
            assert_eq!(m, format!("tlsh accepts at most {} bytes, got {}", MAX_INPUT_BYTES, MAX_INPUT_BYTES + 1))
        }
        _ => panic!("expected a size refusal"),
    }
}
