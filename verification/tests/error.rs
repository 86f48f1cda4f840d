use txtfp::{Error, Result};

#[test]
fn invalid_input_renders_payload() {
    let s = Error::InvalidInput("empty document".into()).message();
    assert!(s.contains("empty document"), "got: {s}");
}

#[test]
fn model_mismatch_renders_both_ids() {
    let s = Error::ModelMismatch { a: "bge-small".into(), b: "bge-large".into() }.message();
    assert!(s.contains("bge-small"));
    assert!(s.contains("bge-large"));
}

#[test]
fn dimension_mismatch_renders_both_dims() {
    let s = Error::DimensionMismatch { a: 384, b: 768 }.message();
    assert!(s.contains("384"));
    assert!(s.contains("768"));
}

#[test]
fn schema_mismatch_renders_versions() {
    let s = Error::SchemaMismatch { expected: 1, actual: 7 }.message();
    assert!(s.contains('1'));
    assert!(s.contains('7'));
}

#[test]
fn feature_disabled_renders_name() {
    let s = Error::FeatureDisabled("semantic").message();
    assert!(s.contains("semantic"));
}

#[test]
fn error_is_send_sync_static() {
    fn assert_traits<T: Send + Sync + 'static>() {}
    assert_traits::<Error>();
}

#[test]
fn result_alias_works() {
    let f = |x: u32| -> Result<u32> { Ok(x * 2) };
    assert_eq!(f(21).unwrap(), 42);
}

// Further cases.

#[test]
fn messages_are_exact() {
    assert_eq!(Error::Config("x".into()).message(), "config error: x");
    assert_eq!(Error::EmptyEmbedding.message(), "provider returned no embeddings");
    assert_eq!(
        Error::DimensionMismatch { a: 0, b: 1024 }.message(),
        "dimension mismatch: a = 0, b = 1024"
    );
}

#[test]
fn io_message_has_prefix() {
    let e = Error::Io(std::io::Error::new(std::io::ErrorKind::Other, "disk"));
    assert!(e.message().starts_with("io error: "));
    assert!(e.message().contains("disk"));
}
