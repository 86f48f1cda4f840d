use txtfp::semantic::local::{doc_prefix_for, pooling_for, query_prefix_for, LocalProviderBuilder};
use txtfp::semantic::pooling::mask_says_keep;
use txtfp::semantic::providers::retry::{retry_decision, RetryAction};
use txtfp::semantic::providers::{cohere, openai, voyage};
use txtfp::{Error, Pooling};

#[test]
fn pooling_table_lookups() {
    assert_eq!(pooling_for("BAAI/bge-small-en-v1.5"), Pooling::Cls);
    assert_eq!(pooling_for("intfloat/e5-small-v2"), Pooling::Mean);
    assert_eq!(pooling_for("unknown/model-xyz"), Pooling::Mean);
}

#[test]
fn query_prefix_lookups() {
    assert!(query_prefix_for("BAAI/bge-small-en-v1.5").unwrap().contains("Represent"));
    assert_eq!(query_prefix_for("intfloat/e5-base-v2"), Some("query: "));
    assert!(query_prefix_for("unknown/x").is_none());
}

#[test]
fn doc_prefix_for_e5() {
    assert_eq!(doc_prefix_for("intfloat/e5-base-v2"), Some("passage: "));
    assert!(doc_prefix_for("BAAI/bge-small-en-v1.5").is_none());
}

#[test]
fn normalizes_predicate_matches_apply() {
    for p in [Pooling::Cls, Pooling::Mean, Pooling::Max] {
        assert!(p.normalizes());
    }
    assert!(!Pooling::MeanNoNorm.normalizes());
}

#[test]
fn cohere_dimension_lookups() {
    assert_eq!(cohere::dimension_for("embed-english-v3.0"), 1024);
    assert_eq!(cohere::dimension_for("embed-english-light-v3.0"), 384);
}

#[test]
fn dimension_table_lookups() {
    assert_eq!(openai::dimension_for("text-embedding-3-small"), 1536);
    assert_eq!(openai::dimension_for("text-embedding-3-large"), 3072);
    assert_eq!(openai::dimension_for("unknown-model"), 1536);
}

#[test]
fn voyage_dimension_lookups() {
    assert_eq!(voyage::dimension_for("voyage-3-lite"), 512);
    assert_eq!(voyage::dimension_for("voyage-large-2"), 1536);
}

#[test]
fn builder_requires_paths() {
    let r = LocalProviderBuilder::new().resolve();
    assert!(matches!(r, Err(Error::Config(_))));
    let r = LocalProviderBuilder::new().onnx_path("/nonexistent.onnx".into()).resolve();
    assert!(matches!(r, Err(Error::Config(_))));
}

#[test]
fn classifier_lumps_5xx_as_transient() {
    for s in [500u16, 502, 503, 504] {
        assert!(matches!(retry_decision(s, None), RetryAction::Retry(_)), "{s}");
    }
}

#[test]
fn classifier_lumps_429_408_425_as_transient() {
    for s in [408u16, 425, 429] {
        assert!(matches!(retry_decision(s, None), RetryAction::Retry(_)), "{s}");
    }
}

#[test]
fn classifier_lumps_4xx_as_permanent() {
    for s in [400u16, 401, 403, 404, 422] {
        assert_eq!(retry_decision(s, None), RetryAction::Fail, "{s}");
    }
}

#[test]
fn classifier_lumps_2xx_as_success() {
    for s in [200u16, 201, 204] {
        assert_eq!(retry_decision(s, None), RetryAction::Accept, "{s}");
    }
}

// Further cases.

#[test]
fn retry_after_is_parsed_and_capped() {
    assert_eq!(retry_decision(429, Some(" 7 ")), RetryAction::Retry(Some(7)));
    assert_eq!(retry_decision(503, Some("+120")), RetryAction::Retry(Some(60)));
    assert_eq!(retry_decision(503, Some("soon")), RetryAction::Retry(None));
    assert_eq!(retry_decision(503, Some("99999999999999999999")), RetryAction::Retry(None));
}

#[test]
fn resolve_applies_model_defaults() {
    let c = LocalProviderBuilder::new()
        .model_id("intfloat/e5-base-v2".into())
        .onnx_path("m.onnx".into())
        .tokenizer_path("t.json".into())
        .max_seq_len(0)
        .resolve()
        .unwrap();
    assert_eq!(c.pooling, Pooling::Mean);
    assert_eq!(c.query_prefix.as_deref(), Some("query: "));
    assert_eq!(c.doc_prefix.as_deref(), Some("passage: "));
    assert_eq!(c.max_seq_len, 1);
    let d = LocalProviderBuilder::new()
        .onnx_path("m.onnx".into())
        .tokenizer_path("t.json".into())
        .resolve()
        .unwrap();
    assert_eq!(d.model_id, "local-onnx");
    assert_eq!(d.query_prefix, None);
}

#[test]
fn mask_keeps_set_entries() {
    assert!(mask_says_keep(None, 3));
    assert!(mask_says_keep(Some(&[1, 0][..]), 0));
    assert!(!mask_says_keep(Some(&[1, 0][..]), 1));
    assert!(!mask_says_keep(Some(&[1, 0][..]), 2));
}
