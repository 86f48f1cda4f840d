use txtfp::semantic::inference::{
    check_input_names, choose_output, infer_hidden_dim, output_layout, prefixed, sequence_len,
    widen_prefix, OutputLayout,
};
use txtfp::Error;

fn names(v: &[&str]) -> Vec<String> {
    v.iter().map(|s| s.to_string()).collect()
}

#[test]
fn sequence_is_capped_and_never_empty() {
    assert_eq!(sequence_len(10, 4).unwrap(), 4);
    assert_eq!(sequence_len(3, 512).unwrap(), 3);
    assert!(matches!(sequence_len(0, 512), Err(Error::InvalidInput(_))));
    assert!(matches!(sequence_len(3, 0), Err(Error::InvalidInput(_))));
}

#[test]
fn ids_are_widened_and_truncated() {
    assert_eq!(widen_prefix(&[1, 2, u32::MAX], 3), vec![1i64, 2, 4294967295]);
    assert_eq!(widen_prefix(&[7, 8, 9], 2), vec![7i64, 8]);
}

#[test]
fn graph_inputs_are_checked() {
    assert!(!check_input_names(&names(&["input_ids", "attention_mask"])).unwrap());
    assert!(check_input_names(&names(&["input_ids", "attention_mask", "token_type_ids"])).unwrap());
    match check_input_names(&names(&["input_ids", "pixel_values", "other"])) {
        Err(Error::Onnx(m)) => assert_eq!(
            m,
            "unexpected ONNX input `pixel_values` (expected input_ids/attention_mask/token_type_ids)"
        ),
        other => panic!("expected an ONNX error, got {other:?}"),
    }
}

#[test]
fn preferred_output_is_chosen() {
    let all = names(&["logits", "last_hidden_state", "sentence_embedding"]);
    assert_eq!(choose_output(&all).unwrap(), "sentence_embedding");
    assert_eq!(choose_output(&names(&["a", "pooler_output"])).unwrap(), "pooler_output");
    assert_eq!(choose_output(&names(&["b", "a"])).unwrap(), "b");
    match choose_output(&Vec::new()) {
        Err(Error::Onnx(m)) => assert_eq!(m, "model produced no outputs"),
        other => panic!("expected an ONNX error, got {other:?}"),
    }
}

#[test]
fn output_layouts() {
    assert_eq!(output_layout(&vec![1, 384]).unwrap(), OutputLayout::Pooled { hidden: 384 });
    assert_eq!(output_layout(&vec![1, 7, 384]).unwrap(), OutputLayout::PerToken { hidden: 384 });
    assert_eq!(output_layout(&vec![1, -1, -1]).unwrap(), OutputLayout::PerToken { hidden: 0 });
    match output_layout(&vec![1, 0]) {
        Err(Error::Onnx(m)) => assert_eq!(m, "zero-hidden output"),
        other => panic!("expected an ONNX error, got {other:?}"),
    }
    assert!(matches!(output_layout(&vec![1, -1]), Err(Error::Onnx(_))));
    match output_layout(&vec![1, 2, 3, 4]) {
        Err(Error::Onnx(m)) => assert_eq!(m, "unsupported output rank: 4"),
        other => panic!("expected an ONNX error, got {other:?}"),
    }
}

#[test]
fn model_width_from_output_shapes() {
    let shapes = vec![None, Some(vec![1, -1, -1]), Some(vec![1, -1, 768]), Some(vec![1, 5])];
    assert_eq!(infer_hidden_dim(&shapes).unwrap(), 768);
    assert_eq!(infer_hidden_dim(&Vec::new()).unwrap(), 384);
    assert_eq!(infer_hidden_dim(&vec![Some(Vec::new()), None]).unwrap(), 384);
}

#[test]
fn role_prefix_is_prepended() {
    assert_eq!(prefixed(&Some("query: ".to_string()), "what"), "query: what");
    assert_eq!(prefixed(&None, "what"), "what");
}
