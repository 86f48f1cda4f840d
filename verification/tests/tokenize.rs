use txtfp::tokenize::{CjkSegmenter, CjkTokenizer, TokenStream};
use txtfp::{GraphemeTokenizer, ShingleTokenizer, Tokenizer, WordTokenizer};

fn collect_stream(stream: TokenStream) -> Vec<String> {
    stream.into_string_iter()
}

fn words(s: &str) -> Vec<String> {
    WordTokenizer.tokens(s).into_string_iter()
}

fn graphemes(s: &str) -> Vec<String> {
    GraphemeTokenizer.tokens(s).into_string_iter()
}

fn shingles(k: usize, s: &str) -> Vec<String> {
    ShingleTokenizer { k, inner: WordTokenizer }.tokens(s).into_string_iter()
}

fn cjk(s: &str, t: &CjkTokenizer) -> Vec<String> {
    t.tokens(s).into_string_iter()
}

#[test]
fn word_borrowed_then_owned_yields_same_strings() {
    let w = WordTokenizer;
    let toks: Vec<String> = collect_stream(w.tokens("hello world!"));
    assert_eq!(toks, ["hello", "world"]);
}

#[test]
fn mod_names_are_stable() {
    assert_eq!(WordTokenizer.name(), "word-uax29");
    assert_eq!(GraphemeTokenizer.name(), "grapheme-uax29");
    let s = ShingleTokenizer { k: 3, inner: WordTokenizer };
    assert_eq!(s.name(), "shingle-k=3/word-uax29");
}

#[test]
fn word_empty_input() {
    assert!(words("").is_empty());
}

#[test]
fn ascii_words() {
    assert_eq!(words("hello world"), ["hello", "world"]);
}

#[test]
fn punctuation_and_whitespace_drop() {
    assert_eq!(words("hi, world!\n\nhi"), ["hi", "world", "hi"]);
}

#[test]
fn unicode_letters() {
    assert_eq!(words("café résumé"), ["café", "résumé"]);
}

#[test]
fn cjk_codepoints_become_words() {
    let toks = words("我爱你");
    assert!(!toks.is_empty());
}

#[test]
fn word_name_is_stable() {
    assert_eq!(WordTokenizer.name(), "word-uax29");
}

#[test]
fn numbers_are_words() {
    let toks = words("v1.2 RC3");
    assert!(toks.contains(&"RC3".to_string()));
}

#[test]
fn apostrophes_in_contractions() {
    let toks = words("don't go");
    assert!(toks.iter().any(|t| t.contains("don")));
}

#[test]
fn ascii_is_per_char() {
    assert_eq!(graphemes("abc"), ["a", "b", "c"]);
}

#[test]
fn flag_emoji_is_one_grapheme() {
    let toks = graphemes("🇺🇸");
    assert_eq!(toks.len(), 1);
}

#[test]
fn family_zwj_is_one_grapheme() {
    let toks = graphemes("👨\u{200D}👩\u{200D}👧");
    assert_eq!(toks.len(), 1);
}

#[test]
fn combining_marks_glue_to_base() {
    let toks = graphemes("e\u{0301}");
    assert_eq!(toks.len(), 1);
}

#[test]
fn grapheme_name_is_stable() {
    assert_eq!(GraphemeTokenizer.name(), "grapheme-uax29");
}

#[test]
fn k1_yields_each_word() {
    assert_eq!(shingles(1, "the quick brown fox"), ["the", "quick", "brown", "fox"]);
}

#[test]
fn k2_yields_pairs() {
    assert_eq!(shingles(2, "a b c"), ["a b", "b c"]);
}

#[test]
fn k3_yields_triples() {
    assert_eq!(shingles(3, "the quick brown fox"), ["the quick brown", "quick brown fox"]);
}

#[test]
fn k_larger_than_input_yields_single_joined() {
    assert_eq!(shingles(5, "a b"), ["a b"]);
}

#[test]
fn shingle_empty_input_yields_empty() {
    assert!(shingles(3, "").is_empty());
}

#[test]
fn k_zero_yields_empty() {
    assert!(shingles(0, "a b c").is_empty());
}

#[test]
fn name_is_well_formed() {
    let n = ShingleTokenizer { k: 7, inner: WordTokenizer }.name();
    assert_eq!(n, "shingle-k=7/word-uax29");
}

#[test]
fn name_call_does_not_mutate_state() {
    let s = ShingleTokenizer { k: 4, inner: WordTokenizer };
    let n1 = s.name().to_string();
    let n2 = s.name().to_string();
    assert_eq!(n1, n2);
}

#[test]
fn cjk_names_are_stable() {
    assert_eq!(CjkTokenizer::new(CjkSegmenter::Jieba).name(), "cjk-jieba");
    assert_eq!(CjkTokenizer::new(CjkSegmenter::Jieba).with_hmm(true).name(), "cjk-jieba-hmm");
}

#[test]
fn jieba_segments_chinese() {
    let t = CjkTokenizer::default();
    let toks = cjk("我爱北京天安门", &t);
    assert!(toks.contains(&"北京".to_string()), "got {toks:?}");
    assert!(toks.contains(&"天安门".to_string()), "got {toks:?}");
}

#[test]
fn jieba_handles_mixed_punctuation() {
    let t = CjkTokenizer::default();
    let toks = cjk("中文测试，简单一点。", &t);
    assert!(toks.contains(&"中文".to_string()));
    assert!(toks.contains(&"测试".to_string()));
}

#[test]
fn jieba_is_deterministic_in_default_mode() {
    let t = CjkTokenizer::default();
    let a = cjk("我爱你 中文测试 世界", &t);
    let b = cjk("我爱你 中文测试 世界", &t);
    assert_eq!(a, b);
}

#[test]
fn cjk_empty_input_yields_empty() {
    let t = CjkTokenizer::default();
    assert!(cjk("", &t).is_empty());
}

#[test]
fn ascii_passes_through_jieba() {
    let t = CjkTokenizer::default();
    let toks = cjk("hello world", &t);
    assert!(toks.contains(&"hello".to_string()));
    assert!(toks.contains(&"world".to_string()));
}

#[test]
fn default_uses_jieba_no_hmm() {
    let t = CjkTokenizer::default();
    assert_eq!(t.segmenter(), CjkSegmenter::Jieba);
    assert!(!t.uses_hmm());
}

#[test]
fn hmm_toggle_changes_name() {
    let off = CjkTokenizer::new(CjkSegmenter::Jieba);
    let on = off.with_hmm(true);
    assert_ne!(off.name(), on.name());
}

// Further cases.

#[test]
fn shingles_of_exactly_k_tokens_is_one_window() {
    assert_eq!(shingles(3, "a b c"), ["a b c"]);
}

#[test]
fn shingle_over_graphemes() {
    let t = ShingleTokenizer { k: 2, inner: GraphemeTokenizer };
    assert_eq!(t.tokens("abc").into_string_iter(), ["a b", "b c"]);
    assert_eq!(t.name(), "shingle-k=2/grapheme-uax29");
}

#[test]
fn cjk_drops_blank_segments() {
    let t = CjkTokenizer::default();
    assert!(cjk("你好 世界", &t).iter().all(|s| !s.trim().is_empty()));
}
