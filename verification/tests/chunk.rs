use txtfp::semantic::chunk::{approx_tokens, word_count};
use txtfp::semantic::{chunk_for_model, ChunkMode, ChunkingStrategy};

#[test]
fn chunk_empty_input_yields_empty() {
    let s = ChunkingStrategy::default();
    assert!(chunk_for_model("", &s).is_empty());
}

#[test]
fn short_input_one_chunk() {
    let s = ChunkingStrategy::default();
    let chunks = chunk_for_model("hello world", &s);
    assert_eq!(chunks.len(), 1);
    assert!(chunks[0].contains("hello"));
}

#[test]
fn fixed_tokens_respects_cap() {
    let words: Vec<String> = (0..1000).map(|i| format!("w{i}")).collect();
    let text = words.join(" ");
    let s = ChunkingStrategy {
        max_tokens: 50,
        overlap: 0,
        mode: ChunkMode::FixedTokens,
    };
    let chunks = chunk_for_model(&text, &s);
    assert!(!chunks.is_empty());
    for c in &chunks {
        let toks = approx_tokens(word_count(c));
        assert!(toks <= s.max_tokens + 1, "chunk too large: {toks}");
    }
}

#[test]
fn fixed_tokens_overlap_works() {
    let words: Vec<String> = (0..50).map(|i| format!("w{i}")).collect();
    let text = words.join(" ");
    let s = ChunkingStrategy {
        max_tokens: 20,
        overlap: 5,
        mode: ChunkMode::FixedTokens,
    };
    let chunks = chunk_for_model(&text, &s);
    assert!(chunks.len() >= 2);
}

#[test]
fn sentence_bounded_packs_short_sentences() {
    let s = ChunkingStrategy {
        max_tokens: 1000,
        overlap: 0,
        mode: ChunkMode::SentenceBounded,
    };
    let chunks = chunk_for_model("Alpha. Beta. Gamma.", &s);
    assert_eq!(chunks.len(), 1);
}

#[test]
fn sentence_bounded_splits_when_needed() {
    let s = ChunkingStrategy {
        max_tokens: 5,
        overlap: 0,
        mode: ChunkMode::SentenceBounded,
    };
    let text = "First sentence here. Second sentence here. Third sentence.";
    let chunks = chunk_for_model(text, &s);
    assert!(chunks.len() >= 2);
}

#[test]
fn recursive_respects_paragraphs() {
    let s = ChunkingStrategy {
        max_tokens: 1000,
        overlap: 0,
        mode: ChunkMode::Recursive,
    };
    let text = "Para one.\n\nPara two.\n\nPara three.";
    let chunks = chunk_for_model(text, &s);
    assert_eq!(chunks.len(), 1);
    assert!(chunks[0].contains("Para one"));
    assert!(chunks[0].contains("Para three"));
}

#[test]
fn recursive_falls_back_for_long_paragraph() {
    let words: Vec<String> = (0..500).map(|i| format!("w{i}")).collect();
    let text = words.join(" ");
    let s = ChunkingStrategy {
        max_tokens: 50,
        overlap: 0,
        mode: ChunkMode::Recursive,
    };
    let chunks = chunk_for_model(&text, &s);
    assert!(chunks.len() > 1);
}

// Further cases.

#[test]
fn token_estimate_rounds_up() {
    assert_eq!(approx_tokens(0), 0);
    assert_eq!(approx_tokens(1), 2);
    assert_eq!(approx_tokens(10), 13);
    assert_eq!(approx_tokens(3), 4);
    assert_eq!(word_count("one, two; three!"), 3);
}

#[test]
fn fixed_windows_exact() {
    let text = "w0 w1 w2 w3 w4 w5 w6 w7 w8 w9";
    let s = ChunkingStrategy {
        max_tokens: 5,
        overlap: 2,
        mode: ChunkMode::FixedTokens,
    };
    // 3 words per window, stride 2.
    assert_eq!(
        chunk_for_model(text, &s),
        vec!["w0 w1 w2", "w2 w3 w4", "w4 w5 w6", "w6 w7 w8", "w8 w9"]
    );
}

#[test]
fn zero_cap_yields_nothing() {
    let s = ChunkingStrategy {
        max_tokens: 0,
        overlap: 0,
        mode: ChunkMode::FixedTokens,
    };
    assert!(chunk_for_model("some text here", &s).is_empty());
}

#[test]
fn sentence_overlap_seeds_next_chunk() {
    let s = ChunkingStrategy {
        max_tokens: 8,
        overlap: 3,
        mode: ChunkMode::SentenceBounded,
    };
    let text = "One two three. Four five six. Seven eight nine.";
    assert_eq!(
        chunk_for_model(text, &s),
        vec!["One two three. Four five six.", "five six Seven eight nine."]
    );
}

#[test]
fn long_sentence_falls_back_to_windows() {
    let s = ChunkingStrategy {
        max_tokens: 3,
        overlap: 0,
        mode: ChunkMode::SentenceBounded,
    };
    // Each window holds two words.
    assert_eq!(
        chunk_for_model("a b c d e.", &s),
        vec!["a b", "c d", "e"]
    );
}

#[test]
fn paragraphs_split_on_blank_lines_and_trim() {
    let s = ChunkingStrategy {
        max_tokens: 1000,
        overlap: 0,
        mode: ChunkMode::Recursive,
    };
    assert_eq!(chunk_for_model("alpha\n\n\n beta \n\n\n\ngamma", &s), vec!["alpha\n\nbeta\n\ngamma"]);
}

#[test]
fn paragraphs_close_when_full() {
    let s = ChunkingStrategy {
        max_tokens: 3,
        overlap: 0,
        mode: ChunkMode::Recursive,
    };
    // Two words per paragraph estimate to three tokens each.
    assert_eq!(chunk_for_model("a b\n\nc d", &s), vec!["a b", "c d"]);
}

#[test]
fn chunks_are_never_empty() {
    let text = "First sentence here. Second one follows!\n\nA new paragraph.   \n\n\n\n  Last.";
    for mode in [ChunkMode::FixedTokens, ChunkMode::SentenceBounded, ChunkMode::Recursive] {
        let s = ChunkingStrategy { max_tokens: 4, overlap: 2, mode };
        let chunks = chunk_for_model(text, &s);
        assert!(!chunks.is_empty());
        for c in &chunks {
            assert!(!c.is_empty());
        }
    }
}

#[test]
fn fixed_windows_without_overlap_keep_every_word_in_order() {
    let text = "alpha, beta; gamma delta... epsilon zeta eta theta iota kappa";
    let s = ChunkingStrategy { max_tokens: 5, overlap: 0, mode: ChunkMode::FixedTokens };
    let chunks = chunk_for_model(text, &s);
    assert_eq!(chunks.len(), 4);
    assert_eq!(chunks.join(" "), "alpha beta gamma delta epsilon zeta eta theta iota kappa");
}
