//! Splitting long inputs into chunks that fit an embedding model's input
//! limit, along sentence and paragraph boundaries where possible.
//!
//! Token counts are estimated from UAX #29 word counts: `w` words count
//! as `⌈1.3·w⌉` tokens, and a budget of `t` tokens holds `⌊t / 1.3⌋`
//! words. Both are computed exactly in integers.

use unicode_segmentation::UnicodeSegmentation;
use vstd::prelude::*;

use crate::text::{push_str, trim, trim_string, views};
use crate::tokenize::shingle::{join_range, join_space};
use crate::tokenize::word::{words, words_of};

verus! {

/// Splitting strategy.
#[derive(Copy, Clone, Debug, PartialEq, Eq, Structural)]
pub enum ChunkMode {
    /// Greedy fixed-size word windows with overlap; ignores structure.
    FixedTokens,
    /// Pack whole sentences into windows up to the cap.
    SentenceBounded,
    /// Split on paragraphs (`\n\n`), then sentences, then words.
    Recursive,
}

/// Options for [`chunk_for_model`].
#[derive(Copy, Clone, Debug)]
pub struct ChunkingStrategy {
    /// Maximum tokens per chunk.
    pub max_tokens: usize,
    /// Overlap (in tokens) between consecutive chunks; meant to be below
    /// `max_tokens`.
    pub overlap: usize,
    /// Splitting mode.
    pub mode: ChunkMode,
}

impl Default for ChunkingStrategy {
    fn default() -> (s: Self)
        ensures
            s.max_tokens == 256,
            s.overlap == 32,
            s.mode == ChunkMode::SentenceBounded,
    {
        ChunkingStrategy { max_tokens: 256, overlap: 32, mode: ChunkMode::SentenceBounded }
    }
}

/// Estimated tokens of `w` words, `⌈1.3·w⌉`, saturating at `usize::MAX`.
pub open spec fn spec_approx_tokens(w: nat) -> nat {
    let t = (13 * w + 9) / 10;
    if t > usize::MAX {
        usize::MAX as nat
    } else {
        t
    }
}

/// Words that fit a budget of `t` tokens, `⌊t / 1.3⌋`.
pub open spec fn words_for_tokens(t: nat) -> nat {
    (10 * t) / 13
}

/// Estimated token count of `words` words.
pub fn approx_tokens(words: usize) -> (t: usize)
    ensures
        t == spec_approx_tokens(words as nat),
{
    let t: u128 = (13 * (words as u128) + 9) / 10;
    if t > usize::MAX as u128 {
        usize::MAX
    } else {
        t as usize
    }
}

/// Number of UAX #29 words of `s`.
pub fn word_count(s: &str) -> (n: usize)
    ensures
        n == words_of(s@).len(),
{
    let ws = words(s);
    ws.len()
}

/// Words that fit a budget of `t` tokens.
fn budget_words(t: usize) -> (w: usize)
    ensures
        w == words_for_tokens(t as nat),
        w <= t,
{
    let w: u128 = (10 * (t as u128)) / 13;
    w as usize
}

/// Words per fixed window: the cap in words, at least one.
pub open spec fn window_words(st: ChunkingStrategy) -> nat {
    let w = words_for_tokens(st.max_tokens as nat);
    if w < 1 {
        1
    } else {
        w
    }
}

/// Distance between the starts of consecutive fixed windows: the window
/// size less the overlap in words, which is capped to keep the stride
/// positive.
pub open spec fn window_stride(st: ChunkingStrategy) -> nat {
    let mw = window_words(st);
    let ow = words_for_tokens(st.overlap as nat);
    let ow = if ow < mw - 1 {
        ow
    } else {
        (mw - 1) as nat
    };
    (mw - ow) as nat
}

/// The windows of `ws` from word `start` on: `max_w` words each (fewer in
/// the last), joined by spaces, each starting `stride` words after the
/// previous one, until a window reaches the last word.
pub open spec fn windows(ws: Seq<Seq<char>>, max_w: nat, stride: nat, start: nat) -> Seq<
    Seq<char>,
>
    decreases (if start < ws.len() {
        ws.len() - start
    } else {
        0
    }),
{
    if start >= ws.len() || stride == 0 {
        Seq::empty()
    } else {
        let end: nat = if start + max_w < ws.len() {
            start + max_w
        } else {
            ws.len()
        };
        seq![join_space(ws.subrange(start as int, end as int))] + if end == ws.len() {
            Seq::<Seq<char>>::empty()
        } else {
            windows(ws, max_w, stride, start + stride)
        }
    }
}

/// The fixed-window chunks of `input`.
pub open spec fn fixed_chunks(input: Seq<char>, st: ChunkingStrategy) -> Seq<Seq<char>> {
    windows(words_of(input), window_words(st), window_stride(st), 0)
}

/// Every window from `start` on joins a non-empty run of at most `max_w`
/// consecutive words at or after `start`.
proof fn lemma_windows_are_short_runs(ws: Seq<Seq<char>>, max_w: nat, stride: nat, start: nat)
    requires
        max_w >= 1,
    ensures
        forall|i: int|
            0 <= i < windows(ws, max_w, stride, start).len() ==> exists|a: int, b: int|
                start <= a < b <= ws.len() && b - a <= max_w && #[trigger] windows(
                    ws,
                    max_w,
                    stride,
                    start,
                )[i] == join_space(ws.subrange(a, b)),
    decreases (if start < ws.len() {
        ws.len() - start
    } else {
        0
    }),
{
    let w = windows(ws, max_w, stride, start);
    if start >= ws.len() || stride == 0 {
    } else {
        let end: nat = if start + max_w < ws.len() {
            start + max_w
        } else {
            ws.len()
        };
        let first = join_space(ws.subrange(start as int, end as int));
        if end == ws.len() {
            assert forall|i: int| 0 <= i < w.len() implies exists|a: int, b: int|
                start <= a < b <= ws.len() && b - a <= max_w && #[trigger] w[i] == join_space(
                    ws.subrange(a, b),
                ) by {
                assert(w[i] == first);
            }
        } else {
            let rest = windows(ws, max_w, stride, start + stride);
            lemma_windows_are_short_runs(ws, max_w, stride, start + stride);
            assert(w == seq![first] + rest);
            assert forall|i: int| 0 <= i < w.len() implies exists|a: int, b: int|
                start <= a < b <= ws.len() && b - a <= max_w && #[trigger] w[i] == join_space(
                    ws.subrange(a, b),
                ) by {
                if i == 0 {
                    assert(w[i] == first);
                } else {
                    assert(w[i] == rest[i - 1]);
                    let (a, b) = choose|a: int, b: int|
                        start + stride <= a < b <= ws.len() && b - a <= max_w && #[trigger] rest[i
                            - 1] == join_space(ws.subrange(a, b));
                    assert(start <= a);
                }
            }
        }
    }
}

/// Fixed-window chunks fit the token cap: each joins a non-empty run of
/// consecutive words of the input, at most `⌊max_tokens / 1.3⌋` of them
/// (one when that is zero), and that many words are estimated at no more
/// than `max_tokens` tokens (two when the cap is one token).
pub proof fn lemma_fixed_chunks_fit(input: Seq<char>, st: ChunkingStrategy, i: int)
    requires
        st.max_tokens > 0,
        0 <= i < fixed_chunks(input, st).len(),
    ensures
        exists|a: int, b: int|
            0 <= a < b <= words_of(input).len() && b - a <= window_words(st)
                && fixed_chunks(input, st)[i] == #[trigger] join_space(
                words_of(input).subrange(a, b),
            ),
        spec_approx_tokens(window_words(st)) <= (if st.max_tokens == 1 {
            2
        } else {
            st.max_tokens as int
        }),
{
    let ws = words_of(input);
    lemma_windows_are_short_runs(ws, window_words(st), window_stride(st), 0);
    assert(fixed_chunks(input, st)[i] == windows(ws, window_words(st), window_stride(st), 0)[i]);
    let m = st.max_tokens as int;
    let w = (10 * m) / 13;
    if w >= 1 {
        assert(13 * w <= 10 * m) by (nonlinear_arith)
            requires
                w == (10 * m) / 13,
                m >= 0,
        ;
        assert((13 * w + 9) / 10 <= m) by (nonlinear_arith)
            requires
                13 * w <= 10 * m,
                w >= 0,
        ;
    } else {
        assert(window_words(st) == 1);
        assert(spec_approx_tokens(1) == 2);
    }
}

/// Greedy fixed-size word windows with overlap.
fn fixed_token_chunks(input: &str, s: &ChunkingStrategy) -> (out: Vec<String>)
    ensures
        views(out@) == fixed_chunks(input@, *s),
{
    let words = words(input);
    let ghost ws = views(words@);
    let mw0 = budget_words(s.max_tokens);
    let max_w: usize = if mw0 < 1 {
        1
    } else {
        mw0
    };
    let ow0 = budget_words(s.overlap);
    let overlap_w: usize = if ow0 < max_w - 1 {
        ow0
    } else {
        max_w - 1
    };
    let stride = max_w - overlap_w;
    assert(max_w == window_words(*s));
    assert(stride == window_stride(*s));
    let mut out: Vec<String> = Vec::new();
    let mut start: usize = 0;
    while start < words.len()
        invariant
            ws == views(words@),
            ws == words_of(input@),
            1 <= max_w,
            1 <= stride <= max_w,
            max_w == window_words(*s),
            stride == window_stride(*s),
            start <= words@.len(),
            views(out@) + windows(ws, max_w as nat, stride as nat, start as nat) == windows(
                ws,
                max_w as nat,
                stride as nat,
                0,
            ),
        decreases words@.len() - start,
    {
        let end: usize = if max_w < words.len() - start {
            start + max_w
        } else {
            words.len()
        };
        let chunk = join_range(&words, start, end);
        let ghost before = views(out@);
        out.push(chunk);
        assert(views(out@) == before.push(chunk@));
        if end == words.len() {
            assert(windows(ws, max_w as nat, stride as nat, end as nat) == Seq::<
                Seq<char>,
            >::empty());
            start = end;
        } else {
            start = start + stride;
        }
    }
    assert(views(out@) + Seq::<Seq<char>>::empty() == views(out@));
    out
}

/// The UAX #29 sentences of a character sequence that hold an alphabetic
/// or numeric character, as `UnicodeSegmentation::unicode_sentences`
/// yields them.
pub uninterp spec fn unicode_sentences_of(cs: Seq<char>) -> Seq<Seq<char>>;

/// Collects `input.unicode_sentences()` into owned strings; the result is
/// named `unicode_sentences_of` and claimed to depend on the input alone.
#[verifier::external_body]
fn unicode_sentences(input: &str) -> (v: Vec<String>)
    ensures
        views(v@) == unicode_sentences_of(input@),
{
    input.unicode_sentences().map(String::from).collect()
}

/// `next` appended to the open chunk `cur`, after `sep` when `cur` is not
/// empty.
pub open spec fn appended(cur: Seq<char>, sep: Seq<char>, next: Seq<char>) -> Seq<char> {
    if cur.len() > 0 {
        cur + sep + next
    } else {
        next
    }
}

/// The start of the chunk that follows a closed chunk `prev`: the last
/// `⌊overlap / 1.3⌋` words of `prev` joined by spaces, with their
/// estimated tokens; nothing when `overlap` is zero or that tail is empty.
pub open spec fn overlap_seed(prev: Seq<char>, overlap: nat) -> (Seq<char>, int) {
    if overlap == 0 {
        (Seq::empty(), 0)
    } else {
        let ws = words_of(prev);
        let want = words_for_tokens(overlap);
        let from: int = if ws.len() > want {
            ws.len() - want
        } else {
            0
        };
        let tail = join_space(ws.subrange(from, ws.len() as int));
        if tail.len() > 0 {
            (tail, spec_approx_tokens((ws.len() - from) as nat) as int)
        } else {
            (Seq::empty(), 0)
        }
    }
}

/// One step of sentence packing. The state is the closed chunks, the open
/// chunk and its estimated tokens. A blank sentence changes nothing; a
/// sentence over the cap closes the open chunk and is split into fixed
/// windows; a sentence that does not fit closes the open chunk, which
/// seeds the next one with its overlap; otherwise the sentence joins the
/// open chunk.
pub open spec fn pack_sentence(
    state: (Seq<Seq<char>>, Seq<char>, int),
    raw: Seq<char>,
    st: ChunkingStrategy,
) -> (Seq<Seq<char>>, Seq<char>, int) {
    let (out, cur, ct) = state;
    let sent = trim(raw);
    if sent.len() == 0 {
        state
    } else {
        let toks = spec_approx_tokens(words_of(sent).len()) as int;
        if toks > st.max_tokens {
            let out1 = if cur.len() > 0 {
                out.push(cur)
            } else {
                out
            };
            let ct1 = if cur.len() > 0 {
                0
            } else {
                ct
            };
            (out1 + fixed_chunks(sent, st), Seq::empty(), ct1)
        } else if ct + toks > st.max_tokens && cur.len() > 0 {
            let (seed, seed_tokens) = overlap_seed(cur, st.overlap as nat);
            (out.push(cur), appended(seed, " "@, sent), seed_tokens + toks)
        } else {
            (out, appended(cur, " "@, sent), ct + toks)
        }
    }
}

/// Sentence packing over `sents`, from an empty state.
pub open spec fn pack_sentences(sents: Seq<Seq<char>>, st: ChunkingStrategy) -> (
    Seq<Seq<char>>,
    Seq<char>,
    int,
)
    decreases sents.len(),
{
    if sents.len() == 0 {
        (Seq::empty(), Seq::empty(), 0)
    } else {
        pack_sentence(pack_sentences(sents.drop_last(), st), sents.last(), st)
    }
}

/// The closed chunks, then the open one when it is not empty.
pub open spec fn finish(state: (Seq<Seq<char>>, Seq<char>, int)) -> Seq<Seq<char>> {
    if state.1.len() > 0 {
        state.0.push(state.1)
    } else {
        state.0
    }
}

/// The sentence-bounded chunks of `input`.
pub open spec fn sentence_chunks_of(input: Seq<char>, st: ChunkingStrategy) -> Seq<Seq<char>> {
    finish(pack_sentences(unicode_sentences_of(input), st))
}

/// When a chunk closes, seed `current` (empty) with the tail of the last
/// closed chunk.
fn apply_overlap(out: &Vec<String>, overlap: usize, current: &mut String, current_tokens: &mut u128)
    requires
        out@.len() > 0,
        old(current)@.len() == 0,
        *old(current_tokens) == 0,
    ensures
        final(current)@ == overlap_seed(out@.last()@, overlap as nat).0,
        *final(current_tokens) == overlap_seed(out@.last()@, overlap as nat).1,
        *final(current_tokens) <= usize::MAX,
{
    if overlap == 0 {
        return ;
    }
    let last = &out[out.len() - 1];
    let words = words(last.as_str());
    let want_w = budget_words(overlap);
    let take_from: usize = if words.len() > want_w {
        words.len() - want_w
    } else {
        0
    };
    let tail = join_range(&words, take_from, words.len());
    if !tail.as_str().is_empty() {
        push_str(current, tail.as_str());
        *current_tokens = approx_tokens(words.len() - take_from) as u128;
    }
}

/// Close the open chunk: move it to `out`.
fn close_chunk(out: &mut Vec<String>, current: &mut String)
    ensures
        views(final(out)@) == views(old(out)@).push(old(current)@),
        final(out)@.len() == old(out)@.len() + 1,
        final(out)@.last()@ == old(current)@,
        final(current)@.len() == 0,
{
    let mut closed = String::new();
    std::mem::swap(&mut closed, current);
    let ghost before = views(out@);
    out.push(closed);
    assert(views(out@) == before.push(closed@));
}

/// Pack whole sentences into chunks up to the cap.
fn sentence_chunks(input: &str, s: &ChunkingStrategy) -> (out: Vec<String>)
    ensures
        views(out@) == sentence_chunks_of(input@, *s),
{
    let sentences = unicode_sentences(input);
    let ghost ss = views(sentences@);
    let mut out: Vec<String> = Vec::new();
    let mut current = String::new();
    let mut current_tokens: u128 = 0;
    let mut i: usize = 0;
    while i < sentences.len()
        invariant
            ss == views(sentences@),
            ss == unicode_sentences_of(input@),
            i <= ss.len(),
            views(out@) == pack_sentences(ss.take(i as int), *s).0,
            current@ == pack_sentences(ss.take(i as int), *s).1,
            current_tokens == pack_sentences(ss.take(i as int), *s).2,
            current@.len() == 0 ==> current_tokens == 0,
            current_tokens <= 2 * usize::MAX,
        decreases ss.len() - i,
    {
        assert(ss.take(i + 1).drop_last() == ss.take(i as int));
        let sent = trim_string(sentences[i].as_str());
        if !sent.as_str().is_empty() {
            let toks = approx_tokens(word_count(sent.as_str()));
            if toks > s.max_tokens {
                if !current.as_str().is_empty() {
                    close_chunk(&mut out, &mut current);
                    current_tokens = 0;
                }
                let mut inner = fixed_token_chunks(sent.as_str(), s);
                let ghost before = views(out@);
                out.append(&mut inner);
                assert(views(out@) == before + fixed_chunks(sent@, *s));
            } else if current_tokens + (toks as u128) > (s.max_tokens as u128)
                && !current.as_str().is_empty() {
                close_chunk(&mut out, &mut current);
                current_tokens = 0;
                apply_overlap(&out, s.overlap, &mut current, &mut current_tokens);
                if !current.as_str().is_empty() {
                    push_str(&mut current, " ");
                }
                push_str(&mut current, sent.as_str());
                current_tokens = current_tokens + toks as u128;
            } else {
                if !current.as_str().is_empty() {
                    push_str(&mut current, " ");
                }
                push_str(&mut current, sent.as_str());
                current_tokens = current_tokens + toks as u128;
            }
        }
        i = i + 1;
    }
    assert(ss.take(ss.len() as int) == ss);
    if !current.as_str().is_empty() {
        close_chunk(&mut out, &mut current);
    }
    out
}

/// The pieces of `s` between occurrences of `"\n\n"`, found left to
/// right without overlap, with `piece` in front of the first one: what
/// `str::split("\n\n")` yields once `piece` has been read.
pub open spec fn split_blank_from(s: Seq<char>, piece: Seq<char>) -> Seq<Seq<char>>
    decreases s.len(),
{
    if s.len() == 0 {
        seq![piece]
    } else if s.len() >= 2 && s[0] == '\n' && s[1] == '\n' {
        seq![piece] + split_blank_from(s.subrange(2, s.len() as int), Seq::empty())
    } else {
        split_blank_from(s.drop_first(), piece.push(s[0]))
    }
}

/// The paragraphs of `s`: the pieces between blank-line separators,
/// trimmed, the empty ones left out.
pub open spec fn paragraphs_of(s: Seq<char>) -> Seq<Seq<char>> {
    split_blank_from(s, Seq::empty()).map_values(|p: Seq<char>| trim(p)).filter(
        |p: Seq<char>| p.len() > 0,
    )
}

/// The pieces of `input` between occurrences of `"\n\n"`.
fn split_blank(input: &str) -> (out: Vec<String>)
    ensures
        views(out@) == split_blank_from(input@, Seq::empty()),
{
    let cs = crate::text::chars_of(input);
    let n = cs.len();
    let mut out: Vec<String> = Vec::new();
    let mut piece = String::new();
    let mut i: usize = 0;
    assert(cs@.subrange(0, n as int) == cs@);
    assert(views(out@) + split_blank_from(cs@, piece@) =~= split_blank_from(cs@, Seq::empty()));
    while i < n
        invariant
            n == cs@.len(),
            cs@ == input@,
            i <= n,
            views(out@) + split_blank_from(cs@.subrange(i as int, n as int), piece@)
                == split_blank_from(cs@, Seq::empty()),
        decreases n - i,
    {
        let ghost rest = cs@.subrange(i as int, n as int);
        if i + 1 < n && cs[i] == '\n' && cs[i + 1] == '\n' {
            assert(rest.subrange(2, rest.len() as int) == cs@.subrange(i + 2, n as int));
            let ghost before = views(out@);
            let ghost p = piece@;
            close_chunk(&mut out, &mut piece);
            assert(piece@ == Seq::<char>::empty());
            assert(views(out@) == before + seq![p]);
            assert(before + split_blank_from(rest, p) == before + (seq![p] + split_blank_from(
                cs@.subrange(i + 2, n as int),
                Seq::empty(),
            )));
            assert(before + (seq![p] + split_blank_from(cs@.subrange(i + 2, n as int), piece@))
                == views(out@) + split_blank_from(cs@.subrange(i + 2, n as int), piece@));
            i = i + 2;
        } else {
            assert(rest.drop_first() == cs@.subrange(i + 1, n as int));
            crate::text::push_char(&mut piece, cs[i]);
            i = i + 1;
        }
    }
    let ghost before = views(out@);
    let ghost p = piece@;
    assert(cs@.subrange(n as int, n as int) == Seq::<char>::empty());
    close_chunk(&mut out, &mut piece);
    assert(views(out@) == before + seq![p]);
    out
}

/// The paragraphs of `input`.
fn paragraphs(input: &str) -> (out: Vec<String>)
    ensures
        views(out@) == paragraphs_of(input@),
{
    let pieces = split_blank(input);
    let ghost ps = views(pieces@);
    let mut out: Vec<String> = Vec::new();
    let mut j: usize = 0;
    while j < pieces.len()
        invariant
            ps == views(pieces@),
            ps == split_blank_from(input@, Seq::empty()),
            j <= ps.len(),
            views(out@) == ps.take(j as int).map_values(|p: Seq<char>| trim(p)).filter(
                |p: Seq<char>| p.len() > 0,
            ),
        decreases ps.len() - j,
    {
        let t = trim_string(pieces[j].as_str());
        assert(ps.take(j + 1).map_values(|p: Seq<char>| trim(p)) == ps.take(j as int).map_values(
            |p: Seq<char>| trim(p),
        ).push(t@));
        proof {
            ps.take(j as int).map_values(|p: Seq<char>| trim(p)).lemma_filter_push(
                t@,
                |p: Seq<char>| p.len() > 0,
            );
        }
        if !t.as_str().is_empty() {
            let ghost before = views(out@);
            out.push(t);
            assert(views(out@) == before.push(t@));
        }
        j = j + 1;
    }
    assert(ps.take(ps.len() as int) == ps);
    out
}

/// One step of paragraph packing: a paragraph over the cap closes the
/// open chunk and is packed by sentences; a paragraph that does not fit
/// closes the open chunk and opens the next; otherwise it joins the open
/// chunk after a blank line.
pub open spec fn pack_paragraph(
    state: (Seq<Seq<char>>, Seq<char>, int),
    para: Seq<char>,
    st: ChunkingStrategy,
) -> (Seq<Seq<char>>, Seq<char>, int) {
    let (out, cur, ct) = state;
    let toks = spec_approx_tokens(words_of(para).len()) as int;
    if toks > st.max_tokens {
        let out1 = if cur.len() > 0 {
            out.push(cur)
        } else {
            out
        };
        let ct1 = if cur.len() > 0 {
            0
        } else {
            ct
        };
        (out1 + sentence_chunks_of(para, st), Seq::empty(), ct1)
    } else if ct + toks > st.max_tokens && cur.len() > 0 {
        (out.push(cur), para, toks)
    } else {
        (out, appended(cur, "\n\n"@, para), ct + toks)
    }
}

/// Paragraph packing over `paras`, from an empty state.
pub open spec fn pack_paragraphs(paras: Seq<Seq<char>>, st: ChunkingStrategy) -> (
    Seq<Seq<char>>,
    Seq<char>,
    int,
)
    decreases paras.len(),
{
    if paras.len() == 0 {
        (Seq::empty(), Seq::empty(), 0)
    } else {
        pack_paragraph(pack_paragraphs(paras.drop_last(), st), paras.last(), st)
    }
}

/// The paragraph-first chunks of `input`.
pub open spec fn recursive_chunks_of(input: Seq<char>, st: ChunkingStrategy) -> Seq<Seq<char>> {
    finish(pack_paragraphs(paragraphs_of(input), st))
}

/// Pack paragraphs into chunks, falling back to sentences for a paragraph
/// over the cap.
fn recursive_chunks(input: &str, s: &ChunkingStrategy) -> (out: Vec<String>)
    ensures
        views(out@) == recursive_chunks_of(input@, *s),
{
    let paras = paragraphs(input);
    let ghost ps = views(paras@);
    let mut out: Vec<String> = Vec::new();
    let mut current = String::new();
    let mut current_tokens: u128 = 0;
    let mut i: usize = 0;
    while i < paras.len()
        invariant
            ps == views(paras@),
            ps == paragraphs_of(input@),
            i <= ps.len(),
            views(out@) == pack_paragraphs(ps.take(i as int), *s).0,
            current@ == pack_paragraphs(ps.take(i as int), *s).1,
            current_tokens == pack_paragraphs(ps.take(i as int), *s).2,
            current@.len() == 0 ==> current_tokens == 0,
            current_tokens <= usize::MAX,
        decreases ps.len() - i,
    {
        assert(ps.take(i + 1).drop_last() == ps.take(i as int));
        let para = paras[i].as_str();
        let toks = approx_tokens(word_count(para));
        if toks > s.max_tokens {
            if !current.as_str().is_empty() {
                close_chunk(&mut out, &mut current);
                current_tokens = 0;
            }
            let mut inner = sentence_chunks(para, s);
            let ghost before = views(out@);
            out.append(&mut inner);
            assert(views(out@) == before + sentence_chunks_of(para@, *s));
        } else if current_tokens + (toks as u128) > (s.max_tokens as u128)
            && !current.as_str().is_empty() {
            close_chunk(&mut out, &mut current);
            push_str(&mut current, para);
            current_tokens = toks as u128;
        } else {
            if !current.as_str().is_empty() {
                push_str(&mut current, "\n\n");
            }
            push_str(&mut current, para);
            current_tokens = current_tokens + toks as u128;
        }
        i = i + 1;
    }
    assert(ps.take(ps.len() as int) == ps);
    if !current.as_str().is_empty() {
        close_chunk(&mut out, &mut current);
    }
    out
}

/// The chunks of `input` under `st`: none for empty input or a zero cap,
/// otherwise those of the chosen mode, in document order.
pub open spec fn chunks_of(input: Seq<char>, st: ChunkingStrategy) -> Seq<Seq<char>> {
    if input.len() == 0 || st.max_tokens == 0 {
        Seq::empty()
    } else {
        match st.mode {
            ChunkMode::FixedTokens => fixed_chunks(input, st),
            ChunkMode::SentenceBounded => sentence_chunks_of(input, st),
            ChunkMode::Recursive => recursive_chunks_of(input, st),
        }
    }
}

/// Every word of `input` is non-empty.
proof fn lemma_words_nonempty(input: Seq<char>)
    ensures
        forall|i: int| 0 <= i < words_of(input).len() ==> (#[trigger] words_of(input)[i]).len() > 0,
{
    broadcast use vstd::seq_lib::group_filter_ensures;

    let ws = words_of(input);
    assert forall|i: int| 0 <= i < ws.len() implies (#[trigger] ws[i]).len() > 0 by {
        assert(ws.contains(ws[i]));
    }
}

/// Space-joining a run that starts with a non-empty string gives a
/// non-empty string.
proof fn lemma_join_space_nonempty(ts: Seq<Seq<char>>)
    requires
        ts.len() > 0,
        ts[0].len() > 0,
    ensures
        join_space(ts).len() > 0,
{
    reveal_strlit(" ");
}

/// Space-joining two non-empty runs one after the other joins each and
/// puts one space between them.
proof fn lemma_join_space_concat(a: Seq<Seq<char>>, b: Seq<Seq<char>>)
    requires
        a.len() > 0,
        b.len() > 0,
    ensures
        join_space(a + b) == join_space(a) + " "@ + join_space(b),
    decreases b.len(),
{
    if b.len() == 1 {
        assert((a + b).drop_last() == a);
        assert((a + b).last() == b[0]);
    } else {
        lemma_join_space_concat(a, b.drop_last());
        assert((a + b).drop_last() == a + b.drop_last());
        assert((a + b).last() == b.last());
        assert(join_space(a + b) =~= join_space(a) + " "@ + join_space(b));
    }
}

/// No fixed-window chunk is empty.
proof fn lemma_fixed_chunks_nonempty(input: Seq<char>, st: ChunkingStrategy)
    ensures
        forall|i: int|
            0 <= i < fixed_chunks(input, st).len() ==> (#[trigger] fixed_chunks(input, st)[i]).len()
                > 0,
{
    let ws = words_of(input);
    let w = fixed_chunks(input, st);
    lemma_words_nonempty(input);
    lemma_windows_are_short_runs(ws, window_words(st), window_stride(st), 0);
    assert forall|i: int| 0 <= i < w.len() implies (#[trigger] w[i]).len() > 0 by {
        let (a, b) = choose|a: int, b: int|
            0 <= a < b <= ws.len() && b - a <= window_words(st) && #[trigger] windows(
                ws,
                window_words(st),
                window_stride(st),
                0,
            )[i] == join_space(ws.subrange(a, b));
        assert(ws.subrange(a, b)[0] == ws[a]);
        lemma_join_space_nonempty(ws.subrange(a, b));
    }
}

/// Appending chunks that are all non-empty to chunks that are all non-empty
/// keeps them all non-empty.
proof fn lemma_concat_nonempty(x: Seq<Seq<char>>, y: Seq<Seq<char>>)
    requires
        forall|i: int| 0 <= i < x.len() ==> (#[trigger] x[i]).len() > 0,
        forall|i: int| 0 <= i < y.len() ==> (#[trigger] y[i]).len() > 0,
    ensures
        forall|i: int| 0 <= i < (x + y).len() ==> (#[trigger] (x + y)[i]).len() > 0,
{
    assert forall|i: int| 0 <= i < (x + y).len() implies (#[trigger] (x + y)[i]).len() > 0 by {
        if i < x.len() {
            assert((x + y)[i] == x[i]);
        } else {
            assert((x + y)[i] == y[i - x.len()]);
        }
    }
}

/// Closing a non-empty open chunk keeps the closed chunks non-empty.
proof fn lemma_push_nonempty(x: Seq<Seq<char>>, c: Seq<char>)
    requires
        forall|i: int| 0 <= i < x.len() ==> (#[trigger] x[i]).len() > 0,
        c.len() > 0,
    ensures
        forall|i: int| 0 <= i < x.push(c).len() ==> (#[trigger] x.push(c)[i]).len() > 0,
{
    assert forall|i: int| 0 <= i < x.push(c).len() implies (#[trigger] x.push(c)[i]).len() > 0 by {
        if i < x.len() {
            assert(x.push(c)[i] == x[i]);
        }
    }
}

/// Sentence packing closes only non-empty chunks.
proof fn lemma_pack_sentences_nonempty(sents: Seq<Seq<char>>, st: ChunkingStrategy)
    ensures
        forall|i: int|
            0 <= i < pack_sentences(sents, st).0.len() ==> (#[trigger] pack_sentences(
                sents,
                st,
            ).0[i]).len() > 0,
    decreases sents.len(),
{
    if sents.len() > 0 {
        lemma_pack_sentences_nonempty(sents.drop_last(), st);
        let state = pack_sentences(sents.drop_last(), st);
        let (out, cur, ct) = state;
        let sent = trim(sents.last());
        if sent.len() > 0 {
            let toks = spec_approx_tokens(words_of(sent).len()) as int;
            if toks > st.max_tokens {
                let out1 = if cur.len() > 0 {
                    out.push(cur)
                } else {
                    out
                };
                if cur.len() > 0 {
                    lemma_push_nonempty(out, cur);
                }
                lemma_fixed_chunks_nonempty(sent, st);
                lemma_concat_nonempty(out1, fixed_chunks(sent, st));
            } else if ct + toks > st.max_tokens && cur.len() > 0 {
                lemma_push_nonempty(out, cur);
            }
        }
    }
}

/// No sentence-bounded chunk is empty.
proof fn lemma_sentence_chunks_nonempty(input: Seq<char>, st: ChunkingStrategy)
    ensures
        forall|i: int|
            0 <= i < sentence_chunks_of(input, st).len() ==> (#[trigger] sentence_chunks_of(
                input,
                st,
            )[i]).len() > 0,
{
    let state = pack_sentences(unicode_sentences_of(input), st);
    lemma_pack_sentences_nonempty(unicode_sentences_of(input), st);
    if state.1.len() > 0 {
        lemma_push_nonempty(state.0, state.1);
    }
}

/// Paragraph packing closes only non-empty chunks.
proof fn lemma_pack_paragraphs_nonempty(paras: Seq<Seq<char>>, st: ChunkingStrategy)
    requires
        forall|i: int| 0 <= i < paras.len() ==> (#[trigger] paras[i]).len() > 0,
    ensures
        forall|i: int|
            0 <= i < pack_paragraphs(paras, st).0.len() ==> (#[trigger] pack_paragraphs(
                paras,
                st,
            ).0[i]).len() > 0,
    decreases paras.len(),
{
    if paras.len() > 0 {
        let init = paras.drop_last();
        assert forall|i: int| 0 <= i < init.len() implies (#[trigger] init[i]).len() > 0 by {
            assert(init[i] == paras[i]);
        }
        lemma_pack_paragraphs_nonempty(init, st);
        let state = pack_paragraphs(init, st);
        let (out, cur, ct) = state;
        let para = paras.last();
        let toks = spec_approx_tokens(words_of(para).len()) as int;
        if toks > st.max_tokens {
            let out1 = if cur.len() > 0 {
                out.push(cur)
            } else {
                out
            };
            if cur.len() > 0 {
                lemma_push_nonempty(out, cur);
            }
            lemma_sentence_chunks_nonempty(para, st);
            lemma_concat_nonempty(out1, sentence_chunks_of(para, st));
        } else if ct + toks > st.max_tokens && cur.len() > 0 {
            lemma_push_nonempty(out, cur);
        }
    }
}

/// Every chunk that `chunk_for_model` returns holds at least one character,
/// in every mode.
pub proof fn lemma_chunks_nonempty(input: Seq<char>, st: ChunkingStrategy)
    ensures
        forall|i: int|
            0 <= i < chunks_of(input, st).len() ==> (#[trigger] chunks_of(input, st)[i]).len() > 0,
{
    broadcast use vstd::seq_lib::group_filter_ensures;

    if input.len() > 0 && st.max_tokens > 0 {
        match st.mode {
            ChunkMode::FixedTokens => lemma_fixed_chunks_nonempty(input, st),
            ChunkMode::SentenceBounded => lemma_sentence_chunks_nonempty(input, st),
            ChunkMode::Recursive => {
                let paras = paragraphs_of(input);
                assert forall|i: int| 0 <= i < paras.len() implies (#[trigger] paras[i]).len()
                    > 0 by {
                    assert(paras.contains(paras[i]));
                }
                lemma_pack_paragraphs_nonempty(paras, st);
                let state = pack_paragraphs(paras, st);
                if state.1.len() > 0 {
                    lemma_push_nonempty(state.0, state.1);
                }
            },
        }
    }
}

/// Windows that each start where the previous one ended, joined again by
/// single spaces, give back the words from `start` on.
proof fn lemma_windows_join(ws: Seq<Seq<char>>, m: nat, start: nat)
    requires
        m >= 1,
        start < ws.len(),
    ensures
        join_space(windows(ws, m, m, start)) == join_space(ws.subrange(start as int, ws.len() as int)),
    decreases ws.len() - start,
{
    let end: nat = if start + m < ws.len() {
        start + m
    } else {
        ws.len()
    };
    let first = join_space(ws.subrange(start as int, end as int));
    if end == ws.len() {
        assert(windows(ws, m, m, start) == seq![first]);
    } else {
        lemma_windows_join(ws, m, end);
        let rest = windows(ws, m, m, end);
        assert(rest.len() > 0);
        assert(windows(ws, m, m, start) == seq![first] + rest);
        lemma_join_space_concat(seq![first], rest);
        assert(join_space(seq![first]) == first);
        lemma_join_space_concat(
            ws.subrange(start as int, end as int),
            ws.subrange(end as int, ws.len() as int),
        );
        assert(ws.subrange(start as int, end as int) + ws.subrange(end as int, ws.len() as int)
            == ws.subrange(start as int, ws.len() as int));
    }
}

/// With fixed windows and no overlap no word is lost or repeated: the
/// chunks joined by single spaces are the input's words joined by single
/// spaces, in document order.
pub proof fn lemma_fixed_chunks_keep_words(input: Seq<char>, st: ChunkingStrategy)
    requires
        st.mode is FixedTokens,
        st.overlap == 0,
    ensures
        join_space(chunks_of(input, st)) == (if input.len() == 0 || st.max_tokens == 0 {
            Seq::<char>::empty()
        } else {
            join_space(words_of(input))
        }),
{
    let ws = words_of(input);
    if input.len() > 0 && st.max_tokens > 0 {
        assert(window_stride(st) == window_words(st));
        if ws.len() > 0 {
            lemma_windows_join(ws, window_words(st), 0);
            assert(ws.subrange(0, ws.len() as int) == ws);
        }
    }
}

/// The estimated tokens of one paragraph.
pub open spec fn para_tokens(p: Seq<char>) -> int {
    spec_approx_tokens(words_of(p).len()) as int
}

/// The estimated tokens of paragraphs, each estimated on its own, summed.
pub open spec fn sum_tokens(ps: Seq<Seq<char>>) -> int
    decreases ps.len(),
{
    if ps.len() == 0 {
        0
    } else {
        sum_tokens(ps.drop_last()) + para_tokens(ps.last())
    }
}

/// Paragraphs joined by blank lines (`"\n\n"`).
pub open spec fn join_blank(ps: Seq<Seq<char>>) -> Seq<char>
    decreases ps.len(),
{
    if ps.len() == 0 {
        Seq::empty()
    } else if ps.len() == 1 {
        ps[0]
    } else {
        join_blank(ps.drop_last()) + "\n\n"@ + ps.last()
    }
}

/// `c` is a run of consecutive paragraphs of `paras`, joined by blank
/// lines, whose estimated tokens together stay within `max_tokens`.
pub open spec fn whole_paragraph_chunk(paras: Seq<Seq<char>>, c: Seq<char>, max_tokens: int) -> bool {
    exists|a: int, b: int|
        0 <= a < b <= paras.len() && c == #[trigger] join_blank(paras.subrange(a, b)) && sum_tokens(
            paras.subrange(a, b),
        ) <= max_tokens
}

/// `c` is one of the sentence-bounded chunks of a single paragraph of
/// `paras` that is over the cap on its own.
pub open spec fn sentence_fallback_chunk(
    paras: Seq<Seq<char>>,
    c: Seq<char>,
    st: ChunkingStrategy,
) -> bool {
    exists|j: int|
        0 <= j < paras.len() && para_tokens(paras[j]) > st.max_tokens && #[trigger] sentence_chunks_of(
            paras[j],
            st,
        ).contains(c)
}

/// What paragraph packing keeps after the first `n` paragraphs: every
/// closed chunk is a whole-paragraph chunk within the cap or a sentence
/// chunk of one over-cap paragraph; the open chunk holds the paragraphs
/// since some `a` and its count is their tokens, within the cap; an empty
/// open chunk counts nothing.
proof fn lemma_pack_paragraphs_fit(paras: Seq<Seq<char>>, st: ChunkingStrategy, n: nat)
    requires
        n <= paras.len(),
        forall|i: int| 0 <= i < paras.len() ==> (#[trigger] paras[i]).len() > 0,
    ensures
        ({
            let state = pack_paragraphs(paras.take(n as int), st);
            &&& forall|i: int|
                0 <= i < state.0.len() ==> whole_paragraph_chunk(
                    paras,
                    #[trigger] state.0[i],
                    st.max_tokens as int,
                ) || sentence_fallback_chunk(paras, state.0[i], st)
            &&& state.1.len() == 0 ==> state.2 == 0
            &&& state.1.len() > 0 ==> exists|a: int|
                0 <= a < n && state.1 == #[trigger] join_blank(paras.subrange(a, n as int))
                    && state.2 == sum_tokens(paras.subrange(a, n as int)) && state.2
                    <= st.max_tokens
        }),
    decreases n,
{
    let max = st.max_tokens as int;
    if n == 0 {
        assert(paras.take(0) == Seq::<Seq<char>>::empty());
    } else {
        let m = (n - 1) as nat;
        lemma_pack_paragraphs_fit(paras, st, m);
        assert(paras.take(n as int).drop_last() == paras.take(m as int));
        assert(paras.take(n as int).last() == paras[m as int]);
        let prev = pack_paragraphs(paras.take(m as int), st);
        let (out, cur, ct) = prev;
        let para = paras[m as int];
        let toks = para_tokens(para);
        let state = pack_paragraphs(paras.take(n as int), st);
        assert(state == pack_paragraph(prev, para, st));
        assert(paras.subrange(m as int, n as int) =~= seq![para]);
        assert(sum_tokens(seq![para]) == toks) by {
            assert(seq![para].drop_last() == Seq::<Seq<char>>::empty());
            assert(sum_tokens(Seq::<Seq<char>>::empty()) == 0);
            assert(seq![para].last() == para);
        }
        // The open chunk, when closed, is a whole-paragraph chunk.
        if cur.len() > 0 {
            let a = choose|a: int|
                0 <= a < m && cur == #[trigger] join_blank(paras.subrange(a, m as int)) && ct
                    == sum_tokens(paras.subrange(a, m as int)) && ct <= max;
            assert(whole_paragraph_chunk(paras, cur, max));
            // Joining the next paragraph extends the run.
            let run = paras.subrange(a, n as int);
            assert(run.drop_last() =~= paras.subrange(a, m as int));
            assert(run.last() == para);
            assert(join_blank(run) == cur + "\n\n"@ + para);
            assert(sum_tokens(run) == ct + toks);
        }
        if toks > max {
            let out1 = if cur.len() > 0 {
                out.push(cur)
            } else {
                out
            };
            let sc = sentence_chunks_of(para, st);
            assert forall|i: int| 0 <= i < state.0.len() implies whole_paragraph_chunk(
                paras,
                #[trigger] state.0[i],
                max,
            ) || sentence_fallback_chunk(paras, state.0[i], st) by {
                assert(state.0 == out1 + sc);
                if i < out.len() {
                    assert(state.0[i] == out[i]);
                } else if i < out1.len() {
                    assert(state.0[i] == cur);
                } else {
                    assert(state.0[i] == sc[i - out1.len()]);
                    assert(sc.contains(state.0[i]));
                    assert(sentence_chunks_of(paras[m as int], st).contains(state.0[i]));
                }
            }
        } else if ct + toks > max && cur.len() > 0 {
            assert forall|i: int| 0 <= i < state.0.len() implies whole_paragraph_chunk(
                paras,
                #[trigger] state.0[i],
                max,
            ) || sentence_fallback_chunk(paras, state.0[i], st) by {
                if i < out.len() {
                    assert(state.0[i] == out[i]);
                } else {
                    assert(state.0[i] == cur);
                }
            }
            assert(join_blank(seq![para]) == para);
            assert(state.1 == join_blank(paras.subrange(m as int, n as int)));
        } else {
            if cur.len() == 0 {
                assert(join_blank(seq![para]) == para);
                assert(state.1 == join_blank(paras.subrange(m as int, n as int)));
            } else {
                let a = choose|a: int|
                    0 <= a < m && cur == #[trigger] join_blank(paras.subrange(a, m as int)) && ct
                        == sum_tokens(paras.subrange(a, m as int)) && ct <= max;
                assert(state.1 == join_blank(paras.subrange(a, n as int)));
            }
        }
    }
}

/// Recursive chunking never packs past the cap: every chunk is either a
/// run of consecutive paragraphs, joined by blank lines, whose estimated
/// tokens (each paragraph estimated on its own) sum to at most
/// `max_tokens`, or a sentence-bounded chunk of one paragraph that is over
/// the cap by itself.
pub proof fn lemma_recursive_chunks_fit(input: Seq<char>, st: ChunkingStrategy)
    requires
        st.mode is Recursive,
    ensures
        forall|i: int|
            0 <= i < chunks_of(input, st).len() ==> whole_paragraph_chunk(
                paragraphs_of(input),
                #[trigger] chunks_of(input, st)[i],
                st.max_tokens as int,
            ) || sentence_fallback_chunk(paragraphs_of(input), chunks_of(input, st)[i], st),
{
    broadcast use vstd::seq_lib::group_filter_ensures;

    if input.len() > 0 && st.max_tokens > 0 {
        let paras = paragraphs_of(input);
        assert forall|i: int| 0 <= i < paras.len() implies (#[trigger] paras[i]).len() > 0 by {
            assert(paras.contains(paras[i]));
        }
        lemma_pack_paragraphs_fit(paras, st, paras.len());
        assert(paras.take(paras.len() as int) == paras);
        let state = pack_paragraphs(paras, st);
        let out = finish(state);
        assert forall|i: int| 0 <= i < out.len() implies whole_paragraph_chunk(
            paras,
            #[trigger] out[i],
            st.max_tokens as int,
        ) || sentence_fallback_chunk(paras, out[i], st) by {
            if i < state.0.len() {
                assert(out[i] == state.0[i]);
            } else {
                assert(out[i] == state.1);
                let a = choose|a: int|
                    0 <= a < paras.len() && state.1 == #[trigger] join_blank(
                        paras.subrange(a, paras.len() as int),
                    ) && state.2 == sum_tokens(paras.subrange(a, paras.len() as int)) && state.2
                        <= st.max_tokens;
                assert(whole_paragraph_chunk(paras, out[i], st.max_tokens as int));
            }
        }
    }
}

/// Joining one more paragraph after a non-empty run adds a blank line and
/// the paragraph.
proof fn lemma_join_blank_push(x: Seq<Seq<char>>, p: Seq<char>)
    requires
        x.len() > 0,
    ensures
        join_blank(x.push(p)) == join_blank(x) + "\n\n"@ + p,
{
    assert(x.push(p).drop_last() == x);
    assert(x.push(p).last() == p);
}

/// When no paragraph is over the cap, packing loses, repeats and reorders
/// nothing: the closed chunks and the open one, joined by blank lines, are
/// the first `n` paragraphs joined by blank lines.
proof fn lemma_pack_paragraphs_keep(paras: Seq<Seq<char>>, st: ChunkingStrategy, n: nat)
    requires
        n <= paras.len(),
        forall|i: int| 0 <= i < paras.len() ==> (#[trigger] paras[i]).len() > 0,
        forall|i: int| 0 <= i < paras.len() ==> para_tokens(#[trigger] paras[i]) <= st.max_tokens,
    ensures
        join_blank(finish(pack_paragraphs(paras.take(n as int), st))) == join_blank(
            paras.take(n as int),
        ),
        n > 0 ==> finish(pack_paragraphs(paras.take(n as int), st)).len() > 0,
        n == 0 ==> pack_paragraphs(paras.take(n as int), st).1.len() == 0,
    decreases n,
{
    if n == 0 {
        assert(paras.take(0) == Seq::<Seq<char>>::empty());
    } else {
        let m = (n - 1) as nat;
        lemma_pack_paragraphs_keep(paras, st, m);
        assert(paras.take(n as int).drop_last() == paras.take(m as int));
        assert(paras.take(n as int).last() == paras[m as int]);
        assert(paras.take(n as int) == paras.take(m as int).push(paras[m as int]));
        let prev = pack_paragraphs(paras.take(m as int), st);
        let (out, cur, ct) = prev;
        let para = paras[m as int];
        let f = finish(prev);
        let state = pack_paragraphs(paras.take(n as int), st);
        assert(state == pack_paragraph(prev, para, st));
        assert(para_tokens(para) <= st.max_tokens);
        if m > 0 {
            lemma_join_blank_push(paras.take(m as int), para);
        } else {
            assert(paras.take(n as int) =~= seq![para]);
        }
        if cur.len() > 0 {
            assert(f == out.push(cur));
            if ct + para_tokens(para) > st.max_tokens {
                assert(finish(state) == f.push(para));
                lemma_join_blank_push(f, para);
            } else {
                assert(finish(state) == out.push(cur + "\n\n"@ + para));
                if out.len() > 0 {
                    lemma_join_blank_push(out, cur + "\n\n"@ + para);
                    lemma_join_blank_push(out, cur);
                    assert(join_blank(finish(state)) =~= join_blank(f) + "\n\n"@ + para);
                } else {
                    assert(out.push(cur) =~= seq![cur]);
                    assert(finish(state) =~= seq![cur + "\n\n"@ + para]);
                }
            }
        } else {
            assert(f == out);
            assert(finish(state) == out.push(para));
            if out.len() > 0 {
                lemma_join_blank_push(out, para);
            } else {
                assert(out.push(para) =~= seq![para]);
            }
        }
    }
}

/// When no paragraph is over the cap on its own, recursive chunking keeps
/// every paragraph, whole and in order: the chunks joined by blank lines
/// are the input's paragraphs joined by blank lines.
pub proof fn lemma_recursive_chunks_keep_paragraphs(input: Seq<char>, st: ChunkingStrategy)
    requires
        st.mode is Recursive,
        forall|i: int|
            0 <= i < paragraphs_of(input).len() ==> para_tokens(#[trigger] paragraphs_of(input)[i])
                <= st.max_tokens,
    ensures
        join_blank(chunks_of(input, st)) == (if input.len() == 0 || st.max_tokens == 0 {
            Seq::<char>::empty()
        } else {
            join_blank(paragraphs_of(input))
        }),
{
    broadcast use vstd::seq_lib::group_filter_ensures;

    if input.len() > 0 && st.max_tokens > 0 {
        let paras = paragraphs_of(input);
        assert forall|i: int| 0 <= i < paras.len() implies (#[trigger] paras[i]).len() > 0 by {
            assert(paras.contains(paras[i]));
        }
        lemma_pack_paragraphs_keep(paras, st, paras.len());
        assert(paras.take(paras.len() as int) == paras);
    }
}

/// `seed` with `t` estimated tokens can open a sentence-bounded chunk:
/// nothing (no tokens), or the overlap tail of some closed chunk with its
/// estimated tokens.
pub open spec fn is_overlap_seed(seed: Seq<char>, t: int, overlap: nat) -> bool {
    ||| (seed.len() == 0 && t == 0)
    ||| exists|p: Seq<char>| #[trigger] overlap_seed(p, overlap) == (seed, t)
}

/// `c` is packed from whole sentences: an overlap seed (possibly empty)
/// followed by a non-empty run of sentences joined by spaces, where a run
/// of two or more sentences stays within the cap once the seed's tokens
/// are counted with theirs.
pub open spec fn packed_sentence_chunk(c: Seq<char>, st: ChunkingStrategy) -> bool {
    exists|seed: Seq<char>, t: int, run: Seq<Seq<char>>|
        #![trigger is_overlap_seed(seed, t, st.overlap as nat), join_space(run)]
        is_overlap_seed(seed, t, st.overlap as nat) && run.len() > 0 && c == appended(
            seed,
            " "@,
            join_space(run),
        ) && (run.len() == 1 || t + sum_tokens(run) <= st.max_tokens)
}

/// `c` is a fixed window of one sentence of `sents` that is over the cap
/// on its own (once trimmed).
pub open spec fn oversized_sentence_chunk(
    sents: Seq<Seq<char>>,
    c: Seq<char>,
    st: ChunkingStrategy,
) -> bool {
    exists|j: int|
        0 <= j < sents.len() && para_tokens(trim(sents[j])) > st.max_tokens
            && #[trigger] fixed_chunks(trim(sents[j]), st).contains(c)
}

/// What sentence packing keeps after the first `n` sentences: closed
/// chunks are packed or oversized-sentence chunks; the open chunk is a
/// seed and a run of sentences whose count is the seed's tokens plus
/// theirs; an empty open chunk counts nothing.
proof fn lemma_pack_sentences_fit(sents: Seq<Seq<char>>, st: ChunkingStrategy, n: nat)
    requires
        n <= sents.len(),
    ensures
        ({
            let state = pack_sentences(sents.take(n as int), st);
            &&& forall|i: int|
                0 <= i < state.0.len() ==> packed_sentence_chunk(#[trigger] state.0[i], st)
                    || oversized_sentence_chunk(sents, state.0[i], st)
            &&& state.1.len() == 0 ==> state.2 == 0
            &&& state.1.len() > 0 ==> exists|seed: Seq<char>, t: int, run: Seq<Seq<char>>|
                #![trigger is_overlap_seed(seed, t, st.overlap as nat), join_space(run)]
                is_overlap_seed(seed, t, st.overlap as nat) && run.len() > 0 && state.1
                    == appended(seed, " "@, join_space(run)) && state.2 == t + sum_tokens(run) && (
                run.len() == 1 || state.2 <= st.max_tokens)
        }),
    decreases n,
{
    reveal_strlit(" ");
    let max = st.max_tokens as int;
    let ov = st.overlap as nat;
    if n == 0 {
        assert(sents.take(0) == Seq::<Seq<char>>::empty());
    } else {
        let m = (n - 1) as nat;
        lemma_pack_sentences_fit(sents, st, m);
        assert(sents.take(n as int).drop_last() == sents.take(m as int));
        assert(sents.take(n as int).last() == sents[m as int]);
        let prev = pack_sentences(sents.take(m as int), st);
        let (out, cur, ct) = prev;
        let raw = sents[m as int];
        let sent = trim(raw);
        let state = pack_sentences(sents.take(n as int), st);
        assert(state == pack_sentence(prev, raw, st));
        if sent.len() > 0 {
            let toks = para_tokens(sent);
            assert(sum_tokens(seq![sent]) == toks) by {
                assert(seq![sent].drop_last() == Seq::<Seq<char>>::empty());
                assert(sum_tokens(Seq::<Seq<char>>::empty()) == 0);
                assert(seq![sent].last() == sent);
            }
            assert(join_space(seq![sent]) == sent);
            if cur.len() > 0 {
                let (seed, t, run) = choose|seed: Seq<char>, t: int, run: Seq<Seq<char>>|
                    #![trigger is_overlap_seed(seed, t, ov), join_space(run)]
                    is_overlap_seed(seed, t, ov) && run.len() > 0 && cur == appended(
                        seed,
                        " "@,
                        join_space(run),
                    ) && ct == t + sum_tokens(run) && (run.len() == 1 || ct <= max);
                assert(packed_sentence_chunk(cur, st));
                if !(toks > max) && !(ct + toks > max) {
                    let run2 = run.push(sent);
                    assert(run2.drop_last() == run);
                    assert(run2.last() == sent);
                    assert(join_space(run2) == join_space(run) + " "@ + sent);
                    assert(sum_tokens(run2) == sum_tokens(run) + toks);
                    assert(state.1 =~= appended(seed, " "@, join_space(run2)));
                    assert(is_overlap_seed(seed, t, ov));
                }
            }
            if toks > max {
                let out1 = if cur.len() > 0 {
                    out.push(cur)
                } else {
                    out
                };
                let fc = fixed_chunks(sent, st);
                assert forall|i: int| 0 <= i < state.0.len() implies packed_sentence_chunk(
                    #[trigger] state.0[i],
                    st,
                ) || oversized_sentence_chunk(sents, state.0[i], st) by {
                    assert(state.0 == out1 + fc);
                    if i < out.len() {
                        assert(state.0[i] == out[i]);
                    } else if i < out1.len() {
                        assert(state.0[i] == cur);
                    } else {
                        assert(state.0[i] == fc[i - out1.len()]);
                        assert(fc.contains(state.0[i]));
                        assert(fixed_chunks(trim(sents[m as int]), st).contains(state.0[i]));
                    }
                }
            } else if ct + toks > max && cur.len() > 0 {
                assert forall|i: int| 0 <= i < state.0.len() implies packed_sentence_chunk(
                    #[trigger] state.0[i],
                    st,
                ) || oversized_sentence_chunk(sents, state.0[i], st) by {
                    if i < out.len() {
                        assert(state.0[i] == out[i]);
                    } else {
                        assert(state.0[i] == cur);
                    }
                }
                let sd = overlap_seed(cur, ov);
                assert(is_overlap_seed(sd.0, sd.1, ov));
                assert(state.1 == appended(sd.0, " "@, join_space(seq![sent])));
                assert(state.2 == sd.1 + sum_tokens(seq![sent]));
            } else if cur.len() == 0 {
                assert(is_overlap_seed(Seq::empty(), 0, ov));
                assert(state.1 == appended(Seq::empty(), " "@, join_space(seq![sent])));
                assert(state.2 == 0 + sum_tokens(seq![sent]));
            }
        }
    }
}

/// Sentence-bounded chunking never packs past the cap: every chunk is a
/// fixed window of one sentence that is over the cap on its own, or an
/// overlap seed (possibly empty) followed by whole sentences joined by
/// spaces, where two or more sentences are packed together only while the
/// seed's estimated tokens and theirs stay within `max_tokens`.
pub proof fn lemma_sentence_chunks_fit(input: Seq<char>, st: ChunkingStrategy)
    ensures
        forall|i: int|
            0 <= i < sentence_chunks_of(input, st).len() ==> packed_sentence_chunk(
                #[trigger] sentence_chunks_of(input, st)[i],
                st,
            ) || oversized_sentence_chunk(
                unicode_sentences_of(input),
                sentence_chunks_of(input, st)[i],
                st,
            ),
{
    let sents = unicode_sentences_of(input);
    lemma_pack_sentences_fit(sents, st, sents.len());
    assert(sents.take(sents.len() as int) == sents);
    let state = pack_sentences(sents, st);
    let out = finish(state);
    assert forall|i: int| 0 <= i < out.len() implies packed_sentence_chunk(#[trigger] out[i], st)
        || oversized_sentence_chunk(sents, out[i], st) by {
        if i < state.0.len() {
            assert(out[i] == state.0[i]);
        } else {
            assert(out[i] == state.1);
        }
    }
}

/// Split `input` into chunks per `strategy`, in document order. Empty
/// input yields no chunk.
pub fn chunk_for_model(input: &str, strategy: &ChunkingStrategy) -> (out: Vec<String>)
    ensures
        views(out@) == chunks_of(input@, *strategy),
{
    if input.is_empty() || strategy.max_tokens == 0 {
        return Vec::new();
    }
    match strategy.mode {
        ChunkMode::FixedTokens => fixed_token_chunks(input, strategy),
        ChunkMode::SentenceBounded => sentence_chunks(input, strategy),
        ChunkMode::Recursive => recursive_chunks(input, strategy),
    }
}

} // verus!
