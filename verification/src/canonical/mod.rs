//! Canonicalization pipeline.
//!
//! The default pipeline turns text into a `String` suitable for
//! tokenization:
//!
//! ```text
//! drop Cf + Bidi controls → NFKC normalize → simple casefold
//!        → optional UTS #39 confusable skeleton
//! ```
//!
//! Stripping runs *before* normalization: a format codepoint between two
//! combining marks would otherwise act as a sequence boundary on the first
//! pass and vanish, letting a second pass reorder the marks.

use vstd::prelude::*;

use crate::text::{chars_of, clear_string, push_str, string_from_chars};

pub mod bidi;
pub mod casefold;
pub mod confusable;
pub mod normalize;

use bidi::{is_bidi_control, is_format, spec_is_bidi_control, spec_is_format};
use casefold::case_fold_form;
use confusable::skeleton_of;
use normalize::{nfc_chars, nfc_form, nfkc_chars, nfkc_form};

verus! {

/// Unicode normalization form selection.
#[derive(Copy, Clone, Debug, PartialEq, Eq, Hash, Structural)]
pub enum Normalization {
    /// Apply NFC: composing only, compatibility variants stay.
    Nfc,
    /// Apply NFKC: compatibility decomposition then composition. The default.
    Nfkc,
    /// Skip normalization.
    Unchanged,
}

/// Case-folding strategy. Only the locale-independent default fold is
/// offered, so fingerprints do not depend on the host locale.
#[derive(Copy, Clone, Debug, PartialEq, Eq, Hash, Structural)]
pub enum CaseFold {
    /// Skip case folding.
    Preserve,
    /// Default Unicode case fold.
    Simple,
}

/// The steps of [`Canonicalizer::canonicalize`].
#[derive(Copy, Clone, Debug, PartialEq, Eq, Structural)]
pub struct CanonicalizerBuilder {
    /// Unicode normalization form to apply.
    pub normalization: Normalization,
    /// Case-folding strategy.
    pub case_fold: CaseFold,
    /// Strip Bidi-control codepoints (Trojan Source defence).
    pub strip_bidi: bool,
    /// Strip the curated format (`Cf`) codepoints; a superset of the Bidi
    /// controls.
    pub strip_format: bool,
    /// Apply the UTS #39 confusable skeleton as the last step.
    pub apply_confusable: bool,
}

impl CanonicalizerBuilder {
    /// The production configuration: NFKC, simple casefold, both strips,
    /// no skeleton.
    pub open spec fn spec_default() -> CanonicalizerBuilder {
        CanonicalizerBuilder {
            normalization: Normalization::Nfkc,
            case_fold: CaseFold::Simple,
            strip_bidi: true,
            strip_format: true,
            apply_confusable: false,
        }
    }

    /// Finish the builder.
    pub fn build(self) -> (c: Canonicalizer)
        ensures
            c.spec_config() == self,
    {
        Canonicalizer { cfg: self }
    }
}

impl Default for CanonicalizerBuilder {
    fn default() -> (b: Self)
        ensures
            b == CanonicalizerBuilder::spec_default(),
    {
        CanonicalizerBuilder {
            normalization: Normalization::Nfkc,
            case_fold: CaseFold::Simple,
            strip_bidi: true,
            strip_format: true,
            apply_confusable: false,
        }
    }
}

/// Stateless text canonicalizer.
#[derive(Copy, Clone, Debug)]
pub struct Canonicalizer {
    cfg: CanonicalizerBuilder,
}

/// `c` is removed by the strip step under the given flags.
pub open spec fn spec_should_drop(c: char, drop_bidi: bool, drop_fmt: bool) -> bool {
    (drop_bidi && spec_is_bidi_control(c)) || (drop_fmt && spec_is_format(c))
}

/// The predicate of the characters that the strip step keeps.
pub open spec fn kept(drop_bidi: bool, drop_fmt: bool) -> spec_fn(char) -> bool {
    |c: char| !spec_should_drop(c, drop_bidi, drop_fmt)
}

/// The strip step.
pub open spec fn stripped(cs: Seq<char>, drop_bidi: bool, drop_fmt: bool) -> Seq<char> {
    cs.filter(kept(drop_bidi, drop_fmt))
}

/// The normalization step.
pub open spec fn normalized(form: Normalization, cs: Seq<char>) -> Seq<char> {
    match form {
        Normalization::Nfc => nfc_form(cs),
        Normalization::Nfkc => nfkc_form(cs),
        Normalization::Unchanged => cs,
    }
}

/// The casefold step, with the re-normalization that restores canonical
/// order when the fold produced non-ASCII output.
pub open spec fn folded(cfg: CanonicalizerBuilder, cs: Seq<char>) -> Seq<char> {
    match cfg.case_fold {
        CaseFold::Preserve => cs,
        CaseFold::Simple => {
            let f = case_fold_form(cs);
            if vstd::utf8::is_ascii_chars(f) {
                f
            } else {
                normalized(cfg.normalization, f)
            }
        },
    }
}

/// The full (slow) pipeline.
pub open spec fn full_pipeline(cfg: CanonicalizerBuilder, input: Seq<char>) -> Seq<char> {
    let s = folded(
        cfg,
        normalized(cfg.normalization, stripped(input, cfg.strip_bidi, cfg.strip_format)),
    );
    if cfg.apply_confusable {
        skeleton_of(s)
    } else {
        s
    }
}

/// `c` is ASCII.
pub open spec fn spec_is_ascii_char(c: char) -> bool {
    (c as u32) < 0x80
}

/// ASCII lowercase of one character; every other character is unchanged.
pub open spec fn ascii_lower(c: char) -> char {
    if 'A' <= c <= 'Z' {
        ((c as u32) + 32) as char
    } else {
        c
    }
}

/// ASCII lowercase of a character sequence.
pub open spec fn ascii_lowercase(cs: Seq<char>) -> Seq<char> {
    cs.map_values(|c: char| ascii_lower(c))
}

/// The input qualifies for the ASCII fast path: the configuration is the
/// default one and every character is ASCII or a droppable Bidi/format
/// codepoint.
pub open spec fn fast_path_applies(cfg: CanonicalizerBuilder, input: Seq<char>) -> bool {
    &&& cfg == CanonicalizerBuilder::spec_default()
    &&& forall|i: int|
        0 <= i < input.len() ==> spec_is_ascii_char(#[trigger] input[i]) || spec_is_bidi_control(
            input[i],
        ) || spec_is_format(input[i])
}

/// What `canonicalize` returns: on fast-path inputs the droppable
/// codepoints are removed and the rest is ASCII-lowercased; otherwise the
/// full pipeline runs.
pub open spec fn canonical_form(cfg: CanonicalizerBuilder, input: Seq<char>) -> Seq<char> {
    if fast_path_applies(cfg, input) {
        ascii_lowercase(stripped(input, true, true))
    } else {
        full_pipeline(cfg, input)
    }
}

/// `should_drop` in executable form.
pub fn should_drop(c: char, drop_bidi: bool, drop_fmt: bool) -> (b: bool)
    ensures
        b == spec_should_drop(c, drop_bidi, drop_fmt),
{
    (drop_bidi && is_bidi_control(c)) || (drop_fmt && is_format(c))
}

/// The characters of `cs` that the strip step keeps.
fn strip_chars(cs: &Vec<char>, drop_bidi: bool, drop_fmt: bool) -> (out: Vec<char>)
    ensures
        out@ == stripped(cs@, drop_bidi, drop_fmt),
{
    let mut out: Vec<char> = Vec::new();
    let mut i: usize = 0;
    while i < cs.len()
        invariant
            i <= cs@.len(),
            out@ == cs@.take(i as int).filter(kept(drop_bidi, drop_fmt)),
        decreases cs@.len() - i,
    {
        let c = cs[i];
        assert(cs@.take(i + 1) == cs@.take(i as int).push(c));
        proof {
            cs@.take(i as int).lemma_filter_push(c, kept(drop_bidi, drop_fmt));
        }
        if !should_drop(c, drop_bidi, drop_fmt) {
            out.push(c);
        }
        i = i + 1;
    }
    assert(cs@.take(cs@.len() as int) == cs@);
    out
}

/// Apply the configured normalization form to `cs`.
fn normalize_chars(form: Normalization, cs: Vec<char>) -> (out: Vec<char>)
    ensures
        out@ == normalized(form, cs@),
{
    match form {
        Normalization::Nfc => nfc_chars(&cs),
        Normalization::Nfkc => nfkc_chars(&cs),
        Normalization::Unchanged => cs,
    }
}

/// ASCII lowercase of one character.
pub fn to_ascii_lower(c: char) -> (l: char)
    ensures
        l == ascii_lower(c),
{
    if 'A' <= c && c <= 'Z' {
        let u = c as u32;
        let b = (u + 32) as u8;
        b as char
    } else {
        c
    }
}

/// True when every character of `cs` is ASCII or a droppable
/// Bidi/format codepoint.
fn only_ascii_or_droppable(cs: &Vec<char>) -> (b: bool)
    ensures
        b == (forall|i: int|
            0 <= i < cs@.len() ==> spec_is_ascii_char(#[trigger] cs@[i]) || spec_is_bidi_control(
                cs@[i],
            ) || spec_is_format(cs@[i])),
{
    let mut i: usize = 0;
    while i < cs.len()
        invariant
            i <= cs@.len(),
            forall|j: int|
                0 <= j < i ==> spec_is_ascii_char(#[trigger] cs@[j]) || spec_is_bidi_control(
                    cs@[j],
                ) || spec_is_format(cs@[j]),
        decreases cs@.len() - i,
    {
        let c = cs[i];
        if !((c as u32) < 0x80 || is_bidi_control(c) || is_format(c)) {
            return false;
        }
        i = i + 1;
    }
    true
}

/// Lowercase the ASCII characters of `cs` into a string.
fn ascii_lowercase_string(cs: &Vec<char>) -> (s: String)
    ensures
        s@ == ascii_lowercase(cs@),
{
    let mut s = String::new();
    let mut i: usize = 0;
    while i < cs.len()
        invariant
            i <= cs@.len(),
            s@ == ascii_lowercase(cs@.take(i as int)),
        decreases cs@.len() - i,
    {
        let l = to_ascii_lower(cs[i]);
        crate::text::push_char(&mut s, l);
        i = i + 1;
        assert(s@ =~= ascii_lowercase(cs@.take(i as int)));
    }
    assert(cs@.take(cs@.len() as int) == cs@);
    s
}

impl Canonicalizer {
    /// The configuration this canonicalizer runs.
    pub closed spec fn spec_config(&self) -> CanonicalizerBuilder {
        self.cfg
    }

    /// Construct a canonicalizer from an explicit builder.
    pub fn new(builder: CanonicalizerBuilder) -> (c: Self)
        ensures
            c.spec_config() == builder,
    {
        builder.build()
    }

    /// Borrow the configuration.
    pub fn config(&self) -> (b: &CanonicalizerBuilder)
        ensures
            *b == self.spec_config(),
    {
        &self.cfg
    }

    /// True if the configuration is the production default, which gates
    /// the ASCII fast path.
    fn is_default_pipeline(&self) -> (b: bool)
        ensures
            b == (self.spec_config() == CanonicalizerBuilder::spec_default()),
    {
        let c = self.cfg;
        let nfkc = match c.normalization {
            Normalization::Nfkc => true,
            _ => false,
        };
        let simple = match c.case_fold {
            CaseFold::Simple => true,
            _ => false,
        };
        nfkc && simple && c.strip_bidi && c.strip_format && !c.apply_confusable
    }

    /// Canonicalize `input` per the configured pipeline.
    pub fn canonicalize(&self, input: &str) -> (out: String)
        ensures
            out@ == canonical_form(self.spec_config(), input@),
    {
        let mut out = String::new();
        self.canonicalize_into(input, &mut out);
        out
    }

    /// Canonicalize `input` into `out`, which is cleared first (its
    /// allocation is kept).
    pub fn canonicalize_into(&self, input: &str, out: &mut String)
        ensures
            final(out)@ == canonical_form(self.spec_config(), input@),
    {
        clear_string(out);
        let cs = chars_of(input);
        if self.is_default_pipeline() && only_ascii_or_droppable(&cs) {
            // Fast path: NFKC and the default fold are the identity and
            // ASCII lowercasing on what is left once the droppable
            // codepoints are gone.
            let kept_chars = strip_chars(&cs, true, true);
            let lower = ascii_lowercase_string(&kept_chars);
            push_str(out, lower.as_str());
            assert(out@ =~= canonical_form(self.spec_config(), input@));
            return ;
        }
        let cfg = self.cfg;
        // 1+2. Strip upstream of normalization, then normalize.
        let kept_chars = strip_chars(&cs, cfg.strip_bidi, cfg.strip_format);
        let normed = normalize_chars(cfg.normalization, kept_chars);
        let mut s = string_from_chars(&normed);
        // 3. Casefold, re-normalizing when the fold produced non-ASCII.
        match cfg.case_fold {
            CaseFold::Simple => {
                let f = casefold::simple(s.as_str());
                if f.as_str().is_ascii() {
                    s = f;
                } else {
                    let fc = chars_of(f.as_str());
                    let r = normalize_chars(cfg.normalization, fc);
                    s = string_from_chars(&r);
                }
            },
            CaseFold::Preserve => {},
        }
        // 4. Confusable skeleton.
        if cfg.apply_confusable {
            s = confusable::skeleton(s.as_str());
        }
        push_str(out, s.as_str());
        assert(out@ =~= canonical_form(self.spec_config(), input@));
    }

    /// Stable identifier of the configuration, such as
    /// `"nfkc-cf-simple-bidi-fmt"` for the default.
    pub fn config_string(&self) -> (s: String)
        ensures
            s@ == config_text(self.spec_config()),
    {
        let mut s = String::new();
        match self.cfg.normalization {
            Normalization::Nfc => push_str(&mut s, "nfc"),
            Normalization::Nfkc => push_str(&mut s, "nfkc"),
            Normalization::Unchanged => push_str(&mut s, "none"),
        }
        push_str(&mut s, "-");
        match self.cfg.case_fold {
            CaseFold::Simple => push_str(&mut s, "cf-simple"),
            CaseFold::Preserve => push_str(&mut s, "cf-none"),
        }
        if self.cfg.strip_bidi {
            push_str(&mut s, "-bidi");
        }
        if self.cfg.strip_format {
            push_str(&mut s, "-fmt");
        }
        if self.cfg.apply_confusable {
            push_str(&mut s, "-conf");
        }
        s
    }
}

/// The configuration identifier: `<normalization>-cf-<casefold>` followed
/// by `-bidi`, `-fmt`, `-conf` for each enabled step.
pub open spec fn config_text(cfg: CanonicalizerBuilder) -> Seq<char> {
    let n = match cfg.normalization {
        Normalization::Nfc => "nfc"@,
        Normalization::Nfkc => "nfkc"@,
        Normalization::Unchanged => "none"@,
    };
    let f = match cfg.case_fold {
        CaseFold::Simple => "cf-simple"@,
        CaseFold::Preserve => "cf-none"@,
    };
    n + "-"@ + f + segments_text(cfg.strip_bidi, cfg.strip_format, cfg.apply_confusable)
}

/// The optional segments of the configuration identifier.
pub open spec fn segments_text(bidi: bool, fmt: bool, conf: bool) -> Seq<char> {
    (if bidi {
        "-bidi"@
    } else {
        Seq::empty()
    }) + (if fmt {
        "-fmt"@
    } else {
        Seq::empty()
    }) + (if conf {
        "-conf"@
    } else {
        Seq::empty()
    })
}

/// The optional segments determine which steps are enabled.
proof fn lemma_segments_determine_flags(bidi: bool, fmt: bool, conf: bool)
    ensures
        ({
            let t = segments_text(bidi, fmt, conf);
            &&& bidi == (t.len() > 1 && t[1] == 'b')
            &&& conf == (t.len() > 0 && t.last() == 'f')
            &&& fmt == ((t.len() >= 9 && t.last() == 'f' && t[t.len() - 6] == 't') || (t.len()
                > 0 && t.last() == 't'))
        }),
{
    reveal_strlit("-bidi");
    reveal_strlit("-fmt");
    reveal_strlit("-conf");
    let t = segments_text(bidi, fmt, conf);
    let t1: Seq<char> = if bidi {
        "-bidi"@
    } else {
        Seq::empty()
    };
    let t2: Seq<char> = if fmt {
        "-fmt"@
    } else {
        Seq::empty()
    };
    let t3: Seq<char> = if conf {
        "-conf"@
    } else {
        Seq::empty()
    };
    assert(t == t1 + t2 + t3);
    assert(t.len() == t1.len() + t2.len() + t3.len());
    if bidi {
        assert(t[1] == t1[1]);
    } else if fmt {
        assert(t[1] == t2[1]);
    } else if conf {
        assert(t[1] == t3[1]);
    }
    if conf {
        assert(t.last() == t3[4]);
        if fmt {
            assert(t[t.len() - 6] == t2[3]);
        } else if bidi {
            assert(t[t.len() - 6] == t1[4]);
        }
    } else if fmt {
        assert(t.last() == t2[3]);
    } else if bidi {
        assert(t.last() == t1[4]);
    }
}

/// The length of the normalization segment of the identifier.
spec fn norm_len(n: Normalization) -> int {
    match n {
        Normalization::Nfc => 3,
        _ => 4,
    }
}

/// The length of the casefold segment of the identifier.
spec fn fold_len(f: CaseFold) -> int {
    match f {
        CaseFold::Simple => 9,
        CaseFold::Preserve => 7,
    }
}

/// Where each part of the configuration shows in its identifier.
proof fn lemma_config_text_shape(c: CanonicalizerBuilder)
    ensures
        ({
            let s = config_text(c);
            let ln = norm_len(c.normalization);
            let lf = fold_len(c.case_fold);
            &&& s.len() >= ln + 1 + lf
            &&& (s[1] == 'f') == !(c.normalization is Unchanged)
            &&& (s[2] == 'c') == (c.normalization is Nfc)
            &&& (s[ln + 4] == 's') == (c.case_fold is Simple)
            &&& s.subrange(ln + 1 + lf, s.len() as int) == segments_text(
                c.strip_bidi,
                c.strip_format,
                c.apply_confusable,
            )
        }),
{
    reveal_strlit("nfc");
    reveal_strlit("nfkc");
    reveal_strlit("none");
    reveal_strlit("-");
    reveal_strlit("cf-simple");
    reveal_strlit("cf-none");
    let n: Seq<char> = match c.normalization {
        Normalization::Nfc => "nfc"@,
        Normalization::Nfkc => "nfkc"@,
        Normalization::Unchanged => "none"@,
    };
    let f: Seq<char> = match c.case_fold {
        CaseFold::Simple => "cf-simple"@,
        CaseFold::Preserve => "cf-none"@,
    };
    let t = segments_text(c.strip_bidi, c.strip_format, c.apply_confusable);
    let s = config_text(c);
    let head = n + "-"@ + f;
    assert(s == head + t);
    let ln = norm_len(c.normalization);
    let lf = fold_len(c.case_fold);
    assert(n.len() == ln);
    assert(f.len() == lf);
    assert(s[1] == n[1]);
    assert(s[2] == n[2]);
    assert(s[ln + 4] == f[3]);
    assert(s.subrange(ln + 1 + lf, s.len() as int) =~= t);
}

/// Distinct canonicalizer configurations have distinct identifiers: the
/// identifier that `config_string` returns determines the configuration.
pub proof fn lemma_config_text_injective(a: CanonicalizerBuilder, b: CanonicalizerBuilder)
    requires
        config_text(a) == config_text(b),
    ensures
        a == b,
{
    lemma_config_text_shape(a);
    lemma_config_text_shape(b);
    assert(a.normalization == b.normalization);
    assert(a.case_fold == b.case_fold);
    lemma_segments_determine_flags(a.strip_bidi, a.strip_format, a.apply_confusable);
    lemma_segments_determine_flags(b.strip_bidi, b.strip_format, b.apply_confusable);
}

impl Default for Canonicalizer {
    fn default() -> (c: Self)
        ensures
            c.spec_config() == CanonicalizerBuilder::spec_default(),
    {
        CanonicalizerBuilder::default().build()
    }
}

/// Filtering by a predicate that every element meets keeps the sequence.
proof fn lemma_filter_keeps_all(s: Seq<char>, p: spec_fn(char) -> bool)
    requires
        forall|i: int| 0 <= i < s.len() ==> p(#[trigger] s[i]),
    ensures
        s.filter(p) == s,
    decreases s.len(),
{
    if s.len() > 0 {
        let init = s.drop_last();
        assert forall|i: int| 0 <= i < init.len() implies p(#[trigger] init[i]) by {
            assert(init[i] == s[i]);
        }
        lemma_filter_keeps_all(init, p);
        init.lemma_filter_push(s.last(), p);
        assert(init.push(s.last()) == s);
    }
}

/// On the ASCII fast path of the default pipeline the output is ASCII with
/// no uppercase letter and no Bidi control or format codepoint, and
/// canonicalizing it again gives it back: canonicalization is idempotent
/// there.
pub proof fn lemma_fast_path_idempotent(input: Seq<char>)
    requires
        fast_path_applies(CanonicalizerBuilder::spec_default(), input),
    ensures
        ({
            let d = CanonicalizerBuilder::spec_default();
            let once = canonical_form(d, input);
            &&& vstd::utf8::is_ascii_chars(once)
            &&& forall|i: int| 0 <= i < once.len() ==> !('A' <= #[trigger] once[i] <= 'Z')
            &&& forall|i: int|
                0 <= i < once.len() ==> !spec_is_bidi_control(#[trigger] once[i])
                    && !spec_is_format(once[i])
            &&& canonical_form(d, once) == once
        }),
{
    broadcast use vstd::seq_lib::group_filter_ensures;

    let d = CanonicalizerBuilder::spec_default();
    let k = stripped(input, true, true);
    let once = canonical_form(d, input);
    assert(once == ascii_lowercase(k));
    lemma_fast_path_stripped_is_ascii(input);
    assert forall|i: int| 0 <= i < once.len() implies spec_is_ascii_char(#[trigger] once[i])
        && !('A' <= once[i] <= 'Z') && kept(true, true)(once[i]) && ascii_lower(once[i])
        == once[i] by {
        assert(once[i] == ascii_lower(k[i]));
        assert(spec_is_ascii_char(k[i]));
    }
    assert(fast_path_applies(d, once));
    lemma_filter_keeps_all(once, kept(true, true));
    assert(ascii_lowercase(once) =~= once);
}

/// An ASCII character lies between `'\0'` and `'\u{7f}'`.
proof fn lemma_ascii_char_range(c: char)
    requires
        spec_is_ascii_char(c),
    ensures
        '\0' <= c <= '\u{7f}',
{
    assert(c as u32 == c as int);
}


/// What the strip step keeps of a fast-path input is ASCII.
proof fn lemma_fast_path_stripped_is_ascii(input: Seq<char>)
    requires
        fast_path_applies(CanonicalizerBuilder::spec_default(), input),
    ensures
        vstd::utf8::is_ascii_chars(stripped(input, true, true)),
        forall|i: int|
            0 <= i < stripped(input, true, true).len() ==> spec_is_ascii_char(
                #[trigger] stripped(input, true, true)[i],
            ),
{
    broadcast use vstd::seq_lib::group_filter_ensures;

    let k = stripped(input, true, true);
    assert forall|i: int| 0 <= i < k.len() implies spec_is_ascii_char(#[trigger] k[i]) by {
        assert(kept(true, true)(k[i]));
        assert(k.contains(k[i]));
        input.lemma_filter_contains_rev(kept(true, true), k[i]);
        let j = choose|j: int| 0 <= j < input.len() && input[j] == k[i];
        assert(spec_is_ascii_char(input[j]) || spec_is_bidi_control(input[j]) || spec_is_format(
            input[j],
        ));
    }
    assert forall|i: int| 0 <= i < k.len() implies '\0' <= #[trigger] k[i] <= '\u{7f}' by {
        lemma_ascii_char_range(k[i]);
    }
}

/// On every input that takes the ASCII fast path, the fast path returns
/// exactly what the full pipeline (strip, NFKC, default case fold) would.
pub proof fn lemma_fast_path_matches_full_pipeline(input: Seq<char>)
    requires
        fast_path_applies(CanonicalizerBuilder::spec_default(), input),
    ensures
        canonical_form(CanonicalizerBuilder::spec_default(), input) == full_pipeline(
            CanonicalizerBuilder::spec_default(),
            input,
        ),
{
    let d = CanonicalizerBuilder::spec_default();
    let k = stripped(input, true, true);
    lemma_fast_path_stripped_is_ascii(input);
    assert(normalized(d.normalization, k) == k);
    let f = ascii_lowercase(k);
    assert(case_fold_form(k) == f);
    assert forall|i: int| 0 <= i < f.len() implies '\0' <= #[trigger] f[i] <= '\u{7f}' by {
        assert(f[i] == ascii_lower(k[i]));
        assert(spec_is_ascii_char(k[i]));
    }
    assert(folded(d, k) == f);
}

/// A character between `'\0'` and `'\u{7f}'` is ASCII, and neither a Bidi
/// control nor a format codepoint.
proof fn lemma_ascii_not_droppable(c: char)
    requires
        '\0' <= c <= '\u{7f}',
    ensures
        spec_is_ascii_char(c),
        !spec_is_bidi_control(c),
        !spec_is_format(c),
        '\0' <= ascii_lower(c) <= '\u{7f}',
        ascii_lower(ascii_lower(c)) == ascii_lower(c),
{
    assert(c as u32 == c as int);
}

/// ASCII text stays ASCII under ASCII lowercasing, which holds no
/// droppable codepoint and is its own lowercase.
proof fn lemma_ascii_lowercase_props(k: Seq<char>)
    requires
        vstd::utf8::is_ascii_chars(k),
    ensures
        vstd::utf8::is_ascii_chars(ascii_lowercase(k)),
        ascii_lowercase(ascii_lowercase(k)) == ascii_lowercase(k),
{
    let l = ascii_lowercase(k);
    assert forall|i: int| 0 <= i < l.len() implies '\0' <= #[trigger] l[i] <= '\u{7f}'
        && ascii_lower(l[i]) == l[i] by {
        assert(l[i] == ascii_lower(k[i]));
        lemma_ascii_not_droppable(k[i]);
    }
    assert(ascii_lowercase(l) =~= l);
}

/// Nothing of ASCII text is stripped, under any flags.
proof fn lemma_ascii_nothing_stripped(k: Seq<char>, drop_bidi: bool, drop_fmt: bool)
    requires
        vstd::utf8::is_ascii_chars(k),
    ensures
        stripped(k, drop_bidi, drop_fmt) == k,
{
    assert forall|i: int| 0 <= i < k.len() implies kept(drop_bidi, drop_fmt)(#[trigger] k[i]) by {
        lemma_ascii_not_droppable(k[i]);
    }
    lemma_filter_keeps_all(k, kept(drop_bidi, drop_fmt));
}

/// Without the confusable skeleton, text whose kept characters are all
/// ASCII canonicalizes to ASCII text that canonicalizes to itself, under
/// every normalization form, case fold and strip setting: idempotence on
/// ASCII text.
pub proof fn lemma_ascii_text_idempotent(cfg: CanonicalizerBuilder, input: Seq<char>)
    requires
        !cfg.apply_confusable,
        vstd::utf8::is_ascii_chars(stripped(input, cfg.strip_bidi, cfg.strip_format)),
    ensures
        vstd::utf8::is_ascii_chars(canonical_form(cfg, input)),
        canonical_form(cfg, canonical_form(cfg, input)) == canonical_form(cfg, input),
{
    if fast_path_applies(cfg, input) {
        lemma_fast_path_idempotent(input);
    } else {
        let k = stripped(input, cfg.strip_bidi, cfg.strip_format);
        assert(normalized(cfg.normalization, k) == k);
        lemma_ascii_lowercase_props(k);
        let once = canonical_form(cfg, input);
        assert(once == folded(cfg, k));
        assert(vstd::utf8::is_ascii_chars(once));
        lemma_ascii_nothing_stripped(once, cfg.strip_bidi, cfg.strip_format);
        lemma_ascii_nothing_stripped(once, true, true);
        assert(normalized(cfg.normalization, once) == once);
        if cfg.case_fold is Simple {
            assert(once == ascii_lowercase(k));
        }
        assert(folded(cfg, once) == once);
    }
}

/// A codepoint that the strip step removes can be inserted anywhere without
/// changing the canonical form.
proof fn lemma_dropped_codepoint_is_invisible(
    cfg: CanonicalizerBuilder,
    x: Seq<char>,
    y: Seq<char>,
    c: char,
)
    requires
        spec_should_drop(c, cfg.strip_bidi, cfg.strip_format),
    ensures
        canonical_form(cfg, x + seq![c] + y) == canonical_form(cfg, x + y),
{
    let with = x + seq![c] + y;
    let without = x + y;
    let p = kept(cfg.strip_bidi, cfg.strip_format);
    let q = kept(true, true);
    reveal_with_fuel(Seq::filter, 2);
    assert(seq![c].filter(p) == Seq::<char>::empty());
    assert(seq![c].filter(q) == Seq::<char>::empty());
    Seq::filter_distributes_over_add(x + seq![c], y, p);
    Seq::filter_distributes_over_add(x, seq![c], p);
    Seq::filter_distributes_over_add(x, y, p);
    Seq::filter_distributes_over_add(x + seq![c], y, q);
    Seq::filter_distributes_over_add(x, seq![c], q);
    Seq::filter_distributes_over_add(x, y, q);
    assert(stripped(with, cfg.strip_bidi, cfg.strip_format) == stripped(
        without,
        cfg.strip_bidi,
        cfg.strip_format,
    ));
    assert(stripped(with, true, true) == stripped(without, true, true));
    if cfg == CanonicalizerBuilder::spec_default() {
        assert(spec_is_bidi_control(c) || spec_is_format(c));
        assert(fast_path_applies(cfg, with) == fast_path_applies(cfg, without)) by {
            if fast_path_applies(cfg, without) {
                assert forall|i: int| 0 <= i < with.len() implies spec_is_ascii_char(
                    #[trigger] with[i],
                ) || spec_is_bidi_control(with[i]) || spec_is_format(with[i]) by {
                    if i < x.len() {
                        assert(with[i] == without[i]);
                    } else if i > x.len() {
                        assert(with[i] == without[i - 1]);
                    }
                }
            }
            if fast_path_applies(cfg, with) {
                assert forall|i: int| 0 <= i < without.len() implies spec_is_ascii_char(
                    #[trigger] without[i],
                ) || spec_is_bidi_control(without[i]) || spec_is_format(without[i]) by {
                    if i < x.len() {
                        assert(without[i] == with[i]);
                    } else {
                        assert(without[i] == with[i + 1]);
                    }
                }
            }
        }
    }
}

/// The documented format codepoints are invisible to canonicalization
/// whenever format stripping is on: inserting ZWSP, ZWNJ, ZWJ, LRM or RLM,
/// WJ and the invisible operators, ALM, a Mongolian variation selector,
/// BOM, a variation selector, a tag character, or a Bidi embedding or
/// isolate anywhere in the text leaves its canonical form unchanged.
pub proof fn lemma_format_codepoints_are_invisible(
    cfg: CanonicalizerBuilder,
    x: Seq<char>,
    y: Seq<char>,
    c: char,
)
    requires
        cfg.strip_format,
        ('\u{200B}' <= c <= '\u{200F}') || ('\u{2060}' <= c <= '\u{2064}') || c == '\u{061C}'
            || ('\u{180B}' <= c <= '\u{180F}') || c == '\u{FEFF}' || ('\u{FE00}' <= c
            <= '\u{FE0F}') || ('\u{E0100}' <= c <= '\u{E01EF}') || c == '\u{E0001}' || (
        '\u{E0020}' <= c <= '\u{E007F}') || ('\u{202A}' <= c <= '\u{202E}') || ('\u{2066}' <= c
            <= '\u{2069}'),
    ensures
        canonical_form(cfg, x + seq![c] + y) == canonical_form(cfg, x + y),
{
    assert(c as u32 == c as int);
    lemma_dropped_codepoint_is_invisible(cfg, x, y, c);
}

/// The Bidi controls are invisible to canonicalization whenever Bidi
/// stripping is on: inserting LRE, RLE, PDF, LRO, RLO, LRI, RLI, FSI, PDI,
/// LRM or RLM anywhere in the text leaves its canonical form unchanged.
pub proof fn lemma_bidi_controls_are_invisible(
    cfg: CanonicalizerBuilder,
    x: Seq<char>,
    y: Seq<char>,
    c: char,
)
    requires
        cfg.strip_bidi,
        ('\u{202A}' <= c <= '\u{202E}') || ('\u{2066}' <= c <= '\u{2069}') || c == '\u{200E}'
            || c == '\u{200F}',
    ensures
        canonical_form(cfg, x + seq![c] + y) == canonical_form(cfg, x + y),
{
    assert(c as u32 == c as int);
    lemma_dropped_codepoint_is_invisible(cfg, x, y, c);
}

/// The strip step removes exactly the listed codepoints and keeps every
/// other character: with format stripping on, ZWSP, ZWNJ, ZWJ, LRM, RLM,
/// WJ and the invisible operators, ALM, the Mongolian variation selectors,
/// BOM, the variation selectors, the tag characters and the Bidi
/// embeddings and isolates; with Bidi stripping on, the Bidi embeddings and
/// isolates, LRM and RLM.
pub proof fn lemma_strip_removes_exactly_the_listed(c: char, drop_bidi: bool, drop_fmt: bool)
    ensures
        kept(drop_bidi, drop_fmt)(c) <==> !(drop_fmt && (('\u{200B}' <= c <= '\u{200F}') || (
        '\u{2060}' <= c <= '\u{2064}') || c == '\u{061C}' || ('\u{180B}' <= c <= '\u{180F}') || c
            == '\u{FEFF}' || ('\u{FE00}' <= c <= '\u{FE0F}') || ('\u{E0100}' <= c <= '\u{E01EF}')
            || c == '\u{E0001}' || ('\u{E0020}' <= c <= '\u{E007F}') || ('\u{202A}' <= c
            <= '\u{202E}') || ('\u{2066}' <= c <= '\u{2069}'))) && !(drop_bidi && (('\u{202A}'
            <= c <= '\u{202E}') || ('\u{2066}' <= c <= '\u{2069}') || c == '\u{200E}' || c
            == '\u{200F}')),
{
    assert(c as u32 == c as int);
}

/// With no normalization, no case fold and no confusable skeleton the
/// pipeline only strips: its output holds none of the stripped codepoints,
/// and canonicalization is idempotent.
pub proof fn lemma_strip_only_idempotent(cfg: CanonicalizerBuilder, input: Seq<char>)
    requires
        cfg.normalization is Unchanged,
        cfg.case_fold is Preserve,
        !cfg.apply_confusable,
    ensures
        canonical_form(cfg, input) == stripped(input, cfg.strip_bidi, cfg.strip_format),
        canonical_form(cfg, canonical_form(cfg, input)) == canonical_form(cfg, input),
        forall|i: int|
            0 <= i < canonical_form(cfg, input).len() ==> !spec_should_drop(
                #[trigger] canonical_form(cfg, input)[i],
                cfg.strip_bidi,
                cfg.strip_format,
            ),
{
    broadcast use vstd::seq_lib::group_filter_ensures;

    let p = kept(cfg.strip_bidi, cfg.strip_format);
    let once = stripped(input, cfg.strip_bidi, cfg.strip_format);
    assert(!fast_path_applies(cfg, input));
    assert(!fast_path_applies(cfg, once));
    assert forall|i: int| 0 <= i < once.len() implies p(#[trigger] once[i]) by {
        assert(once.contains(once[i]));
    }
    lemma_filter_keeps_all(once, p);
}

/// Canonicalize `input` with the default pipeline.
pub fn canonicalize(input: &str) -> (out: String)
    ensures
        out@ == canonical_form(CanonicalizerBuilder::spec_default(), input@),
{
    Canonicalizer::default().canonicalize(input)
}

} // verus!
