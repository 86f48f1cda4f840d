use txtfp::canonical::bidi::{is_bidi_control, is_format};
use txtfp::canonical::casefold::simple;
use txtfp::canonical::confusable::skeleton;
use txtfp::canonical::normalize::{nfc, nfkc};
use txtfp::{canonicalize, CaseFold, Canonicalizer, CanonicalizerBuilder, Normalization};

#[test]
fn zwsp_is_format() {
    assert!(is_format('\u{200B}'));
}

#[test]
fn bom_is_format() {
    assert!(is_format('\u{FEFF}'));
}

#[test]
fn rlo_is_bidi_control() {
    assert!(is_bidi_control('\u{202E}'));
}

#[test]
fn variation_selector_16_is_format() {
    assert!(is_format('\u{FE0F}'));
}

#[test]
fn tag_char_is_format() {
    assert!(is_format('\u{E0061}'));
}

#[test]
fn ordinary_letters_are_neither() {
    for c in "héllo, мир!".chars() {
        assert!(!is_bidi_control(c));
        assert!(!is_format(c));
    }
}

#[test]
fn nfc_composes_combining_marks() {
    let composed = nfc("e\u{0301}");
    assert_eq!(composed, "é");
}

#[test]
fn nfkc_collapses_compat_form() {
    assert_eq!(nfkc("ﬁ"), "fi");
}

#[test]
fn nfc_leaves_ligature_alone() {
    assert_eq!(nfc("ﬁ"), "ﬁ");
}

#[test]
fn nfkc_handles_full_width_digits() {
    assert_eq!(nfkc("１２３"), "123");
}

#[test]
fn nfc_idempotent() {
    let s = nfc("café");
    assert_eq!(nfc(&s), s);
}

#[test]
fn ascii_upper_lowers() {
    assert_eq!(simple("HELLO"), "hello");
}

#[test]
fn german_eszett() {
    assert_eq!(simple("STRASSE"), "strasse");
    assert_eq!(simple("STRAßE"), "strasse");
}

#[test]
fn greek_sigma() {
    assert_eq!(simple("ΣΟΦΙΑ"), "σοφια");
}

#[test]
fn idempotent() {
    let s = simple("ΩMega");
    assert_eq!(simple(&s), s);
}

#[test]
fn cyrillic_a_collapses_to_latin_a() {
    let cyr = skeleton("а");
    let lat = skeleton("a");
    assert_eq!(cyr, lat);
}

#[test]
fn paypal_homograph() {
    let s1 = skeleton("раураl");
    let s2 = skeleton("paypal");
    assert_eq!(s1, s2);
}

#[test]
fn ascii_passthrough() {
    assert_eq!(skeleton("hello"), "hello");
}

#[test]
fn default_lowercases_and_strips_zwsp() {
    let c = Canonicalizer::default();
    assert_eq!(c.canonicalize("Hello\u{200B}World"), "helloworld");
}

#[test]
fn nfkc_collapses_full_width() {
    let c = Canonicalizer::default();
    assert_eq!(c.canonicalize("ＡＢＣ"), "abc");
}

#[test]
fn nfkc_collapses_ligature() {
    let c = Canonicalizer::default();
    assert_eq!(c.canonicalize("ﬁle"), "file");
}

#[test]
fn idempotence() {
    let c = Canonicalizer::default();
    let a = c.canonicalize("Façade — Ｔｅｓｔ\u{202E}rev\u{200B}");
    let b = c.canonicalize(&a);
    assert_eq!(a, b);
}

#[test]
fn config_string_is_stable() {
    let c = Canonicalizer::default();
    assert_eq!(c.config_string(), "nfkc-cf-simple-bidi-fmt");
}

#[test]
fn convenience_function_matches_default() {
    let direct = canonicalize("Mixed CASE");
    let viaobj = Canonicalizer::default().canonicalize("Mixed CASE");
    assert_eq!(direct, viaobj);
}

#[test]
fn none_normalization_passes_through() {
    let c = CanonicalizerBuilder {
        normalization: Normalization::Unchanged,
        case_fold: CaseFold::Preserve,
        strip_bidi: false,
        strip_format: false,
        apply_confusable: false,
    }
    .build();
    assert_eq!(c.canonicalize("HéLLo"), "HéLLo");
}

#[test]
fn bidi_strip_kills_rlo() {
    let c = Canonicalizer::default();
    let s = c.canonicalize("admin\u{202E}gnirts");
    assert!(!s.contains('\u{202E}'));
}

#[test]
fn casefold_does_not_use_turkish_locale() {
    let c = Canonicalizer::default();
    let folded = c.canonicalize("İ");
    assert!(folded.contains('i'));
    assert!(!folded.contains('ı'), "got: {folded:?}");
}

#[test]
fn config_string_reflects_overrides() {
    let c = CanonicalizerBuilder {
        normalization: Normalization::Nfc,
        case_fold: CaseFold::Preserve,
        strip_bidi: false,
        strip_format: true,
        apply_confusable: false,
    }
    .build();
    assert_eq!(c.config_string(), "nfc-cf-none-fmt");
}

#[test]
fn empty_input_yields_empty_output() {
    assert_eq!(canonicalize(""), "");
}

#[test]
fn canonicalize_into_matches_canonicalize() {
    let c = Canonicalizer::default();
    let mut buf = String::new();
    for input in [
        "",
        "Hello World",
        "ＡＢＣ ﬁle",
        "café résumé",
        "admin\u{202E}drow",
        "a\u{FE0F}b",
        "Façade — Ｔｅｓｔ\u{202E}rev\u{200B}",
        "İ\u{329}",
    ] {
        c.canonicalize_into(input, &mut buf);
        assert_eq!(buf, c.canonicalize(input), "input = {input:?}");
    }
}

#[test]
fn canonicalize_into_reuses_capacity() {
    let c = Canonicalizer::default();
    let mut buf = String::with_capacity(1024);
    c.canonicalize_into("Hello World", &mut buf);
    assert!(buf.capacity() >= 1024, "buffer reallocation occurred");
    assert_eq!(buf, "hello world");
}

#[test]
fn variation_selector_is_stripped() {
    let c = Canonicalizer::default();
    assert_eq!(c.canonicalize("a\u{FE0F}"), "a");
}

#[test]
fn idempotence_on_arabic() {
    let c = Canonicalizer::default();
    let a = c.canonicalize("الْعَرَبِيَّة");
    assert_eq!(c.canonicalize(&a), a);
}

#[test]
fn idempotence_with_expanding_casefold_before_combining_mark() {
    let c = Canonicalizer::default();
    let input = "İ\u{329}";
    let a = c.canonicalize(input);
    assert_eq!(c.canonicalize(&a), a);
}

#[test]
fn idempotence_under_normalization_none_with_casefold() {
    let c = CanonicalizerBuilder {
        normalization: Normalization::Unchanged,
        ..Default::default()
    }
    .build();
    for input in &[
        "İ\u{329}",
        "\u{6e4}\u{202a}\u{6e4}\u{6ea}-\u{2}\u{3}",
        "\n(\u{b}462ǉİ\u{329}",
    ] {
        let a = c.canonicalize(input);
        assert_eq!(c.canonicalize(&a), a, "input = {input:?}");
    }
}

#[test]
fn idempotence_with_confusable_skeleton() {
    let c = CanonicalizerBuilder {
        apply_confusable: true,
        ..Default::default()
    }
    .build();
    for input in &[
        "café",
        "naïveté",
        "раураl",
        "İ\u{329}",
        "\u{6e4}\u{202a}\u{6e4}\u{6ea}-\u{2}\u{3}",
    ] {
        let a = c.canonicalize(input);
        assert_eq!(c.canonicalize(&a), a, "input = {input:?}");
    }
}

#[test]
fn idempotence_with_format_char_between_combining_marks() {
    let c = Canonicalizer::default();
    let input = "\u{6e4}\u{202a}\u{6e4}\u{6ea}-\u{2}\u{3}";
    let a = c.canonicalize(input);
    assert_eq!(c.canonicalize(&a), a);
}

#[test]
fn config_round_trip_via_to_string() {
    let s = Canonicalizer::default().config_string();
    let _: String = s.to_string();
}

#[test]
fn canonicalizer_is_send_sync() {
    fn assert_traits<T: Send + Sync>() {}
    assert_traits::<Canonicalizer>();
}

// Further cases.

#[test]
fn ascii_fast_path_lowercases_and_drops_bom() {
    let c = Canonicalizer::default();
    assert_eq!(c.canonicalize("\u{FEFF}ABC def\u{200B}"), "abc def");
}

#[test]
fn fast_path_output_is_fixed_point() {
    let c = Canonicalizer::default();
    let a = c.canonicalize("Hello\u{202E}World 123");
    assert_eq!(a, "helloworld 123");
    assert_eq!(c.canonicalize(&a), a);
}

#[test]
fn config_string_with_every_step() {
    let c = CanonicalizerBuilder {
        normalization: Normalization::Unchanged,
        case_fold: CaseFold::Simple,
        strip_bidi: true,
        strip_format: true,
        apply_confusable: true,
    }
    .build();
    assert_eq!(c.config_string(), "none-cf-simple-bidi-fmt-conf");
}

#[test]
fn strip_runs_before_normalization_without_casefold() {
    let c = CanonicalizerBuilder {
        case_fold: CaseFold::Preserve,
        ..Default::default()
    }
    .build();
    assert_eq!(c.canonicalize("Ａ\u{200B}Ｂ"), "AB");
}

#[test]
fn config_accessor_returns_builder() {
    let b = CanonicalizerBuilder {
        strip_bidi: false,
        ..Default::default()
    };
    let c = Canonicalizer::new(b);
    assert_eq!(*c.config(), b);
}

#[test]
fn config_strings_are_pairwise_distinct() {
    let mut seen: Vec<String> = Vec::new();
    for normalization in [Normalization::Nfc, Normalization::Nfkc, Normalization::Unchanged] {
        for case_fold in [CaseFold::Simple, CaseFold::Preserve] {
            for mask in 0u8..8 {
                let c = CanonicalizerBuilder {
                    normalization,
                    case_fold,
                    strip_bidi: mask & 1 != 0,
                    strip_format: mask & 2 != 0,
                    apply_confusable: mask & 4 != 0,
                }
                .build();
                let s = c.config_string();
                assert!(!seen.contains(&s), "duplicate identifier {s}");
                seen.push(s);
            }
        }
    }
    assert_eq!(seen.len(), 48);
}

#[test]
fn strip_only_pipeline_is_idempotent() {
    let c = CanonicalizerBuilder {
        normalization: Normalization::Unchanged,
        case_fold: CaseFold::Preserve,
        strip_bidi: true,
        strip_format: true,
        apply_confusable: false,
    }
    .build();
    let once = c.canonicalize("Ａ\u{202E}b\u{200B}C\u{FEFF}");
    assert_eq!(once, "Ａ\u{0062}C");
    assert_eq!(c.canonicalize(&once), once);
}

#[test]
fn fast_path_matches_full_pipeline() {
    let c = Canonicalizer::default();
    for s in ["Hello, WORLD! 123", "admin\u{202E}gnirts", "MiXeD\u{200B}Case\ttext\n", ""] {
        let stripped: String = s.chars().filter(|ch| !is_bidi_control(*ch) && !is_format(*ch)).collect();
        assert_eq!(c.canonicalize(s), simple(&nfkc(&stripped)));
    }
}

#[test]
fn ascii_is_its_own_normal_form() {
    let s = "Plain ASCII: ~!@#$%^&*()_+{}|:<>?";
    assert_eq!(nfkc(s), s);
    assert_eq!(nfc(s), s);
    assert_eq!(simple(s), s.to_ascii_lowercase());
}

#[test]
fn ascii_text_is_idempotent_under_every_setting() {
    let forms = [Normalization::Nfc, Normalization::Nfkc, Normalization::Unchanged];
    let folds = [CaseFold::Simple, CaseFold::Preserve];
    for normalization in forms {
        for case_fold in folds {
            for strip in [true, false] {
                let c = CanonicalizerBuilder {
                    normalization,
                    case_fold,
                    strip_bidi: strip,
                    strip_format: strip,
                    apply_confusable: false,
                }
                .build();
                let s = if strip { "Hello\u{200B} WORLD\u{202E}!" } else { "Hello WORLD!" };
                let once = c.canonicalize(s);
                assert!(once.is_ascii());
                assert_eq!(c.canonicalize(&once), once);
            }
        }
    }
}
