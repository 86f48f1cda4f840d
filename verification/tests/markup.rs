use txtfp::markup::html::strip_script_and_style;
use txtfp::markup::{html_to_text, markdown_to_text, markdown_to_text_with, MarkdownOptions};

#[test]
fn html_plain_paragraph() {
    let s = html_to_text("<p>hello world</p>").unwrap();
    assert!(s.contains("hello world"));
}

#[test]
fn strips_script_block() {
    let s = html_to_text("<p>visible</p><script>alert(1)</script>").unwrap();
    assert!(s.contains("visible"));
    assert!(!s.contains("alert"));
}

#[test]
fn strips_style_block() {
    let s = html_to_text("<style>.x { color: red; }</style><p>visible</p>").unwrap();
    assert!(s.contains("visible"));
    assert!(!s.contains("color"));
}

#[test]
fn strips_uppercase_script() {
    let s = html_to_text("<P>visible</P><SCRIPT>secret</SCRIPT>").unwrap();
    assert!(s.contains("visible"));
    assert!(!s.contains("secret"));
}

#[test]
fn strips_multiple_blocks() {
    let s = html_to_text("<p>a</p><script>x</script><p>b</p><style>y</style><p>c</p>").unwrap();
    assert!(s.contains('a'));
    assert!(s.contains('b'));
    assert!(s.contains('c'));
    assert!(!s.contains('x'));
    assert!(!s.contains('y'));
}

#[test]
fn html_empty_input() {
    let s = html_to_text("").unwrap();
    assert_eq!(s.trim(), "");
}

#[test]
fn entities_decoded() {
    let s = html_to_text("<p>caf&eacute; &amp; co</p>").unwrap();
    assert!(s.contains("café"));
    assert!(s.contains('&'));
}

#[test]
fn unclosed_script_is_dropped() {
    let s = html_to_text("<p>visible</p><script>never closed").unwrap();
    assert!(s.contains("visible"));
}

#[test]
fn scripture_word_is_not_an_open_tag() {
    let s = html_to_text("<p>mention <scripture>holy text</scripture> here</p>").unwrap();
    assert!(s.contains("holy text"));
    assert!(s.contains("here"));
}

#[test]
fn styling_word_is_not_a_style_tag() {
    let s = html_to_text("a <styling>update</styling> b").unwrap();
    assert!(s.contains("update"));
    assert!(s.contains('b'));
}

#[test]
fn open_tag_with_attribute_is_stripped() {
    let s = html_to_text("<script src=\"x.js\">var secret</script>visible").unwrap();
    assert!(!s.contains("secret"));
    assert!(s.contains("visible"));
}

#[test]
fn close_tag_with_whitespace_is_stripped() {
    let s = html_to_text("<script>secret</script >visible").unwrap();
    assert!(!s.contains("secret"));
    assert!(s.contains("visible"));
}

#[test]
fn strip_leaves_tail_after_script() {
    let s = html_to_text("<script>secret</script><p>kept</p>").unwrap();
    assert!(!s.contains("secret"));
    assert!(s.contains("kept"));
}

#[test]
fn markdown_plain_paragraph() {
    let s = markdown_to_text("hello world").unwrap();
    assert_eq!(s, "hello world");
}

#[test]
fn headings_are_text() {
    let s = markdown_to_text("# Heading\n\nbody").unwrap();
    assert!(s.contains("Heading"));
    assert!(s.contains("body"));
}

#[test]
fn code_block_default_included() {
    let s = markdown_to_text("```\nlet x = 1;\n```\n").unwrap();
    assert!(s.contains("let x = 1"));
}

#[test]
fn code_block_can_be_excluded() {
    let opts = MarkdownOptions { include_code_blocks: false, ..Default::default() };
    let s = markdown_to_text_with("text\n\n```\nlet x = 1;\n```\n\nmore", opts).unwrap();
    assert!(s.contains("text"));
    assert!(s.contains("more"));
    assert!(!s.contains("let x"));
}

#[test]
fn inline_code_included_by_default() {
    let s = markdown_to_text("use the `frobnicate` function").unwrap();
    assert!(s.contains("frobnicate"));
}

#[test]
fn inline_code_can_be_excluded() {
    let opts = MarkdownOptions { include_inline_code: false, ..Default::default() };
    let s = markdown_to_text_with("call `secret` now", opts).unwrap();
    assert!(s.contains("call"));
    assert!(s.contains("now"));
    assert!(!s.contains("secret"));
}

#[test]
fn list_items() {
    let s = markdown_to_text("- one\n- two\n- three").unwrap();
    assert!(s.contains("one"));
    assert!(s.contains("two"));
    assert!(s.contains("three"));
}

#[test]
fn link_text_kept() {
    let s = markdown_to_text("[click here](https://example.com)").unwrap();
    assert!(s.contains("click here"));
}

#[test]
fn markdown_empty_input() {
    let s = markdown_to_text("").unwrap();
    assert_eq!(s, "");
}

#[test]
fn break_to_space_off_yields_concat() {
    let opts = MarkdownOptions { break_to_space: false, ..Default::default() };
    let s = markdown_to_text_with("alpha\nbeta", opts).unwrap();
    assert_eq!(s, "alphabeta");
}

// Further cases.

#[test]
fn strip_is_exact_on_mixed_case_tags() {
    assert_eq!(strip_script_and_style("a<ScRiPt x=1>b</sCrIpT\t>c"), "ac");
    assert_eq!(strip_script_and_style("x<style>y"), "x");
    assert_eq!(strip_script_and_style("<scripts>keep</scripts>"), "<scripts>keep</scripts>");
}

#[test]
fn paragraphs_are_separated_by_one_space() {
    assert_eq!(markdown_to_text("one\n\ntwo").unwrap(), "one two");
}

#[test]
fn markdown_output_is_already_trimmed() {
    for md in ["  # Title  \n\n  body text  \n", "\n\n- a\n- b\n\n", "   ", "`code`  "] {
        let s = markdown_to_text(md).unwrap();
        assert_eq!(s.trim(), s);
    }
}
