//! Markdown to text: the `pulldown-cmark` event stream, folded into
//! plain text.

use pulldown_cmark::{Event, Parser, Tag, TagEnd};
use vstd::prelude::*;

use crate::error::Result;
use crate::text::{lemma_trim_idempotent, push_char, push_str, trim, trim_string};

verus! {

/// Rendering options.
#[derive(Copy, Clone, Debug, PartialEq, Eq, Structural)]
pub struct MarkdownOptions {
    /// Keep the text of fenced and indented code blocks.
    pub include_code_blocks: bool,
    /// Keep the text of inline code spans.
    pub include_inline_code: bool,
    /// Turn block boundaries and line breaks into one space.
    pub break_to_space: bool,
}

impl Default for MarkdownOptions {
    fn default() -> (o: Self)
        ensures
            o.include_code_blocks,
            o.include_inline_code,
            o.break_to_space,
    {
        MarkdownOptions { include_code_blocks: true, include_inline_code: true, break_to_space: true }
    }
}

#[verifier::external_type_specification]
#[verifier::external_body]
pub struct ExTag<'a>(Tag<'a>);

#[verifier::external_type_specification]
#[verifier::external_body]
pub struct ExTagEnd(TagEnd);

/// The blocks whose boundaries matter for rendering.
#[derive(Copy, Clone, Debug, PartialEq, Eq, Structural)]
pub enum BlockKind {
    /// A fenced or indented code block.
    CodeBlock,
    /// A paragraph.
    Paragraph,
    /// A list item.
    Item,
    /// A heading.
    Heading,
    /// Any other block or inline container.
    Other,
}

/// The parser events that matter for rendering.
pub enum MdEvent {
    /// A block or container opens.
    Start(BlockKind),
    /// A block or container closes.
    End(BlockKind),
    /// Text.
    Text(String),
    /// An inline code span.
    Code(String),
    /// A soft line break.
    SoftBreak,
    /// A hard line break.
    HardBreak,
    /// Any other event.
    Other,
}

/// The value of an [`MdEvent`].
pub enum MdEventView {
    /// A block or container opens.
    Start(BlockKind),
    /// A block or container closes.
    End(BlockKind),
    /// Text.
    Text(Seq<char>),
    /// An inline code span.
    Code(Seq<char>),
    /// A soft line break.
    SoftBreak,
    /// A hard line break.
    HardBreak,
    /// Any other event.
    Other,
}

impl View for MdEvent {
    type V = MdEventView;

    open spec fn view(&self) -> MdEventView {
        match self {
            MdEvent::Start(k) => MdEventView::Start(*k),
            MdEvent::End(k) => MdEventView::End(*k),
            MdEvent::Text(s) => MdEventView::Text(s@),
            MdEvent::Code(s) => MdEventView::Code(s@),
            MdEvent::SoftBreak => MdEventView::SoftBreak,
            MdEvent::HardBreak => MdEventView::HardBreak,
            MdEvent::Other => MdEventView::Other,
        }
    }
}

/// The events `pulldown_cmark::Parser::new` yields for a document, as
/// [`MdEventView`] values.
pub uninterp spec fn md_events_of(md: Seq<char>) -> Seq<MdEventView>;

/// The kind of an opening tag.
#[verifier::external_body]
fn start_kind(t: &Tag) -> BlockKind {
    match t {
        Tag::CodeBlock(_) => BlockKind::CodeBlock,
        Tag::Paragraph => BlockKind::Paragraph,
        Tag::Item => BlockKind::Item,
        Tag::Heading { .. } => BlockKind::Heading,
        _ => BlockKind::Other,
    }
}

/// The kind of a closing tag.
#[verifier::external_body]
fn end_kind(t: TagEnd) -> BlockKind {
    match t {
        TagEnd::CodeBlock => BlockKind::CodeBlock,
        TagEnd::Paragraph => BlockKind::Paragraph,
        TagEnd::Item => BlockKind::Item,
        TagEnd::Heading(_) => BlockKind::Heading,
        _ => BlockKind::Other,
    }
}

/// Runs `pulldown_cmark::Parser::new(md)` and maps each event to its
/// [`MdEvent`]. The sequence is named `md_events_of` and claimed to
/// depend on the document alone.
#[verifier::external_body]
fn markdown_events(md: &str) -> (evs: Vec<MdEvent>)
    ensures
        evs@.map_values(|e: MdEvent| e@) == md_events_of(md@),
{
    let mut out = Vec::new();
    for ev in Parser::new(md) {
        out.push(match ev {
            Event::Start(t) => MdEvent::Start(start_kind(&t)),
            Event::End(t) => MdEvent::End(end_kind(t)),
            Event::Text(s) => MdEvent::Text(s.into_string()),
            Event::Code(s) => MdEvent::Code(s.into_string()),
            Event::SoftBreak => MdEvent::SoftBreak,
            Event::HardBreak => MdEvent::HardBreak,
            _ => MdEvent::Other,
        });
    }
    out
}

/// The rendering state: text so far, inside a code block, last output
/// was a break.
pub type MdState = (Seq<char>, bool, bool);

/// One space for a break, unless breaks are off or one was just written.
pub open spec fn md_break(opts: MarkdownOptions, st: MdState) -> MdState {
    if opts.break_to_space && !st.2 {
        (st.0.push(' '), st.1, true)
    } else {
        st
    }
}

/// The state after one event.
pub open spec fn md_step(opts: MarkdownOptions, st: MdState, ev: MdEventView) -> MdState {
    match ev {
        MdEventView::Start(BlockKind::CodeBlock) => (st.0, true, st.2),
        MdEventView::End(BlockKind::CodeBlock) => md_break(opts, (st.0, false, st.2)),
        MdEventView::Start(BlockKind::Other) | MdEventView::End(BlockKind::Other) => st,
        MdEventView::Text(s) => if st.1 && !opts.include_code_blocks {
            st
        } else {
            (st.0 + s, st.1, false)
        },
        MdEventView::Code(s) => if !opts.include_inline_code {
            st
        } else {
            (st.0 + s, st.1, false)
        },
        MdEventView::Other => st,
        _ => md_break(opts, st),
    }
}

/// The state after a sequence of events, from empty text, outside code,
/// as if after a break.
pub open spec fn md_fold(opts: MarkdownOptions, evs: Seq<MdEventView>) -> MdState
    decreases evs.len(),
{
    if evs.len() == 0 {
        (Seq::empty(), false, true)
    } else {
        md_step(opts, md_fold(opts, evs.drop_last()), evs.last())
    }
}

/// `ev` separates words when breaks turn into spaces: a soft or hard line
/// break, the start or end of a paragraph, list item or heading, or the
/// end of a code block.
pub open spec fn is_separator(ev: MdEventView) -> bool {
    ||| ev is SoftBreak
    ||| ev is HardBreak
    ||| ev == MdEventView::Start(BlockKind::Paragraph)
    ||| ev == MdEventView::Start(BlockKind::Item)
    ||| ev == MdEventView::Start(BlockKind::Heading)
    ||| ev == MdEventView::End(BlockKind::Paragraph)
    ||| ev == MdEventView::End(BlockKind::Item)
    ||| ev == MdEventView::End(BlockKind::Heading)
    ||| ev == MdEventView::End(BlockKind::CodeBlock)
}

/// When breaks turn into spaces and code is kept, text renders as itself,
/// and text followed by separators (line breaks, block boundaries)
/// renders as that text and then exactly one space, whatever came before:
/// a separator never glues two words together, and a run of them never
/// leaves more than one space.
pub proof fn lemma_text_then_break_is_one_space(
    opts: MarkdownOptions,
    evs: Seq<MdEventView>,
    s: Seq<char>,
    brk: MdEventView,
    brk2: MdEventView,
)
    requires
        opts.break_to_space,
        opts.include_code_blocks,
        is_separator(brk),
        is_separator(brk2),
    ensures
        md_fold(opts, evs.push(MdEventView::Text(s))).0 == md_fold(opts, evs).0 + s,
        md_fold(opts, evs.push(MdEventView::Text(s)).push(brk)).0 == md_fold(opts, evs).0 + s
            + seq![' '],
        md_fold(opts, evs.push(MdEventView::Text(s)).push(brk).push(brk2)).0 == md_fold(
            opts,
            evs,
        ).0 + s + seq![' '],
{
    let t = evs.push(MdEventView::Text(s));
    assert(t.drop_last() == evs);
    assert(t.push(brk).drop_last() == t);
    assert(t.push(brk).push(brk2).drop_last() == t.push(brk));
    assert(md_fold(opts, t).2 == false);
    assert(md_fold(opts, t).0.push(' ') =~= md_fold(opts, evs).0 + s + seq![' ']);
    assert(md_fold(opts, t.push(brk)).2 == true);
}

/// Code is kept or dropped as the options say: with code blocks left out,
/// text inside a code block adds nothing; with code blocks kept it is added
/// as is; an inline code span adds its text exactly when inline code is
/// kept.
pub proof fn lemma_code_follows_options(
    opts: MarkdownOptions,
    evs: Seq<MdEventView>,
    s: Seq<char>,
)
    ensures
        md_fold(
            opts,
            evs.push(MdEventView::Start(BlockKind::CodeBlock)).push(MdEventView::Text(s)),
        ).0 == (if opts.include_code_blocks {
            md_fold(opts, evs).0 + s
        } else {
            md_fold(opts, evs).0
        }),
        md_fold(opts, evs.push(MdEventView::Code(s))).0 == (if opts.include_inline_code {
            md_fold(opts, evs).0 + s
        } else {
            md_fold(opts, evs).0
        }),
{
    let c = evs.push(MdEventView::Start(BlockKind::CodeBlock));
    assert(c.drop_last() == evs);
    assert(c.push(MdEventView::Text(s)).drop_last() == c);
    assert(md_fold(opts, c) == (md_fold(opts, evs).0, true, md_fold(opts, evs).2));
    assert(evs.push(MdEventView::Code(s)).drop_last() == evs);
}

/// Render Markdown with the default options.
pub fn markdown_to_text(md: &str) -> (r: Result<String>)
    ensures
        r matches Ok(t) && t@ == trim(
            md_fold(
                MarkdownOptions {
                    include_code_blocks: true,
                    include_inline_code: true,
                    break_to_space: true,
                },
                md_events_of(md@),
            ).0,
        ) && trim(t@) == t@,
{
    markdown_to_text_with(md, MarkdownOptions::default())
}

/// Render Markdown: text and (optionally) code, with (optionally) one
/// space per block boundary or break, trimmed. Never refused.
pub fn markdown_to_text_with(md: &str, opts: MarkdownOptions) -> (r: Result<String>)
    ensures
        r matches Ok(t) && t@ == trim(md_fold(opts, md_events_of(md@)).0) && trim(t@) == t@,
{
    let evs = markdown_events(md);
    let ghost ev = evs@.map_values(|e: MdEvent| e@);
    let mut out = String::new();
    let mut in_code_block = false;
    let mut last_was_break = true;
    let mut i: usize = 0;
    while i < evs.len()
        invariant
            i <= evs@.len(),
            ev == evs@.map_values(|e: MdEvent| e@),
            (out@, in_code_block, last_was_break) == md_fold(opts, ev.take(i as int)),
        decreases evs@.len() - i,
    {
        assert(ev.take(i + 1).drop_last() == ev.take(i as int));
        assert(ev.take(i + 1).last() == evs@[i as int]@);
        match &evs[i] {
            MdEvent::Start(BlockKind::CodeBlock) => {
                in_code_block = true;
            },
            MdEvent::Start(BlockKind::Other) | MdEvent::End(BlockKind::Other) => {},
            MdEvent::End(BlockKind::CodeBlock) => {
                in_code_block = false;
                if opts.break_to_space && !last_was_break {
                    push_char(&mut out, ' ');
                    last_was_break = true;
                }
            },
            MdEvent::Text(s) => {
                if !(in_code_block && !opts.include_code_blocks) {
                    push_str(&mut out, s.as_str());
                    last_was_break = false;
                }
            },
            MdEvent::Code(s) => {
                if opts.include_inline_code {
                    push_str(&mut out, s.as_str());
                    last_was_break = false;
                }
            },
            MdEvent::Other => {},
            _ => {
                if opts.break_to_space && !last_was_break {
                    push_char(&mut out, ' ');
                    last_was_break = true;
                }
            },
        }
        i = i + 1;
    }
    assert(ev.take(evs@.len() as int) == ev);
    proof {
        lemma_trim_idempotent(out@);
    }
    Ok(trim_string(out.as_str()))
}

} // verus!
