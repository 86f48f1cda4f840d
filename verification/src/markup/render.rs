//! Plain-text rendering of HTML by `html2text`.

use html2text::Error as RenderError;
use vstd::prelude::*;

verus! {

#[verifier::external_type_specification]
#[verifier::external_body]
pub struct ExHtml2TextError(RenderError);

/// The text `html2text::from_read` renders from the UTF-8 bytes of an
/// HTML document at unbounded width, `None` where it reports an error.
pub uninterp spec fn rendered_text_of(html: Seq<char>) -> Option<Seq<char>>;

/// Calls `html2text::from_read` on the UTF-8 bytes of `html` with width
/// `usize::MAX`; the outcome is named `rendered_text_of` and claimed to
/// depend on the document alone.
#[verifier::external_body]
pub(crate) fn render_html(html: &str) -> (r: core::result::Result<String, RenderError>)
    ensures
        r matches Ok(t) ==> rendered_text_of(html@) == Some(t@),
        r is Err ==> rendered_text_of(html@) is None,
{
    html2text::from_read(html.as_bytes(), usize::MAX)
}

/// The `Display` text of an `html2text` error. Nothing is stated of it.
#[verifier::external_body]
pub(crate) fn html_error_text(e: &RenderError) -> String {
    format!("{e}")
}

} // verus!
