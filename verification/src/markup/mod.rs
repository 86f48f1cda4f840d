//! Markup to plain text: HTML (script and style blocks removed, then
//! rendered by `html2text`) and Markdown (rendered from `pulldown-cmark`
//! events).

pub mod html;
pub mod markdown;
pub mod render;

pub use html::html_to_text;
pub use markdown::{markdown_to_text, markdown_to_text_with, MarkdownOptions};
