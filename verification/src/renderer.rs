//! Rendering of decoded bodies: text that carries escaped markup is taken
//! for HTML, anything else for Markdown, and both end as plain text wrapped
//! to a given width.

use crate::text::{chars_of, contains, has_infix};
use vstd::prelude::*;
use vstd::string::*;

verus! {

/// The width, in columns, that bodies are wrapped to unless told otherwise.
pub const DEFAULT_WIDTH: usize = 80;

/// The error of the `html2text` crate, carried through unread.
#[verifier::external_type_specification]
#[verifier::external_body]
pub struct ExHtmlError(html2text::Error);

/// The plain text that the `html2text` crate renders `html` to at `width`
/// columns with its plain decorator, or `None` where it reports an error
/// (a width too narrow for the document, for one).
pub uninterp spec fn html_rendering(html: Seq<char>, width: usize) -> Option<Seq<char>>;

/// The HTML that the `pulldown_cmark` crate writes for the Markdown `text`,
/// parsed with no options enabled.
pub uninterp spec fn markdown_html(text: Seq<char>) -> Seq<char>;

/// `html2text::config::plain().string_from_read`, the fallible form of the
/// crate's `from_read`, on the bytes of `html`. Whether it succeeds, and the
/// text it then returns, depend on the document and the width alone.
#[verifier::external_body]
fn html2text_plain(html: &str, width: usize) -> (r: Result<String, html2text::Error>)
    ensures
        match r {
            Ok(plain) => html_rendering(html@, width) == Some(plain@),
            Err(_) => html_rendering(html@, width) is None,
        },
{
    html2text::config::plain().string_from_read(html.as_bytes(), width)
}

/// `pulldown_cmark::html::push_html` into an empty string, fed by
/// `pulldown_cmark::Parser::new` on `text`. The HTML written depends on the
/// text alone.
#[verifier::external_body]
fn markdown_to_html(text: &str) -> (r: String)
    ensures
        r@ == markdown_html(text@),
{
    let mut html = String::new();
    pulldown_cmark::html::push_html(&mut html, pulldown_cmark::Parser::new(text));
    html
}

/// Whether a text carries an escaped markup entity, which marks it as HTML.
pub open spec fn looks_like_html(text: Seq<char>) -> bool {
    has_infix(text, "&lt;"@) || has_infix(text, "&gt;"@) || has_infix(text, "&amp;"@)
}

/// The HTML that is rendered for a decoded body: the body itself where it
/// looks like HTML, else the body converted from Markdown.
pub open spec fn html_form(text: Seq<char>) -> Seq<char> {
    if looks_like_html(text) {
        text
    } else {
        markdown_html(text)
    }
}

/// What stands for a rendering: the rendered text, or `source` unchanged
/// where rendering failed.
pub open spec fn rendering_or(rendering: Option<Seq<char>>, source: Seq<char>) -> Seq<char> {
    match rendering {
        Some(plain) => plain,
        None => source,
    }
}

/// An HTML document as plain text of `width` columns.
pub open spec fn html_text(html: Seq<char>, width: usize) -> Seq<char> {
    rendering_or(html_rendering(html, width), html)
}

/// A decoded body as plain text of `width` columns.
pub open spec fn rendered(text: Seq<char>, width: usize) -> Seq<char> {
    rendering_or(html_rendering(html_form(text), width), text)
}

/// Whether `text` carries an escaped markup entity.
pub fn is_html(text: &str) -> (b: bool)
    ensures
        b == looks_like_html(text@),
{
    let chars = chars_of(text);
    contains(&chars, &chars_of("&lt;")) || contains(&chars, &chars_of("&gt;")) || contains(
        &chars,
        &chars_of("&amp;"),
    )
}

/// The text of a rendering outcome, or `source` where rendering failed.
pub fn text_or_verbatim(outcome: Result<String, html2text::Error>, source: &str) -> (r: String)
    ensures
        r@ == match outcome {
            Ok(plain) => plain@,
            Err(_) => source@,
        },
{
    match outcome {
        Ok(plain) => plain,
        Err(_) => source.to_owned(),
    }
}

/// Renders an HTML document to plain text of `width` columns. A document
/// that cannot be rendered is returned as it is.
pub fn html_to_text(html: &str, width: usize) -> (r: String)
    ensures
        r@ == html_text(html@, width),
{
    text_or_verbatim(html2text_plain(html, width), html)
}

/// Renders a decoded body to plain text of `width` columns. A body that
/// cannot be rendered is returned as it is.
pub fn render(text: &str, width: usize) -> (r: String)
    ensures
        r@ == rendered(text@, width),
{
    if is_html(text) {
        text_or_verbatim(html2text_plain(text, width), text)
    } else {
        let html = markdown_to_html(text);
        text_or_verbatim(html2text_plain(html.as_str(), width), text)
    }
}

} // verus!
