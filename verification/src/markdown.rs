//! Markdown rendering.

use vstd::prelude::*;

verus! {

/// The HTML that `pulldown_cmark` renders for the Markdown source `text`, with
/// strikethrough enabled and every other extension off.
pub uninterp spec fn markdown_html(text: Seq<char>) -> Seq<char>;

/// Trusted: parses `text` with `pulldown_cmark::Parser::new_ext`, with
/// `Options::ENABLE_STRIKETHROUGH` alone, and renders the events with
/// `pulldown_cmark::html::push_html` into an empty buffer. The result is
/// named by [`markdown_html`]; nothing more is claimed of it.
#[verifier::external_body]
pub(crate) fn render_markdown(text: &str) -> (html: String)
    ensures
        html@ == markdown_html(text@),
{
    let mut options = pulldown_cmark::Options::empty();
    options.insert(pulldown_cmark::Options::ENABLE_STRIKETHROUGH);
    let parser = pulldown_cmark::Parser::new_ext(text, options);
    let mut output = String::new();
    pulldown_cmark::html::push_html(&mut output, parser);
    output
}

} // verus!
