//! Rendering Markdown to HTML with `pulldown_cmark`.

use vstd::prelude::*;

verus! {

/// The HTML that `pulldown_cmark` renders for a Markdown text with every
/// extension enabled.
pub uninterp spec fn markdown_spec(text: Seq<char>) -> Seq<char>;

/// `pulldown_cmark::html::push_html` over `Parser::new_ext(text, opts)` into an
/// empty string, with `Options::all()` (tables, footnotes, strikethrough and
/// task lists among them).
/// Trusted: the result is `markdown_spec(text)`, a function of the text alone;
/// the rendering itself is not stated.
#[verifier::external_body]
pub(crate) fn markdown_to_html(text: &str) -> (r: String)
    ensures
        r@ == markdown_spec(text@),
{
    let mut opts = pulldown_cmark::Options::all();
    opts.insert(pulldown_cmark::Options::ENABLE_TABLES);
    opts.insert(pulldown_cmark::Options::ENABLE_FOOTNOTES);
    opts.insert(pulldown_cmark::Options::ENABLE_STRIKETHROUGH);
    opts.insert(pulldown_cmark::Options::ENABLE_TASKLISTS);
    let parser = pulldown_cmark::Parser::new_ext(text, opts);
    let mut html_out = String::new();
    pulldown_cmark::html::push_html(&mut html_out, parser);
    html_out
}

} // verus!
