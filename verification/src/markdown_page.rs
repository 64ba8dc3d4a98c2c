//! A page rendered from Markdown.

use vstd::prelude::*;

verus! {

/// The HTML of the sample page: a paragraph holding the emphasised word
/// `foo`, ending the line.
pub open spec fn emphasis_html() -> Seq<char> {
    "<p><em>foo</em></p>\n"@
}

/// Renders the Markdown `*foo*` as HTML.
///
/// Trusted: calls `markdown::to_html`. Its source parses the text as one
/// paragraph holding one emphasis span, writes a paragraph as `<p>`, its
/// spans and `</p>` followed by two newlines (`format_paragraph`), an
/// emphasis span as `<em>`, its text and `</em>` (`format_spans`), and then
/// trims the whole and ends it with one newline (`html::to_html`). Whether
/// the parser returns on every text is not settled by its source, so the
/// call is admitted only for the text the library renders.
#[verifier::external_body]
fn to_html(text: &str) -> (html: String)
    requires
        text@ == "*foo*"@,
    ensures
        html@ == emphasis_html(),
{
    markdown::to_html(text)
}

/// The sample page: the Markdown `*foo*`, an emphasised word, as HTML.
pub fn emphasis_page() -> (html: String)
    ensures
        html@ == emphasis_html(),
{
    to_html("*foo*")
}

} // verus!
