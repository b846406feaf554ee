//! The conversion of a hydrated body from Markdown to HTML.

use vstd::prelude::*;

verus! {

/// The HTML that the converter makes of `text` read in the GitHub dialect,
/// with raw HTML passed through if `raw_html` is set and every other
/// choice left at its default; none where the converter reports a failure.
pub uninterp spec fn gfm_html(text: Seq<char>, raw_html: bool) -> Option<Seq<char>>;

/// Calls `markdown::to_html_with_options` with the parse options of
/// `ParseOptions::gfm()` and the default compile options, but for
/// `allow_dangerous_html`, which is `raw_html`.  The contract gives the
/// outcome a name and claims nothing of what it holds: the converter is a
/// function of the text and the options alone.
#[verifier::external_body]
fn to_gfm_html(text: &str, raw_html: bool) -> (html: Option<String>)
    ensures
        match html {
            Some(made) => gfm_html(text@, raw_html) == Some(made@),
            None => gfm_html(text@, raw_html) is None,
        },
{
    let options = markdown::Options {
        parse: markdown::ParseOptions::gfm(),
        compile: markdown::CompileOptions {
            allow_dangerous_html: raw_html,
            ..markdown::CompileOptions::default()
        },
    };
    markdown::to_html_with_options(text, &options).ok()
}

/// The HTML of a page body: the GitHub dialect, with raw HTML passed
/// through, since the author of a source is trusted.  No tag is filtered
/// and the footnotes keep the label of the converter.
pub open spec fn page_html(text: Seq<char>) -> Option<Seq<char>> {
    gfm_html(text, true)
}

/// Converts a hydrated body to HTML.  Gives none where the converter
/// reports a failure, which is a defect and no fault of the source.
pub fn compile(text: &str) -> (html: Option<String>)
    ensures
        match html {
            Some(made) => page_html(text@) == Some(made@),
            None => page_html(text@) is None,
        },
{
    to_gfm_html(text, true)
}

} // verus!
