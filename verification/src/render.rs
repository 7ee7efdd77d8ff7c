//! The preview page: the document rendered to an HTML fragment, and the page built round it.
//!
//! A page is self-contained. It holds, in this order, a fixed head, the style sheet of the
//! theme, a style sheet for print that is the same in both themes, and the fragment as its
//! body. Nothing in it is fetched from elsewhere.

use crate::text::Text;
use vstd::prelude::*;
use vstd::string::StringExecFns;

verus! {

/// Style sheet of the dark theme.
pub const PREVIEW_CSS_DARK: &'static str = r#"
    :root { color-scheme: dark; background: #1a1a1a !important; }
    html { background: #1a1a1a !important; min-height: 100%; }
    body { font-family: 'Cantarell','Inter',system-ui,sans-serif; font-size: 15px; line-height: 1.7;
        padding: 16px 24px; margin: 0; min-height: 100%; color: #e0e0e0; background: #1a1a1a !important; word-wrap: break-word; }
    h1,h2,h3,h4,h5,h6 { color: #fff; margin-top: 1.2em; margin-bottom: 0.4em; font-weight: 600; }
    h1 { font-size: 1.8em; border-bottom: 1px solid #444; padding-bottom: 0.3em; }
    h2 { font-size: 1.5em; border-bottom: 1px solid #3a3a3a; padding-bottom: 0.2em; }
    h3 { font-size: 1.25em; }
    p { margin: 0.6em 0; }
    a { color: #78b9f5; text-decoration: none; }
    a:hover { text-decoration: underline; }
    code { font-family: 'JetBrains Mono','Source Code Pro',monospace; background: #1e1e1e; padding: 2px 6px; border-radius: 4px; font-size: 0.9em; }
    pre { background: #1e1e1e; padding: 14px 18px; border-radius: 8px; overflow-x: auto; border: 1px solid #3a3a3a; }
    pre code { background: none; padding: 0; }
    blockquote { border-left: 3px solid #78b9f5; margin: 0.8em 0; padding: 0.4em 1em; color: #b0b0b0; background: #252525; border-radius: 0 6px 6px 0; }
    ul,ol { padding-left: 1.8em; }
    li { margin: 0.25em 0; }
    hr { border: none; border-top: 1px solid #444; margin: 1.5em 0; }
    table { border-collapse: collapse; width: 100%; margin: 1em 0; }
    th,td { border: 1px solid #444; padding: 8px 12px; text-align: left; }
    th { background: #333; font-weight: 600; }
    img { max-width: 100%; border-radius: 6px; }
    strong { color: #f0f0f0; }
    em { color: #d0d0d0; }
    .placeholder { color: #a8a8a8; text-align: center; margin-top: 2em; }
"#;

/// Style sheet of the light theme.
pub const PREVIEW_CSS_LIGHT: &'static str = r#"
    :root { color-scheme: light; background: #fafafa !important; }
    html { background: #fafafa !important; min-height: 100%; }
    body { font-family: 'Cantarell','Inter',system-ui,sans-serif; font-size: 15px; line-height: 1.7;
        padding: 16px 24px; margin: 0; min-height: 100%; color: #241f31; background: #fafafa !important; word-wrap: break-word; }
    h1,h2,h3,h4,h5,h6 { color: #1c1c1c; margin-top: 1.2em; margin-bottom: 0.4em; font-weight: 600; }
    h1 { font-size: 1.8em; border-bottom: 1px solid #c0bfc4; padding-bottom: 0.3em; }
    h2 { font-size: 1.5em; border-bottom: 1px solid #d1d0d5; padding-bottom: 0.2em; }
    h3 { font-size: 1.25em; }
    p { margin: 0.6em 0; }
    a { color: #1c71d8; text-decoration: none; }
    a:hover { text-decoration: underline; }
    code { font-family: 'JetBrains Mono','Source Code Pro',monospace; background: #ebebeb; padding: 2px 6px; border-radius: 4px; font-size: 0.9em; color: #1c1c1c; }
    pre { background: #ebebeb; padding: 14px 18px; border-radius: 8px; overflow-x: auto; border: 1px solid #d1d0d5; }
    pre code { background: none; padding: 0; }
    blockquote { border-left: 3px solid #1c71d8; margin: 0.8em 0; padding: 0.4em 1em; color: #56565c; background: #f0eff1; border-radius: 0 6px 6px 0; }
    ul,ol { padding-left: 1.8em; }
    li { margin: 0.25em 0; }
    hr { border: none; border-top: 1px solid #c0bfc4; margin: 1.5em 0; }
    table { border-collapse: collapse; width: 100%; margin: 1em 0; }
    th,td { border: 1px solid #c0bfc4; padding: 8px 12px; text-align: left; }
    th { background: #ebe9ed; font-weight: 600; }
    img { max-width: 100%; border-radius: 6px; }
    strong { color: #1c1c1c; }
    em { color: #363536; }
    .placeholder { color: #6b6b6b; text-align: center; margin-top: 2em; }
"#;

/// Style sheet for print: no margins, borders or outlines, whatever the theme.
pub const PRINT_CSS: &'static str = r#"
    @media print {
        html, body, :root { margin: 0 !important; padding: 0 !important; border: none !important; outline: none !important; }
        body { padding: 16px 24px !important; }
        img { margin: 0 !important; padding: 0 !important; border: none !important; outline: none !important; box-shadow: none !important; }
    }
"#;

/// What a page holds before its style sheets.
pub const PAGE_HEAD: &'static str = "<!DOCTYPE html><html><head><meta charset=\"utf-8\"><style>";

/// What a page holds between its style sheets and its body.
pub const PAGE_BODY_OPEN: &'static str = "</style></head><body>";

/// What a page holds after its body.
pub const PAGE_TAIL: &'static str = "</body></html>";

/// The fragment shown for a document without text.
pub const PLACEHOLDER_FRAGMENT: &'static str =
    "<p class='placeholder'>Start typing markdown on the left\u{2026}</p>";

/// The HTML that `pulldown_cmark` writes for a markdown text parsed with every extension of
/// the parser enabled.
pub uninterp spec fn markdown_html(text: Text) -> Text;

/// Calls `pulldown_cmark::html::push_html` on an empty string and on the events of
/// `pulldown_cmark::Parser::new_ext` for `text` with `pulldown_cmark::Options::all()`.
///
/// The contract names the string that comes back. It claims that the call returns for every
/// text and that the same text always gives the same string: the parser reads nothing but its
/// argument, and the writer appends to the string it is given.
#[verifier::external_body]
fn markdown_to_html(text: &str) -> (html: String)
    ensures
        html@ == markdown_html(text@),
{
    let parser = pulldown_cmark::Parser::new_ext(text, pulldown_cmark::Options::all());
    let mut html = String::new();
    pulldown_cmark::html::push_html(&mut html, parser);
    html
}

/// The style sheet of a theme.
pub open spec fn theme_css(dark: bool) -> Text {
    if dark {
        PREVIEW_CSS_DARK@
    } else {
        PREVIEW_CSS_LIGHT@
    }
}

/// The fragment of a document: the placeholder for a text without characters, the rendered
/// markdown for any other.
pub open spec fn fragment_of(text: Text) -> Text {
    if text.len() == 0 {
        PLACEHOLDER_FRAGMENT@
    } else {
        markdown_html(text)
    }
}

/// The page round a fragment.
pub open spec fn page_of(body: Text, dark: bool) -> Text {
    PAGE_HEAD@ + theme_css(dark) + seq![' '] + PRINT_CSS@ + PAGE_BODY_OPEN@ + body + PAGE_TAIL@
}

/// The style sheet of a theme.
pub fn preview_css(dark: bool) -> (css: &'static str)
    ensures
        css@ == theme_css(dark),
{
    if dark {
        PREVIEW_CSS_DARK
    } else {
        PREVIEW_CSS_LIGHT
    }
}

/// Renders a document to the fragment that goes into the body of the page. Every text has a
/// fragment; a text without characters has the placeholder.
pub fn render_fragment(text: &str) -> (fragment: String)
    ensures
        fragment@ == fragment_of(text@),
{
    if text.is_empty() {
        String::from_str(PLACEHOLDER_FRAGMENT)
    } else {
        markdown_to_html(text)
    }
}

/// Builds the page round a fragment, in the dark or the light theme.
pub fn build_html_page(body: &str, dark: bool) -> (page: String)
    ensures
        page@ == page_of(body@, dark),
{
    let mut page = String::from_str(PAGE_HEAD);
    page.append(preview_css(dark));
    page.push(' ');
    page.append(PRINT_CSS);
    page.append(PAGE_BODY_OPEN);
    page.append(body);
    page.append(PAGE_TAIL);
    page
}

/// Renders a document to its page.
pub fn render_page(text: &str, dark: bool) -> (page: String)
    ensures
        page@ == page_of(fragment_of(text@), dark),
{
    let fragment = render_fragment(text);
    build_html_page(fragment.as_str(), dark)
}

/// The placeholder holds characters: a page is never built round nothing for want of text.
pub proof fn lemma_placeholder_is_not_empty()
    ensures
        PLACEHOLDER_FRAGMENT@.len() > 0,
        fragment_of(Seq::empty()) == PLACEHOLDER_FRAGMENT@,
        fragment_of(Seq::empty()).len() > 0,
{
    reveal_strlit("<p class='placeholder'>Start typing markdown on the left\u{2026}</p>");
}

/// A page holds its body between a head and a tail that depend on the theme alone: the pages
/// of two fragments in one theme differ only in the body.
pub proof fn lemma_page_wraps_body(body: Text, dark: bool)
    ensures
        page_of(body, dark) == page_of(Seq::empty(), dark).subrange(
            0,
            page_of(Seq::empty(), dark).len() - PAGE_TAIL@.len(),
        ) + body + PAGE_TAIL@,
        page_of(body, dark).len() == page_of(Seq::empty(), dark).len() + body.len(),
{
    let head = PAGE_HEAD@ + theme_css(dark) + seq![' '] + PRINT_CSS@ + PAGE_BODY_OPEN@;
    let bare = page_of(Seq::empty(), dark);
    assert(bare =~= head + PAGE_TAIL@);
    assert(bare.subrange(0, bare.len() - PAGE_TAIL@.len()) =~= head);
    assert(page_of(body, dark) =~= head + body + PAGE_TAIL@);
}

} // verus!
