use vstd::prelude::*;
use crate::urls::{parse_url, parsed_url};

verus! {

/// Why HTML could not be converted.
#[derive(Debug, Clone, Copy, PartialEq, Eq)]
pub enum ConvertError {
    /// The page URL does not parse.
    InvalidUrl,
    /// The HTML could not be rendered as text.
    Rendering,
}

/// The width, in columns, of rendered text.
pub const TEXT_WIDTH: usize = 80;

/// What `html2text::from_read` gives for `html` at `width` columns; `None` where it fails.
pub uninterp spec fn rendered_text(html: Seq<char>, width: usize) -> Option<Seq<char>>;

/// Relies on `html2text::from_read`.
#[verifier::external_body]
fn render_text(html: &str, width: usize) -> (r: Option<String>)
    ensures
        crate::urls::opt_view(r) == rendered_text(html@, width),
{
    html2text::from_read(html.as_bytes(), width).ok()
}

/// What `readability::extractor::extract` keeps of `html` at `url` as the main content
/// (HTML); `None` where it fails or `url` does not parse.
pub uninterp spec fn readable_html(html: Seq<char>, url: Seq<char>) -> Option<Seq<char>>;

/// Relies on `url::Url::parse` and `readability::extractor::extract`, taking the `content`
/// of its result.
#[verifier::external_body]
fn readable_content(html: &str, url: &str) -> (r: Option<String>)
    ensures
        crate::urls::opt_view(r) == readable_html(html@, url@),
{
    let url = url::Url::parse(url).ok()?;
    let mut cursor = std::io::Cursor::new(html.as_bytes());
    readability::extractor::extract(&mut cursor, &url).ok().map(|p| p.content)
}

/// Renders HTML as plain text 80 columns wide; where rendering fails, the HTML itself.
pub fn html_to_text(html: &str) -> (r: String)
    ensures
        r@ == match rendered_text(html@, TEXT_WIDTH) {
            Some(t) => t,
            None => html@,
        },
{
    match render_text(html, TEXT_WIDTH) {
        Some(t) => t,
        None => String::from_str(html),
    }
}

/// The Markdown-like text of a page: its main content as readability finds it, rendered
/// 80 columns wide; the whole page where readability finds nothing.
pub fn html_to_markdown(html: &str, url: &str) -> (r: Result<String, ConvertError>)
    ensures
        parsed_url(url@) is None ==> r == Err::<String, ConvertError>(ConvertError::InvalidUrl),
        parsed_url(url@) is Some ==> ({
            let source = match readable_html(html@, url@) {
                Some(c) => c,
                None => html@,
            };
            match rendered_text(source, TEXT_WIDTH) {
                Some(t) => r matches Ok(v) && v@ == t,
                None => r == Err::<String, ConvertError>(ConvertError::Rendering),
            }
        }),
{
    if parse_url(url).is_none() {
        return Err(ConvertError::InvalidUrl);
    }
    let rendered = match readable_content(html, url) {
        Some(content) => render_text(content.as_str(), TEXT_WIDTH),
        None => render_text(html, TEXT_WIDTH),
    };
    match rendered {
        Some(t) => Ok(t),
        None => Err(ConvertError::Rendering),
    }
}

} // verus!
