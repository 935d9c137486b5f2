use vstd::prelude::*;
use crate::text::{
    chars_of, contains, contains_seq, decimal, decimal_of, ends_with, first_piece, first_piece_of,
    has_suffix, lower_of, lowercase,
};
use crate::urls::{encode, opt_view, url_encoded};

verus! {

/// Wikipedia search result.
#[derive(Debug, Clone)]
pub struct WikiSearchResult {
    /// Article title.
    pub title: String,
    /// Page ID.
    pub page_id: i64,
    /// Short snippet.
    pub snippet: String,
}

/// Wikipedia article content.
#[derive(Debug, Clone)]
pub struct WikiArticle {
    /// Article title.
    pub title: String,
    /// Page ID.
    pub page_id: i64,
    /// Article URL.
    pub url: String,
    /// Short summary (first paragraph).
    pub summary: Option<String>,
    /// Full article content in Markdown.
    pub content: Option<String>,
    /// Article images (URLs).
    pub images: Vec<String>,
    /// Article categories.
    pub categories: Vec<String>,
    /// Last modified timestamp.
    pub last_modified: Option<String>,
    /// Article language.
    pub language: String,
}

/// Wikipedia action type.
#[derive(Debug, Clone, Copy, PartialEq, Eq, Structural)]
pub enum WikiAction {
    /// Search for articles.
    Search,
    /// Get an article's summary.
    Summary,
    /// Get an article's full content.
    Full,
    /// Get a random article.
    Random,
}

/// The action named by `s` once in lowercase; anything else means a summary.
pub open spec fn action_named(s: Seq<char>) -> WikiAction {
    let l = lower_of(s);
    if l == "search"@ {
        WikiAction::Search
    } else if l == "full"@ {
        WikiAction::Full
    } else if l == "random"@ {
        WikiAction::Random
    } else {
        WikiAction::Summary
    }
}

impl WikiAction {
    /// Reads an action name in any case; an unknown name means `Summary`.
    pub fn from_str(s: &str) -> (r: WikiAction)
        ensures
            r == action_named(s@),
    {
        let l = lowercase(s);
        if l == String::from_str("search") {
            WikiAction::Search
        } else if l == String::from_str("full") {
            WikiAction::Full
        } else if l == String::from_str("random") {
            WikiAction::Random
        } else {
            WikiAction::Summary
        }
    }
}

/// Wikipedia query options.
#[derive(Debug, Clone)]
pub struct WikiOptions {
    /// Language code (en, ru, de, ...).
    pub language: String,
    /// Action type.
    pub action: WikiAction,
    /// Search limit (for the search action).
    pub limit: usize,
    /// Extract images.
    pub extract_images: bool,
}

impl Default for WikiOptions {
    fn default() -> (r: Self)
        ensures
            r.language@ == "en"@,
            r.action == WikiAction::Summary,
            r.limit == 10,
            r.extract_images,
    {
        WikiOptions {
            language: String::from_str("en"),
            action: WikiAction::Summary,
            limit: 10,
            extract_images: true,
        }
    }
}

/// The API address of the Wikipedia in `language`.
pub open spec fn api_of(language: Seq<char>) -> Seq<char> {
    "https://"@ + language + ".wikipedia.org/w/api.php?action=query"@
}

fn api(language: &str) -> (r: String)
    ensures
        r@ == api_of(language@),
{
    String::from_str("https://").concat(language).concat(".wikipedia.org/w/api.php?action=query")
}

/// The address of a search for `query`, at most `limit` results.
pub fn wiki_search_url(language: &str, query: &str, limit: usize) -> (r: String)
    ensures
        r@ == api_of(language@) + "&list=search&srsearch="@ + url_encoded(query@) + "&format=json&srlimit="@
            + decimal_of(limit as nat),
{
    let q = encode(query);
    let n = decimal(limit as u64);
    api(language).concat("&list=search&srsearch=").concat(q.as_str()).concat("&format=json&srlimit=").concat(
        n.as_str(),
    )
}

/// The address of the text, address, categories and images of the article `title`.
pub fn wiki_article_url(language: &str, title: &str) -> (r: String)
    ensures
        r@ == api_of(language@) + "&prop=extracts|info|categories|images&titles="@ + url_encoded(title@)
            + "&format=json&explaintext=1&exsectionformat=wiki&inprop=url&cllimit=50&imlimit=50"@,
{
    let t = encode(title);
    api(language).concat("&prop=extracts|info|categories|images&titles=").concat(t.as_str()).concat(
        "&format=json&explaintext=1&exsectionformat=wiki&inprop=url&cllimit=50&imlimit=50",
    )
}

/// The address of one random article.
pub fn wiki_random_url(language: &str) -> (r: String)
    ensures
        r@ == api_of(language@) + "&list=random&rnnamespace=0&rnlimit=1&format=json"@,
{
    api(language).concat("&list=random&rnnamespace=0&rnlimit=1&format=json")
}

/// The address of the images of the article `title`.
pub fn wiki_images_url(language: &str, title: &str) -> (r: String)
    ensures
        r@ == api_of(language@) + "&titles="@ + url_encoded(title@) + "&prop=images&format=json&imlimit=10"@,
{
    let t = encode(title);
    api(language).concat("&titles=").concat(t.as_str()).concat("&prop=images&format=json&imlimit=10")
}

/// The address of the file information of the image `image_title`.
pub fn wiki_image_info_url(language: &str, image_title: &str) -> (r: String)
    ensures
        r@ == api_of(language@) + "&titles="@ + url_encoded(image_title@)
            + "&prop=imageinfo&iiprop=url&format=json"@,
{
    let t = encode(image_title);
    api(language).concat("&titles=").concat(t.as_str()).concat("&prop=imageinfo&iiprop=url&format=json")
}

/// What the `regex` crate gives for `text` with every match of `pattern` replaced by
/// `replacement`; `None` where the pattern does not compile.
pub uninterp spec fn regex_replaced(pattern: Seq<char>, text: Seq<char>, replacement: Seq<char>) -> Option<
    Seq<char>,
>;

/// Relies on `regex::Regex::new` and `Regex::replace_all`.
#[verifier::external_body]
fn replace_all(pattern: &str, text: &str, replacement: &str) -> (r: Option<String>)
    ensures
        opt_view(r) == regex_replaced(pattern@, text@, replacement@),
{
    Some(regex::Regex::new(pattern).ok()?.replace_all(text, replacement).into_owned())
}

/// `html` with its tags (each `<` up to the next `>`) removed.
pub open spec fn tags_stripped(html: Seq<char>) -> Seq<char> {
    match regex_replaced("<[^>]*>"@, html, ""@) {
        Some(t) => t,
        None => html,
    }
}

/// Removes the HTML tags of `html`.
pub fn strip_html_tags(html: &str) -> (r: String)
    ensures
        r@ == tags_stripped(html@),
{
    match replace_all("<[^>]*>", html, "") {
        Some(t) => t,
        None => String::from_str(html),
    }
}

/// The fields of a search hit as the JSON gives them, each absent where missing or of
/// another type.
#[derive(Debug, Clone)]
pub struct WikiSearchFields {
    pub title: Option<String>,
    pub page_id: Option<i64>,
    pub snippet: Option<String>,
}

/// A search result as plain values.
pub open spec fn search_result_view(r: WikiSearchResult) -> (Seq<char>, i64, Seq<char>) {
    (r.title@, r.page_id, r.snippet@)
}

/// The results kept from the first `n` hits: those with a title, a page ID and a snippet,
/// whose tags are removed.
pub open spec fn search_results_upto(hits: Seq<WikiSearchFields>, n: int) -> Seq<(Seq<char>, i64, Seq<char>)>
    decreases n,
{
    if n <= 0 {
        Seq::empty()
    } else {
        let prev = search_results_upto(hits, n - 1);
        let h = hits[n - 1];
        match (h.title, h.page_id, h.snippet) {
            (Some(t), Some(id), Some(s)) => prev.push((t@, id, tags_stripped(s@))),
            _ => prev,
        }
    }
}

/// The search results of a response: hits with a title, a page ID and a snippet, in order,
/// with the snippet's HTML tags removed.
pub fn search_results_from_fields(hits: &Vec<WikiSearchFields>) -> (r: Vec<WikiSearchResult>)
    ensures
        r@.map_values(|x: WikiSearchResult| search_result_view(x)) == search_results_upto(
            hits@,
            hits@.len() as int,
        ),
{
    let mut out: Vec<WikiSearchResult> = Vec::new();
    let mut i: usize = 0;
    while i < hits.len()
        invariant
            i <= hits@.len(),
            out@.map_values(|x: WikiSearchResult| search_result_view(x)) == search_results_upto(hits@, i as int),
        decreases hits@.len() - i,
    {
        let h = &hits[i];
        match (&h.title, h.page_id, &h.snippet) {
            (Some(t), Some(id), Some(s)) => {
                let r = WikiSearchResult { title: t.clone(), page_id: id, snippet: strip_html_tags(s.as_str()) };
                let ghost before = out@.map_values(|x: WikiSearchResult| search_result_view(x));
                out.push(r);
                proof {
                    assert(out@.map_values(|x: WikiSearchResult| search_result_view(x)) =~= before.push(
                        search_result_view(r),
                    ));
                }
            },
            _ => {},
        }
        i = i + 1;
    }
    out
}

/// Whether an image of an article is kept: not an SVG file and no icon.
pub open spec fn kept_image(title: Seq<char>) -> bool {
    !has_suffix(title, ".svg"@) && !contains_seq(title, "Icon"@)
}

/// The image titles kept from the first `n` listed.
pub open spec fn images_upto(titles: Seq<Option<Seq<char>>>, n: int) -> Seq<Seq<char>>
    decreases n,
{
    if n <= 0 {
        Seq::empty()
    } else {
        let prev = images_upto(titles, n - 1);
        match titles[n - 1] {
            Some(t) => if kept_image(t) {
                prev.push(t)
            } else {
                prev
            },
            None => prev,
        }
    }
}

/// The image titles of an article whose addresses are looked up: the first five that are
/// present and kept.
pub fn image_titles(titles: &Vec<Option<String>>) -> (r: Vec<String>)
    ensures
        ({
            let all = images_upto(titles@.map_values(|t: Option<String>| opt_view(t)), titles@.len() as int);
            r@.map_values(|t: String| t@) == if all.len() <= 5 {
                all
            } else {
                all.subrange(0, 5)
            }
        }),
{
    let ghost tv = titles@.map_values(|t: Option<String>| opt_view(t));
    let mut out: Vec<String> = Vec::new();
    let mut i: usize = 0;
    while i < titles.len()
        invariant
            i <= titles@.len(),
            tv == titles@.map_values(|t: Option<String>| opt_view(t)),
            out@.len() <= 5,
            ({
                let all = images_upto(tv, i as int);
                out@.map_values(|t: String| t@) == if all.len() <= 5 {
                    all
                } else {
                    all.subrange(0, 5)
                }
            }),
        decreases titles@.len() - i,
    {
        let ghost prev = images_upto(tv, i as int);
        assert(tv[i as int] == opt_view(titles@[i as int]));
        match &titles[i] {
            Some(t) => {
                let v = chars_of(t.as_str());
                let keep = !ends_with(v.as_slice(), ".svg") && !contains(v.as_slice(), "Icon");
                if keep {
                    if out.len() < 5 {
                        let ghost before = out@.map_values(|t: String| t@);
                        out.push(t.clone());
                        proof {
                            assert(out@.map_values(|t: String| t@) =~= before.push(t@));
                        }
                    } else {
                        proof {
                            assert(prev.push(t@).subrange(0, 5) =~= prev.subrange(0, 5));
                        }
                    }
                }
            },
            None => {},
        }
        i = i + 1;
    }
    out
}

/// The fields of an article page as the JSON gives them; `missing` where the API marks the
/// page as missing.
#[derive(Debug, Clone)]
pub struct WikiPageFields {
    pub missing: bool,
    pub title: Option<String>,
    pub page_id: Option<i64>,
    pub full_url: Option<String>,
    pub extract: Option<String>,
    pub categories: Vec<Option<String>>,
    pub touched: Option<String>,
}

/// Why a Wikipedia article could not be had.
#[derive(Debug, Clone, PartialEq, Eq)]
pub enum WikiError {
    /// No article has this title.
    NotFound { title: String },
}

/// The categories kept from the first `n`: those with a title.
pub open spec fn categories_upto(c: Seq<Option<Seq<char>>>, n: int) -> Seq<Seq<char>>
    decreases n,
{
    if n <= 0 {
        Seq::empty()
    } else {
        match c[n - 1] {
            Some(t) => categories_upto(c, n - 1).push(t),
            None => categories_upto(c, n - 1),
        }
    }
}

fn present(v: &Vec<Option<String>>) -> (r: Vec<String>)
    ensures
        r@.map_values(|t: String| t@) == categories_upto(
            v@.map_values(|t: Option<String>| opt_view(t)),
            v@.len() as int,
        ),
{
    let ghost vv = v@.map_values(|t: Option<String>| opt_view(t));
    let mut out: Vec<String> = Vec::new();
    let mut i: usize = 0;
    while i < v.len()
        invariant
            i <= v@.len(),
            vv == v@.map_values(|t: Option<String>| opt_view(t)),
            out@.map_values(|t: String| t@) == categories_upto(vv, i as int),
        decreases v@.len() - i,
    {
        assert(vv[i as int] == opt_view(v@[i as int]));
        match &v[i] {
            Some(t) => {
                let ghost before = out@.map_values(|t: String| t@);
                out.push(t.clone());
                proof {
                    assert(out@.map_values(|t: String| t@) =~= before.push(t@));
                }
            },
            None => {},
        }
        i = i + 1;
    }
    out
}

/// Builds an article from its page fields and its image addresses: an article marked missing
/// is an error; the title defaults to the one asked for, the page ID to 0 and the address to
/// empty; the summary is the first paragraph of the text, and the full text is kept only for
/// the `Full` action.
pub fn article_from_page(
    page: &WikiPageFields,
    requested_title: &str,
    options: &WikiOptions,
    images: Vec<String>,
) -> (r: Result<WikiArticle, WikiError>)
    ensures
        page.missing ==> (r matches Err(WikiError::NotFound { title: t }) && t@ == requested_title@),
        !page.missing ==> (r matches Ok(a) && {
            &&& a.title@ == match page.title {
                Some(t) => t@,
                None => requested_title@,
            }
            &&& a.page_id == match page.page_id {
                Some(id) => id,
                None => 0,
            }
            &&& a.url@ == match page.full_url {
                Some(u) => u@,
                None => Seq::empty(),
            }
            &&& opt_view(a.summary) == match page.extract {
                Some(e) => Some(first_piece(e@, "\n\n"@)),
                None => None,
            }
            &&& opt_view(a.content) == match page.extract {
                Some(e) => if options.action == WikiAction::Full {
                    Some(e@)
                } else {
                    None
                },
                None => None,
            }
            &&& a.images == images
            &&& a.categories@.map_values(|t: String| t@) == categories_upto(
                page.categories@.map_values(|t: Option<String>| opt_view(t)),
                page.categories@.len() as int,
            )
            &&& opt_view(a.last_modified) == opt_view(page.touched)
            &&& a.language@ == options.language@
        }),
{
    if page.missing {
        return Err(WikiError::NotFound { title: String::from_str(requested_title) });
    }
    proof {
        reveal_strlit("\n\n");
    }
    let (summary, content) = match &page.extract {
        Some(e) => {
            let summary = first_piece_of(e.as_str(), "\n\n");
            let content = if options.action == WikiAction::Full {
                Some(e.clone())
            } else {
                None
            };
            (Some(summary), content)
        },
        None => (None, None),
    };
    Ok(WikiArticle {
        title: match &page.title {
            Some(t) => t.clone(),
            None => String::from_str(requested_title),
        },
        page_id: match page.page_id {
            Some(id) => id,
            None => 0,
        },
        url: match &page.full_url {
            Some(u) => u.clone(),
            None => String::new(),
        },
        summary,
        content,
        images,
        categories: present(&page.categories),
        last_modified: match &page.touched {
            Some(t) => Some(t.clone()),
            None => None,
        },
        language: options.language.clone(),
    })
}

} // verus!
