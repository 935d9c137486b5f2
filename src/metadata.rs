use vstd::prelude::*;
use crate::html::{attr, attr_of, element_view, html_select, join, joined, select_parts, ElementParts};
use crate::text::{chars_of, string_of, trim, trim_of};
use crate::urls::opt_view;
use crate::selector::SelectError;

verus! {

/// Page metadata extracted from HTML.
#[derive(Debug, Clone)]
pub struct PageMetadata {
    /// Page title.
    pub title: Option<String>,
    /// Meta description.
    pub description: Option<String>,
    /// Open Graph image URL.
    pub og_image: Option<String>,
    /// Open Graph title.
    pub og_title: Option<String>,
    /// Open Graph description.
    pub og_description: Option<String>,
    /// Page author.
    pub author: Option<String>,
    /// Publication date.
    pub published_date: Option<String>,
    /// Canonical URL.
    pub canonical_url: Option<String>,
    /// Page language.
    pub language: Option<String>,
    /// Keywords.
    pub keywords: Option<Vec<String>>,
    /// Twitter card type.
    pub twitter_card: Option<String>,
}

/// The value of attribute `key` of the first element of `html` that `selector` selects.
pub open spec fn first_attr(html: Seq<char>, selector: Seq<char>, key: Seq<char>) -> Option<Seq<char>> {
    match html_select(html, selector) {
        Some(found) => if found.len() > 0 {
            attr_of(found[0].3, key)
        } else {
            None
        },
        None => None,
    }
}

fn first_attr_exec(html: &str, selector: &str, key: &str) -> (r: Option<String>)
    ensures
        opt_view(r) == first_attr(html@, selector@, key@),
{
    match select_parts(html, selector) {
        Some(found) => {
            if found.len() > 0 {
                let ghost fv = found@.map_values(|e: ElementParts| element_view(e));
                assert(fv[0] == element_view(found@[0]));
                attr(&found[0].attrs, key)
            } else {
                None
            }
        },
        None => None,
    }
}

/// The `content` of the first `meta` element whose attribute `kind` is `value`.
pub open spec fn meta_content(html: Seq<char>, kind: Seq<char>, value: Seq<char>) -> Option<Seq<char>> {
    first_attr(html, "meta["@ + kind + "='"@ + value + "']"@, "content"@)
}

fn meta_exec(html: &str, kind: &str, value: &str) -> (r: Option<String>)
    ensures
        opt_view(r) == meta_content(html@, kind@, value@),
{
    let selector = String::from_str("meta[").concat(kind).concat("='").concat(value).concat("']");
    first_attr_exec(html, selector.as_str(), "content")
}

/// The pieces of `s` between the separators `c`.
pub open spec fn split_state(s: Seq<char>, c: char) -> (Seq<Seq<char>>, Seq<char>)
    decreases s.len(),
{
    if s.len() == 0 {
        (Seq::empty(), Seq::empty())
    } else {
        let (done, open) = split_state(s.drop_last(), c);
        if s.last() == c {
            (done.push(open), Seq::empty())
        } else {
            (done, open.push(s.last()))
        }
    }
}

/// `s` split at each `c`, as `str::split` gives it: one piece more than there are separators.
pub open spec fn split_on(s: Seq<char>, c: char) -> Seq<Seq<char>> {
    let (done, open) = split_state(s, c);
    done.push(open)
}

/// The keywords of a `keywords` meta value: split at commas, each trimmed.
pub open spec fn keywords_of(s: Seq<char>) -> Seq<Seq<char>> {
    split_on(s, ',').map_values(|k: Seq<char>| trim_of(k))
}

fn split_keywords(s: &String) -> (r: Vec<String>)
    ensures
        r@.map_values(|k: String| k@) == keywords_of(s@),
{
    let v = chars_of(s.as_str());
    let mut done: Vec<String> = Vec::new();
    let mut open: Vec<char> = Vec::new();
    let ghost raw: Seq<Seq<char>> = Seq::empty();
    let mut i: usize = 0;
    while i < v.len()
        invariant
            v@ == s@,
            i <= v@.len(),
            (raw, open@) == split_state(v@.subrange(0, i as int), ','),
            done@.map_values(|k: String| k@) == raw.map_values(|k: Seq<char>| trim_of(k)),
        decreases v@.len() - i,
    {
        let c = v[i];
        proof {
            assert(v@.subrange(0, i + 1).drop_last() =~= v@.subrange(0, i as int));
        }
        if c == ',' {
            let piece = string_of(open.as_slice());
            let t = trim(piece.as_str());
            let ghost before = done@.map_values(|k: String| k@);
            done.push(t);
            proof {
                assert(done@.map_values(|k: String| k@) =~= before.push(t@));
                assert(raw.push(open@).map_values(|k: Seq<char>| trim_of(k)) =~= raw.map_values(
                    |k: Seq<char>| trim_of(k),
                ).push(trim_of(open@)));
                raw = raw.push(open@);
            }
            open = Vec::new();
        } else {
            open.push(c);
        }
        i = i + 1;
    }
    assert(v@.subrange(0, v@.len() as int) =~= v@);
    let piece = string_of(open.as_slice());
    let t = trim(piece.as_str());
    let ghost before = done@.map_values(|k: String| k@);
    done.push(t);
    proof {
        assert(done@.map_values(|k: String| k@) =~= before.push(t@));
        assert(raw.push(open@).map_values(|k: Seq<char>| trim_of(k)) =~= raw.map_values(
            |k: Seq<char>| trim_of(k),
        ).push(trim_of(open@)));
    }
    done
}

/// The title of a page: the text of its first `title` element, trimmed.
pub open spec fn title_of(html: Seq<char>) -> Option<Seq<char>> {
    match html_select(html, "title"@) {
        Some(found) => if found.len() > 0 {
            Some(trim_of(joined(found[0].1, ""@)))
        } else {
            None
        },
        None => None,
    }
}

fn title_exec(html: &str) -> (r: Option<String>)
    ensures
        opt_view(r) == title_of(html@),
{
    match select_parts(html, "title") {
        Some(found) => {
            if found.len() > 0 {
                let ghost fv = found@.map_values(|e: ElementParts| element_view(e));
                assert(fv[0] == element_view(found@[0]));
                let all = join(&found[0].texts, "");
                Some(trim(all.as_str()))
            } else {
                None
            }
        },
        None => None,
    }
}

/// The plain values of optional keywords.
pub open spec fn keywords_view(k: Option<Vec<String>>) -> Option<Seq<Seq<char>>> {
    match k {
        Some(v) => Some(v@.map_values(|s: String| s@)),
        None => None,
    }
}

/// Extracts the metadata of an HTML page found at `url`: title, the `description`, `author`,
/// `keywords` and `twitter:card` meta names, the Open Graph properties, the publication time
/// (as a meta name, else as a property) and the language of the `html` element. It never
/// fails.
pub fn extract_metadata(html: &str, url: &str) -> (r: Result<PageMetadata, SelectError>)
    ensures
        r matches Ok(m) && {
            &&& opt_view(m.title) == title_of(html@)
            &&& opt_view(m.description) == meta_content(html@, "name"@, "description"@)
            &&& opt_view(m.og_image) == meta_content(html@, "property"@, "og:image"@)
            &&& opt_view(m.og_title) == meta_content(html@, "property"@, "og:title"@)
            &&& opt_view(m.og_description) == meta_content(html@, "property"@, "og:description"@)
            &&& opt_view(m.author) == meta_content(html@, "name"@, "author"@)
            &&& opt_view(m.published_date) == match meta_content(
                html@,
                "name"@,
                "article:published_time"@,
            ) {
                Some(d) => Some(d),
                None => meta_content(html@, "property"@, "article:published_time"@),
            }
            &&& opt_view(m.canonical_url) == Some(url@)
            &&& opt_view(m.language) == first_attr(html@, "html"@, "lang"@)
            &&& keywords_view(m.keywords) == match meta_content(html@, "name"@, "keywords"@) {
                Some(k) => Some(keywords_of(k)),
                None => None,
            }
            &&& opt_view(m.twitter_card) == meta_content(html@, "name"@, "twitter:card"@)
        },
{
    let title = title_exec(html);
    let keywords = match meta_exec(html, "name", "keywords") {
        Some(k) => Some(split_keywords(&k)),
        None => None,
    };
    let language = first_attr_exec(html, "html", "lang");
    let published_date = match meta_exec(html, "name", "article:published_time") {
        Some(d) => Some(d),
        None => meta_exec(html, "property", "article:published_time"),
    };
    Ok(PageMetadata {
        title,
        description: meta_exec(html, "name", "description"),
        og_image: meta_exec(html, "property", "og:image"),
        og_title: meta_exec(html, "property", "og:title"),
        og_description: meta_exec(html, "property", "og:description"),
        author: meta_exec(html, "name", "author"),
        published_date,
        canonical_url: Some(String::from_str(url)),
        language,
        keywords,
        twitter_card: meta_exec(html, "name", "twitter:card"),
    })
}

} // verus!
