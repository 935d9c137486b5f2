use vstd::prelude::*;
use crate::html::{attr, attr_of, element_text, element_view, html_select, select_parts, text_of, ElementParts, ElementView};
use crate::text::{chars_of, has_prefix, starts_with};
use crate::urls::{host_of, join_url, joined_url, opt_view, parse_url, parsed_url, url_host};

verus! {

/// Extracted link information.
#[derive(Debug, Clone, PartialEq, Eq, Hash)]
pub struct LinkInfo {
    /// Link URL (absolute).
    pub href: String,
    /// Link text content.
    pub text: String,
    /// Link title attribute (if present).
    pub title: Option<String>,
    /// Link rel attribute (if present).
    pub rel: Option<String>,
    /// Whether the link stays on the host of the page.
    pub is_internal: bool,
}

/// Link extraction options.
#[derive(Debug, Clone)]
pub struct LinkExtractionOptions {
    /// Keep only links to the page's own host.
    pub internal_only: bool,
    /// Keep only links to other hosts.
    pub external_only: bool,
    /// Keep only the first link to each URL.
    pub deduplicate: bool,
}

impl Default for LinkExtractionOptions {
    fn default() -> (r: Self)
        ensures
            !r.internal_only,
            !r.external_only,
            r.deduplicate,
    {
        LinkExtractionOptions { internal_only: false, external_only: false, deduplicate: true }
    }
}

/// Why links could not be extracted.
#[derive(Debug, Clone, Copy, PartialEq, Eq)]
pub enum LinkError {
    /// The selector of link elements was refused.
    Selector,
    /// The base URL does not parse.
    InvalidBaseUrl,
}

/// An `<a href>` element: its `href`, its text nodes, its `title` and its `rel`.
pub struct Anchor {
    pub href: String,
    pub texts: Vec<String>,
    pub title: Option<String>,
    pub rel: Option<String>,
}

/// An anchor as plain values.
pub type AnchorView = (Seq<char>, Seq<Seq<char>>, Option<Seq<char>>, Option<Seq<char>>);

/// The plain values of an anchor.
pub open spec fn anchor_view(a: Anchor) -> AnchorView {
    (a.href@, a.texts@.map_values(|t: String| t@), opt_view(a.title), opt_view(a.rel))
}

/// The anchor of a selected element: its `href` (empty if absent), text nodes, `title`
/// and `rel`.
pub open spec fn anchor_of(e: ElementView) -> AnchorView {
    (
        match attr_of(e.3, "href"@) {
            Some(h) => h,
            None => Seq::empty(),
        },
        e.1,
        attr_of(e.3, "title"@),
        attr_of(e.3, "rel"@),
    )
}

/// The anchors of `html`: the elements that the selector `a[href]` finds, in document order;
/// `None` where the selector is refused.
pub open spec fn html_anchors(html: Seq<char>) -> Option<Seq<AnchorView>> {
    match html_select(html, "a[href]"@) {
        Some(found) => Some(found.map_values(|e: ElementView| anchor_of(e))),
        None => None,
    }
}

fn copy_strings(v: &Vec<String>) -> (r: Vec<String>)
    ensures
        r@.map_values(|t: String| t@) == v@.map_values(|t: String| t@),
{
    let mut out: Vec<String> = Vec::new();
    let mut i: usize = 0;
    while i < v.len()
        invariant
            i <= v@.len(),
            out@.map_values(|t: String| t@) == v@.subrange(0, i as int).map_values(|t: String| t@),
        decreases v@.len() - i,
    {
        let t = v[i].clone();
        let ghost before = out@.map_values(|t: String| t@);
        out.push(t);
        proof {
            assert(out@.map_values(|t: String| t@) =~= before.push(t@));
            assert(v@.subrange(0, i + 1).map_values(|t: String| t@) =~= v@.subrange(0, i as int).map_values(
                |t: String| t@,
            ).push(v@[i as int]@));
        }
        i = i + 1;
    }
    assert(v@.subrange(0, v@.len() as int) =~= v@);
    out
}

/// The anchors of an HTML page: its `<a href>` elements in document order.
pub fn anchors_in(html: &str) -> (r: Option<Vec<Anchor>>)
    ensures
        match html_anchors(html@) {
            Some(v) => r matches Some(a) && a@.map_values(|x: Anchor| anchor_view(x)) == v,
            None => r is None,
        },
{
    let found = match select_parts(html, "a[href]") {
        Some(found) => found,
        None => {
            return None;
        },
    };
    let ghost fv = found@.map_values(|e: ElementParts| element_view(e));
    let mut out: Vec<Anchor> = Vec::new();
    let mut i: usize = 0;
    while i < found.len()
        invariant
            i <= found@.len(),
            fv == found@.map_values(|e: ElementParts| element_view(e)),
            out@.map_values(|x: Anchor| anchor_view(x)) == fv.subrange(0, i as int).map_values(
                |e: ElementView| anchor_of(e),
            ),
        decreases found@.len() - i,
    {
        let e = &found[i];
        assert(fv[i as int] == element_view(*e));
        let href = match attr(&e.attrs, "href") {
            Some(h) => h,
            None => String::new(),
        };
        let a = Anchor {
            href,
            texts: copy_strings(&e.texts),
            title: attr(&e.attrs, "title"),
            rel: attr(&e.attrs, "rel"),
        };
        let ghost before = out@.map_values(|x: Anchor| anchor_view(x));
        out.push(a);
        proof {
            assert(out@.map_values(|x: Anchor| anchor_view(x)) =~= before.push(anchor_view(a)));
            assert(fv.subrange(0, i + 1).map_values(|e: ElementView| anchor_of(e)) =~= fv.subrange(
                0,
                i as int,
            ).map_values(|e: ElementView| anchor_of(e)).push(anchor_of(fv[i as int])));
        }
        i = i + 1;
    }
    assert(fv.subrange(0, fv.len() as int) =~= fv);
    Some(out)
}

/// A link as plain values: URL, text, title, rel and whether it is internal.
pub type LinkView = (Seq<char>, Seq<char>, Option<Seq<char>>, Option<Seq<char>>, bool);

/// The plain values of a link.
pub open spec fn link_view(l: LinkInfo) -> LinkView {
    (l.href@, l.text@, opt_view(l.title), opt_view(l.rel), l.is_internal)
}

/// Targets that are no page: empty, a fragment, or a `javascript:`, `mailto:` or `tel:` URL.
pub open spec fn skipped_href(h: Seq<char>) -> bool {
    ||| h.len() == 0
    ||| has_prefix(h, "#"@)
    ||| has_prefix(h, "javascript:"@)
    ||| has_prefix(h, "mailto:"@)
    ||| has_prefix(h, "tel:"@)
}

/// Whether `url` is on the host of `base`: both have a host and it is the same.
pub open spec fn same_host(url: Seq<char>, base: Seq<char>) -> bool {
    match (url_host(url), url_host(base)) {
        (Some(h), Some(b)) => h == b,
        _ => false,
    }
}

/// The link that an anchor gives on a page at `base`, if it is kept.
pub open spec fn link_of(a: AnchorView, base: Seq<char>, options: LinkExtractionOptions) -> Option<
    LinkView,
> {
    if skipped_href(a.0) {
        None
    } else {
        match joined_url(base, a.0) {
            None => None,
            Some(abs) => {
                let internal = same_host(abs, base);
                if (options.internal_only && !internal) || (options.external_only && internal) {
                    None
                } else {
                    Some((abs, element_text(a.1), a.2, a.3, internal))
                }
            },
        }
    }
}

/// Whether some link of `links` points to `href`.
pub open spec fn has_href(links: Seq<LinkView>, href: Seq<char>) -> bool {
    exists|i: int| 0 <= i < links.len() && (#[trigger] links[i]).0 == href
}

/// The links kept from the first `n` anchors, in document order.
pub open spec fn links_upto(
    anchors: Seq<AnchorView>,
    base: Seq<char>,
    options: LinkExtractionOptions,
    n: int,
) -> Seq<LinkView>
    decreases n,
{
    if n <= 0 {
        Seq::empty()
    } else {
        let prev = links_upto(anchors, base, options, n - 1);
        match link_of(anchors[n - 1], base, options) {
            Some(l) => if options.deduplicate && has_href(prev, l.0) {
                prev
            } else {
                prev.push(l)
            },
            None => prev,
        }
    }
}

fn skip_href(h: &String) -> (r: bool)
    ensures
        r == skipped_href(h@),
{
    let v = chars_of(h.as_str());
    v.len() == 0 || starts_with(v.as_slice(), "#") || starts_with(v.as_slice(), "javascript:")
        || starts_with(v.as_slice(), "mailto:") || starts_with(v.as_slice(), "tel:")
}

fn contains_href(links: &Vec<LinkInfo>, href: &String) -> (r: bool)
    ensures
        r == has_href(links@.map_values(|l: LinkInfo| link_view(l)), href@),
{
    let ghost views = links@.map_values(|l: LinkInfo| link_view(l));
    let mut i: usize = 0;
    while i < links.len()
        invariant
            i <= links@.len(),
            views == links@.map_values(|l: LinkInfo| link_view(l)),
            forall|k: int| 0 <= k < i ==> (#[trigger] views[k]).0 != href@,
        decreases links@.len() - i,
    {
        if links[i].href == *href {
            assert(views[i as int].0 == href@);
            return true;
        }
        i = i + 1;
    }
    false
}

fn same_host_exec(url: &String, base_host: &Option<String>, base: &str) -> (r: bool)
    requires
        opt_view(*base_host) == url_host(base@),
    ensures
        r == same_host(url@, base@),
{
    match (host_of(url.as_str()), base_host) {
        (Some(h), Some(b)) => h == *b,
        _ => false,
    }
}

/// The links that `anchors` give on a page at `base_url`: each anchor whose target is a
/// page, resolved against `base_url`, filtered by host as `options` asks, and, when
/// deduplicating, only the first link to each URL.
pub fn links_from_anchors(anchors: &[Anchor], base_url: &str, options: LinkExtractionOptions) -> (r:
    Result<Vec<LinkInfo>, LinkError>)
    ensures
        parsed_url(base_url@) is None ==> r == Err::<Vec<LinkInfo>, LinkError>(
            LinkError::InvalidBaseUrl,
        ),
        parsed_url(base_url@) is Some ==> (r matches Ok(v) && v@.map_values(|l: LinkInfo| link_view(l))
            == links_upto(
            anchors@.map_values(|x: Anchor| anchor_view(x)),
            base_url@,
            options,
            anchors@.len() as int,
        )),
{
    let found = anchors;
    if parse_url(base_url).is_none() {
        return Err(LinkError::InvalidBaseUrl);
    }
    let ghost av = found@.map_values(|x: Anchor| anchor_view(x));
    let base_host = host_of(base_url);
    let mut links: Vec<LinkInfo> = Vec::new();
    let mut i: usize = 0;
    while i < found.len()
        invariant
            i <= found@.len(),
            av == found@.map_values(|x: Anchor| anchor_view(x)),
            opt_view(base_host) == url_host(base_url@),
            links@.map_values(|l: LinkInfo| link_view(l)) == links_upto(av, base_url@, options, i as int),
        decreases found@.len() - i,
    {
        let a = &found[i];
        let ghost prev = links@.map_values(|l: LinkInfo| link_view(l));
        assert(anchor_view(*a) == av[i as int]);
        if !skip_href(&a.href) {
            match join_url(base_url, a.href.as_str()) {
                None => {},
                Some(abs) => {
                    let internal = same_host_exec(&abs, &base_host, base_url);
                    let filtered = (options.internal_only && !internal) || (options.external_only
                        && internal);
                    if !filtered {
                        let dup = options.deduplicate && contains_href(&links, &abs);
                        if !dup {
                            let text = text_of(&a.texts);
                            let link = LinkInfo {
                                href: abs,
                                text,
                                title: a.title.clone(),
                                rel: a.rel.clone(),
                                is_internal: internal,
                            };
                            links.push(link);
                            proof {
                                assert(links@.map_values(|l: LinkInfo| link_view(l)) =~= prev.push(
                                    link_view(link),
                                ));
                            }
                        }
                    }
                },
            }
        }
        i = i + 1;
    }
    Ok(links)
}

/// Extracts the links of an HTML page at `base_url`: each `<a href>` whose target is a page,
/// resolved against `base_url`, filtered by host as `options` asks, and, when deduplicating,
/// only the first link to each URL.
pub fn extract_links(html: &str, base_url: &str, options: LinkExtractionOptions) -> (r: Result<
    Vec<LinkInfo>,
    LinkError,
>)
    ensures
        html_anchors(html@) is None ==> r == Err::<Vec<LinkInfo>, LinkError>(LinkError::Selector),
        html_anchors(html@) is Some && parsed_url(base_url@) is None ==> r == Err::<
            Vec<LinkInfo>,
            LinkError,
        >(LinkError::InvalidBaseUrl),
        html_anchors(html@) is Some && parsed_url(base_url@) is Some ==> (r matches Ok(v)
            && v@.map_values(|l: LinkInfo| link_view(l)) == links_upto(
            html_anchors(html@)->0,
            base_url@,
            options,
            html_anchors(html@)->0.len() as int,
        )),
{
    match anchors_in(html) {
        Some(found) => links_from_anchors(found.as_slice(), base_url, options),
        None => Err(LinkError::Selector),
    }
}

/// Extracts the links of an HTML page that stay on the host of `base_url`, deduplicated.
pub fn extract_internal_links(html: &str, base_url: &str) -> (r: Result<Vec<LinkInfo>, LinkError>)
    ensures
        html_anchors(html@) is None ==> r == Err::<Vec<LinkInfo>, LinkError>(LinkError::Selector),
        html_anchors(html@) is Some && parsed_url(base_url@) is None ==> r == Err::<
            Vec<LinkInfo>,
            LinkError,
        >(LinkError::InvalidBaseUrl),
        html_anchors(html@) is Some && parsed_url(base_url@) is Some ==> (r matches Ok(v)
            && v@.map_values(|l: LinkInfo| link_view(l)) == links_upto(
            html_anchors(html@)->0,
            base_url@,
            LinkExtractionOptions { internal_only: true, external_only: false, deduplicate: true },
            html_anchors(html@)->0.len() as int,
        )),
{
    extract_links(
        html,
        base_url,
        LinkExtractionOptions { internal_only: true, external_only: false, deduplicate: true },
    )
}

/// Extracts the links of an HTML page that lead off the host of `base_url`, deduplicated.
pub fn extract_external_links(html: &str, base_url: &str) -> (r: Result<Vec<LinkInfo>, LinkError>)
    ensures
        html_anchors(html@) is None ==> r == Err::<Vec<LinkInfo>, LinkError>(LinkError::Selector),
        html_anchors(html@) is Some && parsed_url(base_url@) is None ==> r == Err::<
            Vec<LinkInfo>,
            LinkError,
        >(LinkError::InvalidBaseUrl),
        html_anchors(html@) is Some && parsed_url(base_url@) is Some ==> (r matches Ok(v)
            && v@.map_values(|l: LinkInfo| link_view(l)) == links_upto(
            html_anchors(html@)->0,
            base_url@,
            LinkExtractionOptions { internal_only: false, external_only: true, deduplicate: true },
            html_anchors(html@)->0.len() as int,
        )),
{
    extract_links(
        html,
        base_url,
        LinkExtractionOptions { internal_only: false, external_only: true, deduplicate: true },
    )
}

} // verus!
