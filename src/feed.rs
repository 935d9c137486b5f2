use vstd::prelude::*;
use feed_rs::model::FeedType;
use crate::urls::opt_view;

verus! {

/// Feed information (RSS, Atom or JSON Feed).
#[derive(Debug, Clone)]
pub struct FeedInfo {
    /// Feed title.
    pub title: String,
    /// Feed description.
    pub description: Option<String>,
    /// Feed link.
    pub link: Option<String>,
    /// Feed type (RSS 2.0, Atom, JSON Feed, ...).
    pub feed_type: String,
    /// Feed items.
    pub items: Vec<FeedItem>,
}

/// A single feed item.
#[derive(Debug, Clone)]
pub struct FeedItem {
    /// Item title.
    pub title: Option<String>,
    /// Item link.
    pub link: Option<String>,
    /// Publication date (RFC 3339).
    pub published: Option<String>,
    /// Item content or summary.
    pub content: Option<String>,
    /// Item author.
    pub author: Option<String>,
}

/// Why a feed could not be read.
#[derive(Debug, Clone, Copy, PartialEq, Eq)]
pub enum FeedError {
    /// The content is no feed that the parser reads.
    Parse,
}

/// The format of a feed.
#[derive(Debug, Clone, Copy, PartialEq, Eq, Structural)]
pub enum FeedKind {
    Atom,
    Json,
    Rss0,
    Rss1,
    Rss2,
}

/// The parts of a feed: format, title, description and link targets.
pub struct FeedHead {
    pub kind: FeedKind,
    pub title: Option<String>,
    pub description: Option<String>,
    pub links: Vec<String>,
}

/// The parts of an entry: title, link targets, content body, summary, author names, and
/// publication and update times in RFC 3339.
pub struct EntryParts {
    pub title: Option<String>,
    pub links: Vec<String>,
    pub body: Option<String>,
    pub summary: Option<String>,
    pub authors: Vec<Option<String>>,
    pub published: Option<String>,
    pub updated: Option<String>,
}

/// A feed's parts as plain values.
pub type HeadView = (FeedKind, Option<Seq<char>>, Option<Seq<char>>, Seq<Seq<char>>);

/// An entry's parts as plain values.
pub type EntryView = (
    Option<Seq<char>>,
    Seq<Seq<char>>,
    Option<Seq<char>>,
    Option<Seq<char>>,
    Seq<Option<Seq<char>>>,
    Option<Seq<char>>,
    Option<Seq<char>>,
);

/// Strings as plain values.
pub open spec fn strings_view(v: Vec<String>) -> Seq<Seq<char>> {
    v@.map_values(|s: String| s@)
}

/// The plain values of a feed's parts.
pub open spec fn head_view(h: FeedHead) -> HeadView {
    (h.kind, opt_view(h.title), opt_view(h.description), strings_view(h.links))
}

/// The plain values of an entry's parts.
pub open spec fn entry_view(e: EntryParts) -> EntryView {
    (
        opt_view(e.title),
        strings_view(e.links),
        opt_view(e.body),
        opt_view(e.summary),
        e.authors@.map_values(|a: Option<String>| opt_view(a)),
        opt_view(e.published),
        opt_view(e.updated),
    )
}

/// What `feed_rs::parser::parse` reads from `content`; `None` where it fails.
pub uninterp spec fn parsed_feed(content: Seq<char>) -> Option<(HeadView, Seq<EntryView>)>;

/// Relies on `feed_rs::parser::parse`, taking from the feed its type, title, description and
/// links.
#[verifier::external_body]
fn read_feed_head(content: &str) -> (r: Option<FeedHead>)
    ensures
        match parsed_feed(content@) {
            Some((h, _)) => r matches Some(head) && head_view(head) == h,
            None => r is None,
        },
{
    let f = feed_rs::parser::parse(content.as_bytes()).ok()?;
    let kind = match f.feed_type {
        FeedType::Atom => FeedKind::Atom,
        FeedType::JSON => FeedKind::Json,
        FeedType::RSS0 => FeedKind::Rss0,
        FeedType::RSS1 => FeedKind::Rss1,
        FeedType::RSS2 => FeedKind::Rss2,
    };
    let links = f.links.into_iter().map(|l| l.href).collect();
    Some(FeedHead { kind, title: f.title.map(|t| t.content), description: f.description.map(|t| t.content), links })
}

/// Relies on `feed_rs::parser::parse`, taking from each entry its title, links, content body,
/// summary, author names, and publication and update times (`to_rfc3339`).
#[verifier::external_body]
fn read_feed_entries(content: &str) -> (r: Option<Vec<EntryParts>>)
    ensures
        match parsed_feed(content@) {
            Some((_, es)) => r matches Some(v) && v@.map_values(|e: EntryParts| entry_view(e)) == es,
            None => r is None,
        },
{
    let f = feed_rs::parser::parse(content.as_bytes()).ok()?;
    Some(f.entries.into_iter().map(|e| EntryParts {
        title: e.title.map(|t| t.content),
        links: e.links.into_iter().map(|l| l.href).collect(),
        body: e.content.and_then(|c| c.body),
        summary: e.summary.map(|s| s.content),
        authors: e.authors.into_iter().map(|a| a.name).collect(),
        published: e.published.map(|d| d.to_rfc3339()),
        updated: e.updated.map(|d| d.to_rfc3339()),
    }).collect())
}

/// The name of a feed format.
pub open spec fn kind_name(k: FeedKind) -> Seq<char> {
    match k {
        FeedKind::Atom => "Atom"@,
        FeedKind::Json => "JSON Feed"@,
        FeedKind::Rss0 => "RSS 0.9"@,
        FeedKind::Rss1 => "RSS 1.0"@,
        FeedKind::Rss2 => "RSS 2.0"@,
    }
}

/// The first of `v`, if any.
pub open spec fn first_of(v: Seq<Seq<char>>) -> Option<Seq<char>> {
    if v.len() > 0 {
        Some(v[0])
    } else {
        None
    }
}

/// `a`, or else `b`.
pub open spec fn or_else(a: Option<Seq<char>>, b: Option<Seq<char>>) -> Option<Seq<char>> {
    match a {
        Some(x) => Some(x),
        None => b,
    }
}

/// An item as plain values: title, link, published, content, author.
pub type ItemView = (Option<Seq<char>>, Option<Seq<char>>, Option<Seq<char>>, Option<Seq<char>>, Option<Seq<char>>);

/// The plain values of an item.
pub open spec fn item_view(i: FeedItem) -> ItemView {
    (opt_view(i.title), opt_view(i.link), opt_view(i.published), opt_view(i.content), opt_view(i.author))
}

/// The name of the first author, if there is one and it has a name.
pub open spec fn first_name(v: Seq<Option<Seq<char>>>) -> Option<Seq<char>> {
    if v.len() > 0 {
        v[0]
    } else {
        None
    }
}

/// The item of an entry: its title, first link, publication time (else update time),
/// content body (else summary) and first author.
pub open spec fn item_of(e: EntryView) -> ItemView {
    (e.0, first_of(e.1), or_else(e.5, e.6), or_else(e.2, e.3), first_name(e.4))
}

fn first(v: &Vec<String>) -> (r: Option<String>)
    ensures
        opt_view(r) == first_of(strings_view(*v)),
{
    if v.len() > 0 {
        Some(v[0].clone())
    } else {
        None
    }
}

fn first_author(v: &Vec<Option<String>>) -> (r: Option<String>)
    ensures
        opt_view(r) == first_name(v@.map_values(|a: Option<String>| opt_view(a))),
{
    if v.len() > 0 {
        match &v[0] {
            Some(n) => Some(n.clone()),
            None => None,
        }
    } else {
        None
    }
}

fn either(a: Option<String>, b: Option<String>) -> (r: Option<String>)
    ensures
        opt_view(r) == or_else(opt_view(a), opt_view(b)),
{
    match a {
        Some(x) => Some(x),
        None => b,
    }
}

/// Reads a feed and keeps at most `max_items` of its items, in order. A feed without a title
/// is called "Untitled Feed".
pub fn parse_feed(content: &str, max_items: usize) -> (r: Result<FeedInfo, FeedError>)
    ensures
        parsed_feed(content@) is None ==> r == Err::<FeedInfo, FeedError>(FeedError::Parse),
        parsed_feed(content@) matches Some((h, es)) ==> (r matches Ok(info) && {
            let n = if es.len() < max_items {
                es.len() as int
            } else {
                max_items as int
            };
            &&& info.title@ == match h.1 {
                Some(t) => t,
                None => "Untitled Feed"@,
            }
            &&& opt_view(info.description) == h.2
            &&& opt_view(info.link) == first_of(h.3)
            &&& info.feed_type@ == kind_name(h.0)
            &&& info.items@.map_values(|i: FeedItem| item_view(i)) == es.subrange(0, n).map_values(
                |e: EntryView| item_of(e),
            )
        }),
{
    let head = match read_feed_head(content) {
        Some(head) => head,
        None => {
            return Err(FeedError::Parse);
        },
    };
    let entries = match read_feed_entries(content) {
        Some(entries) => entries,
        None => {
            return Err(FeedError::Parse);
        },
    };
    let ghost es = entries@.map_values(|e: EntryParts| entry_view(e));
    let mut items: Vec<FeedItem> = Vec::new();
    let mut i: usize = 0;
    while i < entries.len() && i < max_items
        invariant
            i <= entries@.len(),
            i <= max_items,
            es == entries@.map_values(|e: EntryParts| entry_view(e)),
            items@.map_values(|x: FeedItem| item_view(x)) == es.subrange(0, i as int).map_values(
                |e: EntryView| item_of(e),
            ),
        decreases entries@.len() - i,
    {
        let e = &entries[i];
        let item = FeedItem {
            title: match &e.title {
                Some(t) => Some(t.clone()),
                None => None,
            },
            link: first(&e.links),
            published: either(e.published.clone(), e.updated.clone()),
            content: either(e.body.clone(), e.summary.clone()),
            author: first_author(&e.authors),
        };
        let ghost before = items@.map_values(|x: FeedItem| item_view(x));
        items.push(item);
        proof {
            assert(es[i as int] == entry_view(entries@[i as int]));
            assert(items@.map_values(|x: FeedItem| item_view(x)) =~= before.push(item_view(item)));
            assert(es.subrange(0, i + 1).map_values(|e: EntryView| item_of(e)) =~= es.subrange(
                0,
                i as int,
            ).map_values(|e: EntryView| item_of(e)).push(item_of(es[i as int])));
        }
        i = i + 1;
    }
    let title = match head.title {
        Some(t) => t,
        None => String::from_str("Untitled Feed"),
    };
    let feed_type = match head.kind {
        FeedKind::Atom => String::from_str("Atom"),
        FeedKind::Json => String::from_str("JSON Feed"),
        FeedKind::Rss0 => String::from_str("RSS 0.9"),
        FeedKind::Rss1 => String::from_str("RSS 1.0"),
        FeedKind::Rss2 => String::from_str("RSS 2.0"),
    };
    Ok(FeedInfo { title, description: head.description, link: first(&head.links), feed_type, items })
}

} // verus!
