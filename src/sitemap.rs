use vstd::prelude::*;
use quick_xml::events::Event;
use quick_xml::Reader;

verus! {

/// Sitemap URL entry.
#[derive(Debug, Clone)]
pub struct SitemapUrl {
    /// URL location.
    pub loc: String,
    /// Last modification date.
    pub lastmod: Option<String>,
    /// Change frequency (always, hourly, daily, weekly, monthly, yearly, never).
    pub changefreq: Option<String>,
    /// Priority as written, a number from 0.0 to 1.0.
    pub priority: Option<String>,
}

/// Sitemap index entry (for a sitemap of sitemaps).
#[derive(Debug, Clone)]
pub struct SitemapIndexEntry {
    /// Sitemap URL.
    pub loc: String,
    /// Last modification date.
    pub lastmod: Option<String>,
}

/// Parsed sitemap data.
#[derive(Debug, Clone)]
pub struct SitemapData {
    /// Type of sitemap: urlset, sitemapindex or unknown.
    pub sitemap_type: String,
    /// URLs (of a urlset).
    pub urls: Vec<SitemapUrl>,
    /// Sitemaps (of a sitemap index).
    pub sitemaps: Vec<SitemapIndexEntry>,
}

/// Why a sitemap could not be read.
#[derive(Debug, Clone, Copy, PartialEq, Eq)]
pub enum SitemapError {
    /// The XML is malformed at this byte position.
    Xml { position: u64 },
}

/// An XML event of the reader: an opening (or empty) tag, a closing tag, text, or anything
/// else.
pub enum XmlEvent {
    Open(String),
    Close(String),
    Text(String),
    Other,
}

/// An XML event as plain values.
pub enum XmlToken {
    Open(Seq<char>),
    Close(Seq<char>),
    Text(Seq<char>),
    Other,
}

/// The plain values of an XML event.
pub open spec fn token_of(e: XmlEvent) -> XmlToken {
    match e {
        XmlEvent::Open(n) => XmlToken::Open(n@),
        XmlEvent::Close(n) => XmlToken::Close(n@),
        XmlEvent::Text(t) => XmlToken::Text(t@),
        XmlEvent::Other => XmlToken::Other,
    }
}

/// The events that `quick_xml` reads from `xml` with trimmed text, up to the end of the
/// document, or the byte position of the first error.
pub uninterp spec fn xml_events(xml: Seq<char>) -> Result<Seq<XmlToken>, u64>;

/// Relies on `quick_xml::Reader::from_str` with `trim_text(true)`, `Reader::read_event`,
/// `Reader::buffer_position`, and the names and text of the events.
#[verifier::external_body]
fn read_xml(xml: &str) -> (r: Result<Vec<XmlEvent>, u64>)
    ensures
        match xml_events(xml@) {
            Ok(v) => r matches Ok(x) && x@.map_values(|e: XmlEvent| token_of(e)) == v,
            Err(p) => r == Err::<Vec<XmlEvent>, u64>(p),
        },
{
    let mut reader = Reader::from_str(xml);
    reader.config_mut().trim_text(true);
    let lossy = |b: &[u8]| String::from_utf8_lossy(b).into_owned();
    let mut events = Vec::new();
    loop {
        events.push(match reader.read_event() {
            Ok(Event::Start(e)) | Ok(Event::Empty(e)) => XmlEvent::Open(lossy(e.name().as_ref())),
            Ok(Event::End(e)) => XmlEvent::Close(lossy(e.name().as_ref())),
            Ok(Event::Text(e)) => XmlEvent::Text(lossy(&e)),
            Ok(Event::Eof) => return Ok(events),
            Ok(_) => XmlEvent::Other,
            Err(_) => return Err(reader.buffer_position()),
        });
    }
}

/// A URL entry as plain values: location, last modification, change frequency, priority.
pub type UrlView = (Seq<char>, Option<Seq<char>>, Option<Seq<char>>, Option<Seq<char>>);

/// An index entry as plain values: location, last modification.
pub type EntryView = (Seq<char>, Option<Seq<char>>);

/// Where the reading of a sitemap stands after some events.
pub struct SitemapScan {
    pub urlset: bool,
    pub index: bool,
    pub urls: Seq<UrlView>,
    pub sitemaps: Seq<EntryView>,
    pub url: Option<UrlView>,
    pub sitemap: Option<EntryView>,
    pub tag: Seq<char>,
}

/// The scan before any event.
pub open spec fn scan_start() -> SitemapScan {
    SitemapScan {
        urlset: false,
        index: false,
        urls: Seq::empty(),
        sitemaps: Seq::empty(),
        url: None,
        sitemap: None,
        tag: Seq::empty(),
    }
}

/// The scan after one more event. An opening tag marks the kind of sitemap, starts an entry
/// or names the field that text goes to; text fills that field of the open entry; a closing
/// entry tag keeps the entry if it has a location; any other closing tag ends the field.
pub open spec fn scan_step(s: SitemapScan, e: XmlToken) -> SitemapScan {
    match e {
        XmlToken::Open(name) => if name == "urlset"@ {
            SitemapScan { urlset: true, ..s }
        } else if name == "sitemapindex"@ {
            SitemapScan { index: true, ..s }
        } else if name == "url"@ {
            SitemapScan { url: Some((Seq::empty(), None, None, None)), ..s }
        } else if name == "sitemap"@ {
            SitemapScan { sitemap: Some((Seq::empty(), None)), ..s }
        } else {
            SitemapScan { tag: name, ..s }
        },
        XmlToken::Text(t) => match s.url {
            Some(u) => if s.tag == "loc"@ {
                SitemapScan { url: Some((t, u.1, u.2, u.3)), ..s }
            } else if s.tag == "lastmod"@ {
                SitemapScan { url: Some((u.0, Some(t), u.2, u.3)), ..s }
            } else if s.tag == "changefreq"@ {
                SitemapScan { url: Some((u.0, u.1, Some(t), u.3)), ..s }
            } else if s.tag == "priority"@ {
                SitemapScan { url: Some((u.0, u.1, u.2, Some(t))), ..s }
            } else {
                s
            },
            None => match s.sitemap {
                Some(m) => if s.tag == "loc"@ {
                    SitemapScan { sitemap: Some((t, m.1)), ..s }
                } else if s.tag == "lastmod"@ {
                    SitemapScan { sitemap: Some((m.0, Some(t))), ..s }
                } else {
                    s
                },
                None => s,
            },
        },
        XmlToken::Close(name) => if name == "url"@ {
            match s.url {
                Some(u) => if u.0.len() > 0 {
                    SitemapScan { urls: s.urls.push(u), url: None, ..s }
                } else {
                    SitemapScan { url: None, ..s }
                },
                None => s,
            }
        } else if name == "sitemap"@ {
            match s.sitemap {
                Some(m) => if m.0.len() > 0 {
                    SitemapScan { sitemaps: s.sitemaps.push(m), sitemap: None, ..s }
                } else {
                    SitemapScan { sitemap: None, ..s }
                },
                None => s,
            }
        } else {
            SitemapScan { tag: Seq::empty(), ..s }
        },
        XmlToken::Other => s,
    }
}

/// The scan after the first `n` events.
pub open spec fn scan(events: Seq<XmlToken>, n: int) -> SitemapScan
    decreases n,
{
    if n <= 0 {
        scan_start()
    } else {
        scan_step(scan(events, n - 1), events[n - 1])
    }
}

/// The kind of sitemap a scan has seen.
pub open spec fn sitemap_kind(s: SitemapScan) -> Seq<char> {
    if s.index {
        "sitemapindex"@
    } else if s.urlset {
        "urlset"@
    } else {
        "unknown"@
    }
}

/// The plain values of a URL entry.
pub open spec fn url_view(u: SitemapUrl) -> UrlView {
    (u.loc@, crate::urls::opt_view(u.lastmod), crate::urls::opt_view(u.changefreq), crate::urls::opt_view(u.priority))
}

/// The plain values of an index entry.
pub open spec fn entry_view(m: SitemapIndexEntry) -> EntryView {
    (m.loc@, crate::urls::opt_view(m.lastmod))
}

struct Scanner {
    urlset: bool,
    index: bool,
    urls: Vec<SitemapUrl>,
    sitemaps: Vec<SitemapIndexEntry>,
    url: Option<SitemapUrl>,
    sitemap: Option<SitemapIndexEntry>,
    tag: String,
}

impl Scanner {
    spec fn view(&self) -> SitemapScan {
        SitemapScan {
            urlset: self.urlset,
            index: self.index,
            urls: self.urls@.map_values(|u: SitemapUrl| url_view(u)),
            sitemaps: self.sitemaps@.map_values(|m: SitemapIndexEntry| entry_view(m)),
            url: match self.url {
                Some(u) => Some(url_view(u)),
                None => None,
            },
            sitemap: match self.sitemap {
                Some(m) => Some(entry_view(m)),
                None => None,
            },
            tag: self.tag@,
        }
    }

    fn step(&mut self, e: XmlEvent)
        ensures
            final(self).view() == scan_step(old(self).view(), token_of(e)),
    {
        match e {
            XmlEvent::Open(name) => {
                if is(&name, "urlset") {
                    self.urlset = true;
                } else if is(&name, "sitemapindex") {
                    self.index = true;
                } else if is(&name, "url") {
                    self.url = Some(
                        SitemapUrl { loc: String::new(), lastmod: None, changefreq: None, priority: None },
                    );
                } else if is(&name, "sitemap") {
                    self.sitemap = Some(SitemapIndexEntry { loc: String::new(), lastmod: None });
                } else {
                    self.tag = name;
                }
            },
            XmlEvent::Text(t) => {
                let tag = &self.tag;
                let is_loc = is(tag, "loc");
                let is_lastmod = is(tag, "lastmod");
                let is_changefreq = is(tag, "changefreq");
                let is_priority = is(tag, "priority");
                if let Some(u) = &mut self.url {
                    if is_loc {
                        u.loc = t;
                    } else if is_lastmod {
                        u.lastmod = Some(t);
                    } else if is_changefreq {
                        u.changefreq = Some(t);
                    } else if is_priority {
                        u.priority = Some(t);
                    }
                } else if let Some(m) = &mut self.sitemap {
                    if is_loc {
                        m.loc = t;
                    } else if is_lastmod {
                        m.lastmod = Some(t);
                    }
                }
            },
            XmlEvent::Close(name) => {
                if is(&name, "url") {
                    if let Some(u) = self.url.take() {
                        if !u.loc.as_str().is_empty() {
                            let ghost before = self.urls@;
                            self.urls.push(u);
                            assert(self.urls@.map_values(|u: SitemapUrl| url_view(u)) =~= before.map_values(
                                |u: SitemapUrl| url_view(u),
                            ).push(url_view(u)));
                        }
                    }
                } else if is(&name, "sitemap") {
                    if let Some(m) = self.sitemap.take() {
                        if !m.loc.as_str().is_empty() {
                            let ghost before = self.sitemaps@;
                            self.sitemaps.push(m);
                            assert(self.sitemaps@.map_values(|m: SitemapIndexEntry| entry_view(m)) =~= before.map_values(
                                |m: SitemapIndexEntry| entry_view(m),
                            ).push(entry_view(m)));
                        }
                    }
                } else {
                    self.tag = String::new();
                }
            },
            XmlEvent::Other => {},
        }
    }
}

fn is(s: &String, word: &str) -> (r: bool)
    ensures
        r == (s@ == word@),
{
    *s == String::from_str(word)
}

/// `r` is the sitemap data of a scan.
pub open spec fn data_of(r: SitemapData, s: SitemapScan) -> bool {
    &&& r.sitemap_type@ == sitemap_kind(s)
    &&& r.urls@.map_values(|u: SitemapUrl| url_view(u)) == s.urls
    &&& r.sitemaps@.map_values(|m: SitemapIndexEntry| entry_view(m)) == s.sitemaps
}

fn copy_event(e: &XmlEvent) -> (r: XmlEvent)
    ensures
        token_of(r) == token_of(*e),
{
    match e {
        XmlEvent::Open(n) => XmlEvent::Open(n.clone()),
        XmlEvent::Close(n) => XmlEvent::Close(n.clone()),
        XmlEvent::Text(t) => XmlEvent::Text(t.clone()),
        XmlEvent::Other => XmlEvent::Other,
    }
}

/// The sitemap that a sequence of XML events describes: a `urlset` of `url` entries or a
/// `sitemapindex` of `sitemap` entries, keeping the entries that have a location.
pub fn sitemap_from_events(events: &[XmlEvent]) -> (d: SitemapData)
    ensures
        data_of(d, scan(events@.map_values(|x: XmlEvent| token_of(x)), events@.len() as int)),
{
    let ghost tokens = events@.map_values(|x: XmlEvent| token_of(x));
    let mut scanner = Scanner {
        urlset: false,
        index: false,
        urls: Vec::new(),
        sitemaps: Vec::new(),
        url: None,
        sitemap: None,
        tag: String::new(),
    };
    assert(scanner.view().urls =~= Seq::<UrlView>::empty());
    assert(scanner.view().sitemaps =~= Seq::<EntryView>::empty());
    let mut i: usize = 0;
    while i < events.len()
        invariant
            i <= events@.len(),
            tokens == events@.map_values(|x: XmlEvent| token_of(x)),
            scanner.view() == scan(tokens, i as int),
        decreases events@.len() - i,
    {
        let e = copy_event(&events[i]);
        assert(tokens[i as int] == token_of(events@[i as int]));
        scanner.step(e);
        i = i + 1;
    }
    let sitemap_type = if scanner.index {
        String::from_str("sitemapindex")
    } else if scanner.urlset {
        String::from_str("urlset")
    } else {
        String::from_str("unknown")
    };
    SitemapData { sitemap_type, urls: scanner.urls, sitemaps: scanner.sitemaps }
}

/// Reads a sitemap: a `urlset` of `url` entries or a `sitemapindex` of `sitemap` entries,
/// keeping the entries that have a location.
pub fn parse_sitemap(xml_content: &str) -> (r: Result<SitemapData, SitemapError>)
    ensures
        match xml_events(xml_content@) {
            Err(p) => r == Err::<SitemapData, SitemapError>(SitemapError::Xml { position: p }),
            Ok(events) => r matches Ok(d) && data_of(d, scan(events, events.len() as int)),
        },
{
    match read_xml(xml_content) {
        Ok(events) => Ok(sitemap_from_events(events.as_slice())),
        Err(position) => Err(SitemapError::Xml { position }),
    }
}

} // verus!
