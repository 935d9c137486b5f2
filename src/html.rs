use vstd::prelude::*;
use scraper::{ElementRef, Html, Selector};
use crate::text::{trim, trim_of};

verus! {

/// An element found by a selector: its tag name, its text nodes, its outer HTML and its
/// attributes in order.
pub struct ElementParts {
    pub name: String,
    pub texts: Vec<String>,
    pub outer_html: String,
    pub attrs: Vec<(String, String)>,
}

/// An element as plain values.
pub type ElementView = (Seq<char>, Seq<Seq<char>>, Seq<char>, Seq<(Seq<char>, Seq<char>)>);

/// The plain values of an element.
pub open spec fn element_view(e: ElementParts) -> ElementView {
    (
        e.name@,
        e.texts@.map_values(|t: String| t@),
        e.outer_html@,
        e.attrs@.map_values(|a: (String, String)| (a.0@, a.1@)),
    )
}

/// What `scraper` finds in `html`, parsed as a document, with the CSS selector `selector`, in
/// document order; `None` where the selector does not parse.
pub uninterp spec fn html_select(html: Seq<char>, selector: Seq<char>) -> Option<Seq<ElementView>>;

/// Relies on `scraper::Html::parse_document`, `scraper::Selector::parse`, `Html::select`, and,
/// for each element found, `Element::name`, `ElementRef::text`, `ElementRef::html` and
/// `Element::attrs`.
#[verifier::external_body]
pub fn select_parts(html: &str, selector: &str) -> (r: Option<Vec<ElementParts>>)
    ensures
        match html_select(html@, selector@) {
            Some(v) => r matches Some(x) && x@.map_values(|e: ElementParts| element_view(e)) == v,
            None => r is None,
        },
{
    let document = Html::parse_document(html);
    let selector = Selector::parse(selector).ok()?;
    let found = document.select(&selector).map(|e| ElementParts {
        name: e.value().name().to_string(),
        texts: e.text().map(|t| t.to_string()).collect(),
        outer_html: e.html(),
        attrs: e.value().attrs().map(|(k, v)| (k.to_string(), v.to_string())).collect(),
    });
    Some(found.collect())
}

/// A table as `scraper` finds it: the text nodes of each header cell, and for each row its tag
/// name and the text nodes of each cell.
pub struct TableParts {
    pub header_cells: Vec<Vec<String>>,
    pub rows: Vec<(String, Vec<Vec<String>>)>,
}

/// Text nodes as plain values.
pub open spec fn texts_view(t: Vec<String>) -> Seq<Seq<char>> {
    t@.map_values(|s: String| s@)
}

/// Cells as plain values.
pub open spec fn cells_view(c: Vec<Vec<String>>) -> Seq<Seq<Seq<char>>> {
    c@.map_values(|t: Vec<String>| texts_view(t))
}

/// A table as plain values: header cells, and rows with their tag name and cells.
pub type TableView = (Seq<Seq<Seq<char>>>, Seq<(Seq<char>, Seq<Seq<Seq<char>>>)>);

/// The plain values of a table.
pub open spec fn table_view(t: TableParts) -> TableView {
    (
        cells_view(t.header_cells),
        t.rows@.map_values(|r: (String, Vec<Vec<String>>)| (r.0@, cells_view(r.1))),
    )
}

/// What `scraper` finds in `html`, parsed as a document, for each table that `selector`
/// selects: within the table, the cells that `head` selects, and the rows that `row` selects
/// with, within each, the cells that `cell` selects; `None` where a selector does not parse.
pub uninterp spec fn html_tables(
    html: Seq<char>,
    selector: Seq<char>,
    head: Seq<char>,
    row: Seq<char>,
    cell: Seq<char>,
) -> Option<Seq<TableView>>;

/// Relies on `scraper::Html::parse_document`, `scraper::Selector::parse`, `Html::select`,
/// `ElementRef::select`, `Element::name` and `ElementRef::text`.
#[verifier::external_body]
pub fn select_tables(html: &str, selector: &str, head: &str, row: &str, cell: &str) -> (r: Option<
    Vec<TableParts>,
>)
    ensures
        match html_tables(html@, selector@, head@, row@, cell@) {
            Some(v) => r matches Some(x) && x@.map_values(|t: TableParts| table_view(t)) == v,
            None => r is None,
        },
{
    let document = Html::parse_document(html);
    let table_sel = Selector::parse(selector).ok()?;
    let head_sel = Selector::parse(head).ok()?;
    let row_sel = Selector::parse(row).ok()?;
    let cell_sel = Selector::parse(cell).ok()?;
    let texts = |e: ElementRef| e.text().map(String::from).collect::<Vec<_>>();
    Some(document.select(&table_sel).map(|t| TableParts {
        header_cells: t.select(&head_sel).map(texts).collect(),
        rows: t.select(&row_sel).map(|r| (r.value().name().into(), r.select(&cell_sel).map(texts).collect())).collect(),
    }).collect())
}

/// `parts` joined with `sep` between each two.
pub open spec fn joined(parts: Seq<Seq<char>>, sep: Seq<char>) -> Seq<char>
    decreases parts.len(),
{
    if parts.len() == 0 {
        Seq::empty()
    } else if parts.len() == 1 {
        parts[0]
    } else {
        joined(parts.drop_last(), sep) + sep + parts.last()
    }
}

/// Joins `parts` with `sep` between each two.
pub fn join(parts: &Vec<String>, sep: &str) -> (r: String)
    ensures
        r@ == joined(parts@.map_values(|t: String| t@), sep@),
{
    let ghost views = parts@.map_values(|t: String| t@);
    let mut out = String::new();
    let mut i: usize = 0;
    while i < parts.len()
        invariant
            i <= parts@.len(),
            views == parts@.map_values(|t: String| t@),
            out@ == joined(views.subrange(0, i as int), sep@),
        decreases parts@.len() - i,
    {
        let ghost prefix = views.subrange(0, i + 1);
        proof {
            assert(prefix.drop_last() =~= views.subrange(0, i as int));
        }
        if i > 0 {
            out.append(sep);
        }
        out.append(parts[i].as_str());
        i = i + 1;
    }
    assert(views.subrange(0, parts@.len() as int) =~= views);
    out
}

/// The text of an element: its text nodes joined with spaces, trimmed.
pub open spec fn element_text(texts: Seq<Seq<char>>) -> Seq<char> {
    trim_of(joined(texts, " "@))
}

/// The text of an element: its text nodes joined with spaces, trimmed.
pub fn text_of(texts: &Vec<String>) -> (r: String)
    ensures
        r@ == element_text(texts@.map_values(|t: String| t@)),
{
    let j = join(texts, " ");
    trim(j.as_str())
}

/// The value of the first attribute named `key`.
pub open spec fn attr_of(attrs: Seq<(Seq<char>, Seq<char>)>, key: Seq<char>) -> Option<Seq<char>>
    decreases attrs.len(),
{
    if attrs.len() == 0 {
        None
    } else if attrs[0].0 == key {
        Some(attrs[0].1)
    } else {
        attr_of(attrs.drop_first(), key)
    }
}

/// The value of the first attribute named `key`.
pub fn attr(attrs: &Vec<(String, String)>, key: &str) -> (r: Option<String>)
    ensures
        crate::urls::opt_view(r) == attr_of(attrs@.map_values(|a: (String, String)| (a.0@, a.1@)), key@),
{
    let ghost views = attrs@.map_values(|a: (String, String)| (a.0@, a.1@));
    let k = String::from_str(key);
    let mut i: usize = 0;
    assert(views.subrange(0, views.len() as int) =~= views);
    while i < attrs.len()
        invariant
            i <= attrs@.len(),
            k@ == key@,
            views == attrs@.map_values(|a: (String, String)| (a.0@, a.1@)),
            attr_of(views, key@) == attr_of(views.subrange(i as int, views.len() as int), key@),
        decreases attrs@.len() - i,
    {
        let ghost rest = views.subrange(i as int, views.len() as int);
        assert(rest[0] == views[i as int]);
        if attrs[i].0 == k {
            return Some(attrs[i].1.clone());
        }
        assert(rest.drop_first() =~= views.subrange(i + 1, views.len() as int));
        i = i + 1;
    }
    None
}

} // verus!
