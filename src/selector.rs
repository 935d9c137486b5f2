use vstd::prelude::*;
use crate::html::{
    cells_view, element_text, element_view, html_select, html_tables, select_parts,
    select_tables, table_view, text_of, texts_view, ElementParts, ElementView, TableParts,
    TableView,
};

verus! {

/// Selected HTML element with text and attributes.
#[derive(Debug, Clone)]
pub struct ElementData {
    /// Element text content.
    pub text: String,
    /// Element HTML (outer HTML).
    pub html: Option<String>,
    /// Element attributes (key-value pairs).
    pub attributes: Vec<(String, String)>,
}

/// Table data structure.
#[derive(Debug, Clone)]
pub struct TableData {
    /// Table headers (if present).
    pub headers: Vec<String>,
    /// Table rows (each row is an array of cells).
    pub rows: Vec<Vec<String>>,
    /// Number of columns.
    pub columns: usize,
    /// Number of rows.
    pub row_count: usize,
}

/// Why elements could not be selected.
#[derive(Debug, Clone, PartialEq, Eq)]
pub enum SelectError {
    /// The CSS selector does not parse.
    InvalidSelector,
    /// No table matches the selector.
    NoTables { selector: String },
}

/// An element's data as plain values: text, HTML and attributes.
pub open spec fn element_data_view(e: ElementData) -> (Seq<char>, Option<Seq<char>>, Seq<(Seq<char>, Seq<char>)>) {
    (
        e.text@,
        crate::urls::opt_view(e.html),
        e.attributes@.map_values(|a: (String, String)| (a.0@, a.1@)),
    )
}

/// The data of a selected element.
pub open spec fn data_of(e: ElementView) -> (Seq<char>, Option<Seq<char>>, Seq<(Seq<char>, Seq<char>)>) {
    (element_text(e.1), Some(e.2), e.3)
}

fn copy_attrs(attrs: &Vec<(String, String)>) -> (r: Vec<(String, String)>)
    ensures
        r@.map_values(|a: (String, String)| (a.0@, a.1@)) == attrs@.map_values(
            |a: (String, String)| (a.0@, a.1@),
        ),
{
    let mut out: Vec<(String, String)> = Vec::new();
    let mut i: usize = 0;
    while i < attrs.len()
        invariant
            i <= attrs@.len(),
            out@.map_values(|a: (String, String)| (a.0@, a.1@)) == attrs@.subrange(0, i as int).map_values(
                |a: (String, String)| (a.0@, a.1@),
            ),
        decreases attrs@.len() - i,
    {
        let k = attrs[i].0.clone();
        let v = attrs[i].1.clone();
        let ghost before = out@.map_values(|a: (String, String)| (a.0@, a.1@));
        out.push((k, v));
        proof {
            assert(out@.map_values(|a: (String, String)| (a.0@, a.1@)) =~= before.push((k@, v@)));
            assert(attrs@.subrange(0, i + 1).map_values(|a: (String, String)| (a.0@, a.1@)) =~= attrs@.subrange(
                0,
                i as int,
            ).map_values(|a: (String, String)| (a.0@, a.1@)).push((attrs@[i as int].0@, attrs@[i as int].1@)));
            assert(out@.map_values(|a: (String, String)| (a.0@, a.1@)) =~= attrs@.subrange(0, i + 1).map_values(
                |a: (String, String)| (a.0@, a.1@),
            ));
        }
        i = i + 1;
    }
    assert(attrs@.subrange(0, attrs@.len() as int) =~= attrs@);
    out
}

/// Selects the elements of `html` that match `css_selector`, with their text (text nodes
/// joined with spaces, trimmed), outer HTML and attributes.
pub fn select_elements(html: &str, css_selector: &str) -> (r: Result<Vec<ElementData>, SelectError>)
    ensures
        html_select(html@, css_selector@) is None ==> r == Err::<Vec<ElementData>, SelectError>(
            SelectError::InvalidSelector,
        ),
        html_select(html@, css_selector@) matches Some(found) ==> (r matches Ok(v) && v@.map_values(
            |e: ElementData| element_data_view(e),
        ) == found.map_values(|e: ElementView| data_of(e))),
{
    let found = match select_parts(html, css_selector) {
        Some(found) => found,
        None => {
            return Err(SelectError::InvalidSelector);
        },
    };
    let ghost fv = found@.map_values(|e: ElementParts| element_view(e));
    let mut out: Vec<ElementData> = Vec::new();
    let mut i: usize = 0;
    while i < found.len()
        invariant
            i <= found@.len(),
            fv == found@.map_values(|e: ElementParts| element_view(e)),
            out@.map_values(|e: ElementData| element_data_view(e)) == fv.subrange(0, i as int).map_values(
                |e: ElementView| data_of(e),
            ),
        decreases found@.len() - i,
    {
        let e = &found[i];
        let data = ElementData {
            text: text_of(&e.texts),
            html: Some(e.outer_html.clone()),
            attributes: copy_attrs(&e.attrs),
        };
        let ghost before = out@.map_values(|e: ElementData| element_data_view(e));
        out.push(data);
        proof {
            assert(e.attrs@.map_values(|a: (String, String)| (a.0@, a.1@)) == data.attributes@.map_values(
                |a: (String, String)| (a.0@, a.1@),
            ));
            assert(out@.map_values(|e: ElementData| element_data_view(e)) =~= before.push(
                element_data_view(data),
            ));
            assert(fv.subrange(0, i + 1).map_values(|e: ElementView| data_of(e)) =~= fv.subrange(
                0,
                i as int,
            ).map_values(|e: ElementView| data_of(e)).push(data_of(fv[i as int])));
        }
        i = i + 1;
    }
    assert(fv.subrange(0, fv.len() as int) =~= fv);
    Ok(out)
}

/// Whether `s` is `th` in any case.
pub open spec fn is_th(s: Seq<char>) -> bool {
    s.len() == 2 && (s[0] == 't' || s[0] == 'T') && (s[1] == 'h' || s[1] == 'H')
}

/// A table row as plain values: the text of each cell.
pub open spec fn row_texts(cells: Seq<Seq<Seq<char>>>) -> Seq<Seq<char>> {
    cells.map_values(|c: Seq<Seq<char>>| element_text(c))
}

/// The rows kept among the first `n` raw rows: not `th` elements, and with at least one cell.
pub open spec fn kept_rows(rows: Seq<(Seq<char>, Seq<Seq<Seq<char>>>)>, n: int) -> Seq<Seq<Seq<char>>>
    decreases n,
{
    if n <= 0 {
        Seq::empty()
    } else {
        let prev = kept_rows(rows, n - 1);
        let row = rows[n - 1];
        if !is_th(row.0) && row.1.len() > 0 {
            prev.push(row_texts(row.1))
        } else {
            prev
        }
    }
}

/// The largest length among `rows`, or `default` when there is no row.
pub open spec fn max_len(rows: Seq<Seq<Seq<char>>>, default: int) -> int
    decreases rows.len(),
{
    if rows.len() == 0 {
        default
    } else if rows.len() == 1 {
        rows[0].len() as int
    } else {
        let m = max_len(rows.drop_last(), default);
        if rows.last().len() > m {
            rows.last().len() as int
        } else {
            m
        }
    }
}

/// A table's data as plain values: headers, rows, columns and row count.
pub type TableDataView = (Seq<Seq<char>>, Seq<Seq<Seq<char>>>, int, int);

/// The plain values of a table's data.
pub open spec fn table_data_view(t: TableData) -> TableDataView {
    (
        t.headers@.map_values(|h: String| h@),
        t.rows@.map_values(|r: Vec<String>| r@.map_values(|c: String| c@)),
        t.columns as int,
        t.row_count as int,
    )
}

/// The data of a found table: header texts, the kept rows, the widest row's length (the
/// number of headers when no row is kept) and the number of rows.
pub open spec fn table_of(t: TableView) -> TableDataView {
    let headers = row_texts(t.0);
    let rows = kept_rows(t.1, t.1.len() as int);
    (headers, rows, max_len(rows, headers.len() as int), rows.len() as int)
}

fn texts_of_cells(cells: &Vec<Vec<String>>) -> (r: Vec<String>)
    ensures
        r@.map_values(|c: String| c@) == row_texts(cells_view(*cells)),
{
    let ghost cv = cells_view(*cells);
    let mut out: Vec<String> = Vec::new();
    let mut i: usize = 0;
    while i < cells.len()
        invariant
            i <= cells@.len(),
            cv == cells_view(*cells),
            out@.map_values(|c: String| c@) == row_texts(cv.subrange(0, i as int)),
        decreases cells@.len() - i,
    {
        let t = text_of(&cells[i]);
        let ghost before = out@.map_values(|c: String| c@);
        out.push(t);
        proof {
            assert(cv[i as int] == texts_view(cells@[i as int]));
            assert(out@.map_values(|c: String| c@) =~= before.push(t@));
            assert(row_texts(cv.subrange(0, i + 1)) =~= row_texts(cv.subrange(0, i as int)).push(
                element_text(cv[i as int]),
            ));
        }
        i = i + 1;
    }
    assert(cv.subrange(0, cv.len() as int) =~= cv);
    out
}

fn is_th_name(s: &String) -> (r: bool)
    ensures
        r == is_th(s@),
{
    let v = crate::text::chars_of(s.as_str());
    v.len() == 2 && (v[0] == 't' || v[0] == 'T') && (v[1] == 'h' || v[1] == 'H')
}

fn table_data(t: &TableParts) -> (r: TableData)
    ensures
        table_data_view(r) == table_of(table_view(*t)),
{
    let ghost tv = table_view(*t);
    let headers = texts_of_cells(&t.header_cells);
    let mut rows: Vec<Vec<String>> = Vec::new();
    let mut columns: usize = 0;
    let mut i: usize = 0;
    while i < t.rows.len()
        invariant
            i <= t.rows@.len(),
            tv == table_view(*t),
            rows@.map_values(|r: Vec<String>| r@.map_values(|c: String| c@)) == kept_rows(tv.1, i as int),
            rows@.len() > 0 ==> columns == max_len(kept_rows(tv.1, i as int), 0),
        decreases t.rows@.len() - i,
    {
        let row = &t.rows[i];
        assert(tv.1[i as int] == (row.0@, cells_view(row.1)));
        if !is_th_name(&row.0) && row.1.len() > 0 {
            let cells = texts_of_cells(&row.1);
            let ghost before = rows@.map_values(|r: Vec<String>| r@.map_values(|c: String| c@));
            let n = cells.len();
            if rows.len() == 0 || n > columns {
                columns = n;
            }
            rows.push(cells);
            proof {
                assert(rows@.map_values(|r: Vec<String>| r@.map_values(|c: String| c@)) =~= before.push(
                    cells@.map_values(|c: String| c@),
                ));
                assert(kept_rows(tv.1, i + 1).drop_last() =~= kept_rows(tv.1, i as int));
            }
        }
        i = i + 1;
    }
    let ghost kept = kept_rows(tv.1, tv.1.len() as int);
    if rows.len() == 0 {
        columns = headers.len();
    }
    proof {
        if kept.len() == 0 {
            assert(max_len(kept, headers@.len() as int) == headers@.len());
        } else {
            lemma_max_len_default(kept, headers@.len() as int);
        }
    }
    let row_count = rows.len();
    TableData { headers, rows, columns, row_count }
}

proof fn lemma_max_len_default(rows: Seq<Seq<Seq<char>>>, d: int)
    requires
        rows.len() > 0,
    ensures
        max_len(rows, d) == max_len(rows, 0),
    decreases rows.len(),
{
    if rows.len() > 1 {
        lemma_max_len_default(rows.drop_last(), d);
    }
}

/// The selector of `extract_table`: the one given, or `table`.
pub open spec fn table_selector_of(table_selector: Option<&str>) -> Seq<char> {
    match table_selector {
        Some(s) => s@,
        None => "table"@,
    }
}

/// Extracts the tables of `html` that `table_selector` (by default `table`) selects: header
/// cells (`thead tr th, thead tr td`), body rows (`tbody tr`) that have cells (`td, th`),
/// column and row counts. Finding no table is an error.
pub fn extract_table(html: &str, table_selector: Option<&str>) -> (r: Result<Vec<TableData>, SelectError>)
    ensures
        html_tables(html@, table_selector_of(table_selector), "thead tr th, thead tr td"@, "tbody tr"@, "td, th"@) is None ==> r == Err::<
            Vec<TableData>,
            SelectError,
        >(SelectError::InvalidSelector),
        html_tables(html@, table_selector_of(table_selector), "thead tr th, thead tr td"@, "tbody tr"@, "td, th"@) matches Some(found) ==> {
            &&& found.len() == 0 ==> (r matches Err(SelectError::NoTables { selector: s }) && s@
                == table_selector_of(table_selector))
            &&& found.len() > 0 ==> (r matches Ok(v) && v@.map_values(|t: TableData| table_data_view(t))
                == found.map_values(|t: TableView| table_of(t)))
        },
{
    let selector = match table_selector {
        Some(s) => s,
        None => "table",
    };
    let found = match select_tables(html, selector, "thead tr th, thead tr td", "tbody tr", "td, th") {
        Some(found) => found,
        None => {
            return Err(SelectError::InvalidSelector);
        },
    };
    if found.len() == 0 {
        return Err(SelectError::NoTables { selector: String::from_str(selector) });
    }
    let ghost fv = found@.map_values(|t: TableParts| table_view(t));
    let mut tables: Vec<TableData> = Vec::new();
    let mut i: usize = 0;
    while i < found.len()
        invariant
            i <= found@.len(),
            fv == found@.map_values(|t: TableParts| table_view(t)),
            tables@.map_values(|t: TableData| table_data_view(t)) == fv.subrange(0, i as int).map_values(
                |t: TableView| table_of(t),
            ),
        decreases found@.len() - i,
    {
        let td = table_data(&found[i]);
        let ghost before = tables@.map_values(|t: TableData| table_data_view(t));
        tables.push(td);
        proof {
            assert(tables@.map_values(|t: TableData| table_data_view(t)) =~= before.push(table_data_view(td)));
            assert(fv.subrange(0, i + 1).map_values(|t: TableView| table_of(t)) =~= fv.subrange(
                0,
                i as int,
            ).map_values(|t: TableView| table_of(t)).push(table_of(fv[i as int])));
        }
        i = i + 1;
    }
    assert(fv.subrange(0, fv.len() as int) =~= fv);
    Ok(tables)
}

} // verus!
