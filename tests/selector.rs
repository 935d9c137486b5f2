use fetch_mcp::selector::{extract_table, select_elements, SelectError};

#[test]
fn test_select_elements() {
    let html = r#"
        <!DOCTYPE html>
        <html>
        <body>
            <div class="item">Item 1</div>
            <div class="item">Item 2</div>
            <a href="https://example.com" class="link">Link</a>
        </body>
        </html>
    "#;

    let result = select_elements(html, ".item");
    assert!(result.is_ok());

    let elements = result.unwrap();
    assert_eq!(elements.len(), 2);
    assert_eq!(elements[0].text, "Item 1");
    assert_eq!(elements[1].text, "Item 2");
}

#[test]
fn test_select_elements_with_attributes() {
    let html = r#"<a href="https://example.com" class="link">Link</a>"#;

    let result = select_elements(html, "a");
    assert!(result.is_ok());

    let elements = result.unwrap();
    assert_eq!(elements.len(), 1);
    assert_eq!(elements[0].text, "Link");

    let href_attr = elements[0].attributes.iter().find(|(k, _)| k == "href");
    assert!(href_attr.is_some());
    assert_eq!(href_attr.unwrap().1, "https://example.com");
}

#[test]
fn select_with_bad_selector() {
    assert!(matches!(select_elements("<p>x</p>", "p[[["), Err(SelectError::InvalidSelector)));
}

#[test]
fn selected_element_keeps_outer_html() {
    let elements = select_elements("<p><b>bold</b> and <i>it</i></p>", "p").unwrap();
    assert_eq!(elements[0].text, "bold  and  it");
    assert_eq!(elements[0].html.as_deref(), Some("<p><b>bold</b> and <i>it</i></p>"));
}

#[test]
fn test_extract_table() {
    let html = r#"
        <!DOCTYPE html>
        <html>
        <body>
            <table>
                <thead>
                    <tr>
                        <th>Name</th>
                        <th>Age</th>
                        <th>City</th>
                    </tr>
                </thead>
                <tbody>
                    <tr>
                        <td>John</td>
                        <td>30</td>
                        <td>New York</td>
                    </tr>
                    <tr>
                        <td>Jane</td>
                        <td>25</td>
                        <td>London</td>
                    </tr>
                </tbody>
            </table>
        </body>
        </html>
    "#;

    let result = extract_table(html, None);
    assert!(result.is_ok());

    let tables = result.unwrap();
    assert_eq!(tables.len(), 1);

    let table = &tables[0];
    assert_eq!(table.headers, vec!["Name", "Age", "City"]);
    assert_eq!(table.row_count, 2);
    assert_eq!(table.columns, 3);
    assert_eq!(table.rows[0], vec!["John", "30", "New York"]);
    assert_eq!(table.rows[1], vec!["Jane", "25", "London"]);
}

#[test]
fn test_extract_table_no_thead() {
    let html = r#"
        <table>
            <tr><td>A</td><td>B</td></tr>
            <tr><td>1</td><td>2</td></tr>
        </table>
    "#;

    let result = extract_table(html, None);
    assert!(result.is_ok());

    let tables = result.unwrap();
    assert_eq!(tables.len(), 1);
    assert_eq!(tables[0].row_count, 2);
}

#[test]
fn table_columns_and_errors() {
    let html = r#"<table id="t"><thead><tr><th>H</th></tr></thead><tr><td>1</td><td>2</td><td>3</td></tr><tr></tr></table>"#;
    let tables = extract_table(html, Some("#t")).unwrap();
    assert_eq!(tables[0].columns, 3);
    assert_eq!(tables[0].row_count, 1);
    let headers_only = extract_table("<table><thead><tr><th>A</th><th>B</th></tr></thead></table>", None).unwrap();
    assert_eq!(headers_only[0].columns, 2);
    assert_eq!(headers_only[0].row_count, 0);
    assert_eq!(
        extract_table("<p>no table</p>", None).unwrap_err(),
        SelectError::NoTables { selector: "table".to_string() }
    );
    assert_eq!(extract_table("<table></table>", Some("[[")).unwrap_err(), SelectError::InvalidSelector);
}
