use fetch_mcp::html_convert::{html_to_markdown, html_to_text, ConvertError};

#[test]
fn markdown_keeps_the_main_content() {
    let html = r#"
        <!DOCTYPE html>
        <html>
        <head><title>Test Page</title></head>
        <body>
            <h1>Main Title</h1>
            <p>This is a paragraph with <strong>bold</strong> text.</p>
            <ul>
                <li>Item 1</li>
                <li>Item 2</li>
            </ul>
        </body>
        </html>
    "#;

    let result = html_to_markdown(html, "https://example.com");
    assert!(result.is_ok());
    let markdown = result.unwrap();
    assert!(markdown.contains("paragraph"));
    assert!(markdown.contains("**bold**") || markdown.contains("bold"));
}

#[test]
fn test_html_to_text() {
    let html = "<p>Hello <b>world</b>!</p>";
    let text = html_to_text(html);
    assert!(text.contains("Hello"));
    assert!(text.contains("world"));
    assert!(!text.contains("<b>"));
}

#[test]
fn markdown_needs_a_valid_url() {
    assert_eq!(html_to_markdown("<p>x</p>", "not a url"), Err(ConvertError::InvalidUrl));
}
