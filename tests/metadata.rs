use fetch_mcp::metadata::extract_metadata;

#[test]
fn metadata_test_extract_metadata() {
    let html = r#"
        <!DOCTYPE html>
        <html lang="en">
        <head>
            <title>Test Page</title>
            <meta name="description" content="This is a test page">
            <meta name="author" content="John Doe">
            <meta property="og:title" content="OG Title">
            <meta property="og:description" content="OG Description">
            <meta property="og:image" content="https://example.com/image.jpg">
        </head>
        <body>
            <h1>Test</h1>
        </body>
        </html>
    "#;

    let result = extract_metadata(html, "https://example.com");
    assert!(result.is_ok());

    let metadata = result.unwrap();
    assert_eq!(metadata.title, Some("Test Page".to_string()));
    assert_eq!(metadata.description, Some("This is a test page".to_string()));
    assert_eq!(metadata.author, Some("John Doe".to_string()));
}

#[test]
fn metadata_details() {
    let html = r#"<html lang="de"><head><title>  T </title>
        <meta name="keywords" content="a, b ,c,">
        <meta property="og:image" content="img.png">
        <meta property="article:published_time" content="2024-01-01">
        <meta name="twitter:card" content="summary">
        </head></html>"#;
    let m = extract_metadata(html, "https://example.com/x").unwrap();
    assert_eq!(m.title.as_deref(), Some("T"));
    assert_eq!(m.language.as_deref(), Some("de"));
    assert_eq!(
        m.keywords,
        Some(vec!["a".to_string(), "b".to_string(), "c".to_string(), String::new()])
    );
    assert_eq!(m.og_image.as_deref(), Some("img.png"));
    assert_eq!(m.published_date.as_deref(), Some("2024-01-01"));
    assert_eq!(m.twitter_card.as_deref(), Some("summary"));
    assert_eq!(m.canonical_url.as_deref(), Some("https://example.com/x"));
    assert!(m.description.is_none());
    assert!(m.og_title.is_none());
}
