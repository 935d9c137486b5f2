use fetch_mcp::content_type::{detect_content_type, ContentType};

#[test]
fn test_content_type_detection() {
    let html = "<!DOCTYPE html><html><body>Test</body></html>";
    assert_eq!(detect_content_type("text/html; charset=utf-8", html), ContentType::Html);
    assert_eq!(detect_content_type("", html), ContentType::Html);
}

#[test]
fn content_types_in_order() {
    assert_eq!(detect_content_type("text/html; charset=utf-8", "{}"), ContentType::Html);
    assert_eq!(detect_content_type("", "  \n{\"a\": 1}"), ContentType::Json);
    assert_eq!(detect_content_type("application/json", "x"), ContentType::Json);
    assert_eq!(detect_content_type("", "<?xml version=\"1.0\"?><a/>"), ContentType::Xml);
    assert_eq!(detect_content_type("text/xml", "x"), ContentType::Xml);
    assert_eq!(detect_content_type("", "x <rss version=\"2.0\">"), ContentType::Feed);
    assert_eq!(detect_content_type("", "%PDF-1.7"), ContentType::Pdf);
    assert_eq!(detect_content_type("image/png", "\u{89}PNG"), ContentType::Image);
    assert_eq!(detect_content_type("text/plain", "hello"), ContentType::Text);
}
