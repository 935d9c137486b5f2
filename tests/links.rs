use fetch_mcp::links::{
    extract_external_links, extract_internal_links, extract_links, LinkError,
    LinkExtractionOptions,
};

#[test]
fn links_test_extract_links() {
    let html = r##"
        <!DOCTYPE html>
        <html>
        <body>
            <a href="https://example.com/page1">Page 1</a>
            <a href="/page2">Page 2</a>
            <a href="https://external.com">External</a>
            <a href="#anchor">Anchor</a>
            <a href="mailto:test@example.com">Email</a>
        </body>
        </html>
    "##;

    let result = extract_links(html, "https://example.com", LinkExtractionOptions::default());
    assert!(result.is_ok());

    let links = result.unwrap();
    assert_eq!(links.len(), 3);

    let page2 = links.iter().find(|l| l.href.contains("page2"));
    assert!(page2.is_some());
    assert_eq!(page2.unwrap().href, "https://example.com/page2");
}

#[test]
fn test_extract_internal_links() {
    let html = r#"
        <a href="https://example.com/page1">Internal 1</a>
        <a href="/page2">Internal 2</a>
        <a href="https://external.com">External</a>
    "#;

    let result = extract_internal_links(html, "https://example.com");
    assert!(result.is_ok());

    let links = result.unwrap();
    assert_eq!(links.len(), 2);
    assert!(links.iter().all(|l| l.is_internal));
}

#[test]
fn test_extract_external_links() {
    let html = r#"
        <a href="https://example.com/page1">Internal</a>
        <a href="https://external.com">External 1</a>
        <a href="https://another.com">External 2</a>
    "#;

    let result = extract_external_links(html, "https://example.com");
    assert!(result.is_ok());

    let links = result.unwrap();
    assert_eq!(links.len(), 2);
    assert!(links.iter().all(|l| !l.is_internal));
}

#[test]
fn test_deduplicate_links() {
    let html = r#"
        <a href="/page1">Link 1</a>
        <a href="/page1">Link 1 again</a>
        <a href="/page2">Link 2</a>
    "#;

    let result = extract_links(html, "https://example.com", LinkExtractionOptions::default());
    assert!(result.is_ok());

    let links = result.unwrap();
    assert_eq!(links.len(), 2);
}

#[test]
fn test_link_attributes() {
    let html = r#"<a href="/page" title="Page Title" rel="nofollow">Link</a>"#;

    let result = extract_links(html, "https://example.com", LinkExtractionOptions::default());
    assert!(result.is_ok());

    let links = result.unwrap();
    assert_eq!(links.len(), 1);
    assert_eq!(links[0].text, "Link");
    assert_eq!(links[0].title, Some("Page Title".to_string()));
    assert_eq!(links[0].rel, Some("nofollow".to_string()));
}

#[test]
fn duplicates_kept_without_deduplication() {
    let html = r#"<a href="/a">A</a><a href="/a">A again</a><a href="javascript:void(0)">x</a><a href="tel:123">t</a>"#;
    let options = LinkExtractionOptions { internal_only: false, external_only: false, deduplicate: false };
    let links = extract_links(html, "https://example.com/dir/", options).unwrap();
    assert_eq!(links.len(), 2);
    assert_eq!(links[0].href, "https://example.com/a");
    assert_eq!(links[1].text, "A again");
}

#[test]
fn link_text_joins_and_trims_text_nodes() {
    let html = r#"<a href="/x">  One <b>Two</b> </a>"#;
    let links = extract_links(html, "https://example.com", LinkExtractionOptions::default()).unwrap();
    assert_eq!(links[0].text, "One  Two");
}

#[test]
fn invalid_base_url_is_refused() {
    let r = extract_links("<a href=\"/x\">x</a>", "not a url", LinkExtractionOptions::default());
    assert_eq!(r, Err(LinkError::InvalidBaseUrl));
}

use fetch_mcp::links::{links_from_anchors, Anchor};

fn anchor(href: &str, text: &str) -> Anchor {
    Anchor { href: href.to_string(), texts: vec![text.to_string()], title: None, rel: None }
}

#[test]
fn links_from_given_anchors() {
    let anchors = vec![
        anchor("/a", " A "),
        anchor("#top", "skip"),
        anchor("https://other.example/x", "X"),
        anchor("/a", "again"),
        anchor("", "empty"),
    ];
    let all = links_from_anchors(&anchors, "https://example.com/", LinkExtractionOptions::default()).unwrap();
    assert_eq!(all.len(), 2);
    assert_eq!(all[0].href, "https://example.com/a");
    assert_eq!(all[0].text, "A");
    assert!(all[0].is_internal);
    assert!(!all[1].is_internal);
    let external = LinkExtractionOptions { internal_only: false, external_only: true, deduplicate: true };
    let ext = links_from_anchors(&anchors, "https://example.com/", external).unwrap();
    assert_eq!(ext.len(), 1);
    assert_eq!(ext[0].href, "https://other.example/x");
    assert_eq!(links_from_anchors(&anchors, "::", LinkExtractionOptions::default()), Err(LinkError::InvalidBaseUrl));
}
