use fetch_mcp::sitemap::{parse_sitemap, SitemapError};

#[test]
fn test_parse_urlset_sitemap() {
    let xml = r#"<?xml version="1.0" encoding="UTF-8"?>
    <urlset xmlns="http://www.sitemaps.org/schemas/sitemap/0.9">
        <url>
            <loc>https://example.com/page1</loc>
            <lastmod>2024-01-01</lastmod>
            <changefreq>daily</changefreq>
            <priority>0.8</priority>
        </url>
        <url>
            <loc>https://example.com/page2</loc>
            <lastmod>2024-01-02</lastmod>
        </url>
    </urlset>"#;

    let result = parse_sitemap(xml);
    assert!(result.is_ok());

    let sitemap = result.unwrap();
    assert_eq!(sitemap.sitemap_type, "urlset");
    assert_eq!(sitemap.urls.len(), 2);
    assert_eq!(sitemap.urls[0].loc, "https://example.com/page1");
    assert_eq!(sitemap.urls[0].lastmod, Some("2024-01-01".to_string()));
    assert_eq!(sitemap.urls[0].changefreq, Some("daily".to_string()));
    assert_eq!(
        sitemap.urls[0].priority.as_deref().and_then(|p| p.parse::<f32>().ok()),
        Some(0.8)
    );
}

#[test]
fn test_parse_sitemapindex() {
    let xml = r#"<?xml version="1.0" encoding="UTF-8"?>
    <sitemapindex xmlns="http://www.sitemaps.org/schemas/sitemap/0.9">
        <sitemap>
            <loc>https://example.com/sitemap1.xml</loc>
            <lastmod>2024-01-01</lastmod>
        </sitemap>
        <sitemap>
            <loc>https://example.com/sitemap2.xml</loc>
        </sitemap>
    </sitemapindex>"#;

    let result = parse_sitemap(xml);
    assert!(result.is_ok());

    let sitemap = result.unwrap();
    assert_eq!(sitemap.sitemap_type, "sitemapindex");
    assert_eq!(sitemap.sitemaps.len(), 2);
    assert_eq!(sitemap.sitemaps[0].loc, "https://example.com/sitemap1.xml");
    assert_eq!(sitemap.sitemaps[0].lastmod, Some("2024-01-01".to_string()));
}

#[test]
fn test_parse_minimal_sitemap() {
    let xml = r#"<?xml version="1.0" encoding="UTF-8"?>
    <urlset xmlns="http://www.sitemaps.org/schemas/sitemap/0.9">
        <url>
            <loc>https://example.com/</loc>
        </url>
    </urlset>"#;

    let result = parse_sitemap(xml);
    assert!(result.is_ok());

    let sitemap = result.unwrap();
    assert_eq!(sitemap.urls.len(), 1);
    assert_eq!(sitemap.urls[0].loc, "https://example.com/");
    assert_eq!(sitemap.urls[0].lastmod, None);
}

#[test]
fn sitemap_entries_without_location_are_dropped() {
    let xml = "<urlset><url><lastmod>x</lastmod></url><url><loc>a</loc></url></urlset>";
    let sitemap = parse_sitemap(xml).unwrap();
    assert_eq!(sitemap.urls.len(), 1);
    assert_eq!(sitemap.urls[0].loc, "a");
    assert_eq!(parse_sitemap("<other/>").unwrap().sitemap_type, "unknown");
}

#[test]
fn malformed_sitemap_is_an_error() {
    assert!(matches!(parse_sitemap("<urlset><url></urlset>"), Err(SitemapError::Xml { .. })));
}

use fetch_mcp::sitemap::{sitemap_from_events, XmlEvent};

#[test]
fn sitemap_from_given_events() {
    let open = |s: &str| XmlEvent::Open(s.to_string());
    let close = |s: &str| XmlEvent::Close(s.to_string());
    let text = |s: &str| XmlEvent::Text(s.to_string());
    let events = vec![
        open("sitemapindex"),
        open("sitemap"),
        open("loc"),
        text("https://e.example/1.xml"),
        close("loc"),
        open("lastmod"),
        text("2024-02-02"),
        close("lastmod"),
        close("sitemap"),
        open("sitemap"),
        XmlEvent::Other,
        close("sitemap"),
        close("sitemapindex"),
    ];
    let data = sitemap_from_events(&events);
    assert_eq!(data.sitemap_type, "sitemapindex");
    assert_eq!(data.sitemaps.len(), 1);
    assert_eq!(data.sitemaps[0].loc, "https://e.example/1.xml");
    assert_eq!(data.sitemaps[0].lastmod.as_deref(), Some("2024-02-02"));
    assert!(data.urls.is_empty());
}
