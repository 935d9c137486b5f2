use fetch_mcp::feed::{parse_feed, FeedError};

const RSS: &str = r#"<?xml version="1.0" encoding="UTF-8"?>
    <rss version="2.0">
        <channel>
            <title>Test Feed</title>
            <description>A test RSS feed</description>
            <link>https://example.com</link>
            <item>
                <title>First Post</title>
                <link>https://example.com/post1</link>
                <description>This is the first post</description>
                <pubDate>Mon, 01 Jan 2024 00:00:00 GMT</pubDate>
            </item>
        </channel>
    </rss>"#;

#[test]
fn test_parse_rss() {
    let result = parse_feed(RSS, 10);
    assert!(result.is_ok());

    let feed = result.unwrap();
    assert_eq!(feed.title, "Test Feed");
    assert_eq!(feed.feed_type, "RSS 2.0");
    assert_eq!(feed.items.len(), 1);
    assert_eq!(feed.items[0].title, Some("First Post".to_string()));
}

#[test]
fn feed_items_are_capped_and_filled() {
    let feed = parse_feed(RSS, 0).unwrap();
    assert!(feed.items.is_empty());
    let feed = parse_feed(RSS, 5).unwrap();
    let item = &feed.items[0];
    assert_eq!(item.link.as_deref(), Some("https://example.com/post1"));
    assert_eq!(item.content.as_deref(), Some("This is the first post"));
    assert!(item.published.as_deref().unwrap_or("").starts_with("2024-01-01"));
    assert_eq!(feed.description.as_deref(), Some("A test RSS feed"));
}

#[test]
fn untitled_feed_and_errors() {
    let atom = r#"<?xml version="1.0" encoding="utf-8"?><feed xmlns="http://www.w3.org/2005/Atom"><id>urn:x</id><updated>2024-01-01T00:00:00Z</updated></feed>"#;
    let feed = parse_feed(atom, 5).unwrap();
    assert_eq!(feed.feed_type, "Atom");
    assert_eq!(feed.title, "Untitled Feed");
    assert_eq!(parse_feed("not a feed", 5).unwrap_err(), FeedError::Parse);
}
