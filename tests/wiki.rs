use fetch_mcp::defaults::{
    default_action, default_extract_images, default_language, default_limit, default_max_concurrent,
    default_max_items, default_max_matches, default_rate_limit, default_sort, default_subreddit,
    default_wiki_limit,
};
use fetch_mcp::wiki::{WikiAction, WikiOptions};

#[test]
fn wiki_action_names() {
    assert_eq!(WikiAction::from_str("search"), WikiAction::Search);
    assert_eq!(WikiAction::from_str("FULL"), WikiAction::Full);
    assert_eq!(WikiAction::from_str("Random"), WikiAction::Random);
    assert_eq!(WikiAction::from_str("summary"), WikiAction::Summary);
    assert_eq!(WikiAction::from_str("other"), WikiAction::Summary);
}

#[test]
fn wiki_and_tool_defaults() {
    let o = WikiOptions::default();
    assert_eq!(o.language, "en");
    assert_eq!(o.action, WikiAction::Summary);
    assert_eq!(o.limit, 10);
    assert!(o.extract_images);
    assert_eq!(default_language(), "en");
    assert_eq!(default_action(), "summary");
    assert_eq!(default_max_concurrent(), 5);
    assert_eq!(default_rate_limit(), Some(10));
    assert_eq!(default_max_items(), 20);
    assert_eq!(default_max_matches(), 100);
    assert_eq!(default_subreddit(), "all");
    assert_eq!(default_sort(), "hot");
    assert_eq!(default_limit(), 25);
    assert_eq!(default_wiki_limit(), 10);
    assert!(default_extract_images());
}

use fetch_mcp::wiki::{
    article_from_page, image_titles, search_results_from_fields, strip_html_tags, wiki_article_url, wiki_random_url,
    wiki_search_url, WikiError, WikiPageFields, WikiSearchFields,
};

#[test]
fn wiki_urls() {
    assert_eq!(
        wiki_search_url("en", "Rust language", 3),
        "https://en.wikipedia.org/w/api.php?action=query&list=search&srsearch=Rust%20language&format=json&srlimit=3"
    );
    assert_eq!(
        wiki_random_url("de"),
        "https://de.wikipedia.org/w/api.php?action=query&list=random&rnnamespace=0&rnlimit=1&format=json"
    );
    assert!(wiki_article_url("en", "A&B").contains("&titles=A%26B&format=json"));
}

#[test]
fn wiki_search_results() {
    let hits = vec![
        WikiSearchFields {
            title: Some("Rust".to_string()),
            page_id: Some(7),
            snippet: Some("a <span class=\"m\">systems</span> language".to_string()),
        },
        WikiSearchFields { title: None, page_id: Some(8), snippet: Some("x".to_string()) },
    ];
    let results = search_results_from_fields(&hits);
    assert_eq!(results.len(), 1);
    assert_eq!(results[0].snippet, "a systems language");
    assert_eq!(results[0].page_id, 7);
}

#[test]
fn wiki_images_are_filtered() {
    let titles = vec![
        Some("File:Logo.svg".to_string()),
        Some("File:Icon_x.png".to_string()),
        None,
        Some("File:1.jpg".to_string()),
        Some("File:2.jpg".to_string()),
        Some("File:3.jpg".to_string()),
        Some("File:4.jpg".to_string()),
        Some("File:5.jpg".to_string()),
        Some("File:6.jpg".to_string()),
    ];
    let kept = image_titles(&titles);
    assert_eq!(kept, vec!["File:1.jpg", "File:2.jpg", "File:3.jpg", "File:4.jpg", "File:5.jpg"]);
}

#[test]
fn wiki_article_assembly() {
    let page = WikiPageFields {
        missing: false,
        title: None,
        page_id: Some(42),
        full_url: Some("https://en.wikipedia.org/wiki/X".to_string()),
        extract: Some("First para.\n\nSecond para.".to_string()),
        categories: vec![Some("Category:A".to_string()), None],
        touched: None,
    };
    let mut options = WikiOptions::default();
    let a = article_from_page(&page, "X", &options, Vec::new()).unwrap();
    assert_eq!(a.title, "X");
    assert_eq!(a.summary.as_deref(), Some("First para."));
    assert!(a.content.is_none());
    assert_eq!(a.categories, vec!["Category:A"]);
    options.action = WikiAction::Full;
    let full = article_from_page(&page, "X", &options, vec!["u".to_string()]).unwrap();
    assert_eq!(full.content.as_deref(), Some("First para.\n\nSecond para."));
    assert_eq!(full.images, vec!["u"]);
    let missing = WikiPageFields { missing: true, ..page };
    assert_eq!(
        article_from_page(&missing, "Nope", &options, Vec::new()).unwrap_err(),
        WikiError::NotFound { title: "Nope".to_string() }
    );
}

#[test]
fn html_tags_are_stripped() {
    assert_eq!(strip_html_tags("a <b>bold</b> c"), "a bold c");
    assert_eq!(strip_html_tags("x < y"), "x < y");
}
