use fetch_mcp::validation::{
    sanitize_string, validate_array_size, validate_language_code, validate_limit, validate_reddit_sort,
    validate_reddit_time, validate_regex, validate_selector, validate_subreddit, validate_url,
    validate_wiki_action, ValidationError,
};

#[test]
fn test_validate_url() {
    assert!(validate_url("https://example.com").is_ok());
    assert!(validate_url("http://example.com/path?q=test").is_ok());

    assert!(validate_url("ftp://example.com").is_err());
    assert!(validate_url("javascript:alert(1)").is_err());
    assert!(validate_url("not a url").is_err());
    assert!(validate_url("file:///etc/passwd").is_err());
}

#[test]
fn validate_url_normalizes() {
    assert_eq!(validate_url("HTTPS://Example.COM").unwrap(), "https://example.com/");
    assert_eq!(validate_url("not a url"), Err(ValidationError::InvalidUrl));
    assert_eq!(
        validate_url("ftp://example.com"),
        Err(ValidationError::UnsupportedScheme { scheme: "ftp".to_string() })
    );
}

#[test]
fn test_validate_selector() {
    assert!(validate_selector("div.class").is_ok());
    assert!(validate_selector("a[href]").is_ok());
    assert!(validate_selector("").is_err());
    assert!(validate_selector("   ").is_err());
    assert!(validate_selector("invalid[[[").is_err());
}

#[test]
fn validate_selector_trims_and_bounds() {
    assert_eq!(validate_selector("  div  ").unwrap(), "div");
    assert_eq!(validate_selector(&"a".repeat(1001)), Err(ValidationError::SelectorTooLong));
}

#[test]
fn test_validate_regex() {
    assert!(validate_regex(r"\d+").is_ok());
    assert!(validate_regex("test.*").is_ok());
    assert!(validate_regex("").is_err());
    assert!(validate_regex("[").is_err());
}

#[test]
fn validate_regex_errors() {
    assert_eq!(validate_regex(&"a".repeat(501)), Err(ValidationError::RegexTooLong));
    assert_eq!(validate_regex("  "), Err(ValidationError::RegexEmpty));
    assert_eq!(validate_regex("("), Err(ValidationError::InvalidRegex));
}

#[test]
fn test_validate_limit() {
    assert_eq!(validate_limit(10, 100).unwrap(), 10);
    assert!(validate_limit(0, 100).is_err());
    assert!(validate_limit(200, 100).is_err());
}

#[test]
fn validate_limit_errors() {
    assert_eq!(validate_limit(0, 100), Err(ValidationError::LimitZero));
    assert_eq!(validate_limit(101, 100), Err(ValidationError::LimitTooLarge { max: 100 }));
    assert_eq!(validate_limit(100, 100), Ok(100));
}

#[test]
fn array_size_checks() {
    let empty: [u8; 0] = [];
    assert_eq!(
        validate_array_size(&empty, 3, "urls"),
        Err(ValidationError::ArrayEmpty { name: "urls".to_string() })
    );
    assert_eq!(
        validate_array_size(&[1, 2, 3, 4], 3, "urls"),
        Err(ValidationError::ArrayTooLarge { name: "urls".to_string(), max: 3 })
    );
    assert_eq!(validate_array_size(&[1, 2, 3], 3, "urls"), Ok(()));
}

#[test]
fn test_sanitize_string() {
    assert_eq!(sanitize_string("  hello  "), "hello");
    assert_eq!(sanitize_string("hello\nworld"), "hello\nworld");
    assert_eq!(sanitize_string("test\x00bad"), "testbad");
}

#[test]
fn sanitize_keeps_inner_whitespace_and_drops_controls() {
    assert_eq!(sanitize_string("\t a\u{7f}b \u{3000}"), "ab");
    assert_eq!(sanitize_string("\u{9f}x\ty\u{1b}"), "x\ty");
    assert_eq!(sanitize_string(""), "");
}

#[test]
fn test_validate_subreddit() {
    assert_eq!(validate_subreddit("rust").unwrap(), "rust");
    assert_eq!(validate_subreddit("rust_lang").unwrap(), "rust_lang");
    assert!(validate_subreddit("ab").is_err());
    assert!(validate_subreddit("a".repeat(25).as_str()).is_err());
}

#[test]
fn subreddit_is_lowercased_and_defaults_to_all() {
    assert_eq!(validate_subreddit("  RustLang ").unwrap(), "rustlang");
    assert_eq!(validate_subreddit("   ").unwrap(), "all");
    assert_eq!(validate_subreddit("ru st"), Err(ValidationError::SubredditCharacters));
    assert_eq!(validate_subreddit("ab"), Err(ValidationError::SubredditLength));
}

#[test]
fn language_codes() {
    assert_eq!(validate_language_code(" en ").unwrap(), "en");
    assert_eq!(validate_language_code("deu").unwrap(), "deu");
    assert_eq!(validate_language_code("e"), Err(ValidationError::LanguageLength));
    assert_eq!(validate_language_code("EN"), Err(ValidationError::LanguageCharacters));
}

#[test]
fn reddit_sort_and_time() {
    assert_eq!(validate_reddit_sort(" TOP ").unwrap(), "top");
    assert_eq!(validate_reddit_sort("best"), Err(ValidationError::InvalidSort));
    assert_eq!(validate_reddit_time(None), Ok(None));
    assert_eq!(validate_reddit_time(Some("Week")), Ok(Some("week".to_string())));
    assert_eq!(validate_reddit_time(Some("decade")), Err(ValidationError::InvalidTimeFilter));
}

#[test]
fn wiki_actions() {
    assert_eq!(validate_wiki_action("Search").unwrap(), "search");
    assert_eq!(validate_wiki_action("random").unwrap(), "random");
    assert_eq!(validate_wiki_action("edit"), Err(ValidationError::InvalidWikiAction));
}
