use fetch_mcp::tools::{content_window, prepare_batch, MAX_BATCH_URLS};
use fetch_mcp::validation::ValidationError;

#[test]
fn content_windows() {
    assert_eq!(content_window("hello world", None, Some(3)), "hello world");
    assert_eq!(content_window("hello world", Some(5), None), "hello");
    assert_eq!(content_window("hello world", Some(5), Some(6)), "world");
    assert_eq!(content_window("hello world", Some(50), Some(6)), "world");
    assert_eq!(content_window("hello", Some(2), Some(9)), "");
    assert_eq!(content_window("héllo", Some(2), Some(1)), "él");
}

#[test]
fn batch_requests_are_checked() {
    let urls = vec!["HTTPS://Example.com".to_string(), "http://a.example/x".to_string()];
    let (checked, options) = prepare_batch(&urls, 3, Some(4)).unwrap();
    assert_eq!(checked, vec!["https://example.com/", "http://a.example/x"]);
    assert_eq!(options.max_concurrent, 3);
    assert_eq!(options.rate_limit, Some(4));
    assert_eq!(options.timeout_ms, 30_000);
    assert!(!options.fail_fast);
    assert_eq!(
        prepare_batch(&Vec::new(), 3, None).unwrap_err(),
        ValidationError::ArrayEmpty { name: "URLs".to_string() }
    );
    let many: Vec<String> = (0..=MAX_BATCH_URLS).map(|i| format!("https://e.example/{}", i)).collect();
    assert_eq!(
        prepare_batch(&many, 3, None).unwrap_err(),
        ValidationError::ArrayTooLarge { name: "URLs".to_string(), max: 100 }
    );
    let bad = vec!["https://ok.example".to_string(), "ftp://x.example".to_string()];
    assert_eq!(
        prepare_batch(&bad, 3, None).unwrap_err(),
        ValidationError::UnsupportedScheme { scheme: "ftp".to_string() }
    );
    assert_eq!(prepare_batch(&urls, 0, None).unwrap_err(), ValidationError::ConcurrencyZero);
    assert_eq!(prepare_batch(&urls, 2, Some(0)).unwrap_err(), ValidationError::RateLimitZero);
}
