use fetch_mcp::batch::{
    batch_report, calculate_batch_stats, is_success_status, item_result, response_outcome,
    stats_fit, BatchError, BatchOptions, BatchRun, FetchOutcome, FetchResult,
};
use fetch_mcp::text::decimal;

fn fetched(body: &str, len: usize, ms: u64) -> (FetchOutcome, u64) {
    (
        FetchOutcome::Fetched { status: 200, body: body.to_string(), content_length: Some(len) },
        ms,
    )
}

fn failed(status: u16, message: &str, ms: u64) -> (FetchOutcome, u64) {
    (FetchOutcome::Failed { status, message: message.to_string() }, ms)
}

fn urls(n: usize) -> Vec<String> {
    (0..n).map(|i| format!("https://example.com/{}", i)).collect()
}

fn options(max_concurrent: usize, fail_fast: bool) -> BatchOptions {
    BatchOptions {
        max_concurrent,
        rate_limit: None,
        timeout_ms: 10_000,
        fail_fast,
        follow_redirects: true,
    }
}

#[test]
fn test_batch_stats() {
    let results = vec![
        FetchResult {
            url: "https://example.com".to_string(),
            status: 200,
            success: true,
            content: Some("test".to_string()),
            error: None,
            response_time_ms: 100,
            content_length: Some(4),
        },
        FetchResult {
            url: "https://example2.com".to_string(),
            status: 404,
            success: false,
            content: None,
            error: Some("Not found".to_string()),
            response_time_ms: 50,
            content_length: None,
        },
    ];

    let stats = calculate_batch_stats(&results, 1000);
    assert_eq!(stats.total, 2);
    assert_eq!(stats.success, 1);
    assert_eq!(stats.failed, 1);
    assert_eq!(stats.avg_response_time_ms, 75);
    assert_eq!(stats.total_bytes, 4);
    assert_eq!(stats.total_time_ms, 1000);
}

#[test]
fn stats_of_no_items_are_zero() {
    let stats = calculate_batch_stats(&[], 7);
    assert_eq!(stats.total, 0);
    assert_eq!(stats.success, 0);
    assert_eq!(stats.failed, 0);
    assert_eq!(stats.avg_response_time_ms, 0);
    assert_eq!(stats.total_bytes, 0);
    assert_eq!(stats.total_time_ms, 7);
}

#[test]
fn average_latency_truncates() {
    let results: Vec<FetchResult> = [10u64, 10, 11]
        .iter()
        .enumerate()
        .map(|(i, ms)| item_result(format!("u{}", i), fetched("x", 1, *ms).0, *ms))
        .collect();
    let stats = calculate_batch_stats(&results, 0);
    assert_eq!(stats.avg_response_time_ms, 10);
    assert_eq!(stats.total_bytes, 3);
}

#[test]
fn aggregation_twice_gives_the_same_statistics() {
    let results = vec![
        item_result("a".to_string(), fetched("abc", 3, 30).0, 30),
        item_result("b".to_string(), failed(0, "timeout", 5).0, 5),
    ];
    let a = calculate_batch_stats(&results, 99);
    let b = calculate_batch_stats(&results, 99);
    assert_eq!(
        (a.total, a.success, a.failed, a.avg_response_time_ms, a.total_bytes, a.total_time_ms),
        (b.total, b.success, b.failed, b.avg_response_time_ms, b.total_bytes, b.total_time_ms)
    );
}

#[test]
fn stats_fit_detects_overflow() {
    let big = vec![
        item_result("a".to_string(), fetched("x", 1, u64::MAX).0, u64::MAX),
        item_result("b".to_string(), fetched("x", 1, 1).0, 1),
    ];
    assert!(!stats_fit(&big));
    let small = vec![item_result("a".to_string(), fetched("x", 1, 5).0, 5)];
    assert!(stats_fit(&small));
}

#[test]
fn five_successes_with_two_in_flight() {
    let outcomes = vec![
        fetched(&"a".repeat(10), 10, 1),
        fetched(&"b".repeat(20), 20, 2),
        fetched(&"c".repeat(30), 30, 3),
        fetched(&"d".repeat(40), 40, 4),
        fetched(&"e".repeat(50), 50, 5),
    ];
    let report = batch_report(urls(5), outcomes, &options(2, false), 100).unwrap();
    assert_eq!(report.stats.total, 5);
    assert_eq!(report.stats.success, 5);
    assert_eq!(report.stats.failed, 0);
    assert_eq!(report.stats.total_bytes, 150);
    assert_eq!(report.stats.avg_response_time_ms, 3);
}

#[test]
fn results_keep_input_order() {
    let input = urls(4);
    let outcomes = vec![
        fetched("a", 1, 40),
        failed(500, "HTTP 500", 10),
        fetched("c", 1, 30),
        failed(0, "connect", 20),
    ];
    let report = batch_report(input.clone(), outcomes, &options(3, false), 50).unwrap();
    assert_eq!(report.results.len(), input.len());
    for (r, u) in report.results.iter().zip(input.iter()) {
        assert_eq!(&r.url, u);
    }
    assert!(report.results[0].success);
    assert!(!report.results[1].success);
    assert_eq!(report.results[1].status, 500);
    assert_eq!(report.results[3].status, 0);
}

#[test]
fn duplicate_urls_are_kept_apart() {
    let input = vec!["https://a.example".to_string(), "https://a.example".to_string()];
    let outcomes = vec![fetched("one", 3, 1), failed(503, "busy", 1)];
    let report = batch_report(input, outcomes, &options(1, false), 2).unwrap();
    assert_eq!(report.results.len(), 2);
    assert!(report.results[0].success);
    assert!(!report.results[1].success);
}

#[test]
fn empty_batch_is_refused() {
    let r = batch_report(Vec::new(), Vec::new(), &options(5, false), 0);
    assert!(matches!(r, Err(BatchError::EmptyInput)));
    assert!(matches!(BatchRun::new(Vec::new(), 3), Err(BatchError::EmptyInput)));
}

#[test]
fn fail_fast_names_the_failed_url() {
    let input = vec![
        "https://one.example".to_string(),
        "https://two.example".to_string(),
        "https://three.example".to_string(),
    ];
    let outcomes = vec![fetched("1", 1, 1), failed(404, "HTTP 404", 1), fetched("3", 1, 1)];
    match batch_report(input, outcomes, &options(2, true), 3) {
        Err(BatchError::FailFast { url }) => assert_eq!(url, "https://two.example"),
        _ => panic!("expected a fail-fast error"),
    }
}

#[test]
fn without_fail_fast_a_failure_stays_in_its_item() {
    let input = vec![
        "https://one.example".to_string(),
        "https://two.example".to_string(),
        "https://three.example".to_string(),
    ];
    let outcomes = vec![fetched("1", 1, 1), failed(404, "HTTP 404", 1), fetched("3", 1, 1)];
    let report = batch_report(input, outcomes, &options(2, false), 3).unwrap();
    assert!(report.results[0].success);
    assert!(!report.results[1].success);
    assert!(report.results[2].success);
    assert_eq!(report.stats.total, report.stats.success + report.stats.failed);
    assert_eq!(report.stats.failed, 1);
}

#[test]
fn fail_fast_reports_the_first_failure_in_input_order() {
    let outcomes = vec![fetched("1", 1, 1), failed(0, "a", 1), failed(0, "b", 1)];
    match batch_report(urls(3), outcomes, &options(3, true), 3) {
        Err(BatchError::FailFast { url }) => assert_eq!(url, "https://example.com/1"),
        _ => panic!("expected a fail-fast error"),
    }
}

#[test]
fn run_never_exceeds_concurrency_limit() {
    let mut run = BatchRun::new(urls(5), 2).unwrap();
    assert_eq!(run.start_next(), Some(0));
    assert_eq!(run.start_next(), Some(1));
    assert_eq!(run.start_next(), None);
    assert!(run.is_running(0));
    run.complete(1, fetched("b", 1, 2).0, 2);
    assert!(!run.is_running(1));
    assert_eq!(run.start_next(), Some(2));
    assert_eq!(run.start_next(), None);
    run.complete(0, fetched("a", 1, 1).0, 1);
    run.complete(2, failed(0, "timeout", 9).0, 9);
    assert_eq!(run.start_next(), Some(3));
    assert_eq!(run.start_next(), Some(4));
    assert_eq!(run.start_next(), None);
    assert!(!run.is_finished());
    run.complete(4, fetched("e", 1, 1).0, 1);
    run.complete(3, fetched("d", 1, 1).0, 1);
    assert!(run.is_finished());
    assert_eq!(run.url(3), "https://example.com/3");
    let report = run.finish(20, false).unwrap();
    assert_eq!(report.results[2].error.as_deref(), Some("timeout"));
    assert_eq!(report.results[2].status, 0);
    assert_eq!(report.stats.success, 4);
    assert_eq!(report.stats.total_bytes, 4);
}

#[test]
fn non_success_status_is_a_failure_with_its_code() {
    let o = response_outcome("https://x.example/a", 404, Ok("gone".to_string()));
    match o {
        FetchOutcome::Failed { status, message } => {
            assert_eq!(status, 404);
            assert_eq!(message, "HTTP 404 for https://x.example/a");
        }
        _ => panic!("expected a failure"),
    }
    let ok = response_outcome("https://x.example/a", 204, Ok("".to_string()));
    assert!(matches!(ok, FetchOutcome::Fetched { status: 204, content_length: Some(0), .. }));
    let sized = response_outcome("https://x.example/a", 200, Ok("héllo".to_string()));
    assert!(matches!(sized, FetchOutcome::Fetched { content_length: Some(6), .. }));
    let unread = response_outcome("u", 200, Err("body".to_string()));
    assert!(matches!(unread, FetchOutcome::Failed { status: 200, .. }));
    assert!(is_success_status(200));
    assert!(is_success_status(299));
    assert!(!is_success_status(300));
    assert!(!is_success_status(199));
}

#[test]
fn item_result_keeps_exactly_one_of_body_and_error() {
    let ok = item_result("u".to_string(), fetched("body", 4, 7).0, 7);
    assert!(ok.success && ok.content.as_deref() == Some("body") && ok.error.is_none());
    assert_eq!(ok.content_length, Some(4));
    let bad = item_result("u".to_string(), failed(0, "dns", 3).0, 3);
    assert!(!bad.success && bad.content.is_none() && bad.error.as_deref() == Some("dns"));
    assert_eq!(bad.content_length, None);
    assert_eq!(bad.response_time_ms, 3);
}

#[test]
fn default_batch_options() {
    let o = BatchOptions::default();
    assert_eq!(o.max_concurrent, 5);
    assert_eq!(o.rate_limit, Some(10));
    assert_eq!(o.timeout_ms, 30_000);
    assert!(!o.fail_fast);
}

#[test]
fn decimal_notation() {
    assert_eq!(decimal(0), "0");
    assert_eq!(decimal(404), "404");
    assert_eq!(decimal(u64::MAX), u64::MAX.to_string());
}

#[test]
fn body_sizes_add_up_to_total_bytes() {
    let outcomes: Vec<(FetchOutcome, u64)> = [10usize, 20, 30, 40, 50]
        .iter()
        .enumerate()
        .map(|(i, n)| (response_outcome(&format!("https://example.com/{}", i), 200, Ok("x".repeat(*n))), 1))
        .collect();
    let report = batch_report(urls(5), outcomes, &options(2, false), 10).unwrap();
    assert_eq!(report.stats.total_bytes, 150);
    assert_eq!(report.results[2].content_length, Some(30));
}
