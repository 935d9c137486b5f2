use fetch_mcp::search::{count_occurrences, SearchOptions};

#[test]
fn test_count_occurrences() {
    let content = "hello world hello rust hello";
    assert_eq!(count_occurrences(content, "hello", false), 3);
    assert_eq!(count_occurrences(content, "HELLO", false), 3);
    assert_eq!(count_occurrences(content, "HELLO", true), 0);
}

#[test]
fn occurrences_do_not_overlap() {
    assert_eq!(count_occurrences("aaaa", "aa", true), 2);
    assert_eq!(count_occurrences("abc", "", true), 4);
    assert_eq!(count_occurrences("", "a", true), 0);
}

#[test]
fn default_search_options() {
    let o = SearchOptions::default();
    assert_eq!(o.max_matches, 100);
    assert_eq!(o.context_chars, 50);
    assert!(!o.case_sensitive && !o.use_regex && !o.extract_words);
    assert!(o.line_filter.is_none());
}

use fetch_mcp::search::{extract_context, extract_unique_words, search_in_text, SearchError};

#[test]
fn test_search_plain_text() {
    let content = "Hello world\nHello Rust\nGoodbye world";

    let options = SearchOptions {
        case_sensitive: false,
        use_regex: false,
        ..Default::default()
    };

    let result = search_in_text(content, "hello", options).unwrap();
    assert_eq!(result.total_matches, 2);
    assert_eq!(result.matches[0].line_number, 1);
    assert_eq!(result.matches[1].line_number, 2);
}

#[test]
fn test_search_case_sensitive() {
    let content = "Hello world\nhello rust";

    let options = SearchOptions {
        case_sensitive: true,
        use_regex: false,
        ..Default::default()
    };

    let result = search_in_text(content, "Hello", options).unwrap();
    assert_eq!(result.total_matches, 1);
    assert_eq!(result.matches[0].line_number, 1);
}

#[test]
fn test_search_regex() {
    let content = "test123\ntest456\nabc789";

    let options = SearchOptions {
        case_sensitive: false,
        use_regex: true,
        ..Default::default()
    };

    let result = search_in_text(content, r"test\d+", options).unwrap();
    assert_eq!(result.total_matches, 2);
}

#[test]
fn test_search_with_context() {
    let content = "The quick brown fox jumps over the lazy dog";

    let options = SearchOptions {
        context_chars: 10,
        ..Default::default()
    };

    let result = search_in_text(content, "fox", options).unwrap();
    assert_eq!(result.matches[0].matched_text, "fox");
    assert!(result.matches[0].context_before.contains("brown"));
    assert!(result.matches[0].context_after.contains("jumps"));
}

#[test]
fn test_search_max_matches() {
    let content = "a\na\na\na\na";

    let options = SearchOptions {
        max_matches: 2,
        ..Default::default()
    };

    let result = search_in_text(content, "a", options).unwrap();
    assert_eq!(result.total_matches, 5);
    assert_eq!(result.matches.len(), 2);
}

#[test]
fn test_extract_unique_words() {
    let content = "hello world hello rust world";
    let words = extract_unique_words(content);
    assert_eq!(words, vec!["hello", "rust", "world"]);
}

#[test]
fn unique_words_are_lowercased_and_sorted() {
    let words = extract_unique_words("Zeta alpha ALPHA beta_2, beta");
    assert_eq!(words, vec!["alpha", "beta", "beta_2", "zeta"]);
    assert!(extract_unique_words("  ,. ").is_empty());
}

#[test]
fn search_details() {
    let content = "abcabc\r\nxx abc\n";
    let options = SearchOptions { context_chars: 2, case_sensitive: true, ..Default::default() };
    let result = search_in_text(content, "abc", options).unwrap();
    assert_eq!(result.total_matches, 3);
    let m = &result.matches[1];
    assert_eq!((m.line_number, m.position), (1, 3));
    assert_eq!(m.context_before, "bc");
    assert_eq!(m.context_after, "");
    assert_eq!(result.matches[2].position, 3);
    assert_eq!(result.matches[2].context_before, "x ");
    assert_eq!(result.total_occurrences, Some(3));
    assert!(result.unique_words.is_none());
    assert!(!result.is_regex);
}

#[test]
fn search_line_filter_and_words() {
    let options = SearchOptions {
        line_filter: Some(vec![2]),
        extract_words: true,
        ..Default::default()
    };
    let result = search_in_text("a b\nb a\na", "A", options).unwrap();
    assert_eq!(result.total_matches, 1);
    assert_eq!(result.matches[0].line_number, 2);
    assert_eq!(result.matches[0].position, 2);
    assert_eq!(result.matches[0].matched_text, "a");
    assert_eq!(result.unique_words, Some(vec!["a".to_string(), "b".to_string()]));
    assert_eq!(result.total_occurrences, Some(3));
}

#[test]
fn search_errors() {
    assert_eq!(search_in_text("x", "", SearchOptions::default()).unwrap_err(), SearchError::EmptyQuery);
    let options = SearchOptions { use_regex: true, ..Default::default() };
    assert_eq!(search_in_text("x", "(", options).unwrap_err(), SearchError::InvalidRegex);
}

#[test]
fn regex_positions_are_in_characters() {
    let options = SearchOptions { use_regex: true, case_sensitive: true, ..Default::default() };
    let result = search_in_text("héllo wörld", "w.r", options).unwrap();
    assert_eq!(result.matches[0].position, 6);
    assert_eq!(result.matches[0].matched_text, "wör");
    assert!(result.total_occurrences.is_none());
}

#[test]
fn context_is_cut_at_line_ends() {
    assert_eq!(extract_context("abcdef", 2, 2, 10), ("ab".to_string(), "ef".to_string()));
    assert_eq!(extract_context("abcdef", 3, 1, 1), ("c".to_string(), "e".to_string()));
}
