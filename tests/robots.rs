use fetch_mcp::robots::{check_robots_response, robots_txt_url, RobotsError};

#[test]
fn robots_address() {
    assert_eq!(robots_txt_url("https://www.example.com/a/b?c").unwrap(), "https://www.example.com/robots.txt");
    assert_eq!(robots_txt_url("nope"), Err(RobotsError::InvalidUrl));
    assert_eq!(robots_txt_url("data:text/plain,hi"), Err(RobotsError::MissingHost));
}

#[test]
fn robots_statuses() {
    let url = "https://example.com/private/x";
    assert_eq!(check_robots_response(url, "bot", 403, None), Err(RobotsError::Forbidden { status: 403 }));
    assert_eq!(check_robots_response(url, "bot", 401, None), Err(RobotsError::Forbidden { status: 401 }));
    assert_eq!(check_robots_response(url, "bot", 404, None), Ok(()));
    assert_eq!(check_robots_response(url, "bot", 500, None), Err(RobotsError::Unavailable { status: 500 }));
    assert_eq!(check_robots_response(url, "bot", 200, None), Err(RobotsError::Unreadable));
}

#[test]
fn robots_rules_decide() {
    let rules = "User-agent: *\nDisallow: /private/\n".to_string();
    assert_eq!(check_robots_response("https://example.com/public", "bot", 200, Some(rules.clone())), Ok(()));
    assert_eq!(
        check_robots_response("https://example.com/private/x", "bot", 200, Some(rules)),
        Err(RobotsError::Disallowed {
            url: "https://example.com/private/x".to_string(),
            user_agent: "bot".to_string()
        })
    );
}

use fetch_mcp::robots::{cut_long_lines, MAX_ROBOTS_LINE_CHARS};

#[test]
fn long_robots_lines_are_cut() {
    let long = "a".repeat(10);
    let rules = format!("{}\n{}\r\nx", "y".repeat(MAX_ROBOTS_LINE_CHARS + 3), long);
    let cut = cut_long_lines(&rules);
    assert_eq!(cut, format!("{}\n{}\r\nx", "y".repeat(MAX_ROBOTS_LINE_CHARS), long));
    assert_eq!(cut_long_lines("short\nlines"), "short\nlines");
}

#[test]
fn overlong_multibyte_robots_line_is_read() {
    let body = format!("{}éé\nb", "a".repeat(16663));
    assert_eq!(check_robots_response("https://example.com/x", "bot", 200, Some(body)), Ok(()));
}
