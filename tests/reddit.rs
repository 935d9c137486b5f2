use fetch_mcp::reddit::{
    comments_from_fields, comments_url, post_from_fields, reddit_url, wants_comments,
    RedditCommentFields, RedditOptions, RedditPostFields,
};

fn fields() -> RedditPostFields {
    RedditPostFields {
        title: Some("Title".to_string()),
        author: None,
        subreddit: Some("rust".to_string()),
        score: Some(5_000_000_000),
        url: Some("https://x.example".to_string()),
        permalink: Some("/r/rust/comments/1/".to_string()),
        created_utc: Some(1_700_000_000),
        num_comments: Some(3),
        selftext: Some(String::new()),
        link_flair_text: None,
        over_18: None,
    }
}

#[test]
fn reddit_urls() {
    let mut options = RedditOptions::default();
    options.subreddit = "rust".to_string();
    options.limit = 250;
    assert_eq!(
        reddit_url(Some("async await"), &options),
        "https://www.reddit.com/r/rust/search.json?q=async%20await&restrict_sr=1&sort=hot&limit=100"
    );
    options.limit = 10;
    options.sort = "top".to_string();
    options.time_filter = Some("week".to_string());
    assert_eq!(reddit_url(None, &options), "https://www.reddit.com/r/rust/top.json?limit=10&t=week");
    assert_eq!(comments_url("https://www.reddit.com/r/a/1", 7), "https://www.reddit.com/r/a/1.json?limit=7");
}

#[test]
fn post_defaults() {
    let post = post_from_fields(&fields(), None);
    assert_eq!(post.author, "[deleted]");
    assert_eq!(post.permalink, "https://www.reddit.com/r/rust/comments/1/");
    assert_eq!(post.score, 5_000_000_000i64 as i32);
    assert_eq!(post.selftext, None);
    assert!(!post.is_nsfw);
    assert_eq!(post.num_comments, 3);
    let mut options = RedditOptions::default();
    assert!(!wants_comments(&options, &fields()));
    options.include_comments = true;
    assert!(wants_comments(&options, &fields()));
}

#[test]
fn comments_skip_missing_bodies_and_cap() {
    let c = |has_body: bool, body: &str| RedditCommentFields {
        has_body,
        body: Some(body.to_string()),
        author: Some("me".to_string()),
        score: None,
        created_utc: Some(1),
        permalink: None,
    };
    let list = vec![c(true, "a"), c(false, ""), c(true, "b"), c(true, "c")];
    let comments = comments_from_fields(&list, 3);
    assert_eq!(comments.len(), 2);
    assert_eq!(comments[1].body, "b");
    assert_eq!(comments[0].permalink, "https://www.reddit.com");
    assert_eq!(comments[0].score, 0);
}
