use vstd::prelude::*;
use crate::text::{decimal, decimal_of};
use crate::urls::{encode, opt_view, url_encoded};

verus! {

/// Reddit comment.
#[derive(Debug, Clone)]
pub struct RedditComment {
    /// Comment author.
    pub author: String,
    /// Comment body text.
    pub body: String,
    /// Comment score (upvotes - downvotes).
    pub score: i32,
    /// Creation time (UTC timestamp).
    pub created_utc: i64,
    /// Permalink to the comment.
    pub permalink: String,
}

/// Reddit post.
#[derive(Debug, Clone)]
pub struct RedditPost {
    /// Post title.
    pub title: String,
    /// Post author.
    pub author: String,
    /// Subreddit name.
    pub subreddit: String,
    /// Post score (upvotes - downvotes).
    pub score: i32,
    /// External URL (if a link post).
    pub url: Option<String>,
    /// Reddit permalink.
    pub permalink: String,
    /// Creation time (UTC timestamp).
    pub created_utc: i64,
    /// Number of comments.
    pub num_comments: i32,
    /// Self-text content (if a text post).
    pub selftext: Option<String>,
    /// Top comments (if requested).
    pub comments: Option<Vec<RedditComment>>,
    /// Post flair text.
    pub flair: Option<String>,
    /// Whether the post is marked NSFW.
    pub is_nsfw: bool,
}

/// Reddit search and fetch options.
#[derive(Debug, Clone)]
pub struct RedditOptions {
    /// Subreddit name.
    pub subreddit: String,
    /// Sort order: hot, new, top, rising or controversial.
    pub sort: String,
    /// Time filter for top and controversial: hour, day, week, month, year or all.
    pub time_filter: Option<String>,
    /// Number of posts to fetch (at most 100).
    pub limit: usize,
    /// Include the top comments.
    pub include_comments: bool,
    /// Maximum number of comments per post.
    pub max_comments: usize,
}

impl Default for RedditOptions {
    fn default() -> (r: Self)
        ensures
            r.subreddit@ == "all"@,
            r.sort@ == "hot"@,
            r.time_filter is None,
            r.limit == 25,
            !r.include_comments,
            r.max_comments == 10,
    {
        RedditOptions {
            subreddit: String::from_str("all"),
            sort: String::from_str("hot"),
            time_filter: None,
            limit: 25,
            include_comments: false,
            max_comments: 10,
        }
    }
}

/// The number of posts asked of Reddit: the limit, at most 100.
pub open spec fn capped_limit(limit: usize) -> nat {
    if limit < 100 {
        limit as nat
    } else {
        100
    }
}

/// The Reddit address for a search (`query`) or a listing of a subreddit.
pub open spec fn reddit_url_of(query: Option<Seq<char>>, options: RedditOptions) -> Seq<char> {
    let limit = decimal_of(capped_limit(options.limit));
    match query {
        Some(q) => "https://www.reddit.com/r/"@ + options.subreddit@ + "/search.json?q="@ + url_encoded(q)
            + "&restrict_sr=1&sort="@ + options.sort@ + "&limit="@ + limit,
        None => {
            let base = "https://www.reddit.com/r/"@ + options.subreddit@ + "/"@ + options.sort@
                + ".json?limit="@ + limit;
            match options.time_filter {
                Some(t) => base + "&t="@ + t@,
                None => base,
            }
        },
    }
}

/// The address of the Reddit search for `query` in the options' subreddit, or, without a query,
/// of its listing in the options' sort order and time filter; at most 100 posts.
pub fn reddit_url(query: Option<&str>, options: &RedditOptions) -> (r: String)
    ensures
        r@ == reddit_url_of(
            match query {
                Some(q) => Some(q@),
                None => None,
            },
            *options,
        ),
{
    let limit = if options.limit < 100 {
        options.limit
    } else {
        100
    };
    let limit_text = decimal(limit as u64);
    match query {
        Some(q) => {
            let encoded = encode(q);
            String::from_str("https://www.reddit.com/r/").concat(options.subreddit.as_str()).concat(
                "/search.json?q=",
            ).concat(encoded.as_str()).concat("&restrict_sr=1&sort=").concat(options.sort.as_str()).concat(
                "&limit=",
            ).concat(limit_text.as_str())
        },
        None => {
            let base = String::from_str("https://www.reddit.com/r/").concat(options.subreddit.as_str()).concat(
                "/",
            ).concat(options.sort.as_str()).concat(".json?limit=").concat(limit_text.as_str());
            match &options.time_filter {
                Some(t) => base.concat("&t=").concat(t.as_str()),
                None => base,
            }
        },
    }
}

/// The fields of a post as Reddit's JSON gives them, each absent where missing or of another
/// type; `created_utc` already truncated to whole seconds.
#[derive(Debug, Clone)]
pub struct RedditPostFields {
    pub title: Option<String>,
    pub author: Option<String>,
    pub subreddit: Option<String>,
    pub score: Option<i64>,
    pub url: Option<String>,
    pub permalink: Option<String>,
    pub created_utc: Option<i64>,
    pub num_comments: Option<i64>,
    pub selftext: Option<String>,
    pub link_flair_text: Option<String>,
    pub over_18: Option<bool>,
}

/// `o`, or `d` where absent.
pub open spec fn text_or(o: Option<String>, d: Seq<char>) -> Seq<char> {
    match o {
        Some(s) => s@,
        None => d,
    }
}

/// `o`, or 0 where absent.
pub open spec fn int_or_zero(o: Option<i64>) -> i64 {
    match o {
        Some(x) => x,
        None => 0,
    }
}

fn text_or_exec(o: &Option<String>, d: &str) -> (r: String)
    ensures
        r@ == text_or(*o, d@),
{
    match o {
        Some(s) => s.clone(),
        None => String::from_str(d),
    }
}

fn opt_clone(o: &Option<String>) -> (r: Option<String>)
    ensures
        opt_view(r) == opt_view(*o),
{
    match o {
        Some(s) => Some(s.clone()),
        None => None,
    }
}

/// Whether the comments of a post are fetched: when asked for and the post has some.
pub fn wants_comments(options: &RedditOptions, fields: &RedditPostFields) -> (r: bool)
    ensures
        r == (options.include_comments && int_or_zero(fields.num_comments) as i32 > 0),
{
    let n = match fields.num_comments {
        Some(x) => x,
        None => 0,
    };
    options.include_comments && (n as i32) > 0
}

/// Builds a post from its JSON fields and its fetched comments: missing text is empty (the
/// author `[deleted]`), missing numbers are 0 (truncated to `i32`), the permalink is made
/// absolute, an empty self-text is dropped, and a post is not NSFW unless marked.
pub fn post_from_fields(fields: &RedditPostFields, comments: Option<Vec<RedditComment>>) -> (r: RedditPost)
    ensures
        r.title@ == text_or(fields.title, ""@),
        r.author@ == text_or(fields.author, "[deleted]"@),
        r.subreddit@ == text_or(fields.subreddit, ""@),
        r.score == int_or_zero(fields.score) as i32,
        opt_view(r.url) == opt_view(fields.url),
        r.permalink@ == "https://www.reddit.com"@ + text_or(fields.permalink, ""@),
        r.created_utc == int_or_zero(fields.created_utc),
        r.num_comments == int_or_zero(fields.num_comments) as i32,
        opt_view(r.selftext) == match fields.selftext {
            Some(t) => if t@.len() > 0 {
                Some(t@)
            } else {
                None
            },
            None => None,
        },
        r.comments == comments,
        opt_view(r.flair) == opt_view(fields.link_flair_text),
        r.is_nsfw == (fields.over_18 == Some(true)),
{
    let score = match fields.score {
        Some(x) => x,
        None => 0,
    };
    let num_comments = match fields.num_comments {
        Some(x) => x,
        None => 0,
    };
    let link = text_or_exec(&fields.permalink, "");
    let selftext = match &fields.selftext {
        Some(t) => if t.as_str().is_empty() {
            None
        } else {
            Some(t.clone())
        },
        None => None,
    };
    RedditPost {
        title: text_or_exec(&fields.title, ""),
        author: text_or_exec(&fields.author, "[deleted]"),
        subreddit: text_or_exec(&fields.subreddit, ""),
        score: score as i32,
        url: opt_clone(&fields.url),
        permalink: String::from_str("https://www.reddit.com").concat(link.as_str()),
        created_utc: match fields.created_utc {
            Some(x) => x,
            None => 0,
        },
        num_comments: num_comments as i32,
        selftext,
        comments,
        flair: opt_clone(&fields.link_flair_text),
        is_nsfw: match fields.over_18 {
            Some(b) => b,
            None => false,
        },
    }
}

/// The address of the comments of the post at `permalink`, at most `max_comments` of them.
pub fn comments_url(permalink: &str, max_comments: usize) -> (r: String)
    ensures
        r@ == permalink@ + ".json?limit="@ + decimal_of(max_comments as nat),
{
    let n = decimal(max_comments as u64);
    String::from_str(permalink).concat(".json?limit=").concat(n.as_str())
}

/// The fields of a comment as Reddit's JSON gives them; `has_body` is false where the body is
/// missing or null.
#[derive(Debug, Clone)]
pub struct RedditCommentFields {
    pub has_body: bool,
    pub body: Option<String>,
    pub author: Option<String>,
    pub score: Option<i64>,
    pub created_utc: Option<i64>,
    pub permalink: Option<String>,
}

/// A comment as plain values: author, body, score, time, permalink.
pub type CommentView = (Seq<char>, Seq<char>, i32, i64, Seq<char>);

/// The plain values of a comment.
pub open spec fn comment_view(c: RedditComment) -> CommentView {
    (c.author@, c.body@, c.score, c.created_utc, c.permalink@)
}

/// The comment built from its JSON fields.
pub open spec fn comment_of(f: RedditCommentFields) -> CommentView {
    (
        text_or(f.author, "[deleted]"@),
        text_or(f.body, ""@),
        int_or_zero(f.score) as i32,
        int_or_zero(f.created_utc),
        "https://www.reddit.com"@ + text_or(f.permalink, ""@),
    )
}

/// The comments kept from the first `n` listed: those with a body.
pub open spec fn comments_upto(fields: Seq<RedditCommentFields>, n: int) -> Seq<CommentView>
    decreases n,
{
    if n <= 0 {
        Seq::empty()
    } else if fields[n - 1].has_body {
        comments_upto(fields, n - 1).push(comment_of(fields[n - 1]))
    } else {
        comments_upto(fields, n - 1)
    }
}

/// Builds the comments of a post from the first `max_comments` listed, skipping those
/// without a body.
pub fn comments_from_fields(fields: &Vec<RedditCommentFields>, max_comments: usize) -> (r: Vec<RedditComment>)
    ensures
        r@.map_values(|c: RedditComment| comment_view(c)) == comments_upto(
            fields@,
            if fields@.len() < max_comments {
                fields@.len() as int
            } else {
                max_comments as int
            },
        ),
{
    let mut out: Vec<RedditComment> = Vec::new();
    let mut i: usize = 0;
    while i < fields.len() && i < max_comments
        invariant
            i <= fields@.len(),
            i <= max_comments,
            out@.map_values(|c: RedditComment| comment_view(c)) == comments_upto(fields@, i as int),
        decreases fields@.len() - i,
    {
        let f = &fields[i];
        if f.has_body {
            let link = text_or_exec(&f.permalink, "");
            let c = RedditComment {
                author: text_or_exec(&f.author, "[deleted]"),
                body: text_or_exec(&f.body, ""),
                score: (match f.score {
                    Some(x) => x,
                    None => 0,
                }) as i32,
                created_utc: match f.created_utc {
                    Some(x) => x,
                    None => 0,
                },
                permalink: String::from_str("https://www.reddit.com").concat(link.as_str()),
            };
            let ghost before = out@.map_values(|c: RedditComment| comment_view(c));
            out.push(c);
            proof {
                assert(out@.map_values(|c: RedditComment| comment_view(c)) =~= before.push(comment_view(c)));
            }
        }
        i = i + 1;
    }
    out
}

} // verus!
