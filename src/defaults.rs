use vstd::prelude::*;

verus! {

/// Default number of feed items.
pub fn default_max_items() -> (r: usize)
    ensures
        r == 20,
{
    20
}

/// Default number of fetches in flight in a batch.
pub fn default_max_concurrent() -> (r: usize)
    ensures
        r == 5,
{
    5
}

/// Default rate limit of a batch, in requests per second.
pub fn default_rate_limit() -> (r: Option<u32>)
    ensures
        r == Some(10u32),
{
    Some(10)
}

/// Default number of search matches returned.
pub fn default_max_matches() -> (r: usize)
    ensures
        r == 100,
{
    100
}

/// Default subreddit.
pub fn default_subreddit() -> (r: String)
    ensures
        r@ == "all"@,
{
    String::from_str("all")
}

/// Default Reddit sort order.
pub fn default_sort() -> (r: String)
    ensures
        r@ == "hot"@,
{
    String::from_str("hot")
}

/// Default number of Reddit posts.
pub fn default_limit() -> (r: usize)
    ensures
        r == 25,
{
    25
}

/// Default Wikipedia language.
pub fn default_language() -> (r: String)
    ensures
        r@ == "en"@,
{
    String::from_str("en")
}

/// Default Wikipedia action.
pub fn default_action() -> (r: String)
    ensures
        r@ == "summary"@,
{
    String::from_str("summary")
}

/// Default number of Wikipedia search results.
pub fn default_wiki_limit() -> (r: usize)
    ensures
        r == 10,
{
    10
}

/// Whether Wikipedia images are extracted by default.
pub fn default_extract_images() -> (r: bool)
    ensures
        r,
{
    true
}

} // verus!
