use vstd::prelude::*;
use crate::urls::{host_of, parse_url, parsed_url, scheme_of, url_host, url_scheme};
use crate::text::{
    alphanumeric, byte_len, chars_of, is_alphanumeric, is_control, is_control_code, is_space,
    is_whitespace, lower_of, lowercase, string_of, trim, trim_of, utf8_len,
};

verus! {

/// Why an input was refused.
#[derive(Debug, Clone, PartialEq, Eq)]
pub enum ValidationError {
    /// A limit of zero.
    LimitZero,
    /// A limit above the allowed maximum.
    LimitTooLarge { max: usize },
    /// An empty array, with the array's name.
    ArrayEmpty { name: String },
    /// An array longer than allowed, with the array's name and the maximum.
    ArrayTooLarge { name: String, max: usize },
    /// A subreddit name outside 3 to 21 bytes.
    SubredditLength,
    /// A subreddit name with a character other than a letter, a digit, `_` or `-`.
    SubredditCharacters,
    /// A language code outside 2 to 3 bytes.
    LanguageLength,
    /// A language code with a character other than `a` to `z`.
    LanguageCharacters,
    /// A sort order that Reddit does not offer.
    InvalidSort,
    /// A time filter that Reddit does not offer.
    InvalidTimeFilter,
    /// An action that the Wikipedia tool does not offer.
    InvalidWikiAction,
    /// A URL that does not parse.
    InvalidUrl,
    /// A URL whose scheme is neither `http` nor `https`.
    UnsupportedScheme { scheme: String },
    /// A URL without a host.
    MissingHost,
    /// A CSS selector longer than 1000 bytes.
    SelectorTooLong,
    /// A CSS selector of whitespace only.
    SelectorEmpty,
    /// A CSS selector that does not parse.
    InvalidSelector,
    /// A regular expression longer than 500 bytes.
    RegexTooLong,
    /// A regular expression of whitespace only.
    RegexEmpty,
    /// A regular expression that does not compile.
    InvalidRegex,
    /// A concurrency limit of zero.
    ConcurrencyZero,
    /// A rate limit of zero requests per second.
    RateLimitZero,
}

/// Checks that a limit is positive and at most `max_limit`.
pub fn validate_limit(limit: usize, max_limit: usize) -> (r: Result<usize, ValidationError>)
    ensures
        limit == 0 ==> r == Err::<usize, ValidationError>(ValidationError::LimitZero),
        limit > max_limit && limit != 0 ==> r == Err::<usize, ValidationError>(
            ValidationError::LimitTooLarge { max: max_limit },
        ),
        0 < limit <= max_limit ==> r == Ok::<usize, ValidationError>(limit),
{
    if limit == 0 {
        return Err(ValidationError::LimitZero);
    }
    if limit > max_limit {
        return Err(ValidationError::LimitTooLarge { max: max_limit });
    }
    Ok(limit)
}

/// Checks that an array named `name` is not empty and holds at most `max_size` items.
pub fn validate_array_size<T>(array: &[T], max_size: usize, name: &str) -> (r: Result<(), ValidationError>)
    ensures
        array@.len() == 0 ==> (r matches Err(ValidationError::ArrayEmpty { name: n }) && n@ == name@),
        array@.len() > max_size && array@.len() != 0 ==> (r matches Err(
            ValidationError::ArrayTooLarge { name: n, max },
        ) && n@ == name@ && max == max_size),
        0 < array@.len() <= max_size ==> r is Ok,
{
    if array.len() == 0 {
        return Err(ValidationError::ArrayEmpty { name: String::from_str(name) });
    }
    if array.len() > max_size {
        return Err(ValidationError::ArrayTooLarge { name: String::from_str(name), max: max_size });
    }
    Ok(())
}

/// Characters that sanitizing keeps: all but control codes that are not whitespace.
pub open spec fn kept(c: char) -> bool {
    !is_control_code(c) || is_space(c)
}

/// The characters of `s` that sanitizing keeps, in order.
pub open spec fn kept_chars(s: Seq<char>) -> Seq<char>
    decreases s.len(),
{
    if s.len() == 0 {
        s
    } else {
        kept_chars(s.drop_last()) + if kept(s.last()) {
            seq![s.last()]
        } else {
            Seq::empty()
        }
    }
}

/// `s` with its control characters but whitespace removed, then trimmed.
pub open spec fn sanitized(s: Seq<char>) -> Seq<char> {
    trim_of(kept_chars(s))
}

/// Removes control characters other than whitespace, then leading and trailing whitespace.
pub fn sanitize_string(s: &str) -> (r: String)
    ensures
        r@ == sanitized(s@),
{
    let v = chars_of(s);
    let mut out: Vec<char> = Vec::new();
    let mut i: usize = 0;
    while i < v.len()
        invariant
            v@ == s@,
            i <= v@.len(),
            out@ == kept_chars(v@.subrange(0, i as int)),
        decreases v@.len() - i,
    {
        let c = v[i];
        proof {
            assert(v@.subrange(0, i + 1).drop_last() =~= v@.subrange(0, i as int));
        }
        if !is_control(c) || is_whitespace(c) {
            out.push(c);
        }
        proof {
            assert(out@ =~= kept_chars(v@.subrange(0, i + 1)));
        }
        i = i + 1;
    }
    assert(v@.subrange(0, v@.len() as int) =~= v@);
    let kept_string = string_of(out.as_slice());
    trim(kept_string.as_str())
}

/// Characters allowed in a subreddit name.
pub open spec fn subreddit_char(c: char) -> bool {
    alphanumeric(c) || c == '_' || c == '-'
}

fn all_subreddit_chars(s: &String) -> (r: bool)
    ensures
        r == forall|i: int| 0 <= i < s@.len() ==> subreddit_char(#[trigger] s@[i]),
{
    let v = chars_of(s.as_str());
    let mut i: usize = 0;
    while i < v.len()
        invariant
            v@ == s@,
            i <= v@.len(),
            forall|k: int| 0 <= k < i ==> subreddit_char(#[trigger] v@[k]),
        decreases v@.len() - i,
    {
        let c = v[i];
        if !(is_alphanumeric(c) || c == '_' || c == '-') {
            return false;
        }
        i = i + 1;
    }
    true
}

/// Sanitizes a subreddit name: empty means `all`; otherwise it must be 3 to 21 bytes of letters,
/// digits, `_` and `-`, and is returned in lowercase.
pub fn validate_subreddit(subreddit: &str) -> (r: Result<String, ValidationError>)
    ensures
        ({
            let t = sanitized(subreddit@);
            let n = byte_len(t) as usize;
            &&& t.len() == 0 ==> (r matches Ok(v) && v@ == "all"@)
            &&& t.len() != 0 && (n < 3 || n > 21) ==> r == Err::<String, ValidationError>(
                ValidationError::SubredditLength,
            )
            &&& t.len() != 0 && 3 <= n <= 21 && !(forall|i: int|
                0 <= i < t.len() ==> subreddit_char(#[trigger] t[i])) ==> r == Err::<
                String,
                ValidationError,
            >(ValidationError::SubredditCharacters)
            &&& t.len() != 0 && 3 <= n <= 21 && (forall|i: int|
                0 <= i < t.len() ==> subreddit_char(#[trigger] t[i])) ==> (r matches Ok(v) && v@
                == lower_of(t))
        }),
{
    let sanitized = sanitize_string(subreddit);
    if sanitized.as_str().is_empty() {
        return Ok(String::from_str("all"));
    }
    let n = utf8_len(&sanitized);
    if n < 3 || n > 21 {
        return Err(ValidationError::SubredditLength);
    }
    if !all_subreddit_chars(&sanitized) {
        return Err(ValidationError::SubredditCharacters);
    }
    Ok(lowercase(sanitized.as_str()))
}

/// A lowercase ASCII letter.
pub open spec fn ascii_lower(c: char) -> bool {
    'a' <= c <= 'z'
}

fn all_ascii_lower(s: &String) -> (r: bool)
    ensures
        r == forall|i: int| 0 <= i < s@.len() ==> ascii_lower(#[trigger] s@[i]),
{
    let v = chars_of(s.as_str());
    let mut i: usize = 0;
    while i < v.len()
        invariant
            v@ == s@,
            i <= v@.len(),
            forall|k: int| 0 <= k < i ==> ascii_lower(#[trigger] v@[k]),
        decreases v@.len() - i,
    {
        let c = v[i];
        if !('a' <= c && c <= 'z') {
            return false;
        }
        i = i + 1;
    }
    true
}

/// Sanitizes a language code, which must be 2 or 3 letters from `a` to `z`.
pub fn validate_language_code(lang: &str) -> (r: Result<String, ValidationError>)
    ensures
        ({
            let t = sanitized(lang@);
            let n = byte_len(t) as usize;
            &&& (n < 2 || n > 3) ==> r == Err::<String, ValidationError>(
                ValidationError::LanguageLength,
            )
            &&& 2 <= n <= 3 && !(forall|i: int| 0 <= i < t.len() ==> ascii_lower(#[trigger] t[i]))
                ==> r == Err::<String, ValidationError>(ValidationError::LanguageCharacters)
            &&& 2 <= n <= 3 && (forall|i: int| 0 <= i < t.len() ==> ascii_lower(#[trigger] t[i]))
                ==> (r matches Ok(v) && v@ == t)
        }),
{
    let sanitized = sanitize_string(lang);
    let n = utf8_len(&sanitized);
    if n < 2 || n > 3 {
        return Err(ValidationError::LanguageLength);
    }
    if !all_ascii_lower(&sanitized) {
        return Err(ValidationError::LanguageCharacters);
    }
    Ok(sanitized)
}

/// `s` sanitized, then in lowercase.
pub open spec fn normalized(s: Seq<char>) -> Seq<char> {
    lower_of(sanitized(s))
}

/// `s` sanitized, then in lowercase.
pub fn normalize(s: &str) -> (r: String)
    ensures
        r@ == normalized(s@),
{
    let t = sanitize_string(s);
    lowercase(t.as_str())
}

/// Whether `s` is one of `words`.
pub fn is_one_of(s: &String, words: &[&str]) -> (r: bool)
    ensures
        r == exists|i: int| 0 <= i < words@.len() && #[trigger] words@[i]@ == s@,
{
    let mut i: usize = 0;
    while i < words.len()
        invariant
            i <= words@.len(),
            forall|k: int| 0 <= k < i ==> #[trigger] words@[k]@ != s@,
        decreases words@.len() - i,
    {
        let w = String::from_str(words[i]);
        if w == *s {
            return true;
        }
        i = i + 1;
    }
    false
}

/// The sort orders that Reddit offers.
pub open spec fn reddit_sort(s: Seq<char>) -> bool {
    s == "hot"@ || s == "new"@ || s == "top"@ || s == "rising"@ || s == "controversial"@
}

/// Normalizes a Reddit sort order: hot, new, top, rising or controversial.
pub fn validate_reddit_sort(sort: &str) -> (r: Result<String, ValidationError>)
    ensures
        reddit_sort(normalized(sort@)) ==> (r matches Ok(v) && v@ == normalized(sort@)),
        !reddit_sort(normalized(sort@)) ==> r == Err::<String, ValidationError>(
            ValidationError::InvalidSort,
        ),
{
    let n = normalize(sort);
    let words: [&str; 5] = ["hot", "new", "top", "rising", "controversial"];
    let found = is_one_of(&n, words.as_slice());
    proof {
        if !found {
            assert(words@[0]@ != n@);
            assert(words@[1]@ != n@);
            assert(words@[2]@ != n@);
            assert(words@[3]@ != n@);
            assert(words@[4]@ != n@);
        }
    }
    if found {
        Ok(n)
    } else {
        Err(ValidationError::InvalidSort)
    }
}

/// The time filters that Reddit offers.
pub open spec fn reddit_time(s: Seq<char>) -> bool {
    s == "hour"@ || s == "day"@ || s == "week"@ || s == "month"@ || s == "year"@ || s == "all"@
}

/// Normalizes an optional Reddit time filter: hour, day, week, month, year or all.
pub fn validate_reddit_time(time: Option<&str>) -> (r: Result<Option<String>, ValidationError>)
    ensures
        time is None ==> (r matches Ok(v) && v is None),
        time matches Some(t) ==> (reddit_time(normalized(t@)) ==> (r matches Ok(Some(v)) && v@
            == normalized(t@))),
        time matches Some(t) ==> (!reddit_time(normalized(t@)) ==> r == Err::<
            Option<String>,
            ValidationError,
        >(ValidationError::InvalidTimeFilter)),
{
    match time {
        None => Ok(None),
        Some(t) => {
            let n = normalize(t);
            let words: [&str; 6] = ["hour", "day", "week", "month", "year", "all"];
            let found = is_one_of(&n, words.as_slice());
            proof {
                if !found {
                    assert(words@[0]@ != n@);
                    assert(words@[1]@ != n@);
                    assert(words@[2]@ != n@);
                    assert(words@[3]@ != n@);
                    assert(words@[4]@ != n@);
                    assert(words@[5]@ != n@);
                }
            }
            if found {
                Ok(Some(n))
            } else {
                Err(ValidationError::InvalidTimeFilter)
            }
        },
    }
}

/// The actions of the Wikipedia tool.
pub open spec fn wiki_action(s: Seq<char>) -> bool {
    s == "search"@ || s == "summary"@ || s == "full"@ || s == "random"@
}

/// Normalizes a Wikipedia action: search, summary, full or random.
pub fn validate_wiki_action(action: &str) -> (r: Result<String, ValidationError>)
    ensures
        wiki_action(normalized(action@)) ==> (r matches Ok(v) && v@ == normalized(action@)),
        !wiki_action(normalized(action@)) ==> r == Err::<String, ValidationError>(
            ValidationError::InvalidWikiAction,
        ),
{
    let n = normalize(action);
    let words: [&str; 4] = ["search", "summary", "full", "random"];
    let found = is_one_of(&n, words.as_slice());
    proof {
        if !found {
            assert(words@[0]@ != n@);
            assert(words@[1]@ != n@);
            assert(words@[2]@ != n@);
            assert(words@[3]@ != n@);
        }
    }
    if found {
        Ok(n)
    } else {
        Err(ValidationError::InvalidWikiAction)
    }
}

/// Whether `url_str` is accepted by `validate_url`: it parses, its scheme is `http` or
/// `https`, and it has a host.
pub open spec fn acceptable_url(url_str: Seq<char>) -> bool {
    &&& parsed_url(url_str) is Some
    &&& (url_scheme(url_str)->0 == "http"@ || url_scheme(url_str)->0 == "https"@)
    &&& url_host(url_str) is Some
}

/// Checks that `url_str` is an absolute `http` or `https` URL with a host, and returns it
/// as the URL parser serializes it.
pub fn validate_url(url_str: &str) -> (r: Result<String, ValidationError>)
    ensures
        parsed_url(url_str@) is None ==> r == Err::<String, ValidationError>(
            ValidationError::InvalidUrl,
        ),
        parsed_url(url_str@) matches Some(normal) ==> {
            let scheme = url_scheme(url_str@)->0;
            &&& scheme != "http"@ && scheme != "https"@ ==> (r matches Err(
                ValidationError::UnsupportedScheme { scheme: s },
            ) && s@ == scheme)
            &&& (scheme == "http"@ || scheme == "https"@) && url_host(url_str@) is None ==> r
                == Err::<String, ValidationError>(ValidationError::MissingHost)
            &&& (scheme == "http"@ || scheme == "https"@) && url_host(url_str@) is Some ==> (r matches Ok(
                v,
            ) && v@ == normal)
        },
{
    let normal = match parse_url(url_str) {
        Some(n) => n,
        None => {
            return Err(ValidationError::InvalidUrl);
        },
    };
    let scheme = match scheme_of(url_str) {
        Some(s) => s,
        None => {
            return Err(ValidationError::InvalidUrl);
        },
    };
    if scheme != String::from_str("http") && scheme != String::from_str("https") {
        return Err(ValidationError::UnsupportedScheme { scheme });
    }
    if host_of(url_str).is_none() {
        return Err(ValidationError::MissingHost);
    }
    Ok(normal)
}

/// Whether `scraper::Selector::parse` accepts `s`.
pub uninterp spec fn valid_selector(s: Seq<char>) -> bool;

/// Relies on `scraper::Selector::parse`: whether the CSS selector parses.
#[verifier::external_body]
fn selector_parses(s: &str) -> (r: bool)
    ensures
        r == valid_selector(s@),
{
    scraper::Selector::parse(s).is_ok()
}

/// Checks a CSS selector: at most 1000 bytes, not blank, and accepted by the selector parser
/// as given; returns it trimmed.
pub fn validate_selector(selector: &str) -> (r: Result<String, ValidationError>)
    ensures
        byte_len(selector@) as usize > 1000 ==> r == Err::<String, ValidationError>(
            ValidationError::SelectorTooLong,
        ),
        byte_len(selector@) as usize <= 1000 && trim_of(selector@).len() == 0 ==> r == Err::<
            String,
            ValidationError,
        >(ValidationError::SelectorEmpty),
        byte_len(selector@) as usize <= 1000 && trim_of(selector@).len() != 0 && !valid_selector(
            selector@,
        ) ==> r == Err::<String, ValidationError>(ValidationError::InvalidSelector),
        byte_len(selector@) as usize <= 1000 && trim_of(selector@).len() != 0 && valid_selector(
            selector@,
        ) ==> (r matches Ok(v) && v@ == trim_of(selector@)),
{
    if selector.len() > 1000 {
        return Err(ValidationError::SelectorTooLong);
    }
    let trimmed = trim(selector);
    if trimmed.as_str().is_empty() {
        return Err(ValidationError::SelectorEmpty);
    }
    if !selector_parses(selector) {
        return Err(ValidationError::InvalidSelector);
    }
    Ok(trimmed)
}

/// Whether `regex::Regex::new` accepts `s`.
pub uninterp spec fn valid_regex(s: Seq<char>) -> bool;

/// Relies on `regex::Regex::new`: whether the pattern compiles.
#[verifier::external_body]
pub(crate) fn regex_compiles(s: &str) -> (r: bool)
    ensures
        r == valid_regex(s@),
{
    regex::Regex::new(s).is_ok()
}

/// Checks a regular expression: at most 500 bytes, not blank, and compiling; returns it
/// unchanged.
pub fn validate_regex(pattern: &str) -> (r: Result<String, ValidationError>)
    ensures
        byte_len(pattern@) as usize > 500 ==> r == Err::<String, ValidationError>(
            ValidationError::RegexTooLong,
        ),
        byte_len(pattern@) as usize <= 500 && trim_of(pattern@).len() == 0 ==> r == Err::<
            String,
            ValidationError,
        >(ValidationError::RegexEmpty),
        byte_len(pattern@) as usize <= 500 && trim_of(pattern@).len() != 0 && !valid_regex(
            pattern@,
        ) ==> r == Err::<String, ValidationError>(ValidationError::InvalidRegex),
        byte_len(pattern@) as usize <= 500 && trim_of(pattern@).len() != 0 && valid_regex(
            pattern@,
        ) ==> (r matches Ok(v) && v@ == pattern@),
{
    if pattern.len() > 500 {
        return Err(ValidationError::RegexTooLong);
    }
    let trimmed = trim(pattern);
    if trimmed.as_str().is_empty() {
        return Err(ValidationError::RegexEmpty);
    }
    if !regex_compiles(pattern) {
        return Err(ValidationError::InvalidRegex);
    }
    Ok(String::from_str(pattern))
}

} // verus!
