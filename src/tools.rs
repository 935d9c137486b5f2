use vstd::prelude::*;
use crate::batch::BatchOptions;
use crate::text::{chars_of, slice_chars, string_of};
use crate::urls::parsed_url;
use crate::validation::{acceptable_url, validate_array_size, validate_url, ValidationError};

verus! {

/// The most URLs one batch request may hold.
pub const MAX_BATCH_URLS: usize = 100;

/// The part of `text` that a request for `max_length` characters from `start_index` (by
/// default 0) gets: all of it without a maximum length; each bound held within the text.
pub open spec fn window_of(text: Seq<char>, max_length: Option<usize>, start_index: Option<usize>) -> Seq<char> {
    match max_length {
        None => text,
        Some(m) => {
            let n = text.len() as int;
            let s = match start_index {
                Some(i) => i as int,
                None => 0,
            };
            let start = if s > n {
                n
            } else {
                s
            };
            let end = if start + m > n {
                n
            } else {
                start + m
            };
            text.subrange(start, end)
        },
    }
}

/// Cuts the part of a fetched page that a request asks for: `max_length` characters from
/// `start_index`, counted in characters and held within the text.
pub fn content_window(text: &str, max_length: Option<usize>, start_index: Option<usize>) -> (r: String)
    ensures
        r@ == window_of(text@, max_length, start_index),
{
    match max_length {
        None => String::from_str(text),
        Some(m) => {
            let v = chars_of(text);
            let n = v.len();
            let s = match start_index {
                Some(i) => i,
                None => 0,
            };
            let start = if s > n {
                n
            } else {
                s
            };
            let end = if m > n - start {
                n
            } else {
                start + m
            };
            let w = slice_chars(v.as_slice(), start, end);
            string_of(w.as_slice())
        },
    }
}

/// The URLs of a batch request, each checked and normalized, with the options of the
/// request: `max_concurrent` and `rate_limit` as given, 30 s per request, no fail-fast. The
/// concurrency limit and the rate limit must be positive, and there must be 1 to
/// `MAX_BATCH_URLS` URLs, each an absolute `http` or `https` URL with a host.
pub fn prepare_batch(
    urls: &Vec<String>,
    max_concurrent: usize,
    rate_limit: Option<u32>,
) -> (r: Result<(Vec<String>, BatchOptions), ValidationError>)
    ensures
        max_concurrent == 0 ==> r == Err::<(Vec<String>, BatchOptions), ValidationError>(
            ValidationError::ConcurrencyZero,
        ),
        max_concurrent > 0 && rate_limit == Some(0u32) ==> r == Err::<
            (Vec<String>, BatchOptions),
            ValidationError,
        >(ValidationError::RateLimitZero),
        max_concurrent > 0 && rate_limit != Some(0u32) ==> {
            &&& urls@.len() == 0 ==> (r matches Err(ValidationError::ArrayEmpty { name: n }) && n@
                == "URLs"@)
            &&& urls@.len() > MAX_BATCH_URLS ==> (r matches Err(
                ValidationError::ArrayTooLarge { name: n, max },
            ) && n@ == "URLs"@ && max == MAX_BATCH_URLS)
            &&& 0 < urls@.len() <= MAX_BATCH_URLS ==> ((r is Ok <==> forall|i: int|
                0 <= i < urls@.len() ==> acceptable_url(#[trigger] urls@[i]@)))
        },
        r matches Ok((checked, options)) ==> {
            &&& checked@.len() == urls@.len()
            &&& forall|i: int|
                0 <= i < urls@.len() ==> parsed_url(#[trigger] urls@[i]@) == Some(checked@[i]@)
            &&& options.max_concurrent == max_concurrent
            &&& options.max_concurrent > 0
            &&& options.rate_limit == rate_limit
            &&& options.rate_limit != Some(0u32)
            &&& options.timeout_ms == 30_000
            &&& !options.fail_fast
            &&& options.follow_redirects
        },
{
    if max_concurrent == 0 {
        return Err(ValidationError::ConcurrencyZero);
    }
    match rate_limit {
        Some(0) => {
            return Err(ValidationError::RateLimitZero);
        },
        _ => {},
    }
    match validate_array_size(urls.as_slice(), MAX_BATCH_URLS, "URLs") {
        Ok(()) => {},
        Err(e) => {
            return Err(e);
        },
    }
    let mut checked: Vec<String> = Vec::new();
    let mut i: usize = 0;
    while i < urls.len()
        invariant
            max_concurrent > 0,
            rate_limit != Some(0u32),
            0 < urls@.len() <= MAX_BATCH_URLS,
            i <= urls@.len(),
            checked@.len() == i,
            forall|j: int| 0 <= j < i ==> acceptable_url(#[trigger] urls@[j]@),
            forall|j: int| 0 <= j < i ==> parsed_url(#[trigger] urls@[j]@) == Some(checked@[j]@),
        decreases urls@.len() - i,
    {
        match validate_url(urls[i].as_str()) {
            Ok(u) => {
                checked.push(u);
            },
            Err(e) => {
                assert(!acceptable_url(urls@[i as int]@));
                return Err(e);
            },
        }
        i = i + 1;
    }
    let options = BatchOptions {
        max_concurrent,
        rate_limit,
        timeout_ms: 30_000,
        fail_fast: false,
        follow_redirects: true,
    };
    Ok((checked, options))
}

} // verus!
