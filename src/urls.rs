use vstd::prelude::*;
use vstd::utf8::encode_utf8;

verus! {

/// The view of an optional string.
pub open spec fn opt_view(o: Option<String>) -> Option<Seq<char>> {
    match o {
        Some(s) => Some(s@),
        None => None,
    }
}

/// What `url::Url::parse` gives for `s`, serialized; `None` where it refuses `s`.
pub uninterp spec fn parsed_url(s: Seq<char>) -> Option<Seq<char>>;

/// What `url::Url::scheme` gives for the URL that `url::Url::parse` reads from `s`.
pub uninterp spec fn url_scheme(s: Seq<char>) -> Option<Seq<char>>;

/// What `url::Url::host_str` gives for the URL that `url::Url::parse` reads from `s`.
pub uninterp spec fn url_host(s: Seq<char>) -> Option<Seq<char>>;

/// What `url::Url::join` gives for `href` against the URL that `url::Url::parse` reads
/// from `base`, serialized.
pub uninterp spec fn joined_url(base: Seq<char>, href: Seq<char>) -> Option<Seq<char>>;

/// Relies on `url::Url::parse` and the URL's serialization (`Display`).
#[verifier::external_body]
pub fn parse_url(s: &str) -> (r: Option<String>)
    ensures
        opt_view(r) == parsed_url(s@),
{
    url::Url::parse(s).ok().map(|u| u.to_string())
}

/// Relies on `url::Url::parse` and `url::Url::scheme`: a URL that parses has a scheme.
#[verifier::external_body]
pub fn scheme_of(s: &str) -> (r: Option<String>)
    ensures
        opt_view(r) == url_scheme(s@),
        r is Some <==> parsed_url(s@) is Some,
{
    url::Url::parse(s).ok().map(|u| u.scheme().to_string())
}

/// Relies on `url::Url::parse` and `url::Url::host_str`: `None` also where `s` does not parse.
#[verifier::external_body]
pub fn host_of(s: &str) -> (r: Option<String>)
    ensures
        opt_view(r) == url_host(s@),
        parsed_url(s@) is None ==> r is None,
{
    url::Url::parse(s).ok().and_then(|u| u.host_str().map(|h| h.to_string()))
}

/// Relies on `url::Url::parse`, `url::Url::join` and the URL's serialization: `None` where
/// `base` does not parse or `href` cannot be resolved against it.
#[verifier::external_body]
pub fn join_url(base: &str, href: &str) -> (r: Option<String>)
    ensures
        opt_view(r) == joined_url(base@, href@),
        parsed_url(base@) is None ==> r is None,
{
    url::Url::parse(base).ok().and_then(|b| b.join(href).ok()).map(|u| u.to_string())
}

/// Bytes that percent-encoding keeps: ASCII letters and digits, `-`, `.`, `_` and `~`.
pub open spec fn unreserved(b: u8) -> bool {
    ||| 48 <= b <= 57
    ||| 65 <= b <= 90
    ||| 97 <= b <= 122
    ||| b == 45 || b == 46 || b == 95 || b == 126
}

/// The upper-case hexadecimal digit for `d < 16`.
pub open spec fn hex_upper(d: int) -> char {
    if d < 10 {
        (d + 48) as char
    } else {
        (d + 55) as char
    }
}

/// `bytes` with every byte but the unreserved ones written as `%` and two upper-case
/// hexadecimal digits.
pub open spec fn percent_encoded(bytes: Seq<u8>) -> Seq<char>
    decreases bytes.len(),
{
    if bytes.len() == 0 {
        Seq::empty()
    } else {
        let b = bytes[0];
        (if unreserved(b) {
            seq![(b as int) as char]
        } else {
            seq!['%', hex_upper(b as int / 16), hex_upper(b as int % 16)]
        }) + percent_encoded(bytes.drop_first())
    }
}

/// The percent-encoding of `s` as a URL component: its UTF-8 bytes, percent-encoded.
pub open spec fn url_encoded(s: Seq<char>) -> Seq<char> {
    percent_encoded(encode_utf8(s))
}

/// Relies on `urlencoding::encode`: every byte of the UTF-8 encoding but ASCII letters,
/// digits and `-._~` percent-encoded, with upper-case hexadecimal digits.
#[verifier::external_body]
pub fn encode(s: &str) -> (r: String)
    ensures
        r@ == url_encoded(s@),
{
    urlencoding::encode(s).into_owned()
}

} // verus!
