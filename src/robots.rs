use vstd::prelude::*;
use crate::text::{chars_of, string_of};
use crate::urls::{host_of, parsed_url, scheme_of, url_host, url_scheme};

verus! {

/// Why a URL may not be fetched according to its site's robots.txt.
#[derive(Debug, Clone, PartialEq, Eq)]
pub enum RobotsError {
    /// The URL does not parse.
    InvalidUrl,
    /// The URL has no host.
    MissingHost,
    /// robots.txt answered 401 or 403: autonomous fetching is taken as not allowed.
    Forbidden { status: u16 },
    /// robots.txt answered with a status that is neither success nor a client error.
    Unavailable { status: u16 },
    /// The body of robots.txt could not be read.
    Unreadable,
    /// robots.txt disallows the URL for the user agent.
    Disallowed { url: String, user_agent: String },
}

/// The address of the robots.txt of the site of `url`.
pub open spec fn robots_url_of(url: Seq<char>) -> Seq<char> {
    url_scheme(url)->0 + "://"@ + url_host(url)->0 + "/robots.txt"@
}

/// The address of the robots.txt of the site of `url`: its scheme and host, then
/// `/robots.txt`.
pub fn robots_txt_url(url: &str) -> (r: Result<String, RobotsError>)
    ensures
        parsed_url(url@) is None ==> r == Err::<String, RobotsError>(RobotsError::InvalidUrl),
        parsed_url(url@) is Some && url_host(url@) is None ==> r == Err::<String, RobotsError>(
            RobotsError::MissingHost,
        ),
        parsed_url(url@) is Some && url_host(url@) is Some ==> (r matches Ok(v) && v@ == robots_url_of(
            url@,
        )),
{
    let scheme = match scheme_of(url) {
        Some(s) => s,
        None => {
            return Err(RobotsError::InvalidUrl);
        },
    };
    let host = match host_of(url) {
        Some(h) => h,
        None => {
            return Err(RobotsError::MissingHost);
        },
    };
    let r = scheme.concat("://").concat(host.as_str()).concat("/robots.txt");
    Ok(r)
}

/// What `robotstxt::DefaultMatcher::one_agent_allowed_by_robots` says of `url` for
/// `user_agent` under the rules `robots_txt`.
pub uninterp spec fn robots_allow(robots_txt: Seq<char>, user_agent: Seq<char>, url: Seq<char>) -> bool;

/// The most characters a robots.txt line may hold when it reaches the matcher. The matcher
/// reads at most 16,663 bytes of a line and, past that, miscounts what it skips; 4,165
/// characters take at most 16,660 bytes.
pub const MAX_ROBOTS_LINE_CHARS: usize = 4165;

/// A line ending of robots.txt.
pub open spec fn is_line_break(c: char) -> bool {
    c == '\n' || c == '\r'
}

/// The number of characters since the last line ending before position `k` of `s`.
pub open spec fn run_before(s: Seq<char>, k: int) -> nat
    decreases k,
{
    if k <= 0 {
        0
    } else if is_line_break(s[k - 1]) {
        0
    } else {
        run_before(s, k - 1) + 1
    }
}

/// No line of `s` holds more than `MAX_ROBOTS_LINE_CHARS` characters.
pub open spec fn short_lines(s: Seq<char>) -> bool {
    forall|k: int| 0 <= k <= s.len() ==> #[trigger] run_before(s, k) <= MAX_ROBOTS_LINE_CHARS
}

/// `s` with each line cut after its first `MAX_ROBOTS_LINE_CHARS` characters.
pub open spec fn cut_lines(s: Seq<char>) -> Seq<char>
    decreases s.len(),
{
    if s.len() == 0 {
        Seq::empty()
    } else {
        let p = cut_lines(s.drop_last());
        let c = s.last();
        if is_line_break(c) || run_before(p, p.len() as int) < MAX_ROBOTS_LINE_CHARS {
            p.push(c)
        } else {
            p
        }
    }
}

proof fn lemma_run_before_prefix(s: Seq<char>, c: char, k: int)
    requires
        0 <= k <= s.len(),
    ensures
        run_before(s.push(c), k) == run_before(s, k),
    decreases k,
{
    if k > 0 {
        lemma_run_before_prefix(s, c, k - 1);
    }
}

proof fn lemma_cut_lines_short(s: Seq<char>)
    ensures
        short_lines(cut_lines(s)),
    decreases s.len(),
{
    if s.len() > 0 {
        let p = cut_lines(s.drop_last());
        lemma_cut_lines_short(s.drop_last());
        let c = s.last();
        if is_line_break(c) || run_before(p, p.len() as int) < MAX_ROBOTS_LINE_CHARS {
            assert forall|k: int| 0 <= k <= p.len() + 1 implies #[trigger] run_before(p.push(c), k)
                <= MAX_ROBOTS_LINE_CHARS by {
                if k <= p.len() {
                    lemma_run_before_prefix(p, c, k);
                } else {
                    lemma_run_before_prefix(p, c, p.len() as int);
                }
            }
        }
    }
}

/// Cuts each line of `s` after its first `MAX_ROBOTS_LINE_CHARS` characters.
pub fn cut_long_lines(s: &str) -> (r: String)
    ensures
        r@ == cut_lines(s@),
        short_lines(r@),
{
    let v = chars_of(s);
    let mut out: Vec<char> = Vec::new();
    let mut run: usize = 0;
    let mut i: usize = 0;
    while i < v.len()
        invariant
            v@ == s@,
            i <= v@.len(),
            out@ == cut_lines(v@.subrange(0, i as int)),
            run == run_before(out@, out@.len() as int),
            run <= MAX_ROBOTS_LINE_CHARS,
        decreases v@.len() - i,
    {
        let c = v[i];
        proof {
            assert(v@.subrange(0, i + 1).drop_last() =~= v@.subrange(0, i as int));
            lemma_run_before_prefix(out@, c, out@.len() as int);
        }
        if c == '\n' || c == '\r' {
            out.push(c);
            run = 0;
        } else if run < MAX_ROBOTS_LINE_CHARS {
            out.push(c);
            run = run + 1;
        }
        i = i + 1;
    }
    assert(v@.subrange(0, v@.len() as int) =~= v@);
    proof {
        lemma_cut_lines_short(s@);
    }
    string_of(out.as_slice())
}

/// Relies on `robotstxt::DefaultMatcher::one_agent_allowed_by_robots`, on rules whose lines
/// the matcher reads whole.
#[verifier::external_body]
fn allowed_by_robots(robots_txt: &str, user_agent: &str, url: &str) -> (r: bool)
    requires
        short_lines(robots_txt@),
    ensures
        r == robots_allow(robots_txt@, user_agent@, url@),
{
    robotstxt::DefaultMatcher::default().one_agent_allowed_by_robots(robots_txt, user_agent, url)
}

/// The verdict on fetching `url` as `user_agent` from the answer to the robots.txt request:
/// its status and its body (`None` where it could not be read). 401 and 403 forbid; other
/// client errors mean there is no robots.txt, which allows; any other status but success is
/// an error; on success the rules decide, each line cut after `MAX_ROBOTS_LINE_CHARS`
/// characters.
pub fn check_robots_response(
    url: &str,
    user_agent: &str,
    status: u16,
    body: Option<String>,
) -> (r: Result<(), RobotsError>)
    ensures
        (status == 401 || status == 403) ==> r == Err::<(), RobotsError>(
            RobotsError::Forbidden { status },
        ),
        (400 <= status < 500 && status != 401 && status != 403) ==> r is Ok,
        !(400 <= status < 500) && !(200 <= status < 300) ==> r == Err::<(), RobotsError>(
            RobotsError::Unavailable { status },
        ),
        200 <= status < 300 ==> match body {
            None => r == Err::<(), RobotsError>(RobotsError::Unreadable),
            Some(b) => if robots_allow(cut_lines(b@), user_agent@, url@) {
                r is Ok
            } else {
                r matches Err(RobotsError::Disallowed { url: u, user_agent: a }) && u@ == url@ && a@
                    == user_agent@
            },
        },
{
    if 400 <= status && status < 500 {
        if status == 401 || status == 403 {
            return Err(RobotsError::Forbidden { status });
        }
        return Ok(());
    }
    if !(200 <= status && status < 300) {
        return Err(RobotsError::Unavailable { status });
    }
    match body {
        None => Err(RobotsError::Unreadable),
        Some(b) => {
            let rules = cut_long_lines(b.as_str());
            if allowed_by_robots(rules.as_str(), user_agent, url) {
                Ok(())
            } else {
                Err(
                    RobotsError::Disallowed {
                        url: String::from_str(url),
                        user_agent: String::from_str(user_agent),
                    },
                )
            }
        },
    }
}

} // verus!
