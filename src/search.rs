use vstd::prelude::*;
use crate::validation::{regex_compiles, valid_regex};
use crate::text::{
    chars_of, count_matches, lines, lines_of, lower_of, lowercase, matches_at, occurrences,
    occurs_at, slice_chars, string_of,
};

verus! {

/// Search match with context.
#[derive(Debug, Clone)]
pub struct SearchMatch {
    /// Matched text.
    pub matched_text: String,
    /// Line number (1-indexed).
    pub line_number: usize,
    /// Character position in the line.
    pub position: usize,
    /// Context before the match.
    pub context_before: String,
    /// Context after the match.
    pub context_after: String,
}

/// Search result.
#[derive(Debug, Clone)]
pub struct SearchResult {
    /// Search query.
    pub query: String,
    /// Total matches found.
    pub total_matches: usize,
    /// Individual matches.
    pub matches: Vec<SearchMatch>,
    /// Whether the search was case-sensitive.
    pub case_sensitive: bool,
    /// Whether a regular expression was used.
    pub is_regex: bool,
    /// Total occurrence count (for plain text search).
    pub total_occurrences: Option<usize>,
    /// Unique words of the content (when asked for).
    pub unique_words: Option<Vec<String>>,
}

/// Search options.
#[derive(Debug, Clone)]
pub struct SearchOptions {
    /// Case-sensitive search.
    pub case_sensitive: bool,
    /// Read the query as a regular expression.
    pub use_regex: bool,
    /// Maximum number of matches to return (0 = unlimited).
    pub max_matches: usize,
    /// Number of characters of context before and after a match.
    pub context_chars: usize,
    /// Search only these lines (1-indexed).
    pub line_filter: Option<Vec<usize>>,
    /// Extract the unique words of the content.
    pub extract_words: bool,
}

impl Default for SearchOptions {
    fn default() -> (r: Self)
        ensures
            !r.case_sensitive,
            !r.use_regex,
            r.max_matches == 100,
            r.context_chars == 50,
            r.line_filter is None,
            !r.extract_words,
    {
        SearchOptions {
            case_sensitive: false,
            use_regex: false,
            max_matches: 100,
            context_chars: 50,
            line_filter: None,
            extract_words: false,
        }
    }
}

/// `s` as compared by a search: unchanged when case-sensitive, else in lowercase.
pub open spec fn searched(s: Seq<char>, case_sensitive: bool) -> Seq<char> {
    if case_sensitive {
        s
    } else {
        lower_of(s)
    }
}

fn searched_chars(s: &str, case_sensitive: bool) -> (r: Vec<char>)
    ensures
        r@ == searched(s@, case_sensitive),
{
    if case_sensitive {
        chars_of(s)
    } else {
        let l = lowercase(s);
        chars_of(l.as_str())
    }
}

/// Counts the occurrences of `query` in `content`, left to right without overlap, ignoring
/// case unless `case_sensitive`. An empty query occurs once more than the content has characters.
pub fn count_occurrences(content: &str, query: &str, case_sensitive: bool) -> (r: usize)
    ensures
        searched(content@, case_sensitive).len() < usize::MAX ==> r == occurrences(
            searched(content@, case_sensitive),
            searched(query@, case_sensitive),
        ),
{
    let c = searched_chars(content, case_sensitive);
    let q = searched_chars(query, case_sensitive);
    if c.len() == usize::MAX {
        return usize::MAX;
    }
    count_matches(c.as_slice(), q.as_slice())
}

/// A match as plain values: matched text, line number, position, context before, context after.
pub type MatchView = (Seq<char>, int, int, Seq<char>, Seq<char>);

/// The plain values of a match.
pub open spec fn match_view(m: SearchMatch) -> MatchView {
    (m.matched_text@, m.line_number as int, m.position as int, m.context_before@, m.context_after@)
}

/// `x` held within `0..=n`.
pub open spec fn clamp(x: int, n: int) -> int {
    if x < 0 {
        0
    } else if x > n {
        n
    } else {
        x
    }
}

/// The positions at or after `start` where the non-empty `q` occurs in `s`, left to right,
/// each search resuming after the previous occurrence.
pub open spec fn match_positions(s: Seq<char>, q: Seq<char>, start: int) -> Seq<int>
    decreases s.len() - start,
{
    if q.len() == 0 || start < 0 || start + q.len() > s.len() {
        Seq::empty()
    } else if occurs_at(s, start, q) {
        seq![start] + match_positions(s, q, start + q.len())
    } else {
        match_positions(s, q, start + 1)
    }
}

/// The match at character `pos` of `line`, `len` characters long, with up to `ctx`
/// characters of context on each side; every bound is held within the line.
pub open spec fn match_of(line: Seq<char>, line_number: int, pos: int, len: int, ctx: int) -> MatchView {
    let n = line.len() as int;
    let end = clamp(pos + len, n);
    (
        line.subrange(clamp(pos, n), end),
        line_number,
        pos,
        line.subrange(clamp(pos - ctx, n), clamp(pos, n)),
        line.subrange(end, clamp(pos + len + ctx, n)),
    )
}

/// The context of a match: up to `ctx` characters before `pos` and after `pos + len`.
pub open spec fn context_of(line: Seq<char>, pos: int, len: int, ctx: int) -> (Seq<char>, Seq<char>) {
    let m = match_of(line, 0, pos, len, ctx);
    (m.3, m.4)
}

fn clamp_exec(x: usize, n: usize) -> (r: usize)
    ensures
        r == clamp(x as int, n as int),
{
    if x > n {
        n
    } else {
        x
    }
}

/// Cuts out of `line` the match at character `pos`, `len` characters long, and up to `ctx`
/// characters of context on each side.
fn cut_match(line: &[char], line_number: usize, pos: usize, len: usize, ctx: usize) -> (m: SearchMatch)
    ensures
        match_view(m) == match_of(line@, line_number as int, pos as int, len as int, ctx as int),
{
    let n = line.len();
    let p = clamp_exec(pos, n);
    let end = if len > n - p { n } else { p + len };
    assert(end == clamp(pos + len, n as int));
    let before_start = if pos < ctx { 0 } else { clamp_exec(pos - ctx, n) };
    let after_end = if ctx > n - end { n } else { end + ctx };
    assert(after_end == clamp(pos + len + ctx, n as int));
    let matched = slice_chars(line, p, end);
    let before = slice_chars(line, before_start, p);
    let after = slice_chars(line, end, after_end);
    SearchMatch {
        matched_text: string_of(matched.as_slice()),
        line_number,
        position: pos,
        context_before: string_of(before.as_slice()),
        context_after: string_of(after.as_slice()),
    }
}

/// The context around a match at character `match_pos` of `line`, `match_len` characters
/// long: up to `context_chars` characters before it and after it.
pub fn extract_context(line: &str, match_pos: usize, match_len: usize, context_chars: usize) -> (r: (
    String,
    String,
))
    ensures
        (r.0@, r.1@) == context_of(line@, match_pos as int, match_len as int, context_chars as int),
{
    let v = chars_of(line);
    let m = cut_match(v.as_slice(), 0, match_pos, match_len, context_chars);
    (m.context_before, m.context_after)
}

/// The matches at `positions` of `line`, each `len` characters long.
pub open spec fn matches_at_positions(
    line: Seq<char>,
    line_number: int,
    len: int,
    ctx: int,
    positions: Seq<int>,
) -> Seq<MatchView>
    decreases positions.len(),
{
    if positions.len() == 0 {
        Seq::empty()
    } else {
        matches_at_positions(line, line_number, len, ctx, positions.drop_last()).push(
            match_of(line, line_number, positions.last(), len, ctx),
        )
    }
}

/// The matches of `q` in one line: found in `searched_line`, cut out of `line`.
pub open spec fn line_matches(
    line: Seq<char>,
    searched_line: Seq<char>,
    q: Seq<char>,
    line_number: int,
    ctx: int,
) -> Seq<MatchView> {
    matches_at_positions(line, line_number, q.len() as int, ctx, match_positions(searched_line, q, 0))
}

proof fn lemma_positions_step(s: Seq<char>, q: Seq<char>, start: int)
    requires
        q.len() > 0,
        0 <= start,
        start + q.len() <= s.len(),
    ensures
        occurs_at(s, start, q) ==> match_positions(s, q, start) == seq![start] + match_positions(
            s,
            q,
            start + q.len(),
        ),
        !occurs_at(s, start, q) ==> match_positions(s, q, start) == match_positions(s, q, start + 1),
{
}

fn find_in_line(
    line: &[char],
    searched_line: &[char],
    q: &[char],
    line_number: usize,
    ctx: usize,
    out: &mut Vec<SearchMatch>,
)
    ensures
        final(out)@.map_values(|m: SearchMatch| match_view(m)) == old(out)@.map_values(
            |m: SearchMatch| match_view(m),
        ) + line_matches(line@, searched_line@, q@, line_number as int, ctx as int),
{
    let ghost base = old(out)@.map_values(|m: SearchMatch| match_view(m));
    let ghost all = match_positions(searched_line@, q@, 0);
    let ghost ln = line_number as int;
    let ghost len = q@.len() as int;
    let n = searched_line.len();
    if q.len() == 0 {
        assert(out@.map_values(|m: SearchMatch| match_view(m)) =~= base + Seq::<MatchView>::empty());
        return;
    }
    let mut start: usize = 0;
    let ghost done: Seq<int> = Seq::empty();
    while start <= n && q.len() <= n - start
        invariant
            n == searched_line@.len(),
            q@.len() > 0,
            len == q@.len(),
            ln == line_number as int,
            start <= n,
            done + match_positions(searched_line@, q@, start as int) == all,
            out@.map_values(|m: SearchMatch| match_view(m)) == base + matches_at_positions(
                line@,
                ln,
                len,
                ctx as int,
                done,
            ),
        decreases n - start,
    {
        proof {
            lemma_positions_step(searched_line@, q@, start as int);
        }
        if matches_at(searched_line, start, q) {
            let m = cut_match(line, line_number, start, q.len(), ctx);
            assert(match_view(m) == match_of(line@, ln, start as int, len, ctx as int));
            let ghost before = out@.map_values(|m: SearchMatch| match_view(m));
            out.push(m);
            proof {
                assert(out@.map_values(|m: SearchMatch| match_view(m)) =~= before.push(match_view(m)));
                assert(done + match_positions(searched_line@, q@, start as int) =~= done.push(start as int)
                    + match_positions(searched_line@, q@, start + q@.len()));
                assert(done.push(start as int).drop_last() =~= done);
                assert((base + matches_at_positions(line@, ln, len, ctx as int, done)).push(
                    match_of(line@, ln, start as int, len, ctx as int),
                ) =~= base + matches_at_positions(line@, ln, len, ctx as int, done.push(start as int)));
                done = done.push(start as int);
            }
            start = start + q.len();
        } else {
            start = start + 1;
        }
    }
    proof {
        assert(done + Seq::<int>::empty() =~= done);
    }
}

/// Whether `f` holds `x`.
pub open spec fn lists(f: Seq<usize>, x: int) -> bool {
    exists|i: int| 0 <= i < f.len() && #[trigger] f[i] == x
}

/// Whether line `line_number` is searched: there is no filter, or the filter lists it.
pub open spec fn line_selected(filter: Option<Seq<usize>>, line_number: int) -> bool {
    match filter {
        None => true,
        Some(f) => lists(f, line_number),
    }
}

fn selected(filter: Option<&[usize]>, line_number: usize) -> (r: bool)
    ensures
        r == line_selected(
            match filter {
                Some(f) => Some(f@),
                None => None,
            },
            line_number as int,
        ),
{
    match filter {
        None => true,
        Some(f) => {
            let mut i: usize = 0;
            while i < f.len()
                invariant
                    filter == Some(f),
                    i <= f@.len(),
                    forall|j: int| 0 <= j < i ==> f@[j] != line_number,
                decreases f@.len() - i,
            {
                if f[i] == line_number {
                    assert(f@[i as int] == line_number);
                    return true;
                }
                i = i + 1;
            }
            false
        },
    }
}

/// The matches of `q` in the first `k` lines of `ls`, in order.
pub open spec fn plain_matches(
    ls: Seq<Seq<char>>,
    q: Seq<char>,
    case_sensitive: bool,
    ctx: int,
    filter: Option<Seq<usize>>,
    k: int,
) -> Seq<MatchView>
    decreases k,
{
    if k <= 0 {
        Seq::empty()
    } else {
        plain_matches(ls, q, case_sensitive, ctx, filter, k - 1) + if line_selected(filter, k) {
            line_matches(ls[k - 1], searched(ls[k - 1], case_sensitive), q, k, ctx)
        } else {
            Seq::empty()
        }
    }
}

/// Finds `query` in each line of `content` (ignoring case unless `case_sensitive`), line by
/// line and left to right without overlap, skipping lines that `line_filter` does not list.
/// Positions and context are counted in characters.
pub fn search_plain_text(
    content: &str,
    query: &str,
    case_sensitive: bool,
    context_chars: usize,
    line_filter: Option<&[usize]>,
) -> (r: Vec<SearchMatch>)
    ensures
        ({
            let ls = lines_of(content@);
            let filter = match line_filter {
                Some(f) => Some(f@),
                None => None,
            };
            r@.map_values(|m: SearchMatch| match_view(m)) == plain_matches(
                ls,
                searched(query@, case_sensitive),
                case_sensitive,
                context_chars as int,
                filter,
                ls.len() as int,
            )
        }),
{
    let ghost filter = match line_filter {
        Some(f) => Some(f@),
        None => None,
    };
    let ghost q_spec = searched(query@, case_sensitive);
    let q = searched_chars(query, case_sensitive);
    let all_lines = lines(content);
    let ghost ls = lines_of(content@);
    let mut out: Vec<SearchMatch> = Vec::new();
    let mut k: usize = 0;
    while k < all_lines.len()
        invariant
            k <= all_lines@.len(),
            all_lines@.map_values(|l: Vec<char>| l@) == ls,
            ls == lines_of(content@),
            q@ == q_spec,
            q_spec == searched(query@, case_sensitive),
            filter == match line_filter {
                Some(f) => Some(f@),
                None => None,
            },
            out@.map_values(|m: SearchMatch| match_view(m)) == plain_matches(
                ls,
                q_spec,
                case_sensitive,
                context_chars as int,
                filter,
                k as int,
            ),
        decreases all_lines@.len() - k,
    {
        let line_number = k + 1;
        let line = &all_lines[k];
        assert(line@ == ls[k as int]);
        let ghost prev = plain_matches(ls, q_spec, case_sensitive, context_chars as int, filter, k as int);
        assert(plain_matches(ls, q_spec, case_sensitive, context_chars as int, filter, k + 1) == prev
            + if line_selected(filter, k + 1) {
            line_matches(ls[k as int], searched(ls[k as int], case_sensitive), q_spec, k + 1, context_chars as int)
        } else {
            Seq::empty()
        });
        let sel = selected(line_filter, line_number);
        assert(sel == line_selected(filter, k + 1));
        if sel {
            let text = string_of(line.as_slice());
            let searched_line = searched_chars(text.as_str(), case_sensitive);
            find_in_line(line.as_slice(), searched_line.as_slice(), q.as_slice(), line_number, context_chars, &mut out);
        } else {
            assert(prev + Seq::<MatchView>::empty() =~= prev);
        }
        k = k + 1;
    }
    out
}

/// What the `regex` crate finds in `line` with `pattern`, left to right: for each match the
/// text of the line before it and the matched text; `None` where the pattern does not compile.
pub uninterp spec fn regex_finds(pattern: Seq<char>, line: Seq<char>) -> Option<Seq<(Seq<char>, Seq<char>)>>;

/// Relies on `regex::Regex::new` and `Regex::find_iter`, with `Match::start` and
/// `Match::as_str`.
#[verifier::external_body]
fn find_regex(pattern: &str, line: &str) -> (r: Option<Vec<(String, String)>>)
    ensures
        match regex_finds(pattern@, line@) {
            Some(v) => r matches Some(x) && x@.map_values(|p: (String, String)| (p.0@, p.1@)) == v,
            None => r is None,
        },
{
    let re = regex::Regex::new(pattern).ok()?;
    Some(re.find_iter(line).map(|m| (line[..m.start()].to_string(), m.as_str().to_string())).collect())
}

/// A regular-expression match: its text, its character position, and context from `line`.
pub open spec fn regex_match_of(
    line: Seq<char>,
    line_number: int,
    before: Seq<char>,
    matched: Seq<char>,
    ctx: int,
) -> MatchView {
    let m = match_of(line, line_number, before.len() as int, matched.len() as int, ctx);
    (matched, line_number, before.len() as int, m.3, m.4)
}

/// The matches of the first `n` finds in `line`.
pub open spec fn regex_line_matches(
    line: Seq<char>,
    line_number: int,
    ctx: int,
    finds: Seq<(Seq<char>, Seq<char>)>,
    n: int,
) -> Seq<MatchView>
    decreases n,
{
    if n <= 0 {
        Seq::empty()
    } else {
        regex_line_matches(line, line_number, ctx, finds, n - 1).push(
            regex_match_of(line, line_number, finds[n - 1].0, finds[n - 1].1, ctx),
        )
    }
}

/// The matches of `pattern` in the first `k` lines of `ls`, in order.
pub open spec fn regex_matches(
    ls: Seq<Seq<char>>,
    pattern: Seq<char>,
    ctx: int,
    filter: Option<Seq<usize>>,
    k: int,
) -> Seq<MatchView>
    decreases k,
{
    if k <= 0 {
        Seq::empty()
    } else {
        regex_matches(ls, pattern, ctx, filter, k - 1) + if line_selected(filter, k) {
            match regex_finds(pattern, ls[k - 1]) {
                Some(f) => regex_line_matches(ls[k - 1], k, ctx, f, f.len() as int),
                None => Seq::empty(),
            }
        } else {
            Seq::empty()
        }
    }
}

/// Finds the matches of the regular expression `pattern` in each line of `content`, skipping
/// lines that `line_filter` does not list. Positions and context are counted in characters.
pub fn search_with_regex(
    content: &str,
    pattern: &str,
    context_chars: usize,
    line_filter: Option<&[usize]>,
) -> (r: Vec<SearchMatch>)
    ensures
        ({
            let ls = lines_of(content@);
            let filter = match line_filter {
                Some(f) => Some(f@),
                None => None,
            };
            r@.map_values(|m: SearchMatch| match_view(m)) == regex_matches(
                ls,
                pattern@,
                context_chars as int,
                filter,
                ls.len() as int,
            )
        }),
{
    let ghost filter = match line_filter {
        Some(f) => Some(f@),
        None => None,
    };
    let all_lines = lines(content);
    let ghost ls = lines_of(content@);
    let ghost ctx = context_chars as int;
    let mut out: Vec<SearchMatch> = Vec::new();
    let mut k: usize = 0;
    while k < all_lines.len()
        invariant
            k <= all_lines@.len(),
            all_lines@.map_values(|l: Vec<char>| l@) == ls,
            ls == lines_of(content@),
            ctx == context_chars as int,
            filter == match line_filter {
                Some(f) => Some(f@),
                None => None,
            },
            out@.map_values(|m: SearchMatch| match_view(m)) == regex_matches(ls, pattern@, ctx, filter, k as int),
        decreases all_lines@.len() - k,
    {
        let line_number = k + 1;
        let line = &all_lines[k];
        assert(line@ == ls[k as int]);
        let ghost prev = regex_matches(ls, pattern@, ctx, filter, k as int);
        let ghost lm = match regex_finds(pattern@, ls[k as int]) {
            Some(f) => regex_line_matches(ls[k as int], k + 1, ctx, f, f.len() as int),
            None => Seq::empty(),
        };
        assert(regex_matches(ls, pattern@, ctx, filter, k + 1) == prev + if line_selected(filter, k + 1) {
            lm
        } else {
            Seq::empty()
        });
        let sel = selected(line_filter, line_number);
        if sel {
            let text = string_of(line.as_slice());
            match find_regex(pattern, text.as_str()) {
                Some(finds) => {
                    let ghost fv = finds@.map_values(|p: (String, String)| (p.0@, p.1@));
                    let mut j: usize = 0;
                    while j < finds.len()
                        invariant
                            j <= finds@.len(),
                            fv == finds@.map_values(|p: (String, String)| (p.0@, p.1@)),
                            line@ == ls[k as int],
                            line_number == k + 1,
                            ctx == context_chars as int,
                            out@.map_values(|m: SearchMatch| match_view(m)) == prev + regex_line_matches(
                                ls[k as int],
                                k + 1,
                                ctx,
                                fv,
                                j as int,
                            ),
                        decreases finds@.len() - j,
                    {
                        let before = chars_of(finds[j].0.as_str());
                        let matched = chars_of(finds[j].1.as_str());
                        let m = cut_match(line.as_slice(), line_number, before.len(), matched.len(), context_chars);
                        let found = SearchMatch {
                            matched_text: string_of(matched.as_slice()),
                            line_number,
                            position: before.len(),
                            context_before: m.context_before,
                            context_after: m.context_after,
                        };
                        let ghost old_out = out@.map_values(|m: SearchMatch| match_view(m));
                        out.push(found);
                        proof {
                            assert(fv[j as int] == (before@, matched@));
                            assert(match_view(m) == match_of(line@, line_number as int, before@.len() as int, matched@.len() as int, context_chars as int));
                            assert(match_view(found) == regex_match_of(ls[k as int], k + 1, fv[j as int].0, fv[j as int].1, ctx));
                            assert(out@.map_values(|m: SearchMatch| match_view(m)) =~= old_out.push(match_view(found)));
                            assert((prev + regex_line_matches(ls[k as int], k + 1, ctx, fv, j as int)).push(
                                match_view(found),
                            ) =~= prev + regex_line_matches(ls[k as int], k + 1, ctx, fv, j + 1));
                        }
                        j = j + 1;
                    }
                },
                None => {
                    assert(prev + Seq::<MatchView>::empty() =~= prev);
                },
            }
        } else {
            assert(prev + Seq::<MatchView>::empty() =~= prev);
        }
        k = k + 1;
    }
    out
}

/// The texts of the matches of `pattern` in `text` as the `regex` crate finds them, left to
/// right; `None` where the pattern does not compile.
pub uninterp spec fn regex_match_texts(pattern: Seq<char>, text: Seq<char>) -> Option<Seq<Seq<char>>>;

/// Relies on `regex::Regex::new`, `Regex::find_iter` and `Match::as_str`.
#[verifier::external_body]
fn match_texts(pattern: &str, text: &str) -> (r: Option<Vec<String>>)
    ensures
        match regex_match_texts(pattern@, text@) {
            Some(v) => r matches Some(x) && x@.map_values(|w: String| w@) == v,
            None => r is None,
        },
{
    let re = regex::Regex::new(pattern).ok()?;
    Some(re.find_iter(text).map(|m| m.as_str().to_string()).collect())
}

/// The words of `content`: the matches of `\b\w+\b`, left to right.
pub open spec fn words_in(content: Seq<char>) -> Option<Seq<Seq<char>>> {
    regex_match_texts("\\b\\w+\\b"@, content)
}

/// Whether `a` comes before `b` in the order of `String`: character by character, a proper
/// prefix first.
pub open spec fn seq_less(a: Seq<char>, b: Seq<char>) -> bool
    decreases a.len(),
{
    if a.len() == 0 {
        b.len() > 0
    } else if b.len() == 0 {
        false
    } else if a[0] != b[0] {
        a[0] < b[0]
    } else {
        seq_less(a.drop_first(), b.drop_first())
    }
}

proof fn lemma_seq_less_total(a: Seq<char>, b: Seq<char>)
    ensures
        a != b ==> (seq_less(a, b) || seq_less(b, a)),
        !(seq_less(a, b) && seq_less(b, a)),
        !seq_less(a, a),
    decreases a.len(),
{
    if a.len() > 0 && b.len() > 0 {
        lemma_seq_less_total(a.drop_first(), b.drop_first());
        if a[0] == b[0] && a != b {
            assert(a =~= seq![a[0]] + a.drop_first());
            assert(b =~= seq![b[0]] + b.drop_first());
        }
    }
    if a.len() > 0 {
        lemma_seq_less_total(a.drop_first(), a.drop_first());
    }
    if a.len() == 0 && b.len() == 0 {
        assert(a =~= b);
    }
}

proof fn lemma_seq_less_suffix(a: Seq<char>, b: Seq<char>, i: int)
    requires
        0 <= i <= a.len(),
        i <= b.len(),
        forall|j: int| 0 <= j < i ==> a[j] == b[j],
    ensures
        seq_less(a, b) == seq_less(a.subrange(i, a.len() as int), b.subrange(i, b.len() as int)),
    decreases i,
{
    if i > 0 {
        lemma_seq_less_suffix(a.drop_first(), b.drop_first(), i - 1);
        assert(a.drop_first().subrange(i - 1, a.len() - 1) =~= a.subrange(i, a.len() as int));
        assert(b.drop_first().subrange(i - 1, b.len() - 1) =~= b.subrange(i, b.len() as int));
    } else {
        assert(a.subrange(0, a.len() as int) =~= a);
        assert(b.subrange(0, b.len() as int) =~= b);
    }
}

fn less(a: &[char], b: &[char]) -> (r: bool)
    ensures
        r == seq_less(a@, b@),
{
    let mut i: usize = 0;
    while i < a.len() && i < b.len() && a[i] == b[i]
        invariant
            i <= a@.len(),
            i <= b@.len(),
            forall|j: int| 0 <= j < i ==> a@[j] == b@[j],
        decreases a@.len() - i,
    {
        i = i + 1;
    }
    proof {
        lemma_seq_less_suffix(a@, b@, i as int);
    }
    let ghost ta = a@.subrange(i as int, a@.len() as int);
    let ghost tb = b@.subrange(i as int, b@.len() as int);
    if i == a.len() {
        i < b.len()
    } else if i == b.len() {
        false
    } else {
        assert(ta[0] == a@[i as int] && tb[0] == b@[i as int]);
        a[i] < b[i]
    }
}

fn contains_word(list: &Vec<Vec<char>>, w: &Vec<char>) -> (r: bool)
    ensures
        r == list@.map_values(|x: Vec<char>| x@).contains(w@),
{
    let ghost views = list@.map_values(|x: Vec<char>| x@);
    let mut i: usize = 0;
    while i < list.len()
        invariant
            i <= list@.len(),
            views == list@.map_values(|x: Vec<char>| x@),
            forall|k: int| 0 <= k < i ==> views[k] != w@,
        decreases list@.len() - i,
    {
        if list[i].len() == w.len() && !less(list[i].as_slice(), w.as_slice()) && !less(w.as_slice(), list[i].as_slice()) {
            proof {
                lemma_seq_less_total(views[i as int], w@);
            }
            assert(views[i as int] == w@);
            return true;
        }
        proof {
            if views[i as int] == w@ {
                lemma_seq_less_total(w@, w@);
            }
        }
        i = i + 1;
    }
    false
}

/// `s` is in strictly increasing order, each item before the next.
pub open spec fn strictly_sorted(s: Seq<Seq<char>>) -> bool {
    forall|i: int| 0 <= i < s.len() - 1 ==> seq_less(#[trigger] s[i], s[i + 1])
}

/// The lowercase forms of `words`.
pub open spec fn lowered(words: Seq<Seq<char>>) -> Seq<Seq<char>> {
    words.map_values(|w: Seq<char>| lower_of(w))
}

/// `rv` holds the distinct words of `content`, in lowercase and in increasing order.
pub open spec fn unique_words_of(content: Seq<char>, rv: Seq<Seq<char>>) -> bool {
    let found = match words_in(content) {
        Some(v) => v,
        None => Seq::empty(),
    };
    &&& strictly_sorted(rv)
    &&& rv.no_duplicates()
    &&& rv.to_set() == lowered(found).to_set()
}

/// The distinct words of `content`, in lowercase and in increasing order.
pub fn extract_unique_words(content: &str) -> (r: Vec<String>)
    ensures
        unique_words_of(content@, r@.map_values(|w: String| w@)),
{
    let ws = match match_texts("\\b\\w+\\b", content) {
        Some(ws) => ws,
        None => Vec::new(),
    };
    let ghost found = match words_in(content@) {
        Some(v) => v,
        None => Seq::empty(),
    };
    assert(found =~= ws@.map_values(|w: String| w@));
    let mut sorted: Vec<Vec<char>> = Vec::new();
    let mut i: usize = 0;
    while i < ws.len()
        invariant
            i <= ws@.len(),
            found == ws@.map_values(|w: String| w@),
            strictly_sorted(sorted@.map_values(|x: Vec<char>| x@)),
            sorted@.map_values(|x: Vec<char>| x@).no_duplicates(),
            sorted@.map_values(|x: Vec<char>| x@).to_set() == lowered(found.subrange(0, i as int)).to_set(),
        decreases ws@.len() - i,
    {
        let lw = lowercase(ws[i].as_str());
        let w = chars_of(lw.as_str());
        let ghost views = sorted@.map_values(|x: Vec<char>| x@);
        proof {
            assert(lowered(found.subrange(0, i + 1)) =~= lowered(found.subrange(0, i as int)).push(w@));
            lowered(found.subrange(0, i as int)).lemma_push_to_set_commute(w@);
        }
        if contains_word(&sorted, &w) {
            proof {
                assert(views.to_set().contains(w@));
                assert(lowered(found.subrange(0, i + 1)).to_set() =~= views.to_set());
            }
        } else {
            let mut p: usize = 0;
            while p < sorted.len() && less(sorted[p].as_slice(), w.as_slice())
                invariant
                    p <= sorted@.len(),
                    views == sorted@.map_values(|x: Vec<char>| x@),
                    forall|k: int| 0 <= k < p ==> seq_less(#[trigger] views[k], w@),
                decreases sorted@.len() - p,
            {
                p = p + 1;
            }
            proof {
                if p < views.len() {
                    lemma_seq_less_total(views[p as int], w@);
                }
            }
            sorted.insert(p, w);
            proof {
                let nv = sorted@.map_values(|x: Vec<char>| x@);
                assert(nv =~= views.insert(p as int, w@));
                assert forall|k: int| 0 <= k < nv.len() - 1 implies seq_less(#[trigger] nv[k], nv[k + 1]) by {
                    if k < p - 1 {
                        assert(nv[k] == views[k] && nv[k + 1] == views[k + 1]);
                    } else if k == p - 1 {
                    } else if k == p {
                    } else {
                        assert(nv[k] == views[k - 1] && nv[k + 1] == views[k]);
                    }
                }
                assert forall|x: Seq<char>| nv.contains(x) implies views.contains(x) || x == w@ by {
                    let j = choose|j: int| 0 <= j < nv.len() && nv[j] == x;
                    if j < p {
                        assert(views[j] == x);
                    } else if j > p {
                        assert(views[j - 1] == x);
                    }
                }
                assert forall|x: Seq<char>| views.contains(x) || x == w@ implies nv.contains(x) by {
                    if x == w@ {
                        assert(nv[p as int] == x);
                    } else {
                        let j = choose|j: int| 0 <= j < views.len() && views[j] == x;
                        if j < p {
                            assert(nv[j] == x);
                        } else {
                            assert(nv[j + 1] == x);
                        }
                    }
                }
                assert(nv.to_set() =~= views.to_set().insert(w@));
                assert forall|a: int, b: int| 0 <= a < nv.len() && 0 <= b < nv.len() && a != b implies nv[a] != nv[b] by {
                    if a == p {
                        assert(views.contains(nv[b]) || nv[b] == w@);
                    }
                    if b == p {
                        assert(views.contains(nv[a]) || nv[a] == w@);
                    }
                }
            }
        }
        i = i + 1;
    }
    proof {
        assert(found.subrange(0, ws@.len() as int) =~= found);
    }
    let mut out: Vec<String> = Vec::new();
    let mut k: usize = 0;
    while k < sorted.len()
        invariant
            k <= sorted@.len(),
            out@.map_values(|w: String| w@) == sorted@.map_values(|x: Vec<char>| x@).subrange(0, k as int),
        decreases sorted@.len() - k,
    {
        let ghost old_out = out@.map_values(|w: String| w@);
        let next = string_of(sorted[k].as_slice());
        out.push(next);
        proof {
            assert(out@.map_values(|w: String| w@) =~= old_out.push(next@));
            assert(out@.map_values(|w: String| w@) =~= sorted@.map_values(|x: Vec<char>| x@).subrange(0, k + 1));
        }
        k = k + 1;
    }
    proof {
        assert(sorted@.map_values(|x: Vec<char>| x@).subrange(0, sorted@.len() as int) =~= sorted@.map_values(|x: Vec<char>| x@));
    }
    out
}

/// Why a search could not be made.
#[derive(Debug, Clone, Copy, PartialEq, Eq)]
pub enum SearchError {
    /// The query is empty.
    EmptyQuery,
    /// The query is read as a regular expression and does not compile.
    InvalidRegex,
}

/// The regular expression searched for `query`: as given when case-sensitive, else with the
/// case-insensitive flag in front.
pub open spec fn regex_pattern(query: Seq<char>, case_sensitive: bool) -> Seq<char> {
    if case_sensitive {
        query
    } else {
        "(?i)"@ + query
    }
}

/// The line filter of `options` as plain values.
pub open spec fn filter_of(options: SearchOptions) -> Option<Seq<usize>> {
    match options.line_filter {
        Some(f) => Some(f@),
        None => None,
    }
}

/// Every match of a search, before `max_matches` applies.
pub open spec fn all_matches(content: Seq<char>, query: Seq<char>, options: SearchOptions) -> Seq<MatchView> {
    let ls = lines_of(content);
    if options.use_regex {
        regex_matches(
            ls,
            regex_pattern(query, options.case_sensitive),
            options.context_chars as int,
            filter_of(options),
            ls.len() as int,
        )
    } else {
        plain_matches(
            ls,
            searched(query, options.case_sensitive),
            options.case_sensitive,
            options.context_chars as int,
            filter_of(options),
            ls.len() as int,
        )
    }
}

/// Searches `content` for `query` as `options` say: all matches are counted, at most
/// `max_matches` of them are returned (all when it is 0), plain searches also count the
/// occurrences in the whole content, and the unique words are added when asked for.
pub fn search_in_text(content: &str, query: &str, options: SearchOptions) -> (r: Result<
    SearchResult,
    SearchError,
>)
    ensures
        query@.len() == 0 ==> r == Err::<SearchResult, SearchError>(SearchError::EmptyQuery),
        query@.len() != 0 && options.use_regex && !valid_regex(
            regex_pattern(query@, options.case_sensitive),
        ) ==> r == Err::<SearchResult, SearchError>(SearchError::InvalidRegex),
        query@.len() != 0 && !(options.use_regex && !valid_regex(
            regex_pattern(query@, options.case_sensitive),
        )) ==> (r matches Ok(res) && {
            let all = all_matches(content@, query@, options);
            &&& res.query@ == query@
            &&& res.total_matches == all.len()
            &&& res.matches@.map_values(|m: SearchMatch| match_view(m)) == if options.max_matches > 0
                && all.len() > options.max_matches {
                all.subrange(0, options.max_matches as int)
            } else {
                all
            }
            &&& res.case_sensitive == options.case_sensitive
            &&& res.is_regex == options.use_regex
            &&& options.use_regex ==> res.total_occurrences is None
            &&& !options.use_regex ==> (res.total_occurrences matches Some(c) && (searched(
                content@,
                options.case_sensitive,
            ).len() < usize::MAX ==> c == occurrences(
                searched(content@, options.case_sensitive),
                searched(query@, options.case_sensitive),
            )))
            &&& options.extract_words ==> (res.unique_words matches Some(w) && unique_words_of(
                content@,
                w@.map_values(|x: String| x@),
            ))
            &&& !options.extract_words ==> res.unique_words is None
        }),
{
    if query.is_empty() {
        return Err(SearchError::EmptyQuery);
    }
    let filter: Option<&[usize]> = match &options.line_filter {
        Some(v) => Some(v.as_slice()),
        None => None,
    };
    let mut matches = if options.use_regex {
        let pattern = if options.case_sensitive {
            String::from_str(query)
        } else {
            String::from_str("(?i)").concat(query)
        };
        if !regex_compiles(pattern.as_str()) {
            return Err(SearchError::InvalidRegex);
        }
        search_with_regex(content, pattern.as_str(), options.context_chars, filter)
    } else {
        search_plain_text(content, query, options.case_sensitive, options.context_chars, filter)
    };
    let total_matches = matches.len();
    if options.max_matches > 0 && matches.len() > options.max_matches {
        let ghost before = matches@;
        matches.truncate(options.max_matches);
        proof {
            assert(matches@.map_values(|m: SearchMatch| match_view(m)) =~= before.map_values(
                |m: SearchMatch| match_view(m),
            ).subrange(0, options.max_matches as int));
        }
    }
    let total_occurrences = if !options.use_regex {
        Some(count_occurrences(content, query, options.case_sensitive))
    } else {
        None
    };
    let unique_words = if options.extract_words {
        Some(extract_unique_words(content))
    } else {
        None
    };
    Ok(SearchResult {
        query: String::from_str(query),
        total_matches,
        matches,
        case_sensitive: options.case_sensitive,
        is_regex: options.use_regex,
        total_occurrences,
        unique_words,
    })
}

} // verus!
