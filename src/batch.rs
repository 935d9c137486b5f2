//! The batch engine. A `BatchRun` holds the schedule of one batch: URLs are admitted in
//! input order while fewer than the concurrency limit are in flight, each fetch ends in a
//! `FetchResult` stored at its URL's position, and `finish` turns the finished run into the
//! report with its statistics. Whoever drives the run performs the fetches and the rate
//! limiting, and hands each outcome back. An empty list of URLs is refused. Fail-fast is
//! decided once every fetch has finished: it changes what is returned, not how long the
//! batch takes.

use vstd::prelude::*;
use crate::text::{byte_len, decimal, decimal_of, utf8_len};

verus! {

/// Outcome of fetching one URL of a batch.
#[derive(Debug, Clone)]
pub struct FetchResult {
    /// The URL as it was given, unchanged.
    pub url: String,
    /// HTTP status code; 0 when no response was obtained.
    pub status: u16,
    /// Whether the fetch succeeded.
    pub success: bool,
    /// Response body, present exactly when the fetch succeeded.
    pub content: Option<String>,
    /// Cause of the failure, present exactly when the fetch failed.
    pub error: Option<String>,
    /// Time spent on this item alone, in milliseconds.
    pub response_time_ms: u64,
    /// Size of the body in bytes, when known.
    pub content_length: Option<usize>,
}

impl FetchResult {
    /// Either a body and success, or an error message and failure.
    pub open spec fn wf(&self) -> bool {
        &&& self.success ==> self.content is Some && self.error is None
        &&& !self.success ==> self.content is None && self.error is Some
    }
}

/// Batch fetch options.
#[derive(Debug, Clone)]
pub struct BatchOptions {
    /// Maximum number of fetches in flight at once; must be positive.
    pub max_concurrent: usize,
    /// Requests per second; `None` disables rate limiting.
    pub rate_limit: Option<u32>,
    /// Timeout of each request, in milliseconds.
    pub timeout_ms: u64,
    /// Turn the first failed item into a failure of the whole batch.
    pub fail_fast: bool,
    /// Follow redirects.
    pub follow_redirects: bool,
}

impl Default for BatchOptions {
    fn default() -> (r: Self)
        ensures
            r.max_concurrent == 5,
            r.rate_limit == Some(10u32),
            r.timeout_ms == 30_000,
            !r.fail_fast,
            r.follow_redirects,
    {
        BatchOptions {
            max_concurrent: 5,
            rate_limit: Some(10),
            timeout_ms: 30_000,
            fail_fast: false,
            follow_redirects: true,
        }
    }
}

/// Aggregate figures over the items of one batch.
#[derive(Debug, Clone)]
pub struct BatchStats {
    /// Number of items.
    pub total: usize,
    /// Number of items that succeeded.
    pub success: usize,
    /// Number of items that failed.
    pub failed: usize,
    /// Mean of the items' response times, truncated; 0 for no items.
    pub avg_response_time_ms: u64,
    /// Sum of the known content lengths.
    pub total_bytes: usize,
    /// Wall-clock duration of the whole batch.
    pub total_time_ms: u64,
}

/// Per-item results, in input order, with their statistics.
#[derive(Debug, Clone)]
pub struct BatchFetchResult {
    /// One result per input URL, in input order.
    pub results: Vec<FetchResult>,
    /// Statistics computed from `results`.
    pub stats: BatchStats,
}

/// Why a whole batch failed.
#[derive(Debug, Clone)]
pub enum BatchError {
    /// No URL was given.
    EmptyInput,
    /// Fail-fast was requested and this URL, the first failed one in input order, failed.
    FailFast { url: String },
    /// The sum of the response times or of the content lengths does not fit its integer type.
    StatsOverflow,
}

/// What fetching one URL gave, before it is recorded as a `FetchResult`.
#[derive(Debug, Clone)]
pub enum FetchOutcome {
    /// A 2xx response whose body was read.
    Fetched { status: u16, body: String, content_length: Option<usize> },
    /// No usable response: `status` is the HTTP status, or 0 when no response was obtained.
    Failed { status: u16, message: String },
}

/// Whether an HTTP status code is in the success class (2xx).
pub open spec fn is_success_code(status: u16) -> bool {
    200 <= status && status < 300
}

/// The message recorded for a response with a status outside the success class.
pub open spec fn http_error_message(status: u16, url: Seq<char>) -> Seq<char> {
    "HTTP "@ + decimal_of(status as nat) + " for "@ + url
}

/// The result recorded for `url` from its outcome and elapsed time.
pub open spec fn item_of(url: String, o: FetchOutcome, elapsed_ms: u64) -> FetchResult {
    match o {
        FetchOutcome::Fetched { status, body, content_length } => FetchResult {
            url,
            status,
            success: true,
            content: Some(body),
            error: None,
            response_time_ms: elapsed_ms,
            content_length,
        },
        FetchOutcome::Failed { status, message } => FetchResult {
            url,
            status,
            success: false,
            content: None,
            error: Some(message),
            response_time_ms: elapsed_ms,
            content_length: None,
        },
    }
}

/// Whether an HTTP status code is in the success class (2xx).
pub fn is_success_status(status: u16) -> (r: bool)
    ensures
        r == is_success_code(status),
{
    200 <= status && status < 300
}

/// Classifies a response of `url` with status `status`: a status outside 2xx is a failure
/// that keeps the status; otherwise the body read decides (`Err` holds why it could not be
/// read), and a body that was read is recorded with its size in bytes.
pub fn response_outcome(url: &str, status: u16, body: Result<String, String>) -> (o: FetchOutcome)
    ensures
        !is_success_code(status) ==> o == (FetchOutcome::Failed {
            status,
            message: o->Failed_message,
        }) && o->Failed_message@ == http_error_message(status, url@),
        is_success_code(status) ==> match body {
            Ok(b) => o == (FetchOutcome::Fetched {
                status,
                body: b,
                content_length: Some(byte_len(b@) as usize),
            }),
            Err(m) => o == (FetchOutcome::Failed { status, message: m }),
        },
{
    if !is_success_status(status) {
        let mut message = String::from_str("HTTP ");
        let code = decimal(status as u64);
        message.append(code.as_str());
        message.append(" for ");
        message.append(url);
        return FetchOutcome::Failed { status, message };
    }
    match body {
        Ok(b) => {
            let len = utf8_len(&b);
            FetchOutcome::Fetched { status, body: b, content_length: Some(len) }
        },
        Err(m) => FetchOutcome::Failed { status, message: m },
    }
}

/// Records the outcome of fetching `url`.
pub fn item_result(url: String, outcome: FetchOutcome, elapsed_ms: u64) -> (r: FetchResult)
    ensures
        r == item_of(url, outcome, elapsed_ms),
        r.wf(),
{
    match outcome {
        FetchOutcome::Fetched { status, body, content_length } => FetchResult {
            url,
            status,
            success: true,
            content: Some(body),
            error: None,
            response_time_ms: elapsed_ms,
            content_length,
        },
        FetchOutcome::Failed { status, message } => FetchResult {
            url,
            status,
            success: false,
            content: None,
            error: Some(message),
            response_time_ms: elapsed_ms,
            content_length: None,
        },
    }
}

/// Number of successful items among the first `n` of `s`.
pub open spec fn count_success(s: Seq<FetchResult>, n: int) -> nat
    decreases n,
{
    if n <= 0 {
        0
    } else {
        count_success(s, n - 1) + if s[n - 1].success {
            1nat
        } else {
            0nat
        }
    }
}

/// Sum of the response times of the first `n` items of `s`.
pub open spec fn sum_times(s: Seq<FetchResult>, n: int) -> nat
    decreases n,
{
    if n <= 0 {
        0
    } else {
        sum_times(s, n - 1) + s[n - 1].response_time_ms as nat
    }
}

/// Content length of an item, 0 where unknown.
pub open spec fn known_length(r: FetchResult) -> nat {
    match r.content_length {
        Some(len) => len as nat,
        None => 0,
    }
}

/// Sum of the known content lengths of the first `n` items of `s`.
pub open spec fn sum_bytes(s: Seq<FetchResult>, n: int) -> nat
    decreases n,
{
    if n <= 0 {
        0
    } else {
        sum_bytes(s, n - 1) + known_length(s[n - 1])
    }
}

/// Whether the sums over `s` fit the integer types of `BatchStats`.
pub open spec fn sums_fit(s: Seq<FetchResult>) -> bool {
    &&& sum_times(s, s.len() as int) <= u64::MAX
    &&& sum_bytes(s, s.len() as int) <= usize::MAX
}

/// `st` holds the statistics of the items `s` of a batch that took `total_time_ms`.
pub open spec fn stats_of(st: BatchStats, s: Seq<FetchResult>, total_time_ms: u64) -> bool {
    &&& st.total == s.len()
    &&& st.success == count_success(s, s.len() as int)
    &&& st.failed == s.len() - count_success(s, s.len() as int)
    &&& st.avg_response_time_ms == if s.len() == 0 {
        0
    } else {
        sum_times(s, s.len() as int) / s.len()
    }
    &&& st.total_bytes == sum_bytes(s, s.len() as int)
    &&& st.total_time_ms == total_time_ms
}

proof fn lemma_count_success_bounded(s: Seq<FetchResult>, n: int)
    ensures
        count_success(s, n) <= if n <= 0 {
            0
        } else {
            n
        },
    decreases n,
{
    if n > 0 {
        lemma_count_success_bounded(s, n - 1);
    }
}

proof fn lemma_sums_monotonic(s: Seq<FetchResult>, m: int, n: int)
    requires
        m <= n,
    ensures
        sum_times(s, m) <= sum_times(s, n),
        sum_bytes(s, m) <= sum_bytes(s, n),
    decreases n - m,
{
    if m < n {
        lemma_sums_monotonic(s, m, n - 1);
    }
}

/// Whether the statistics of `results` can be computed without overflow.
pub fn stats_fit(results: &[FetchResult]) -> (r: bool)
    ensures
        r == sums_fit(results@),
{
    let mut times: u64 = 0;
    let mut bytes: usize = 0;
    let mut i: usize = 0;
    while i < results.len()
        invariant
            i <= results@.len(),
            times == sum_times(results@, i as int),
            bytes == sum_bytes(results@, i as int),
        decreases results@.len() - i,
    {
        let r = &results[i];
        if times > u64::MAX - r.response_time_ms {
            proof {
                lemma_sums_monotonic(results@, i + 1, results@.len() as int);
            }
            return false;
        }
        times = times + r.response_time_ms;
        match r.content_length {
            Some(len) => {
                if bytes > usize::MAX - len {
                    proof {
                        lemma_sums_monotonic(results@, i + 1, results@.len() as int);
                    }
                    return false;
                }
                bytes = bytes + len;
            },
            None => {},
        }
        i = i + 1;
    }
    true
}

/// Computes the statistics of the items of a batch.
pub fn calculate_batch_stats(results: &[FetchResult], total_time_ms: u64) -> (st: BatchStats)
    requires
        sums_fit(results@),
    ensures
        stats_of(st, results@, total_time_ms),
{
    let mut success: usize = 0;
    let mut times: u64 = 0;
    let mut bytes: usize = 0;
    let mut i: usize = 0;
    while i < results.len()
        invariant
            i <= results@.len(),
            sums_fit(results@),
            success == count_success(results@, i as int),
            times == sum_times(results@, i as int),
            bytes == sum_bytes(results@, i as int),
        decreases results@.len() - i,
    {
        proof {
            lemma_count_success_bounded(results@, i as int);
            lemma_sums_monotonic(results@, i + 1, results@.len() as int);
        }
        let r = &results[i];
        if r.success {
            success = success + 1;
        }
        times = times + r.response_time_ms;
        match r.content_length {
            Some(len) => {
                bytes = bytes + len;
            },
            None => {},
        }
        i = i + 1;
    }
    proof {
        lemma_count_success_bounded(results@, results@.len() as int);
    }
    let total = results.len();
    let avg_response_time_ms = if total == 0 {
        0
    } else {
        times / (total as u64)
    };
    BatchStats {
        total,
        success,
        failed: total - success,
        avg_response_time_ms,
        total_bytes: bytes,
        total_time_ms,
    }
}

/// Where one URL of a running batch stands.
#[derive(Debug)]
pub enum Slot {
    /// Not yet admitted.
    Waiting,
    /// Admitted; its fetch is in flight.
    Running,
    /// Its fetch has ended with this result.
    Done(FetchResult),
}

/// Whether a slot is in flight.
pub open spec fn running(s: Slot) -> nat {
    if s is Running {
        1
    } else {
        0
    }
}

/// Number of slots in flight among the first `n` of `s`.
pub open spec fn count_running(s: Seq<Slot>, n: int) -> nat
    decreases n,
{
    if n <= 0 {
        0
    } else {
        count_running(s, n - 1) + running(s[n - 1])
    }
}

/// The results held by finished slots, in slot order.
pub open spec fn results_of(s: Seq<Slot>) -> Seq<FetchResult> {
    s.map_values(|x: Slot| x->Done_0)
}

proof fn lemma_count_running_update(s: Seq<Slot>, n: int, k: int, v: Slot)
    requires
        0 <= k < n <= s.len(),
    ensures
        count_running(s.update(k, v), n) + running(s[k]) == count_running(s, n) + running(v),
    decreases n,
{
    if n - 1 > k {
        lemma_count_running_update(s, n - 1, k, v);
    } else {
        lemma_count_running_unchanged(s, s.update(k, v), k);
    }
}

proof fn lemma_count_running_unchanged(s: Seq<Slot>, t: Seq<Slot>, n: int)
    requires
        0 <= n <= s.len(),
        n <= t.len(),
        forall|i: int| 0 <= i < n ==> s[i] == t[i],
    ensures
        count_running(s, n) == count_running(t, n),
    decreases n,
{
    if n > 0 {
        lemma_count_running_unchanged(s, t, n - 1);
    }
}

proof fn lemma_count_running_zero(s: Seq<Slot>, n: int)
    requires
        0 <= n <= s.len(),
        count_running(s, n) == 0,
    ensures
        forall|i: int| 0 <= i < n ==> !(s[i] is Running),
    decreases n,
{
    if n > 0 {
        lemma_count_running_zero(s, n - 1);
    }
}

/// The scheduling state of one batch: which URLs are admitted, in flight and done,
/// with the number in flight held under the concurrency limit.
pub struct BatchRun {
    urls: Vec<String>,
    slots: Vec<Slot>,
    next: usize,
    in_flight: usize,
    max_concurrent: usize,
}

impl BatchRun {
    /// The URLs of the batch, in input order.
    pub closed spec fn urls(&self) -> Seq<String> {
        self.urls@
    }

    /// The state of each URL, in input order.
    pub closed spec fn slots(&self) -> Seq<Slot> {
        self.slots@
    }

    /// How many URLs have been admitted; they are always the first ones.
    pub closed spec fn admitted(&self) -> nat {
        self.next as nat
    }

    /// How many fetches are in flight.
    pub closed spec fn in_flight(&self) -> nat {
        self.in_flight as nat
    }

    /// The concurrency limit.
    pub closed spec fn limit(&self) -> nat {
        self.max_concurrent as nat
    }

    /// Every URL has been admitted and none is in flight.
    pub closed spec fn finished(&self) -> bool {
        self.next == self.urls@.len() && self.in_flight == 0
    }

    pub closed spec fn wf(&self) -> bool {
        &&& self.slots@.len() == self.urls@.len()
        &&& self.next <= self.urls@.len()
        &&& 0 < self.max_concurrent
        &&& self.in_flight <= self.max_concurrent
        &&& self.in_flight == count_running(self.slots@, self.slots@.len() as int)
        &&& forall|i: int| 0 <= i < self.next ==> !(#[trigger] self.slots@[i] is Waiting)
        &&& forall|i: int| self.next <= i < self.slots@.len() ==> #[trigger] self.slots@[i] is Waiting
        &&& forall|i: int|
            0 <= i < self.slots@.len() && #[trigger] self.slots@[i] is Done ==> {
                &&& self.slots@[i]->Done_0.url == self.urls@[i]
                &&& self.slots@[i]->Done_0.wf()
            }
    }

    /// Starts a batch over `urls` with at most `max_concurrent` fetches in flight.
    /// An empty list is refused.
    pub fn new(urls: Vec<String>, max_concurrent: usize) -> (r: Result<BatchRun, BatchError>)
        requires
            max_concurrent > 0,
        ensures
            urls@.len() == 0 <==> r is Err,
            r is Err ==> r->Err_0 is EmptyInput,
            r matches Ok(run) ==> {
                &&& run.wf()
                &&& run.urls() == urls@
                &&& run.admitted() == 0
                &&& run.in_flight() == 0
                &&& run.limit() == max_concurrent
                &&& forall|i: int| 0 <= i < urls@.len() ==> #[trigger] run.slots()[i] is Waiting
            },
    {
        if urls.len() == 0 {
            return Err(BatchError::EmptyInput);
        }
        let mut slots: Vec<Slot> = Vec::new();
        let mut i: usize = 0;
        while i < urls.len()
            invariant
                i <= urls@.len(),
                slots@.len() == i,
                forall|j: int| 0 <= j < i ==> #[trigger] slots@[j] is Waiting,
            decreases urls@.len() - i,
        {
            slots.push(Slot::Waiting);
            i = i + 1;
        }
        proof {
            lemma_count_running_zero_of_waiting(slots@, slots@.len() as int);
        }
        Ok(BatchRun { urls, slots, next: 0, in_flight: 0, max_concurrent })
    }

    /// Number of URLs in the batch.
    pub fn len(&self) -> (n: usize)
        ensures
            n == self.urls().len(),
    {
        self.urls.len()
    }

    /// The URL at `index`.
    pub fn url(&self, index: usize) -> (u: &String)
        requires
            index < self.urls().len(),
        ensures
            *u == self.urls()[index as int],
    {
        &self.urls[index]
    }

    /// Whether the URL at `index` is in flight.
    pub fn is_running(&self, index: usize) -> (b: bool)
        requires
            self.wf(),
        ensures
            b == (index < self.urls().len() && self.slots()[index as int] is Running),
    {
        index < self.slots.len() && match &self.slots[index] {
            Slot::Running => true,
            _ => false,
        }
    }

    /// Whether every URL has been admitted and no fetch is in flight.
    pub fn is_finished(&self) -> (b: bool)
        ensures
            b == self.finished(),
    {
        self.next == self.urls.len() && self.in_flight == 0
    }

    /// Admits the next URL in input order if a fetch slot is free, and returns its index.
    pub fn start_next(&mut self) -> (r: Option<usize>)
        requires
            old(self).wf(),
        ensures
            final(self).wf(),
            final(self).urls() == old(self).urls(),
            final(self).limit() == old(self).limit(),
            r is Some <==> (old(self).in_flight() < old(self).limit() && old(self).admitted()
                < old(self).urls().len()),
            r matches Some(i) ==> {
                &&& i == old(self).admitted()
                &&& final(self).slots() == old(self).slots().update(i as int, Slot::Running)
                &&& final(self).admitted() == old(self).admitted() + 1
                &&& final(self).in_flight() == old(self).in_flight() + 1
            },
            r is None ==> final(self).slots() == old(self).slots() && final(self).admitted()
                == old(self).admitted() && final(self).in_flight() == old(self).in_flight(),
    {
        if self.in_flight >= self.max_concurrent || self.next >= self.urls.len() {
            return None;
        }
        let i = self.next;
        proof {
            lemma_count_running_update(self.slots@, self.slots@.len() as int, i as int, Slot::Running);
        }
        self.slots.set(i, Slot::Running);
        self.next = i + 1;
        self.in_flight = self.in_flight + 1;
        Some(i)
    }

    /// Records the outcome of the fetch of the URL at `index`, which frees its slot.
    pub fn complete(&mut self, index: usize, outcome: FetchOutcome, elapsed_ms: u64)
        requires
            old(self).wf(),
            index < old(self).urls().len(),
            old(self).slots()[index as int] is Running,
        ensures
            final(self).wf(),
            final(self).urls() == old(self).urls(),
            final(self).limit() == old(self).limit(),
            final(self).admitted() == old(self).admitted(),
            final(self).in_flight() + 1 == old(self).in_flight(),
            final(self).slots() == old(self).slots().update(
                index as int,
                Slot::Done(item_of(old(self).urls()[index as int], outcome, elapsed_ms)),
            ),
    {
        let url = self.urls[index].clone();
        let r = item_result(url, outcome, elapsed_ms);
        proof {
            lemma_count_running_update(self.slots@, self.slots@.len() as int, index as int, Slot::Done(r));
        }
        self.slots.set(index, Slot::Done(r));
        self.in_flight = self.in_flight - 1;
    }

    /// Ends a batch in which every fetch has finished: the results in input order with their
    /// statistics, or, when `fail_fast` is set and an item failed, the first failed URL.
    /// `total_time_ms` is the wall-clock duration of the whole batch.
    pub fn finish(self, total_time_ms: u64, fail_fast: bool) -> (r: Result<BatchFetchResult, BatchError>)
        requires
            self.wf(),
            self.finished(),
        ensures
            ({
                let items = results_of(self.slots());
                &&& forall|i: int| 0 <= i < items.len() ==> #[trigger] items[i].url == self.urls()[i]
                    && items[i].wf()
                &&& reports(r, items, total_time_ms, fail_fast)
            }),
    {
        proof {
            lemma_count_running_zero(self.slots@, self.slots@.len() as int);
        }
        let ghost items = results_of(self.slots@);
        let mut slots = self.slots;
        let mut results: Vec<FetchResult> = Vec::new();
        let n = slots.len();
        let mut i: usize = 0;
        while i < n
            invariant
                n == items.len(),
                i <= n,
                slots@.len() == n - i,
                forall|j: int| 0 <= j < slots@.len() ==> #[trigger] slots@[j] is Done && slots@[j]->Done_0
                    == items[i + j],
                results@ == items.subrange(0, i as int),
            decreases n - i,
        {
            let s = slots.remove(0);
            match s {
                Slot::Done(res) => {
                    results.push(res);
                },
                _ => {},
            }
            proof {
                assert(results@ =~= items.subrange(0, i + 1));
            }
            i = i + 1;
        }
        proof {
            assert(results@ =~= items);
        }
        finish_report(results, total_time_ms, fail_fast)
    }
}

proof fn lemma_count_running_zero_of_waiting(s: Seq<Slot>, n: int)
    requires
        0 <= n <= s.len(),
        forall|i: int| 0 <= i < n ==> #[trigger] s[i] is Waiting,
    ensures
        count_running(s, n) == 0,
    decreases n,
{
    if n > 0 {
        lemma_count_running_zero_of_waiting(s, n - 1);
    }
}

/// `k` is the first failed item of `items`.
pub open spec fn first_failure(items: Seq<FetchResult>, k: int) -> bool {
    &&& 0 <= k < items.len()
    &&& !items[k].success
    &&& forall|j: int| 0 <= j < k ==> #[trigger] items[j].success
}

/// Some item of `items` failed.
pub open spec fn has_failure(items: Seq<FetchResult>) -> bool {
    exists|k: int| 0 <= k < items.len() && !(#[trigger] items[k].success)
}

/// `r` is what a finished batch with these items returns: the first failed URL when fail-fast
/// applies, else the items in order with their statistics, if those can be held.
pub open spec fn reports(
    r: Result<BatchFetchResult, BatchError>,
    items: Seq<FetchResult>,
    total_time_ms: u64,
    fail_fast: bool,
) -> bool {
    &&& (fail_fast && has_failure(items)) ==> (r matches Err(e) && exists|k: int|
        first_failure(items, k) && e == (BatchError::FailFast { url: items[k].url }))
    &&& !(fail_fast && has_failure(items)) && !sums_fit(items) ==> (r matches Err(
        BatchError::StatsOverflow,
    ))
    &&& !(fail_fast && has_failure(items)) && sums_fit(items) ==> (r matches Ok(report)
        && report.results@ == items && stats_of(report.stats, items, total_time_ms))
}

fn finish_report(results: Vec<FetchResult>, total_time_ms: u64, fail_fast: bool) -> (r: Result<
    BatchFetchResult,
    BatchError,
>)
    ensures
        reports(r, results@, total_time_ms, fail_fast),
{
    if fail_fast {
        let mut k: usize = 0;
        while k < results.len()
            invariant
                fail_fast,
                k <= results@.len(),
                forall|j: int| 0 <= j < k ==> #[trigger] results@[j].success,
            decreases results@.len() - k,
        {
            if !results[k].success {
                let url = results[k].url.clone();
                assert(first_failure(results@, k as int));
                assert(has_failure(results@));
                return Err(BatchError::FailFast { url });
            }
            k = k + 1;
        }
    }
    if !stats_fit(results.as_slice()) {
        return Err(BatchError::StatsOverflow);
    }
    let stats = calculate_batch_stats(results.as_slice(), total_time_ms);
    Ok(BatchFetchResult { results, stats })
}

/// The results that a batch over `urls` records from the fetch outcomes and elapsed times
/// `outcomes`, in input order.
pub open spec fn items_of(urls: Seq<String>, outcomes: Seq<(FetchOutcome, u64)>) -> Seq<FetchResult> {
    Seq::new(urls.len(), |i: int| item_of(urls[i], outcomes[i].0, outcomes[i].1))
}

/// Carries a batch over `urls` through its schedule, with at most `options.max_concurrent`
/// fetches in flight, where fetching the URL at index `i` ends with `outcomes[i]` (its outcome
/// and elapsed milliseconds). An empty list is refused; otherwise the report holds one result
/// per URL in input order, unless `options.fail_fast` is set and an item failed.
pub fn batch_report(
    urls: Vec<String>,
    outcomes: Vec<(FetchOutcome, u64)>,
    options: &BatchOptions,
    total_time_ms: u64,
) -> (r: Result<BatchFetchResult, BatchError>)
    requires
        outcomes@.len() == urls@.len(),
        options.max_concurrent > 0,
    ensures
        urls@.len() == 0 ==> r matches Err(BatchError::EmptyInput),
        urls@.len() > 0 ==> reports(r, items_of(urls@, outcomes@), total_time_ms, options.fail_fast),
        r matches Ok(report) ==> {
            &&& report.results@.len() == urls@.len()
            &&& forall|i: int| 0 <= i < urls@.len() ==> (#[trigger] report.results@[i]).url == urls@[i]
        },
{
    let ghost items = items_of(urls@, outcomes@);
    let ghost input = urls@;
    let ghost n = urls@.len();
    let mut run = match BatchRun::new(urls, options.max_concurrent) {
        Ok(run) => run,
        Err(e) => {
            return Err(e);
        },
    };
    let mut pending = outcomes;
    let mut c: usize = 0;
    while !run.is_finished()
        invariant
            run.wf(),
            run.urls() == input,
            input.len() == n,
            outcomes@.len() == n,
            items == items_of(input, outcomes@),
            run.limit() > 0,
            c <= run.admitted() <= n,
            run.in_flight() + c == run.admitted(),
            forall|j: int| 0 <= j < c ==> #[trigger] run.slots()[j] == Slot::Done(items[j]),
            forall|j: int| c <= j < run.admitted() ==> #[trigger] run.slots()[j] is Running,
            pending@ == outcomes@.subrange(c as int, n as int),
        decreases 2 * n - c - run.admitted(),
    {
        match run.start_next() {
            Some(_) => {},
            None => {
                let (outcome, elapsed_ms) = pending.remove(0);
                assert((outcome, elapsed_ms) == outcomes@[c as int]);
                run.complete(c, outcome, elapsed_ms);
                assert(run.slots()[c as int] == Slot::Done(items[c as int]));
                c = c + 1;
            },
        }
    }
    proof {
        assert(results_of(run.slots()) =~= items);
    }
    run.finish(total_time_ms, options.fail_fast)
}

/// Whatever a batch has been through, each finished result sits at the position of its URL
/// and names that URL, so that the report keeps the input order whatever the completion order.
pub proof fn lemma_results_in_input_order(run: &BatchRun)
    requires
        run.wf(),
    ensures
        run.slots().len() == run.urls().len(),
        forall|i: int|
            0 <= i < run.slots().len() && (#[trigger] run.slots()[i]) is Done ==> run.slots()[i]->Done_0.url
                == run.urls()[i],
{
}

/// Whatever a batch has been through, the fetches in flight are the admitted URLs that have
/// not finished, and there are never more of them than the concurrency limit.
pub proof fn lemma_in_flight_bounded(run: &BatchRun)
    requires
        run.wf(),
    ensures
        run.in_flight() == count_running(run.slots(), run.slots().len() as int),
        count_running(run.slots(), run.slots().len() as int) <= run.limit(),
{
}

/// The counts of any statistics add up: every item either succeeded or failed.
pub proof fn lemma_stats_counts(st: BatchStats, s: Seq<FetchResult>, total_time_ms: u64)
    requires
        stats_of(st, s, total_time_ms),
    ensures
        st.total == st.success + st.failed,
        st.total == s.len(),
{
    lemma_count_success_bounded(s, s.len() as int);
}

/// The byte total of any statistics is the sum of the content lengths that are present.
pub proof fn lemma_stats_bytes(st: BatchStats, s: Seq<FetchResult>, total_time_ms: u64)
    requires
        stats_of(st, s, total_time_ms),
    ensures
        st.total_bytes == sum_bytes(s, s.len() as int),
{
}

/// Aggregation is deterministic: the same items and duration always give the same statistics.
pub proof fn lemma_stats_deterministic(
    a: BatchStats,
    b: BatchStats,
    s: Seq<FetchResult>,
    total_time_ms: u64,
)
    requires
        stats_of(a, s, total_time_ms),
        stats_of(b, s, total_time_ms),
    ensures
        a == b,
{
}

} // verus!
