//! HTTP settings, URLs and the retry policy (exponential backoff with
//! `Retry-After` support). The requests themselves are made by the caller,
//! which asks [`HttpConfig::next_step`] what to do after each attempt.
use vstd::prelude::*;
use crate::text;
use crate::error::ArxivError;
use crate::text::{str_chars, string_from_chars, concat_str};

verus! {

/// Where requests go and how they are retried.
#[derive(Debug)]
pub struct HttpConfig {
    pub arxiv_base: String,
    pub deepseek_base: String,
    /// Retries allowed for transient failures (429, 5xx, timeouts, connection errors).
    pub max_retries: u32,
    /// Base backoff; the wait before retry `n` is `backoff_base_ms * 2^n` (n capped at 10).
    pub backoff_base_ms: u64,
    /// Upper bound on a wait requested by `Retry-After`.
    pub retry_after_cap_ms: u64,
}

pub open spec fn default_arxiv_base() -> Seq<char> { "https://arxiv.org"@ }
pub open spec fn default_deepseek_base() -> Seq<char> { "https://api.deepseek.com"@ }

impl HttpConfig {
    /// Settings with the base URLs taken from `ARXIVCAT_ARXIV_BASE_URL` /
    /// `ARXIVCAT_DEEPSEEK_BASE_URL` when set (passed in by the caller), else the
    /// public services; 3 retries, 500 ms base backoff, 30 s `Retry-After` cap.
    pub fn new(arxiv_base_env: Option<&str>, deepseek_base_env: Option<&str>) -> (c: HttpConfig)
        ensures
            c.arxiv_base@ == match arxiv_base_env { Some(v) => v@, None => default_arxiv_base() },
            c.deepseek_base@ == match deepseek_base_env { Some(v) => v@, None => default_deepseek_base() },
            c.max_retries == 3,
            c.backoff_base_ms == 500,
            c.retry_after_cap_ms == 30_000,
    {
        let arxiv_base = match arxiv_base_env {
            Some(v) => string_from_chars(&str_chars(v)),
            None => string_from_chars(&str_chars("https://arxiv.org")),
        };
        let deepseek_base = match deepseek_base_env {
            Some(v) => string_from_chars(&str_chars(v)),
            None => string_from_chars(&str_chars("https://api.deepseek.com")),
        };
        HttpConfig { arxiv_base, deepseek_base, max_retries: 3, backoff_base_ms: 500, retry_after_cap_ms: 30_000 }
    }

    /// `{arxiv_base}/abs/{id}`
    pub fn arxiv_abs_url(&self, id: &str) -> (u: String)
        ensures
            u@ == self.arxiv_base@ + "/abs/"@ + id@,
    {
        let a = concat_str(self.arxiv_base.as_str(), "/abs/");
        concat_str(a.as_str(), id)
    }

    /// `{arxiv_base}/src/{id}`
    pub fn arxiv_src_url(&self, id: &str) -> (u: String)
        ensures
            u@ == self.arxiv_base@ + "/src/"@ + id@,
    {
        let a = concat_str(self.arxiv_base.as_str(), "/src/");
        concat_str(a.as_str(), id)
    }

    /// `{arxiv_base}/pdf/{id}`
    pub fn arxiv_pdf_url(&self, id: &str) -> (u: String)
        ensures
            u@ == self.arxiv_base@ + "/pdf/"@ + id@,
    {
        let a = concat_str(self.arxiv_base.as_str(), "/pdf/");
        concat_str(a.as_str(), id)
    }

    /// `{arxiv_base}/api/query?id_list={ids}` (the export API, for titles).
    pub fn arxiv_query_url(&self, id_list: &str) -> (u: String)
        ensures
            u@ == self.arxiv_base@ + "/api/query?id_list="@ + id_list@,
    {
        let a = concat_str(self.arxiv_base.as_str(), "/api/query?id_list=");
        concat_str(a.as_str(), id_list)
    }

    /// `{deepseek_base}/chat/completions`
    pub fn deepseek_chat_url(&self) -> (u: String)
        ensures
            u@ == self.deepseek_base@ + "/chat/completions"@,
    {
        concat_str(self.deepseek_base.as_str(), "/chat/completions")
    }

    /// `{deepseek_base}/models`
    pub fn deepseek_models_url(&self) -> (u: String)
        ensures
            u@ == self.deepseek_base@ + "/models"@,
    {
        concat_str(self.deepseek_base.as_str(), "/models")
    }
}

pub open spec fn retryable_status_spec(status: u16) -> bool {
    (500 <= status && status <= 599) || status == 429
}

/// Server errors and `429 Too Many Requests` are worth retrying.
pub fn is_retryable_status(status: u16) -> (b: bool)
    ensures
        b == retryable_status_spec(status),
{
    (500 <= status && status <= 599) || status == 429
}

pub open spec fn pow2(n: nat) -> nat
    decreases n,
{
    if n == 0 { 1 } else { 2 * pow2((n - 1) as nat) }
}

/// The wait before retry `attempt`: the server's `Retry-After` (seconds, as
/// milliseconds) capped at `retry_after_cap_ms`, or else `backoff_base_ms *
/// 2^min(attempt, 10)` saturating at `u64::MAX`.
pub open spec fn backoff_spec(c: &HttpConfig, attempt: u32, retry_after_secs: Option<u64>) -> nat {
    match retry_after_secs {
        Some(s) => if s * 1000 <= c.retry_after_cap_ms { (s * 1000) as nat } else { c.retry_after_cap_ms as nat },
        None => {
            let e: nat = if attempt <= 10 { attempt as nat } else { 10 };
            let w = c.backoff_base_ms * pow2(e);
            if w <= u64::MAX { w as nat } else { u64::MAX as nat }
        },
    }
}

/// What to do after an attempt.
#[derive(Debug, PartialEq, Eq)]
pub enum RetryAction {
    /// Hand the response to the caller (success, a non-retryable status, or out of retries).
    Deliver,
    /// Report the transport error (not retryable, or out of retries).
    Fail,
    /// Wait this many milliseconds, then retry.
    Wait(u64),
}

/// How an attempt ended.
pub enum AttemptOutcome {
    /// A response arrived, with its status and any `Retry-After` in seconds.
    Response { status: u16, retry_after_secs: Option<u64> },
    /// No response; whether the error is transient (timeout, connection, request, body).
    TransportError { retryable: bool },
}

pub open spec fn retry_after_ok(o: AttemptOutcome) -> bool {
    match o {
        AttemptOutcome::Response { retry_after_secs: Some(s), .. } => s <= u64::MAX / 1000,
        _ => true,
    }
}

pub open spec fn next_step_spec(c: &HttpConfig, attempt: u32, outcome: AttemptOutcome) -> RetryAction {
    match outcome {
        AttemptOutcome::Response { status, retry_after_secs } => {
            if !retryable_status_spec(status) || attempt >= c.max_retries {
                RetryAction::Deliver
            } else {
                RetryAction::Wait(backoff_spec(c, attempt, retry_after_secs) as u64)
            }
        },
        AttemptOutcome::TransportError { retryable } => {
            if !retryable || attempt >= c.max_retries {
                RetryAction::Fail
            } else {
                RetryAction::Wait(backoff_spec(c, attempt, None) as u64)
            }
        },
    }
}

fn pow2_exec(n: u32) -> (r: u64)
    requires
        n <= 10,
    ensures
        r == pow2(n as nat),
{
    let mut r: u64 = 1;
    let mut i: u32 = 0;
    while i < n
        invariant
            i <= n <= 10,
            r == pow2(i as nat),
            r <= 1024,
        decreases n - i,
    {
        proof {
            assert(pow2((i + 1) as nat) == 2 * pow2(i as nat));
            lemma_pow2_bound(i as nat);
        }
        r = r * 2;
        i += 1;
    }
    r
}

proof fn lemma_pow2_pos(n: nat)
    ensures
        pow2(n) >= 1,
    decreases n,
{
    if n > 0 {
        lemma_pow2_pos((n - 1) as nat);
    }
}

proof fn lemma_pow2_mono(n: nat, m: nat)
    requires
        n <= m,
    ensures
        pow2(n) <= pow2(m),
    decreases m - n,
{
    if n < m {
        lemma_pow2_mono(n, (m - 1) as nat);
        lemma_pow2_pos((m - 1) as nat);
    }
}

proof fn lemma_pow2_bound(n: nat)
    requires
        n < 10,
    ensures
        pow2(n + 1) <= 1024,
{
    reveal_with_fuel(pow2, 11);
    assert(pow2(10) == 1024);
    lemma_pow2_mono(n + 1, 10);
}

impl HttpConfig {
    /// The wait before retry `attempt` (see [`backoff_spec`]).
    pub fn backoff_ms(&self, attempt: u32, retry_after_secs: Option<u64>) -> (w: u64)
        requires
            retry_after_secs matches Some(s) ==> s <= u64::MAX / 1000,
        ensures
            w as nat == backoff_spec(self, attempt, retry_after_secs),
    {
        match retry_after_secs {
            Some(s) => {
                let ms = s * 1000;
                if ms <= self.retry_after_cap_ms { ms } else { self.retry_after_cap_ms }
            },
            None => {
                let e: u32 = if attempt <= 10 { attempt } else { 10 };
                let p = pow2_exec(e);
                proof { lemma_pow2_pos(e as nat); }
                if self.backoff_base_ms > u64::MAX / p {
                    assert(self.backoff_base_ms * p > u64::MAX) by (nonlinear_arith)
                        requires
                            self.backoff_base_ms > u64::MAX / p,
                            p >= 1,
                    ;
                    u64::MAX
                } else {
                    assert(self.backoff_base_ms * p <= u64::MAX) by (nonlinear_arith)
                        requires
                            self.backoff_base_ms <= u64::MAX / p,
                            p >= 1,
                    ;
                    self.backoff_base_ms * p
                }
            },
        }
    }

    /// The retry policy: after attempt number `attempt` (0 for the first
    /// request) ended with `outcome`, deliver the response, report the error,
    /// or wait and retry.
    pub fn next_step(&self, attempt: u32, outcome: AttemptOutcome) -> (a: RetryAction)
        requires
            retry_after_ok(outcome),
        ensures
            a == next_step_spec(self, attempt, outcome),
    {
        match outcome {
            AttemptOutcome::Response { status, retry_after_secs } => {
                if !is_retryable_status(status) || attempt >= self.max_retries {
                    RetryAction::Deliver
                } else {
                    RetryAction::Wait(self.backoff_ms(attempt, retry_after_secs))
                }
            },
            AttemptOutcome::TransportError { retryable } => {
                if !retryable || attempt >= self.max_retries {
                    RetryAction::Fail
                } else {
                    RetryAction::Wait(self.backoff_ms(attempt, None))
                }
            },
        }
    }
}

/// Requests made when the attempts end with `outcomes` in turn, starting at
/// attempt `attempt` (stops at the first deliver/fail, or when the scripted
/// outcomes run out).
pub open spec fn requests_made(c: &HttpConfig, outcomes: Seq<AttemptOutcome>, attempt: u32) -> nat
    decreases outcomes.len(),
{
    if outcomes.len() == 0 {
        0
    } else {
        match next_step_spec(c, attempt, outcomes[0]) {
            RetryAction::Wait(_) => if attempt < u32::MAX {
                1 + requests_made(c, outcomes.drop_first(), (attempt + 1) as u32)
            } else {
                1
            },
            _ => 1,
        }
    }
}

/// However the server answers, one URL is requested at most `max_retries + 1`
/// times.
pub proof fn law_bounded_attempts(c: &HttpConfig, outcomes: Seq<AttemptOutcome>)
    ensures
        requests_made(c, outcomes, 0) <= c.max_retries + 1,
{
    lemma_requests_bound(c, outcomes, 0);
}

proof fn lemma_requests_bound(c: &HttpConfig, outcomes: Seq<AttemptOutcome>, attempt: u32)
    requires
        attempt <= c.max_retries,
    ensures
        requests_made(c, outcomes, attempt) <= c.max_retries + 1 - attempt,
    decreases outcomes.len(),
{
    if outcomes.len() > 0 {
        match next_step_spec(c, attempt, outcomes[0]) {
            RetryAction::Wait(_) => {
                assert(attempt < c.max_retries);
                lemma_requests_bound(c, outcomes.drop_first(), (attempt + 1) as u32);
            },
            _ => {},
        }
    }
}

/// A wait asked for by the server never exceeds the cap.
pub proof fn law_retry_after_capped(c: &HttpConfig, attempt: u32, secs: u64)
    ensures
        backoff_spec(c, attempt, Some(secs)) <= c.retry_after_cap_ms,
{
}

// ---------------------------------------------------------------- numbers

/// Value of a string of decimal digits.
pub open spec fn digits_value(d: Seq<char>) -> nat
    decreases d.len(),
{
    if d.len() == 0 {
        0
    } else {
        digits_value(d.drop_last()) * 10 + ((d.last() as u32) - ('0' as u32)) as nat
    }
}

/// The digits of a number with its optional leading `+` removed.
pub open spec fn unsigned_digits(s: Seq<char>) -> Seq<char> {
    if s.len() > 0 && s[0] == '+' { s.drop_first() } else { s }
}

/// Every character is an ASCII digit.
pub open spec fn all_digits(d: Seq<char>) -> bool {
    forall|k: int| 0 <= k < d.len() ==> text::is_digit(#[trigger] d[k])
}

/// What `u64::from_str` accepts: an optional `+`, then one or more ASCII
/// digits, with a value that fits in `u64`.
pub open spec fn parse_u64_spec(s: Seq<char>) -> Option<nat> {
    let d = unsigned_digits(s);
    if d.len() == 0 || !all_digits(d) {
        None
    } else if digits_value(d) > u64::MAX {
        None
    } else {
        Some(digits_value(d))
    }
}

proof fn lemma_digits_value_mono(d: Seq<char>, n: int)
    requires
        0 <= n <= d.len(),
        forall|k: int| 0 <= k < d.len() ==> text::is_digit(#[trigger] d[k]),
    ensures
        digits_value(d.take(n)) <= digits_value(d),
    decreases d.len() - n,
{
    if n < d.len() {
        lemma_digits_value_mono(d, n + 1);
        assert(d.take(n + 1).drop_last() =~= d.take(n));
        assert(text::is_digit(d[n]));
    } else {
        assert(d.take(n) =~= d);
    }
}

/// Parses a decimal `u64` the way `str::parse::<u64>` does.
pub fn parse_u64(s: &str) -> (r: Option<u64>)
    ensures
        match parse_u64_spec(s@) {
            Some(v) => r == Some(v as u64),
            None => r is None,
        },
{
    let c = str_chars(s);
    let start: usize = if c.len() > 0 && c[0] == '+' { 1 } else { 0 };
    let ghost d = unsigned_digits(s@);
    assert(d =~= c@.skip(start as int));
        if start >= c.len() {
        assert(d.len() == 0);
        assert(parse_u64_spec(s@) is None);
        return None;
    }
    // every character after the sign must be a digit
    let mut k = start;
    while k < c.len()
        invariant
            start <= k <= c@.len(),
            c@ == s@,
            d == c@.skip(start as int),
            d == unsigned_digits(s@),
            forall|m: int| 0 <= m < k - start ==> text::is_digit(#[trigger] d[m]),
        decreases c@.len() - k,
    {
        if !('0' <= c[k] && c[k] <= '9') {
            assert(!text::is_digit(d[k - start]));
            assert(!text::is_digit(d[k - start]));
            return None;
        }
        k += 1;
    }
    let mut v: u64 = 0;
    let mut i = start;
    while i < c.len()
        invariant
            start <= i <= c@.len(),
            c@ == s@,
            d == c@.skip(start as int),
            d == unsigned_digits(s@),
            forall|m: int| 0 <= m < d.len() ==> text::is_digit(#[trigger] d[m]),
            v as nat == digits_value(d.take(i - start)),
        decreases c@.len() - i,
    {
        let ch = c[i];
        proof {
            assert(d.take(i + 1 - start).drop_last() =~= d.take(i - start));
            assert(d.take(i + 1 - start).last() == ch);
            assert(text::is_digit(d[i - start]));
        }
        let digit = (ch as u32 - '0' as u32) as u64;
        if v > (u64::MAX - digit) / 10 {
            proof {
                assert(digits_value(d.take(i + 1 - start)) == v * 10 + digit);
                assert(v * 10 + digit > u64::MAX) by (nonlinear_arith)
                    requires
                        v > (u64::MAX - digit) / 10,
                        digit <= 9,
                ;
                lemma_digits_value_mono(d, i + 1 - start);
                assert(digits_value(d) > u64::MAX);
                assert(parse_u64_spec(s@) is None);
            }
            return None;
        }
        assert(v * 10 + digit <= u64::MAX) by (nonlinear_arith)
            requires
                v <= (u64::MAX - digit) / 10,
                digit <= 9,
        ;
        v = v * 10 + digit;
        i += 1;
    }
    assert(d.take(i - start) =~= d);
    Some(v)
}

/// The error a source download ends with when the server answers `status`
/// (`None` when the answer is a success).
pub fn source_status_error(status: u16) -> (r: Option<ArxivError>)
    ensures
        200 <= status <= 299 ==> r is None,
        status == 404 ==> (r matches Some(ArxivError::NotFound(m))
            && m@ == "paper source not found on arXiv: HTTP 404 Not Found"@),
        !(200 <= status <= 299) && status != 404 ==> r == Some(ArxivError::HttpStatus(status)),
{
    if 200 <= status && status <= 299 {
        None
    } else if status == 404 {
        Some(ArxivError::NotFound(String::from_str("paper source not found on arXiv: HTTP 404 Not Found")))
    } else {
        Some(ArxivError::HttpStatus(status))
    }
}

} // verus!
