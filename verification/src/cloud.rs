//! What the cloud backends share: classifying an upstream HTTP failure,
//! classifying a transport failure, the `Retry-After` header, and the
//! base-URL handling.

use vstd::prelude::*;
use crate::error::EngineError;
use crate::text::{decimal, opt_view, push_str, to_string};

verus! {

// ---------------------------------------------------------------------
// Outside calls
// ---------------------------------------------------------------------

/// The string at `error.message` of `body` read as JSON, or `None` when
/// the body is not JSON or has no such string. A function of the body alone.
pub uninterp spec fn json_error_message(body: Seq<char>) -> Option<Seq<char>>;

/// `serde_json::from_str::<Value>` on the body, then `Value::pointer` to
/// `/error/message` and `Value::as_str`: the upstream's own error message.
#[verifier::external_body]
fn error_message_of(body: &str) -> (r: Option<String>)
    ensures
        opt_view(r) == json_error_message(body@),
{
    serde_json::from_str::<serde_json::Value>(body).ok()
        .and_then(|v| v.pointer("/error/message").and_then(|m| m.as_str()).map(String::from))
}

/// How `http::StatusCode` displays a valid status code: the number, a
/// space, and the canonical reason phrase (or `<unknown status code>`).
pub uninterp spec fn status_text(code: u16) -> Seq<char>;

/// `reqwest::StatusCode::from_u16` and its `Display`; `from_u16` accepts
/// exactly the codes 100 to 999.
#[verifier::external_body]
fn status_display(code: u16) -> (r: String)
    requires
        100 <= code <= 999,
    ensures
        r@ == status_text(code),
{
    reqwest::StatusCode::from_u16(code).map(|s| s.to_string()).unwrap_or_default()
}

// ---------------------------------------------------------------------
// Upstream HTTP failures
// ---------------------------------------------------------------------

/// The first `n` characters of `s` (all of it when shorter).
pub open spec fn take_chars(s: Seq<char>, n: int) -> Seq<char> {
    if s.len() <= n { s } else { s.subrange(0, n) }
}

/// The message an upstream failure is reported with: the upstream's own
/// `error.message` when the body carries one, else the body's first 200
/// characters.
pub open spec fn upstream_message(body: Seq<char>) -> Seq<char> {
    match json_error_message(body) {
        Some(m) => m,
        None => take_chars(body, 200),
    }
}

pub open spec fn upstream_full(provider: Seq<char>, code: u16, body: Seq<char>) -> Seq<char> {
    "upstream "@ + provider + " "@ + status_text(code) + ": "@ + upstream_message(body)
}

/// A 429 is rate limiting (with no delay known here), a 5xx an upstream
/// server error, anything else a failed inference; the latter two carry
/// the full message.
pub open spec fn upstream_error_is(e: EngineError, provider: Seq<char>, code: u16, body: Seq<char>) -> bool {
    if code == 429 {
        e == EngineError::RateLimited { retry_after_secs: None }
    } else if 500 <= code < 600 {
        e matches EngineError::UpstreamServerError { status, body: b } && status == code
            && b@ == upstream_full(provider, code, body)
    } else {
        e matches EngineError::InferenceFailed(m) && m@ == upstream_full(provider, code, body)
    }
}

fn first_chars(s: &str, n: usize) -> (r: String)
    ensures
        r@ == take_chars(s@, n as int),
{
    let len = s.unicode_len();
    let mut r = String::new();
    let mut i: usize = 0;
    while i < len && i < n
        invariant
            len == s@.len(),
            i <= len,
            i <= n,
            r@ == s@.subrange(0, i as int),
        decreases len - i,
    {
        r.push(s.get_char(i));
        i = i + 1;
        assert(r@ =~= s@.subrange(0, i as int));
    }
    if len <= n {
        assert(s@.subrange(0, len as int) =~= s@);
    }
    r
}

/// Classify a non-success upstream response of the `provider` backend.
pub fn upstream_error(provider: &str, status: u16, body: &str) -> (e: EngineError)
    requires
        100 <= status <= 999,
    ensures
        upstream_error_is(e, provider@, status, body@),
{
    let msg = match error_message_of(body) {
        Some(m) => m,
        None => first_chars(body, 200),
    };
    let mut full = to_string("upstream ");
    push_str(&mut full, provider);
    push_str(&mut full, " ");
    push_str(&mut full, status_display(status).as_str());
    push_str(&mut full, ": ");
    push_str(&mut full, msg.as_str());
    if status == 429 {
        EngineError::RateLimited { retry_after_secs: None }
    } else if 500 <= status && status < 600 {
        EngineError::UpstreamServerError { status, body: full }
    } else {
        EngineError::InferenceFailed(full)
    }
}

// ---------------------------------------------------------------------
// Transport failures
// ---------------------------------------------------------------------

/// What the transport reports of a failed request.
pub struct RequestFailure {
    pub timeout: bool,
    pub connect: bool,
    /// The failure happened while building or sending the request.
    pub request: bool,
    /// The failure's message.
    pub text: String,
}

pub open spec fn request_error_is(e: EngineError, provider: Seq<char>, f: RequestFailure) -> bool {
    if f.timeout {
        e is Timeout
    } else if f.connect || f.request {
        e matches EngineError::Network(m) && m@ == f.text@
    } else {
        e matches EngineError::InferenceFailed(m) && m@ == "upstream "@ + provider + " request error: "@ + f.text@
    }
}

/// Classify a failed request of the `provider` backend: a timeout, a
/// network failure, or anything else as a failed inference.
pub fn request_error(provider: &str, f: &RequestFailure) -> (e: EngineError)
    ensures
        request_error_is(e, provider@, *f),
{
    if f.timeout {
        EngineError::Timeout
    } else if f.connect || f.request {
        EngineError::Network(to_string(f.text.as_str()))
    } else {
        let mut m = to_string("upstream ");
        push_str(&mut m, provider);
        push_str(&mut m, " request error: ");
        push_str(&mut m, f.text.as_str());
        EngineError::InferenceFailed(m)
    }
}

// ---------------------------------------------------------------------
// Retry-After
// ---------------------------------------------------------------------

pub open spec fn digit_value(c: char) -> int {
    (c as int) - ('0' as int)
}

pub open spec fn all_digits(s: Seq<char>) -> bool {
    forall|i: int| 0 <= i < s.len() ==> '0' <= #[trigger] s[i] && s[i] <= '9'
}

/// The number a string of decimal digits denotes.
pub open spec fn digits_value(s: Seq<char>) -> int
    decreases s.len(),
{
    if s.len() == 0 {
        0
    } else {
        digits_value(s.drop_last()) * 10 + digit_value(s.last())
    }
}

/// What `str::parse::<u64>` gives: an optional `+`, then one or more
/// decimal digits whose value fits in a `u64`.
pub open spec fn parse_u64_spec(s: Seq<char>) -> Option<u64> {
    let d = if s.len() > 0 && s[0] == '+' { s.subrange(1, s.len() as int) } else { s };
    if d.len() > 0 && all_digits(d) && digits_value(d) <= u64::MAX {
        Some(digits_value(d) as u64)
    } else {
        None
    }
}

proof fn lemma_digits_value_nonneg(s: Seq<char>)
    requires
        all_digits(s),
    ensures
        digits_value(s) >= 0,
    decreases s.len(),
{
    if s.len() > 0 {
        lemma_digits_value_nonneg(s.drop_last());
    }
}

/// Parse a decimal `u64` as `str::parse` does.
pub fn parse_u64(s: &str) -> (r: Option<u64>)
    ensures
        r == parse_u64_spec(s@),
{
    let n = s.unicode_len();
    let start: usize = if n > 0 && s.get_char(0) == '+' { 1 } else { 0 };
    let ghost d = if s@.len() > 0 && s@[0] == '+' { s@.subrange(1, s@.len() as int) } else { s@ };
    assert(d =~= s@.subrange(start as int, n as int));
    if start == n {
        return None;
    }
    let mut acc: u64 = 0;
    let mut i: usize = start;
    while i < n
        invariant
            start <= i <= n,
            n == s@.len(),
            d == s@.subrange(start as int, n as int),
            d == (if s@.len() > 0 && s@[0] == '+' { s@.subrange(1, s@.len() as int) } else { s@ }),
            d.len() > 0,
            all_digits(s@.subrange(start as int, i as int)),
            acc == digits_value(s@.subrange(start as int, i as int)),
        decreases n - i,
    {
        let c = s.get_char(i);
        let ghost pre = s@.subrange(start as int, i as int);
        let ghost next = s@.subrange(start as int, i + 1);
        assert(next.drop_last() =~= pre);
        if !('0' <= c && c <= '9') {
            assert(!all_digits(d)) by {
                assert(d[i - start] == c);
            }
            assert(parse_u64_spec(s@) is None);
            return None;
        }
        let dv = (c as u32 - '0' as u32) as u64;
        if acc > (u64::MAX - dv) / 10 {
            proof {
                assert(next.len() > 0);
                assert(digits_value(next) == acc * 10 + dv);
                assert(acc * 10 + dv > u64::MAX) by (nonlinear_arith)
                    requires
                        acc > (u64::MAX - dv) / 10,
                        dv <= 9,
                ;
                lemma_rest_monotone(s@.subrange(start as int, n as int), i + 1 - start);
                assert(s@.subrange(start as int, n as int).subrange(0, i + 1 - start) =~= next);
                assert(parse_u64_spec(s@) is None);
            }
            return None;
        }
        assert(acc * 10 + dv <= u64::MAX) by (nonlinear_arith)
            requires
                acc <= (u64::MAX - dv) / 10,
                dv <= 9,
        ;
        acc = acc * 10 + dv;
        i = i + 1;
        proof {
            assert(digits_value(next) == digits_value(pre) * 10 + digit_value(c));
            assert forall|k: int| 0 <= k < next.len() implies '0' <= #[trigger] next[k] && next[k] <= '9' by {
                if k < pre.len() {
                    assert(next[k] == pre[k]);
                }
            }
        }
    }
    proof {
        lemma_digits_value_nonneg(d);
    }
    Some(acc)
}

/// A longer digit string is worth at least as much as its prefix.
proof fn lemma_rest_monotone(s: Seq<char>, k: int)
    requires
        0 <= k <= s.len(),
    ensures
        all_digits(s) ==> digits_value(s) >= digits_value(s.subrange(0, k)),
    decreases s.len() - k,
{
    if k < s.len() && all_digits(s) {
        lemma_rest_monotone(s, k + 1);
        let a = s.subrange(0, k);
        let b = s.subrange(0, k + 1);
        assert(b.drop_last() =~= a);
        assert(all_digits(a)) by {
            assert forall|i: int| 0 <= i < a.len() implies '0' <= #[trigger] a[i] && a[i] <= '9' by {
                assert(a[i] == s[i]);
            }
        }
        lemma_digits_value_nonneg(a);
        assert(digits_value(b) == digits_value(a) * 10 + digit_value(s[k]));
    }
    if k == s.len() {
        assert(s.subrange(0, k) =~= s);
    }
}

/// A 429 answer: the delay is the `Retry-After` header's value when it
/// parses as whole seconds.
pub open spec fn retry_after_secs(retry_after: Option<&str>) -> Option<u64> {
    match retry_after {
        Some(h) => parse_u64_spec(h@),
        None => None,
    }
}

pub fn rate_limited(retry_after: Option<&str>) -> (e: EngineError)
    ensures
        e == (EngineError::RateLimited { retry_after_secs: retry_after_secs(retry_after) }),
{
    let secs = match retry_after {
        Some(h) => parse_u64(h),
        None => None,
    };
    EngineError::RateLimited { retry_after_secs: secs }
}

// ---------------------------------------------------------------------
// Classifying an upstream reply
// ---------------------------------------------------------------------

/// What a failed (non-2xx) reply of the `provider` backend is reported as:
/// a 429 is rate limiting with the `Retry-After` header's delay (when it
/// parses as whole seconds), a 5xx an upstream server error, anything else
/// a failed inference; the latter two carry the full message.
pub fn reply_error(provider: &str, status: u16, retry_after: Option<&str>, body: &str) -> (e: EngineError)
    requires
        100 <= status <= 999,
        !(200 <= status < 300),
    ensures
        status == 429 ==> e == (EngineError::RateLimited { retry_after_secs: retry_after_secs(retry_after) }),
        status != 429 ==> upstream_error_is(e, provider@, status, body@),
{
    if status == 429 {
        rate_limited(retry_after)
    } else {
        upstream_error(provider, status, body)
    }
}

/// The outcome an upstream reply's status decides: a 2xx reply goes on to
/// be read; any other is the error `reply_error` gives.
pub fn check_reply(provider: &str, status: u16, retry_after: Option<&str>, body: &str) -> (r: Result<(), EngineError>)
    requires
        100 <= status <= 999,
    ensures
        200 <= status < 300 ==> r is Ok,
        !(200 <= status < 300) && status == 429 ==> r == Err::<(), EngineError>(
            EngineError::RateLimited { retry_after_secs: retry_after_secs(retry_after) },
        ),
        !(200 <= status < 300) && status != 429 ==> (r matches Err(e) && upstream_error_is(e, provider@, status, body@)),
{
    if 200 <= status && status < 300 {
        Ok(())
    } else {
        Err(reply_error(provider, status, retry_after, body))
    }
}

// ---------------------------------------------------------------------
// Base URLs
// ---------------------------------------------------------------------

/// `s` without its trailing `/` characters (what `trim_end_matches('/')` gives).
pub open spec fn trim_slashes(s: Seq<char>) -> Seq<char>
    decreases s.len(),
{
    if s.len() > 0 && s.last() == '/' {
        trim_slashes(s.drop_last())
    } else {
        s
    }
}

/// `base` without trailing slashes, then `path`.
pub fn join_endpoint(base: &str, path: &str) -> (r: String)
    ensures
        r@ == trim_slashes(base@) + path@,
{
    let mut end = base.unicode_len();
    assert(base@.subrange(0, end as int) =~= base@);
    while end > 0 && base.get_char(end - 1) == '/'
        invariant
            end <= base@.len(),
            trim_slashes(base@) == trim_slashes(base@.subrange(0, end as int)),
        decreases end,
    {
        assert(base@.subrange(0, end as int).drop_last() =~= base@.subrange(0, end - 1));
        end = end - 1;
    }
    let mut r = String::new();
    let mut i: usize = 0;
    while i < end
        invariant
            i <= end,
            end <= base@.len(),
            r@ == base@.subrange(0, i as int),
        decreases end - i,
    {
        r.push(base.get_char(i));
        i = i + 1;
        assert(r@ =~= base@.subrange(0, i as int));
    }
    push_str(&mut r, path);
    r
}

// ---------------------------------------------------------------------
// Laws
// ---------------------------------------------------------------------

/// A failed request is worth retrying on another backend exactly when it
/// timed out or failed to connect or to be sent: a failure while building
/// or sending the request (no timeout) is a network error carrying the
/// failure's text, which a client sees as 502 Bad Gateway; any other
/// failure is an internal 500 that is not retried.
pub proof fn law_request_failures_retry(e: EngineError, provider: Seq<char>, f: RequestFailure)
    requires
        request_error_is(e, provider, f),
    ensures
        crate::error::retryable(e) <==> (f.timeout || f.connect || f.request),
        !f.timeout && f.request ==> (e matches EngineError::Network(m) && m@ == f.text@),
        !f.timeout && f.connect ==> (e matches EngineError::Network(m) && m@ == f.text@),
        (f.timeout || f.connect || f.request) ==> crate::error::api_status(crate::error::api_from_engine(e)) == 502,
        !(f.timeout || f.connect || f.request) ==> crate::error::api_status(crate::error::api_from_engine(e)) == 500,
{
}

proof fn lemma_decimal_digits(n: nat)
    ensures
        decimal(n).len() > 0,
        all_digits(decimal(n)),
        digits_value(decimal(n)) == n,
    decreases n,
{
    if n < 10 {
        let s = decimal(n);
        assert(s.drop_last() =~= Seq::<char>::empty());
        assert(digits_value(Seq::<char>::empty()) == 0);
        assert(digit_value(crate::text::digit_char(n)) == n);
        assert(digits_value(s) == digits_value(s.drop_last()) * 10 + digit_value(s.last()));
    } else {
        lemma_decimal_digits(n / 10);
        let p = decimal(n / 10);
        let s = decimal(n);
        assert(s == p.push(crate::text::digit_char(n % 10)));
        assert(s.drop_last() =~= p);
        assert(digit_value(crate::text::digit_char(n % 10)) == n % 10);
        vstd::arithmetic::div_mod::lemma_fundamental_div_mod(n as int, 10);
        assert(digits_value(s) == digits_value(p) * 10 + digit_value(s.last()));
        assert forall|i: int| 0 <= i < s.len() implies '0' <= #[trigger] s[i] && s[i] <= '9' by {
            if i < p.len() {
                assert(s[i] == p[i]);
            }
        }
    }
}

/// A number written in decimal reads back as itself (as a `Retry-After`
/// value, for one).
pub proof fn law_parse_reads_decimal(n: u64)
    ensures
        parse_u64_spec(decimal(n as nat)) == Some(n),
{
    lemma_decimal_digits(n as nat);
    let s = decimal(n as nat);
    assert('0' <= s[0] && s[0] <= '9');
}

/// A base URL without its trailing slashes ends in something else, so an
/// endpoint path is joined with exactly one slash.
pub proof fn law_trimmed_base_has_no_trailing_slash(s: Seq<char>)
    ensures
        trim_slashes(s).len() == 0 || trim_slashes(s).last() != '/',
        trim_slashes(trim_slashes(s)) == trim_slashes(s),
    decreases s.len(),
{
    if s.len() > 0 && s.last() == '/' {
        law_trimmed_base_has_no_trailing_slash(s.drop_last());
    }
}

} // verus!
