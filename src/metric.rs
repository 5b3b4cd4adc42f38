//! Metric requests: the URL, the authorization header and the JSON body
//! that report one duration to the status-page API, and what counts as a
//! successful response.
use vstd::prelude::*;
use crate::config::{Metric, Secrets};
use crate::reducer::TxTiming;

verus! {

pub open spec fn digit_char(d: int) -> char {
    seq!['0', '1', '2', '3', '4', '5', '6', '7', '8', '9'][d]
}

/// Decimal digits of `n`, most significant first, without leading zeros.
pub open spec fn decimal(n: nat) -> Seq<char>
    decreases n,
{
    if n < 10 {
        seq![digit_char(n as int)]
    } else {
        decimal(n / 10).push(digit_char((n % 10) as int))
    }
}

/// Decimal text of `i`, with a leading minus sign when negative.
pub open spec fn signed_decimal(i: int) -> Seq<char> {
    if i < 0 {
        seq!['-'] + decimal((-i) as nat)
    } else {
        decimal(i as nat)
    }
}

pub open spec fn metric_url(page: Seq<char>, metric: Seq<char>) -> Seq<char> {
    "https://api.instatus.com/v1/"@ + page + "/metrics/"@ + metric
}

pub open spec fn bearer(key: Seq<char>) -> Seq<char> {
    "Bearer "@ + key
}

/// The JSON object `{"timestamp":<when>,"value":<value_ms>}`.
pub open spec fn metric_body(when: i64, value_ms: u64) -> Seq<char> {
    "{\"timestamp\":"@ + signed_decimal(when as int) + ",\"value\":"@ + decimal(value_ms as nat)
        + "}"@
}

/// One authenticated POST that reports a duration.
#[derive(Clone, Debug)]
pub struct MetricUpload {
    pub url: String,
    /// Value of the `Authorization` header.
    pub authorization: String,
    /// JSON body.
    pub body: String,
}

impl MetricUpload {
    pub open spec fn reports(
        self,
        page: Seq<char>,
        metric: Seq<char>,
        key: Seq<char>,
        when: i64,
        value_ms: u64,
    ) -> bool {
        &&& self.url@ == metric_url(page, metric)
        &&& self.authorization@ == bearer(key)
        &&& self.body@ == metric_body(when, value_ms)
    }
}

fn digit_str(d: u64) -> (r: &'static str)
    requires
        d < 10,
    ensures
        r@ == seq![digit_char(d as int)],
{
    proof {
        reveal_strlit("0");
        reveal_strlit("1");
        reveal_strlit("2");
        reveal_strlit("3");
        reveal_strlit("4");
        reveal_strlit("5");
        reveal_strlit("6");
        reveal_strlit("7");
        reveal_strlit("8");
        reveal_strlit("9");
    }
    if d == 0 {
        "0"
    } else if d == 1 {
        "1"
    } else if d == 2 {
        "2"
    } else if d == 3 {
        "3"
    } else if d == 4 {
        "4"
    } else if d == 5 {
        "5"
    } else if d == 6 {
        "6"
    } else if d == 7 {
        "7"
    } else if d == 8 {
        "8"
    } else {
        "9"
    }
}

/// Appends the decimal digits of `n`.
pub fn push_decimal(s: &mut String, n: u64)
    ensures
        final(s)@ == old(s)@ + decimal(n as nat),
    decreases n,
{
    if n >= 10 {
        push_decimal(s, n / 10);
    }
    s.append(digit_str(n % 10));
    assert(decimal(n as nat) == if n < 10 {
        seq![digit_char(n as int)]
    } else {
        decimal((n / 10) as nat).push(digit_char((n % 10) as int))
    });
    assert(s@ =~= old(s)@ + decimal(n as nat));
}

/// Appends the decimal text of `i`, signed.
pub fn push_signed_decimal(s: &mut String, i: i64)
    ensures
        final(s)@ == old(s)@ + signed_decimal(i as int),
{
    if i < 0 {
        proof {
            reveal_strlit("-");
        }
        s.append("-");
        let magnitude: u64 = (0i128 - i as i128) as u64;
        push_decimal(s, magnitude);
        assert(s@ =~= old(s)@ + signed_decimal(i as int));
    } else {
        push_decimal(s, i as u64);
    }
}

/// The request that reports `value_ms` under `metric` of status page
/// `page`, stamped with `when` (milliseconds since the Unix epoch).
pub fn metric_upload(page: &str, metric: &str, api_key: &str, when: i64, value_ms: u64) -> (r:
    MetricUpload)
    ensures
        r.reports(page@, metric@, api_key@, when, value_ms),
{
    let mut url = String::from_str("https://api.instatus.com/v1/");
    url.append(page);
    url.append("/metrics/");
    url.append(metric);

    let mut authorization = String::from_str("Bearer ");
    authorization.append(api_key);

    let mut body = String::from_str("{\"timestamp\":");
    push_signed_decimal(&mut body, when);
    body.append(",\"value\":");
    push_decimal(&mut body, value_ms);
    body.append("}");
    assert(body@ =~= metric_body(when, value_ms));

    MetricUpload { url, authorization, body }
}

/// A response status reports success exactly when it is in the 2xx range.
pub fn upload_succeeded(status: u16) -> (r: bool)
    ensures
        r == (200 <= status && status <= 299),
{
    200 <= status && status <= 299
}

impl TxTiming {
    /// The two reports of one probe, in the order they are sent: the
    /// inclusion duration under the inclusion metric, then the finalization
    /// duration under the finalization metric, both stamped with the
    /// submission time.
    pub fn upload_requests(&self, page: &str, metrics: &Metric, secrets: &Secrets) -> (r: Vec<
        MetricUpload,
    >)
        ensures
            r@.len() == 2,
            r@[0].reports(
                page@,
                metrics.inclusion@,
                secrets.instatus_key@,
                self.when,
                self.inclusion_ms,
            ),
            r@[1].reports(
                page@,
                metrics.finalization@,
                secrets.instatus_key@,
                self.when,
                self.finalization_ms,
            ),
    {
        let inclusion = metric_upload(
            page,
            metrics.inclusion.as_str(),
            secrets.instatus_key.as_str(),
            self.when,
            self.inclusion_ms,
        );
        let finalization = metric_upload(
            page,
            metrics.finalization.as_str(),
            secrets.instatus_key.as_str(),
            self.when,
            self.finalization_ms,
        );
        let mut r: Vec<MetricUpload> = Vec::new();
        r.push(inclusion);
        r.push(finalization);
        r
    }
}

} // verus!
