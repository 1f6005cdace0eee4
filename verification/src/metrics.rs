//! The metrics the gateway records, as values for the exporter to apply.
use std::time::{Duration, Instant};
use vstd::prelude::*;
use crate::text::{decimal, push_decimal};


verus! {

/// How a metric changes.
#[derive(Debug, Clone, Copy, PartialEq, Eq, Structural)]
pub enum MetricUpdate {
    /// A counter grows by this much.
    Increment(u64),
    /// A gauge is set to this value.
    SetTo(u64),
}

/// One change to one labelled metric.
#[derive(Debug, Clone)]
pub struct MetricEvent {
    pub name: String,
    pub labels: Vec<(String, String)>,
    pub update: MetricUpdate,
}

/// The labels of a metric event as text.
pub open spec fn label_texts(labels: Seq<(String, String)>) -> Seq<(Seq<char>, Seq<char>)> {
    labels.map_values(|l: (String, String)| (l.0@, l.1@))
}

fn label(key: &str, value: &str) -> (l: (String, String))
    ensures
        l.0@ == key@,
        l.1@ == value@,
{
    (key.to_string(), value.to_string())
}

/// One more request to `endpoint` with `method`.
pub fn record_request(endpoint: &str, method: &str) -> (e: MetricEvent)
    ensures
        e.name@ == "rs_helper_requests_total"@,
        label_texts(e.labels@) == seq![("endpoint"@, endpoint@), ("method"@, method@)],
        e.update == MetricUpdate::Increment(1),
{
    let labels = vec![label("endpoint", endpoint), label("method", method)];
    let e = MetricEvent { name: "rs_helper_requests_total".to_string(), labels, update: MetricUpdate::Increment(1) };
    assert(label_texts(e.labels@) =~= seq![("endpoint"@, endpoint@), ("method"@, method@)]);
    e
}

/// The decimal notation of a status code, as it stands in a label.
fn status_text(status: u16) -> (t: String)
    ensures
        t@ == decimal(status as nat),
{
    let mut t = String::new();
    push_decimal(&mut t, status as u128);
    assert(t@ =~= decimal(status as nat));
    t
}

/// The text of a flag, as it stands in a label.
pub open spec fn flag_text(b: bool) -> Seq<char> {
    if b { "true"@ } else { "false"@ }
}

/// The labels of an answer with `status` from `endpoint`.
pub open spec fn response_labels(endpoint: Seq<char>, status: u16) -> Seq<(Seq<char>, Seq<char>)> {
    seq![("endpoint"@, endpoint), ("status"@, decimal(status as nat))]
}

/// One more answer with `status` from `endpoint`. The time it took is
/// recorded beside it, under the same labels, by the caller.
pub fn record_response(endpoint: &str, status: u16) -> (e: MetricEvent)
    ensures
        e.name@ == "rs_helper_responses_total"@,
        label_texts(e.labels@) == response_labels(endpoint@, status),
        e.update == MetricUpdate::Increment(1),
{
    let labels = vec![label("endpoint", endpoint), (String::from_str("status"), status_text(status))];
    let e = MetricEvent { name: "rs_helper_responses_total".to_string(), labels, update: MetricUpdate::Increment(1) };
    assert(label_texts(e.labels@) =~= seq![("endpoint"@, endpoint@), ("status"@, decimal(status as nat))]);
    e
}

/// One more request to the upstream service `upstream`, which succeeded or
/// not. The time it took is recorded beside it, under the same labels, by the
/// caller.
pub fn record_upstream_request(upstream: &str, success: bool) -> (e: MetricEvent)
    ensures
        e.name@ == "rs_helper_upstream_requests_total"@,
        label_texts(e.labels@) == seq![("upstream"@, upstream@), ("success"@, flag_text(success))],
        e.update == MetricUpdate::Increment(1),
{
    let flag = if success { "true" } else { "false" };
    let labels = vec![label("upstream", upstream), label("success", flag)];
    let e = MetricEvent {
        name: "rs_helper_upstream_requests_total".to_string(),
        labels,
        update: MetricUpdate::Increment(1),
    };
    assert(label_texts(e.labels@) =~= seq![("upstream"@, upstream@), ("success"@, flag_text(success))]);
    e
}

/// One more cache hit for responses of kind `cache_type`.
pub fn record_cache_hit(cache_type: &str) -> (e: MetricEvent)
    ensures
        e.name@ == "rs_helper_cache_hits_total"@,
        label_texts(e.labels@) == seq![("type"@, cache_type@)],
        e.update == MetricUpdate::Increment(1),
{
    let labels = vec![label("type", cache_type)];
    let e = MetricEvent { name: "rs_helper_cache_hits_total".to_string(), labels, update: MetricUpdate::Increment(1) };
    assert(label_texts(e.labels@) =~= seq![("type"@, cache_type@)]);
    e
}

/// One more cache miss for responses of kind `cache_type`.
pub fn record_cache_miss(cache_type: &str) -> (e: MetricEvent)
    ensures
        e.name@ == "rs_helper_cache_misses_total"@,
        label_texts(e.labels@) == seq![("type"@, cache_type@)],
        e.update == MetricUpdate::Increment(1),
{
    let labels = vec![label("type", cache_type)];
    let e = MetricEvent { name: "rs_helper_cache_misses_total".to_string(), labels, update: MetricUpdate::Increment(1) };
    assert(label_texts(e.labels@) =~= seq![("type"@, cache_type@)]);
    e
}

/// The value a metric holds after an update: a counter grows by the
/// increment, a gauge takes the value it is set to.
pub open spec fn applied(value: int, u: MetricUpdate) -> int {
    match u {
        MetricUpdate::Increment(k) => value + k,
        MetricUpdate::SetTo(n) => n as int,
    }
}

/// The cache-size gauge holds the size last reported, whatever it held
/// before: after `update_cache_size(a)` it holds `a`, after a further
/// `update_cache_size(b)` it holds `b`, and repeating an update changes
/// nothing.
pub proof fn lemma_cache_size_gauge(v: int, a: u64, b: u64)
    ensures
        applied(v, MetricUpdate::SetTo(a)) == a,
        applied(applied(v, MetricUpdate::SetTo(a)), MetricUpdate::SetTo(b)) == b,
        applied(applied(v, MetricUpdate::SetTo(a)), MetricUpdate::SetTo(a)) == applied(
            v,
            MetricUpdate::SetTo(a),
        ),
{
}

/// The number of cache entries is now `size`.
pub fn update_cache_size(size: u64) -> (e: MetricEvent)
    ensures
        e.name@ == "rs_helper_cache_entries"@,
        e.labels@.len() == 0,
        e.update == MetricUpdate::SetTo(size),
{
    MetricEvent { name: "rs_helper_cache_entries".to_string(), labels: Vec::new(), update: MetricUpdate::SetTo(size) }
}

/// std's monotonic clock reading.
#[verifier::external_type_specification]
#[verifier::external_body]
pub struct ExInstant(Instant);

/// std's `Instant::now`: the current instant of a monotonic clock. Nothing is
/// claimed of the value.
#[verifier::external_body]
fn instant_now() -> Instant {
    Instant::now()
}

/// std's `Instant::elapsed`: the time passed since `start`. Nothing is claimed
/// of the value.
#[verifier::external_body]
fn instant_elapsed(start: &Instant) -> Duration {
    start.elapsed()
}

/// Times one request to an endpoint.
pub struct RequestTimer {
    start: Instant,
    endpoint: String,
}

/// How long a request to `endpoint` took and how it was answered, with the
/// metric changes that record it: `counter` counts the answer, and
/// `elapsed` is the one sample added to the metric named `duration_name`
/// under the counter's labels.
#[derive(Debug)]
pub struct ResponseTiming {
    pub endpoint: String,
    pub status: u16,
    pub elapsed: Duration,
    pub counter: MetricEvent,
    pub duration_name: String,
}

impl RequestTimer {
    /// The endpoint being timed.
    pub closed spec fn endpoint_text(&self) -> Seq<char> {
        self.endpoint@
    }

    /// Starts timing a request to `endpoint`.
    pub fn new(endpoint: &str) -> (t: Self)
        ensures
            t.endpoint_text() == endpoint@,
    {
        RequestTimer { start: instant_now(), endpoint: endpoint.to_string() }
    }

    /// Stops timing: the endpoint, the answer's status and the time taken,
    /// with one increment of `rs_helper_responses_total` (what
    /// `record_response` gives) and one sample of the time taken for
    /// `rs_helper_request_duration_seconds`, both under the endpoint and
    /// status labels. The time itself is read from the clock.
    pub fn record(self, status: u16) -> (r: ResponseTiming)
        ensures
            r.endpoint@ == self.endpoint_text(),
            r.status == status,
            r.counter.name@ == "rs_helper_responses_total"@,
            label_texts(r.counter.labels@) == response_labels(self.endpoint_text(), status),
            r.counter.update == MetricUpdate::Increment(1),
            r.duration_name@ == "rs_helper_request_duration_seconds"@,
    {
        let elapsed = instant_elapsed(&self.start);
        let counter = record_response(self.endpoint.as_str(), status);
        ResponseTiming {
            endpoint: self.endpoint,
            status,
            elapsed,
            counter,
            duration_name: "rs_helper_request_duration_seconds".to_string(),
        }
    }
}

} // verus!
