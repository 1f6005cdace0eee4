//! Rate limits and the answers to refused requests.
use vstd::prelude::*;

use crate::config::RateLimitConfig;
use crate::text::concat;
use crate::types::ErrorBody;

verus! {

/// The sustained rate and burst of the global limiter: the configured
/// values, with 50 per second and a burst of 100 standing in for zeros.
pub fn direct_quota(cfg: &RateLimitConfig) -> (q: (u32, u32))
    ensures
        q.0 == if cfg.requests_per_second == 0 { 50 } else { cfg.requests_per_second },
        q.1 == if cfg.burst_size == 0 { 100 } else { cfg.burst_size },
        q.0 > 0 && q.1 > 0,
{
    let per_second = if cfg.requests_per_second == 0 { 50 } else { cfg.requests_per_second };
    let burst = if cfg.burst_size == 0 { 100 } else { cfg.burst_size };
    (per_second, burst)
}

/// The sustained rate of each client address: half the global rate, with 25
/// per second standing in for zero.
pub fn per_ip_rate(cfg: &RateLimitConfig) -> (r: u32)
    ensures
        r == if cfg.requests_per_second / 2 == 0 { 25 } else { cfg.requests_per_second / 2 },
        r > 0,
{
    let half = cfg.requests_per_second / 2;
    if half == 0 { 25 } else { half }
}

/// Whether a request goes on or is refused.
#[derive(Debug, Clone, PartialEq, Eq)]
pub enum Admission {
    Pass,
    /// Refused with status 429 and this body.
    Reject(ErrorBody),
}

/// Decides on a request: with limiting off every request passes; with it on, a
/// request passes exactly when the limiter allowed it, and is otherwise
/// refused with the documented error body: code `rate_limit_exceeded`,
/// message `Too many requests. Please try again later.`.
pub fn admission(enabled: bool, limiter_allows: bool) -> (a: Admission)
    ensures
        (!enabled || limiter_allows) ==> a == Admission::Pass,
        (enabled && !limiter_allows) ==> (a matches Admission::Reject(b) && b.code@
            == "rate_limit_exceeded"@ && b.message@ == "Too many requests. Please try again later."@),
{
    if !enabled || limiter_allows {
        Admission::Pass
    } else {
        Admission::Reject(
            ErrorBody {
                code: "rate_limit_exceeded".to_string(),
                message: "Too many requests. Please try again later.".to_string(),
            },
        )
    }
}

/// Decides on a request from client address `ip` as `admission` does, the refusal
/// naming the address.
pub fn ip_admission(enabled: bool, limiter_allows: bool, ip: &str) -> (a: Admission)
    ensures
        (!enabled || limiter_allows) ==> a == Admission::Pass,
        (enabled && !limiter_allows) ==> (a matches Admission::Reject(b) && b.code@
            == "ip_rate_limit_exceeded"@ && b.message@ == "Too many requests from IP "@ + ip@
            + ". Please slow down."@),
{
    if !enabled || limiter_allows {
        Admission::Pass
    } else {
        let head = concat("Too many requests from IP ", ip);
        Admission::Reject(
            ErrorBody {
                code: "ip_rate_limit_exceeded".to_string(),
                message: concat(head.as_str(), ". Please slow down."),
            },
        )
    }
}

} // verus!
