//! When and how long to wait before calling the RuneScape API again.
use vstd::arithmetic::power2::{
    lemma2_to64, lemma2_to64_rest, lemma_pow2_strictly_increases, lemma_pow2_unfold, pow2,
};
use vstd::prelude::*;

use crate::errors::AppError;
use crate::text::concat;

verus! {

/// The most retries whose back-off delay still fits in a `u64` of milliseconds.
pub open spec fn max_supported_retries() -> u32 {
    57
}

/// How many retries a call has spent, and how many it may spend.
#[derive(Debug, Clone, Copy, PartialEq, Eq, Structural)]
pub struct RetryState {
    pub retries: u32,
    pub max_retries: u32,
}

/// How one attempt to call the API ended.
#[derive(Debug, Clone, PartialEq, Eq)]
pub enum AttemptOutcome {
    /// An answer with a success status.
    Success,
    /// An answer with another status; its text (such as `404 Not Found`) and body.
    HttpError { status: String, body: String },
    /// No answer; the text of the error.
    NetworkError { message: String },
}

/// What to do after an attempt.
#[derive(Debug, Clone, PartialEq, Eq)]
pub enum RetryAction {
    /// Read the JSON of the answer.
    ReadBody,
    /// Wait this many milliseconds, then call again.
    RetryAfter { delay_ms: u64 },
    /// Give up with this error.
    Fail(AppError),
}

/// The wait before the `n`-th retry: 100 ms doubled `n` times.
pub open spec fn backoff_delay(n: nat) -> nat {
    100 * pow2(n)
}

/// `100 * 2^n` milliseconds.
pub fn backoff_ms(n: u32) -> (d: u64)
    requires
        n <= max_supported_retries(),
    ensures
        d == backoff_delay(n as nat),
{
    let mut p: u64 = 1;
    let mut i: u32 = 0;
    proof {
        lemma2_to64();
        lemma2_to64_rest();
    }
    while i < n
        invariant
            i <= n <= 57,
            p == pow2(i as nat),
            pow2(57) == 0x200000000000000,
        decreases n - i,
    {
        proof {
            lemma_pow2_unfold((i + 1) as nat);
            if i + 1 < 57 {
                lemma_pow2_strictly_increases((i + 1) as nat, 57);
            }
        }
        p = p * 2;
        i = i + 1;
    }
    proof {
        if n < 57 {
            lemma_pow2_strictly_increases(n as nat, 57);
        }
    }
    100 * p
}

/// The error that ends a call whose answers never succeeded.
pub open spec fn http_failure_text(status: Seq<char>, body: Seq<char>) -> Seq<char> {
    "HTTP "@ + status + ": "@ + body
}

/// The state after one more failed attempt: a retry is spent while any is
/// left.
pub open spec fn after_failure(s: RetryState) -> RetryState {
    if s.retries < s.max_retries {
        RetryState { retries: (s.retries + 1) as u32, max_retries: s.max_retries }
    } else {
        s
    }
}

/// The state after `k` failed attempts in a row.
pub open spec fn after_failures(s: RetryState, k: nat) -> RetryState
    decreases k,
{
    if k == 0 {
        s
    } else {
        after_failure(after_failures(s, (k - 1) as nat))
    }
}

/// The waits before the first `n` retries, added up.
pub open spec fn total_backoff(n: nat) -> nat
    decreases n,
{
    if n == 0 {
        0
    } else {
        total_backoff((n - 1) as nat) + backoff_delay(n)
    }
}

impl RetryState {
    /// A call that has not retried yet and may retry `max_retries` times.
    pub fn new(max_retries: u32) -> (s: Self)
        ensures
            s.retries == 0,
            s.max_retries == max_retries,
    {
        RetryState { retries: 0, max_retries }
    }

    /// Decides what follows an attempt: a success is read; a failure is
    /// retried after `100 * 2^n` ms while fewer than `max_retries` retries were
    /// spent (`n` counting this retry); otherwise the call fails with an
    /// upstream error (for a bad status) or a network error. A retry beyond
    /// the 57th, whose delay no longer fits a `u64` of milliseconds, is not
    /// taken here.
    pub fn next_action(&mut self, outcome: &AttemptOutcome) -> (a: RetryAction)
        requires
            old(self).retries <= old(self).max_retries,
            (!(*outcome is Success) && old(self).retries < old(self).max_retries) ==> old(
                self,
            ).retries < max_supported_retries(),
        ensures
            final(self).max_retries == old(self).max_retries,
            final(self).retries <= final(self).max_retries,
            !(*outcome is Success) ==> *final(self) == after_failure(*old(self)),
            match *outcome {
                AttemptOutcome::Success => a == RetryAction::ReadBody && *final(self) == *old(
                    self,
                ),
                _ => if old(self).retries < old(self).max_retries {
                    final(self).retries == old(self).retries + 1 && a == (RetryAction::RetryAfter {
                        delay_ms: backoff_delay(final(self).retries as nat) as u64,
                    })
                } else {
                    *final(self) == *old(self) && match *outcome {
                        AttemptOutcome::HttpError { status, body } => a matches RetryAction::Fail(
                            AppError::Upstream(m),
                        ) && m@ == http_failure_text(status@, body@),
                        AttemptOutcome::NetworkError { message } => a matches RetryAction::Fail(
                            AppError::Network(m),
                        ) && m@ == message@,
                        _ => false,
                    }
                },
            },
    {
        match outcome {
            AttemptOutcome::Success => RetryAction::ReadBody,
            _ => {
                if self.retries < self.max_retries {
                    self.retries = self.retries + 1;
                    RetryAction::RetryAfter { delay_ms: backoff_ms(self.retries) }
                } else {
                    match outcome {
                        AttemptOutcome::HttpError { status, body } => {
                            let head = concat("HTTP ", status.as_str());
                            let head = concat(head.as_str(), ": ");
                            RetryAction::Fail(AppError::Upstream(concat(head.as_str(), body.as_str())))
                        },
                        AttemptOutcome::NetworkError { message } => {
                            RetryAction::Fail(AppError::Network(message.clone()))
                        },
                        AttemptOutcome::Success => RetryAction::ReadBody,
                    }
                }
            },
        }
    }
}

/// The error for an answer whose body is not the expected JSON.
pub fn json_read_error(message: &str) -> (e: AppError)
    ensures
        e matches AppError::Upstream(m) && m@ == "Failed to parse JSON: "@ + message@,
{
    AppError::Upstream(concat("Failed to parse JSON: ", message))
}

/// A call that keeps failing spends one retry per failure until none is
/// left, so it is attempted `max_retries + 1` times before it gives up; the
/// waits before its `n` retries add up to `100 * (2^(n+1) - 2)` ms.
pub proof fn lemma_retry_budget(max_retries: u32, k: nat)
    ensures
        after_failures(RetryState { retries: 0, max_retries }, k).retries == if k < max_retries {
            k
        } else {
            max_retries as nat
        },
        after_failures(RetryState { retries: 0, max_retries }, k).max_retries == max_retries,
        total_backoff(k) == 100 * (pow2(k + 1) - 2),
    decreases k,
{
    if k > 0 {
        lemma_retry_budget(max_retries, (k - 1) as nat);
        lemma_pow2_unfold(k + 1);
        lemma_pow2_unfold(k);
    } else {
        lemma_pow2_unfold(1);
        lemma2_to64();
    }
}

/// Exponential back-off: every retry waits twice as long as the one before.
pub proof fn lemma_backoff_doubles(n: nat)
    ensures
        backoff_delay(n + 1) == 2 * backoff_delay(n),
{
    lemma_pow2_unfold(n + 1);
}

} // verus!
