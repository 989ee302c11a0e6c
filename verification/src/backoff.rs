//! Backoff policy: pure computation of the delay before each retry
//! of a supervision cycle, and of the cycle's attempt ceiling.

use vstd::prelude::*;
use crate::config::ReconnectionConfig;

verus! {

/// A retry policy: exponential doubling capped at a maximum, or a
/// fixed interval, with an optional ceiling on attempts per cycle
/// (0 = unlimited). A pure value, built afresh for every
/// supervision cycle.
#[derive(Debug, Clone, Copy, PartialEq, Eq, Structural)]
pub struct BackoffPolicy {
    /// Exponential mode when true, fixed interval when false.
    pub use_exponential: bool,
    /// First delay, in seconds.
    pub initial_delay_secs: u64,
    /// Cap on the delay in exponential mode, in seconds.
    pub max_delay_secs: u64,
    /// Retries allowed after the first attempt of a cycle
    /// (0 = unlimited).
    pub max_retries: u32,
}

/// The delay in seconds before retry number `k` (counted from 1): in
/// fixed mode always the initial delay; in exponential mode the
/// initial delay capped at the maximum, doubling with each retry and
/// capped again.
pub open spec fn spec_delay(p: BackoffPolicy, k: int) -> int
    decreases k,
{
    if !p.use_exponential {
        p.initial_delay_secs as int
    } else if k <= 1 {
        if p.initial_delay_secs <= p.max_delay_secs {
            p.initial_delay_secs as int
        } else {
            p.max_delay_secs as int
        }
    } else {
        let prev = spec_delay(p, k - 1);
        if 2 * prev <= p.max_delay_secs as int {
            2 * prev
        } else {
            p.max_delay_secs as int
        }
    }
}

/// A cycle's budget is exhausted after `failures` failed attempts
/// exactly when the policy has a ceiling and the failures exceed it:
/// one initial attempt plus `max_retries` retries.
pub open spec fn spec_exhausted(p: BackoffPolicy, failures: u32) -> bool {
    p.max_retries > 0 && failures > p.max_retries
}

impl BackoffPolicy {
    /// A fresh policy from the configured reconnection settings.
    pub fn from_config(rc: &ReconnectionConfig) -> (r: Self)
        ensures
            r == (BackoffPolicy {
                use_exponential: rc.use_exponential_backoff,
                initial_delay_secs: rc.initial_delay_secs,
                max_delay_secs: rc.max_delay_secs,
                max_retries: rc.max_retries,
            }),
    {
        BackoffPolicy {
            use_exponential: rc.use_exponential_backoff,
            initial_delay_secs: rc.initial_delay_secs,
            max_delay_secs: rc.max_delay_secs,
            max_retries: rc.max_retries,
        }
    }

    /// The delay in seconds before retry number `k` (counted from 1).
    pub fn delay_for_retry(&self, k: u32) -> (r: u64)
        ensures
            r as int == spec_delay(*self, k as int),
            self.use_exponential ==> r <= self.max_delay_secs,
    {
        if !self.use_exponential {
            return self.initial_delay_secs;
        }
        let mut d: u64 = if self.initial_delay_secs <= self.max_delay_secs {
            self.initial_delay_secs
        } else {
            self.max_delay_secs
        };
        let mut i: u32 = 1;
        while i < k
            invariant
                1 <= i,
                i <= k || i == 1,
                self.use_exponential,
                d <= self.max_delay_secs,
                d as int == spec_delay(*self, i as int),
            decreases k - i,
        {
            d = if d <= self.max_delay_secs / 2 {
                d * 2
            } else {
                self.max_delay_secs
            };
            i = i + 1;
        }
        d
    }

    /// Whether a cycle's retry budget is spent after the given
    /// number of failed attempts.
    pub fn attempts_exhausted(&self, failures: u32) -> (r: bool)
        ensures
            r == spec_exhausted(*self, failures),
    {
        self.max_retries > 0 && failures > self.max_retries
    }
}

} // verus!
