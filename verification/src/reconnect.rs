//! The proving client's reconnection policy towards the input generator server.

use vstd::arithmetic::power2::{lemma2_to64, pow2};
use vstd::prelude::*;

verus! {

/// The exponent of the backoff stops growing after this many failed attempts.
pub const MAX_BACKOFF_EXPONENT: u32 = 6;

/// The backoff before the next connection attempt, in milliseconds:
/// one second, doubled for each earlier failed attempt, at most six times.
pub open spec fn spec_backoff_ms(attempt: u32) -> nat {
    let e: nat = if attempt < MAX_BACKOFF_EXPONENT {
        attempt as nat
    } else {
        MAX_BACKOFF_EXPONENT as nat
    };
    1000 * pow2(e)
}

/// The backoff before reconnecting after `attempt` failed attempts in a row.
pub fn backoff_ms(attempt: u32) -> (ms: u64)
    ensures
        ms == spec_backoff_ms(attempt),
{
    proof {
        lemma2_to64();
    }
    let k: u32 = if attempt < MAX_BACKOFF_EXPONENT {
        attempt
    } else {
        MAX_BACKOFF_EXPONENT
    };
    let mut ms: u64 = 1000;
    let mut i: u32 = 0;
    while i < k
        invariant
            i <= k <= MAX_BACKOFF_EXPONENT,
            ms == 1000 * pow2(i as nat),
            pow2(0) == 1,
            pow2(1) == 2,
            pow2(2) == 4,
            pow2(3) == 8,
            pow2(4) == 16,
            pow2(5) == 32,
            pow2(6) == 64,
        decreases k - i,
    {
        ms = ms * 2;
        i = i + 1;
    }
    ms
}

/// The count of failed connection attempts since the last successful one.
pub struct Reconnect {
    pub attempt: u32,
}

impl Reconnect {
    /// No attempt has failed yet.
    pub fn new() -> (r: Reconnect)
        ensures
            r.attempt == 0,
    {
        Reconnect { attempt: 0 }
    }

    /// A connection was made: the count starts over.
    pub fn connected(&mut self)
        ensures
            final(self).attempt == 0,
    {
        self.attempt = 0;
    }

    /// A connection failed or was lost: the backoff to wait before the next
    /// attempt, after which one more failure is counted (saturating).
    pub fn backoff(&mut self) -> (ms: u64)
        ensures
            ms == spec_backoff_ms(old(self).attempt),
            final(self).attempt == (if old(self).attempt == u32::MAX {
                u32::MAX as int
            } else {
                old(self).attempt + 1
            }),
    {
        let ms = backoff_ms(self.attempt);
        self.attempt = self.attempt.saturating_add(1);
        ms
    }
}

/// The backoff starts at one second and never exceeds 64 seconds.
pub proof fn law_backoff_bounds(attempt: u32)
    ensures
        1000 <= spec_backoff_ms(attempt) <= 64000,
        spec_backoff_ms(0) == 1000,
        attempt >= MAX_BACKOFF_EXPONENT ==> spec_backoff_ms(attempt) == 64000,
{
    lemma2_to64();
}

/// A longer run of failures never waits less.
pub proof fn law_backoff_monotone(a: u32, b: u32)
    requires
        a <= b,
    ensures
        spec_backoff_ms(a) <= spec_backoff_ms(b),
{
    lemma2_to64();
}

} // verus!
