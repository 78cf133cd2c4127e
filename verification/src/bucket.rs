//! The token bucket that paces chunk reads.
//!
//! The bucket itself is a direct, in-memory rate limiter of the `governor`
//! crate, built with a quota of so many cells per second: it holds at most
//! one second's worth of tokens, starts full, and refills one token per
//! replenish interval. This module builds it and says what its quota is.
//! Waiting for a token suspends the caller, so it is done by whoever drives a
//! read, on [`DirectLimiter::inner`].
//!
//! Nothing here is proved of `governor` itself. What is taken on trust is
//! marked `external_body` or `uninterp` and says so in its comment.

use vstd::prelude::*;
use crate::protocol::TOKENS_PER_CHUNK;
use crate::rate::{bytes_per_second, rate_in_bytes, rate_is_valid, RateError};

verus! {

/// Nanoseconds in the second over which a quota spreads its cells.
pub const NANOS_PER_SECOND: u128 = 1_000_000_000;

/// `governor::Quota`: cells per burst and the time to replenish one. Verus
/// carries such a value without looking inside.
#[verifier::external_type_specification]
#[verifier::external_body]
pub struct ExQuota(governor::Quota);

/// Holds a `governor::RateLimiter` with a single state, kept in memory and
/// read against the default clock. Verus sees nothing inside: the limiter's
/// type is bounded by traits of `governor` and cannot be declared to Verus.
#[verifier::external_body]
pub struct DirectLimiter {
    /// The limiter, for the driver of a read to wait on.
    pub inner: governor::DefaultDirectRateLimiter,
}

/// What `governor::Quota::burst_size` returns for a quota: the most cells
/// that a limiter of that quota lets through at once.
pub uninterp spec fn quota_burst_size(quota: governor::Quota) -> u32;

/// What `governor::Quota::replenish_interval` returns for a quota, in
/// nanoseconds: the time in which a limiter of that quota regains one cell.
pub uninterp spec fn quota_replenish_nanos(quota: governor::Quota) -> u128;

/// The quota that a limiter was built with. A limiter keeps it for life.
pub uninterp spec fn limiter_quota(limiter: DirectLimiter) -> governor::Quota;

/// A quota of `cells` cells per second, as `governor::Quota::per_second`
/// makes it: a burst of `cells`, and one cell replenished in the whole
/// nanoseconds of a second divided by `cells`. Above a thousand million cells
/// that interval is zero, and a limiter of such a quota makes nobody wait.
pub open spec fn is_per_second(quota: governor::Quota, cells: u32) -> bool {
    &&& quota_burst_size(quota) == cells
    &&& quota_replenish_nanos(quota) == NANOS_PER_SECOND / cells as u128
}

/// Calls `governor::Quota::per_second` on the number that
/// `std::num::NonZeroU32::new` makes of `cells`. Trusted: there is no quota
/// for zero; for any other number the quota has a burst of `cells` and
/// replenishes one cell in a second's nanoseconds divided by `cells`.
#[verifier::external_body]
fn quota_per_second(cells: u32) -> (quota: Option<governor::Quota>)
    ensures
        cells == 0 ==> quota is None,
        cells != 0 ==> quota is Some && is_per_second(quota->0, cells),
{
    std::num::NonZeroU32::new(cells).map(governor::Quota::per_second)
}

/// Calls `governor::Quota::burst_size`. Trusted: the result is the burst
/// size of the quota.
#[verifier::external_body]
fn burst_size(quota: &governor::Quota) -> (cells: u32)
    ensures
        cells == quota_burst_size(*quota),
{
    quota.burst_size().get()
}

/// Calls `governor::Quota::replenish_interval` and hands the interval out in
/// nanoseconds. Trusted: the result is the replenish interval of the quota.
#[verifier::external_body]
fn replenish_nanos(quota: &governor::Quota) -> (nanos: u128)
    ensures
        nanos == quota_replenish_nanos(*quota),
{
    quota.replenish_interval().as_nanos()
}

/// Calls `governor::RateLimiter::direct`, on a quota that replenishes a cell
/// in a second at most: the time to replenish a whole burst of such a quota
/// is one that `governor` can count. Trusted: the new limiter was built with
/// the given quota. Nothing is said of its tokens, which depend on the clock.
#[verifier::external_body]
fn direct_limiter(quota: governor::Quota) -> (limiter: DirectLimiter)
    requires
        quota_replenish_nanos(quota) <= NANOS_PER_SECOND,
    ensures
        limiter_quota(limiter) == quota,
{
    DirectLimiter { inner: governor::RateLimiter::direct(quota) }
}

/// A token bucket: a limiter together with the quota and the rate it was
/// configured with.
pub struct TokenBucket {
    limiter: DirectLimiter,
    quota: governor::Quota,
    cells_per_second: u32,
}

impl TokenBucket {
    #[verifier::type_invariant]
    spec fn inv(self) -> bool {
        &&& self.cells_per_second > 0
        &&& limiter_quota(self.limiter) == self.quota
        &&& is_per_second(self.quota, self.cells_per_second)
    }

    /// Tokens per second that the bucket is configured with.
    pub closed spec fn rate(&self) -> u32 {
        self.cells_per_second
    }

    /// The quota of the limiter inside.
    pub closed spec fn quota(&self) -> governor::Quota {
        limiter_quota(self.limiter)
    }

    /// Builds a bucket for a rate given in kilobytes per second: its quota is
    /// that rate in bytes, as cells per second. No bucket is built for a rate
    /// that is not valid.
    pub fn configure(rate_kb: u32) -> (r: Result<TokenBucket, RateError>)
        ensures
            r is Ok <==> rate_is_valid(rate_kb),
            r matches Ok(bucket) ==> {
                &&& bucket.rate() == rate_in_bytes(rate_kb)
                &&& is_per_second(bucket.quota(), bucket.rate())
            },
            r matches Err(e) ==> e == RateError::InvalidRate,
    {
        let cells: u32 = match bytes_per_second(rate_kb) {
            Ok(cells) => cells,
            Err(e) => {
                return Err(e);
            },
        };
        match quota_per_second(cells) {
            Some(quota) => {
                assert(NANOS_PER_SECOND / cells as u128 <= NANOS_PER_SECOND);
                Ok(TokenBucket { limiter: direct_limiter(quota), quota, cells_per_second: cells })
            },
            None => Err(RateError::InvalidRate),
        }
    }

    /// Tokens per second that the bucket is configured with. It is never
    /// zero.
    pub fn refill_rate(&self) -> (rate: u32)
        ensures
            rate == self.rate(),
            rate > 0,
    {
        proof {
            use_type_invariant(self);
        }
        self.cells_per_second
    }

    /// The most tokens that the bucket holds, as its quota gives it: one
    /// second's worth. A chunk never costs more.
    pub fn capacity(&self) -> (cells: u32)
        ensures
            cells == self.rate(),
            cells == quota_burst_size(self.quota()),
            cells >= TOKENS_PER_CHUNK,
    {
        proof {
            use_type_invariant(self);
        }
        burst_size(&self.quota)
    }

    /// Nanoseconds in which the bucket regains one token, as its quota gives
    /// them: a second's nanoseconds divided by the rate, which is zero for a
    /// rate above a thousand million.
    pub fn refill_interval_nanos(&self) -> (nanos: u128)
        ensures
            nanos == NANOS_PER_SECOND / self.rate() as u128,
            nanos == quota_replenish_nanos(self.quota()),
    {
        proof {
            use_type_invariant(self);
        }
        replenish_nanos(&self.quota)
    }

    /// The limiter to wait on. Its quota is that of the bucket's rate.
    pub fn limiter(&self) -> (limiter: &DirectLimiter)
        ensures
            limiter_quota(*limiter) == self.quota(),
            is_per_second(limiter_quota(*limiter), self.rate()),
    {
        proof {
            use_type_invariant(self);
        }
        &self.limiter
    }
}

} // verus!
