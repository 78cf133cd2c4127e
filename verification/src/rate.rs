//! Rates as they are configured (kilobytes per second) and as the limiter
//! counts them (bytes per second).

use vstd::prelude::*;

verus! {

/// Why a limiter could not be configured.
#[derive(Debug, Clone, Copy, PartialEq, Eq, Structural)]
pub enum RateError {
    /// The rate is zero, or its value in bytes per second does not fit in 32 bits.
    InvalidRate,
}

/// Bytes in one kilobyte of a configured rate.
pub const BYTES_PER_KB: u32 = 1024;

/// The rate in bytes per second that `rate_kb` kilobytes per second stand for.
pub open spec fn rate_in_bytes(rate_kb: u32) -> int {
    rate_kb * 1024
}

/// A rate can be configured when it is positive and its value in bytes per
/// second is a 32-bit number.
pub open spec fn rate_is_valid(rate_kb: u32) -> bool {
    0 < rate_in_bytes(rate_kb) <= u32::MAX
}

/// Converts a rate in kilobytes per second to bytes per second.
pub fn bytes_per_second(rate_kb: u32) -> (r: Result<u32, RateError>)
    ensures
        rate_is_valid(rate_kb) ==> r == Ok::<u32, RateError>(rate_in_bytes(rate_kb) as u32),
        !rate_is_valid(rate_kb) ==> r == Err::<u32, RateError>(RateError::InvalidRate),
{
    match rate_kb.checked_mul(BYTES_PER_KB) {
        Some(bytes) => {
            if bytes == 0 {
                Err(RateError::InvalidRate)
            } else {
                Ok(bytes)
            }
        },
        None => Err(RateError::InvalidRate),
    }
}

} // verus!
