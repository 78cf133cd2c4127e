use rate_limit::bucket::TokenBucket;
use rate_limit::rate::{bytes_per_second, RateError, BYTES_PER_KB};

#[test]
fn kilobyte_is_1024_bytes() {
    assert_eq!(BYTES_PER_KB, 1024);
}

#[test]
fn converts_kilobytes_to_bytes() {
    assert_eq!(bytes_per_second(1), Ok(1024));
    assert_eq!(bytes_per_second(256), Ok(262_144));
    assert_eq!(bytes_per_second(512), Ok(524_288));
    assert_eq!(bytes_per_second(1024), Ok(1_048_576));
}

#[test]
fn largest_rate_that_fits() {
    assert_eq!(bytes_per_second(4_194_303), Ok(4_294_966_272));
}

#[test]
fn rejects_zero_rate() {
    assert_eq!(bytes_per_second(0), Err(RateError::InvalidRate));
}

#[test]
fn rejects_rate_that_overflows() {
    assert_eq!(bytes_per_second(4_194_304), Err(RateError::InvalidRate));
    assert_eq!(bytes_per_second(u32::MAX), Err(RateError::InvalidRate));
}

#[test]
fn configure_zero_builds_no_bucket() {
    assert!(matches!(TokenBucket::configure(0), Err(RateError::InvalidRate)));
}

#[test]
fn configure_overflow_builds_no_bucket() {
    assert!(matches!(TokenBucket::configure(4_194_304), Err(RateError::InvalidRate)));
}

#[test]
fn configured_bucket_knows_its_rate() {
    let bucket = TokenBucket::configure(512).unwrap();
    assert_eq!(bucket.refill_rate(), 524_288);
}
