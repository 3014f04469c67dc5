//! Calls into the outside world whose results depend on chance or the clock.

use rand::Rng;
use rand::RngCore;
use vstd::prelude::*;

verus! {

/// A fresh random identifier: `uuid::Uuid::new_v4()` in its hyphenated
/// text form. The uuid crate documents that form as 36 characters long;
/// nothing else is stated of the (random) value.
#[verifier::external_body]
pub(crate) fn new_uuid() -> (id: String)
    ensures
        id@.len() == 36,
{
    uuid::Uuid::new_v4().to_string()
}

/// The current wall-clock time in unix nanoseconds
/// (`time::OffsetDateTime::now_utc().unix_timestamp_nanos()`, narrowed to
/// `i64`). It depends on the clock, so nothing is stated of it.
#[verifier::external_body]
pub(crate) fn now_unix_nanos() -> (t: i64) {
    time::OffsetDateTime::now_utc().unix_timestamp_nanos() as i64
}

/// The earliest unix second the `time` crate represents: the start of year
/// -9999 (its date range without the `large-dates` feature, which this
/// crate does not enable).
pub const UNIX_SECONDS_MIN: i64 = -377705203200;

/// The latest unix second the `time` crate represents: the end of year 9999.
pub const UNIX_SECONDS_MAX: i64 = 253402300799;

/// Whether `t` is a unix second the clock can report.
pub open spec fn unix_seconds_in_range(t: i64) -> bool {
    UNIX_SECONDS_MIN <= t <= UNIX_SECONDS_MAX
}

/// The current wall-clock time in unix seconds
/// (`time::OffsetDateTime::now_utc().unix_timestamp()`). It depends on the
/// clock; only that it lies in the range of dates the `time` crate
/// represents (years -9999 to 9999) is stated.
#[verifier::external_body]
pub(crate) fn now_unix_seconds() -> (t: i64)
    ensures
        unix_seconds_in_range(t),
{
    time::OffsetDateTime::now_utc().unix_timestamp()
}

/// Seconds since the unix epoch from the system clock
/// (`std::time::SystemTime::now().duration_since(UNIX_EPOCH)`, 0 when the
/// clock reads earlier than the epoch). It depends on the clock, so nothing
/// is stated of it.
#[verifier::external_body]
pub(crate) fn system_unix_seconds() -> (t: u64) {
    std::time::SystemTime::now()
        .duration_since(std::time::UNIX_EPOCH)
        .map(|d| d.as_secs())
        .unwrap_or(0)
}

/// `count` random bytes from the thread-local generator
/// (`rand::RngCore::fill_bytes` on `rand::thread_rng()`). Only the length is
/// stated: the bytes are random.
#[verifier::external_body]
pub(crate) fn random_bytes(count: usize) -> (b: Vec<u8>)
    ensures
        b@.len() == count,
{
    let mut bytes = vec![0u8; count];
    rand::thread_rng().fill_bytes(&mut bytes);
    bytes
}

/// A random number in `0..bound` (`rand::Rng::gen_range` on
/// `rand::thread_rng()`, which documents that the result lies in the range
/// and panics on an empty range, hence the requirement).
#[verifier::external_body]
pub(crate) fn random_below(bound: u64) -> (r: u64)
    requires
        bound > 0,
    ensures
        r < bound,
{
    rand::thread_rng().gen_range(0..bound)
}

/// A point of the monotonic clock (`std::time::Instant`), carried opaque.
#[verifier::external_type_specification]
#[verifier::external_body]
pub struct ExInstant(std::time::Instant);

/// The current point of the monotonic clock (`std::time::Instant::now`).
/// It depends on the clock, so nothing is stated of it.
#[verifier::external_body]
pub(crate) fn monotonic_now() -> (t: std::time::Instant) {
    std::time::Instant::now()
}

/// Nanoseconds of the monotonic clock elapsed since `earlier`
/// (`std::time::Instant::elapsed`, which is 0 when `earlier` lies ahead,
/// capped at `u64::MAX`). It depends on the clock, so nothing is stated of
/// it.
#[verifier::external_body]
pub(crate) fn nanos_since(earlier: &std::time::Instant) -> (n: u64) {
    u64::try_from(earlier.elapsed().as_nanos()).unwrap_or(u64::MAX)
}

} // verus!
