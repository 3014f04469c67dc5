//! Arithmetic on unix-nanosecond timestamps. Sums that would leave the
//! range of `i64` stay at its bound instead of wrapping around.

use vstd::prelude::*;

verus! {

/// `v` clamped to the range of `i64`.
pub open spec fn clamp_i64(v: int) -> i64 {
    if v > i64::MAX {
        i64::MAX
    } else if v < i64::MIN {
        i64::MIN
    } else {
        v as i64
    }
}

/// `t + d`, clamped to the range of `i64`.
pub fn add_nanos(t: i64, d: i64) -> (r: i64)
    ensures
        r == clamp_i64(t + d),
{
    match t.checked_add(d) {
        Some(v) => v,
        None => {
            if d > 0 {
                i64::MAX
            } else {
                i64::MIN
            }
        },
    }
}

/// Nanoseconds per second.
pub const NANOS_PER_SECOND: i64 = 1_000_000_000;

/// `seconds` in nanoseconds, clamped to the range of `i64`.
pub fn seconds_to_nanos(seconds: u64) -> (r: i64)
    ensures
        r == clamp_i64(seconds * 1_000_000_000),
{
    if seconds <= 9_223_372_036 {
        let s: i64 = seconds as i64;
        s * NANOS_PER_SECOND
    } else {
        i64::MAX
    }
}

} // verus!
