//! Time and the arithmetic done on it.

use std::time::{Instant, SystemTime, UNIX_EPOCH};
use vstd::prelude::*;

verus! {

/// `std::time::Instant`, carried only to measure from it.
#[verifier::external_type_specification]
#[verifier::external_body]
pub struct ExInstant(Instant);

/// `SystemTime::now` against the epoch, in whole seconds; nothing where the
/// clock stands before the epoch.
#[verifier::external_body]
fn epoch_secs() -> Option<u64> {
    SystemTime::now().duration_since(UNIX_EPOCH).ok().map(|d| d.as_secs())
}

/// `Instant::now`: a point to measure from.
#[verifier::external_body]
pub(crate) fn clock_start() -> Instant {
    Instant::now()
}

/// `Instant::elapsed`, in nanoseconds: some time has passed since the point.
#[verifier::external_body]
pub(crate) fn nanos_since(start: &Instant) -> u128 {
    start.elapsed().as_nanos()
}

/// The 64 bits of an unsigned number, read as a signed one.
pub open spec fn as_signed(n: u64) -> int {
    if n < 0x8000_0000_0000_0000 {
        n as int
    } else {
        n as int - 0x1_0000_0000_0000_0000
    }
}

/// Reads the 64 bits of an unsigned number as a signed one.
pub fn to_signed(n: u64) -> (r: i64)
    ensures
        r == as_signed(n),
{
    if n < 0x8000_0000_0000_0000 {
        n as i64
    } else {
        ((n as i128) - 0x1_0000_0000_0000_0000) as i64
    }
}

/// The unix time for what the clock gave: `0` before the epoch.
pub open spec fn unix_time(secs: Option<u64>) -> int {
    match secs {
        Some(n) => as_signed(n),
        None => 0,
    }
}

/// The unix time for what the clock gave.
pub fn unix_secs(secs: Option<u64>) -> (r: i64)
    ensures
        r == unix_time(secs),
{
    match secs {
        Some(n) => to_signed(n),
        None => 0,
    }
}

/// Current unix time in whole seconds, `0` before the epoch. What it returns
/// is up to the clock.
pub fn now_secs() -> (r: i64)
    ensures
        exists|secs: Option<u64>| r == #[trigger] unix_time(secs),
{
    unix_secs(epoch_secs())
}

/// A number held within the 64-bit signed range.
pub open spec fn clamp(n: int) -> int {
    if n > i64::MAX {
        i64::MAX as int
    } else if n < i64::MIN {
        i64::MIN as int
    } else {
        n
    }
}

/// The sum of two numbers, held at the ends of the range where it would leave
/// it.
pub fn add_clamped(a: i64, b: i64) -> (r: i64)
    ensures
        r == clamp(a + b),
{
    let sum: i128 = a as i128 + b as i128;
    if sum > i64::MAX as i128 {
        i64::MAX
    } else if sum < i64::MIN as i128 {
        i64::MIN
    } else {
        sum as i64
    }
}

// --- laws ---

/// A sum that fits is the sum; one that does not stops at the end of the range
/// that it passed.
pub proof fn sums_stop_at_the_ends(a: i64, b: i64)
    ensures
        -0x8000_0000_0000_0000 <= a + b <= 0x7fff_ffff_ffff_ffff ==> clamp(a + b) == a + b,
        a + b > 0x7fff_ffff_ffff_ffff ==> clamp(a + b) == 0x7fff_ffff_ffff_ffff,
        a + b < -0x8000_0000_0000_0000 ==> clamp(a + b) == -0x8000_0000_0000_0000,
{
}

/// A number of seconds below two to the sixty-third is the time it stands for, and a
/// clock before the epoch stands at the epoch.
pub proof fn times_are_read_as_they_are(secs: u64)
    ensures
        secs <= 0x7fff_ffff_ffff_ffff ==> unix_time(Some(secs)) == secs,
        unix_time(None) == 0,
        secs > 0x7fff_ffff_ffff_ffff ==> as_signed(secs) == secs - 0x1_0000_0000_0000_0000int,
{
}

} // verus!
