//! The system clock: the one thing this library takes from its surroundings.
//!
//! The clock is read with the functions of std, of which nothing is claimed here:
//! a reading can be any value. What is computed from a reading is computed in
//! functions that take the reading as an argument.

use std::time::Duration;
use std::time::SystemTime;
use std::time::SystemTimeError;
use vstd::prelude::*;

verus! {

/// `SystemTime` of std: a reading of the system clock. Nothing is known of what
/// is inside; a reading is only handed on.
#[verifier::external_type_specification]
#[verifier::external_body]
pub struct ExSystemTime(SystemTime);

/// `SystemTimeError` of std: what `SystemTime::duration_since` gives in place of
/// a duration where the reading lies before the instant it is held against.
/// Nothing is known of what is inside.
#[verifier::external_type_specification]
#[verifier::external_body]
pub struct ExSystemTimeError(SystemTimeError);

/// `SystemTime::now` of std: the system clock as it reads at the call. Nothing is
/// claimed of the reading.
pub assume_specification[ SystemTime::now ]() -> (now: SystemTime)
;

/// `SystemTime::duration_since` of std: the time from `earlier` to `time`, or an
/// error where `earlier` is the later one. Nothing is claimed of either.
pub assume_specification[ SystemTime::duration_since ](
    time: &SystemTime,
    earlier: SystemTime,
) -> (elapsed: Result<Duration, SystemTimeError>)
;

/// `Duration::as_nanos` of std: the nanoseconds of a duration. Nothing is claimed
/// of the count.
pub assume_specification[ Duration::as_nanos ](duration: &Duration) -> (nanoseconds: u128)
;

/// `Duration::as_millis` of std: the whole milliseconds of a duration. Nothing is
/// claimed of the count.
pub assume_specification[ Duration::as_millis ](duration: &Duration) -> (milliseconds: u128)
;

/// `UNIX_EPOCH` of std: the instant 1970-01-01T00:00:00 UTC in the form of a
/// reading of the clock. Nothing is claimed of it.
#[verifier::external_body]
fn unix_epoch() -> (epoch: SystemTime) {
    std::time::UNIX_EPOCH
}

/// Reads the system clock: the time since the Unix epoch (1970-01-01T00:00:00
/// UTC), or nothing where the clock is set to a time before the epoch. The clock
/// is not monotonic: a later reading may be the earlier time.
pub fn since_unix_epoch() -> (elapsed: Option<Duration>) {
    let now = SystemTime::now();
    match now.duration_since(unix_epoch()) {
        Ok(elapsed) => Some(elapsed),
        Err(_) => None,
    }
}

/// A count as far as 64 bits with a sign hold it: a count above their largest
/// value stays at that value.
pub open spec fn spec_saturated(count: int) -> int {
    if count <= i64::MAX {
        count
    } else {
        i64::MAX as int
    }
}

/// `count` in 64 bits with a sign. A count too large for them stays at their
/// largest value.
pub fn saturated(count: u128) -> (kept: i64)
    ensures
        kept == spec_saturated(count as int),
        0 <= kept,
{
    if count <= 0x7FFF_FFFF_FFFF_FFFF {
        count as i64
    } else {
        0x7FFF_FFFF_FFFF_FFFF
    }
}

} // verus!
