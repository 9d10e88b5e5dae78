//! `StopWatch`: the time that has passed since a reading of the system clock.

use crate::clock::since_unix_epoch;
use crate::precisetime::PreciseTime;
use vstd::prelude::*;

verus! {

/// The type of a reading of the clock in nanoseconds.
pub type StopWatchUnit = u128;

/// A stopwatch: the reading of the system clock, in nanoseconds since the Unix
/// epoch, at which it was started.
///
/// The system clock is no monotonic clock. Where it is set back while the
/// stopwatch runs, a later sample can be smaller than an earlier one; a sample
/// taken at a reading before the start is 0.
#[derive(Debug)]
pub struct StopWatch {
    start: StopWatchUnit,
}

impl View for StopWatch {
    type V = int;

    /// The reading at which the stopwatch was started.
    closed spec fn view(&self) -> int {
        self.start as int
    }
}

/// The nanoseconds from the reading `start` to the reading `now`; none where `now`
/// is the earlier one.
pub open spec fn elapsed_between(start: int, now: int) -> int {
    if now >= start {
        now - start
    } else {
        0
    }
}

/// Of two samples of one stopwatch, the one taken at the later reading of the
/// clock is not the smaller one, and no sample is negative.
pub proof fn lemma_later_sample_not_smaller(start: int, first: int, second: int)
    requires
        first <= second,
    ensures
        0 <= elapsed_between(start, first) <= elapsed_between(start, second),
{
}

/// The nanoseconds that the system clock shows since the Unix epoch
/// (1970-01-01T00:00:00 UTC). A clock that is set to a time before the epoch
/// gives 0.
pub fn now_nanoseconds() -> (now: StopWatchUnit) {
    match since_unix_epoch() {
        Some(elapsed) => elapsed.as_nanos(),
        None => 0,
    }
}

impl StopWatch {
    /// A stopwatch started at the reading that the system clock shows.
    pub fn start() -> (watch: Self) {
        Self::started_at(now_nanoseconds())
    }

    /// A stopwatch started at the reading `start`.
    pub fn started_at(start: StopWatchUnit) -> (watch: Self)
        ensures
            watch@ == start,
    {
        Self { start }
    }

    /// The reading at which the stopwatch was started.
    pub fn started(&self) -> (start: StopWatchUnit)
        ensures
            start == self@,
    {
        self.start
    }

    /// The time from the start to the reading `now`.
    pub fn ellapsed_at(&self, now: StopWatchUnit) -> (passed: PreciseTime)
        ensures
            passed@ == elapsed_between(self@, now as int),
    {
        if now >= self.start {
            PreciseTime::from_nanoseconds(now - self.start)
        } else {
            PreciseTime::from_nanoseconds(0)
        }
    }

    /// The time from the start to the reading that the system clock shows now.
    pub fn ellapsed(&self) -> (passed: PreciseTime)
        ensures
            exists|now: StopWatchUnit| passed@ == elapsed_between(self@, now as int),
    {
        let now = now_nanoseconds();
        let passed = self.ellapsed_at(now);
        assert(passed@ == elapsed_between(self@, now as int));
        passed
    }

    /// The nanoseconds since the start.
    pub fn ellapsed_nanoseconds(&self) -> (passed: StopWatchUnit)
        ensures
            exists|now: StopWatchUnit| passed == elapsed_between(self@, now as int),
    {
        let now = now_nanoseconds();
        let passed = self.ellapsed_at(now).to_nanoseconds();
        assert(passed == elapsed_between(self@, now as int));
        passed
    }

    /// The whole microseconds since the start.
    pub fn ellapsed_microseconds(&self) -> (passed: StopWatchUnit)
        ensures
            exists|now: StopWatchUnit| passed == elapsed_between(self@, now as int) / 1_000,
    {
        let now = now_nanoseconds();
        let passed = self.ellapsed_at(now).to_microseconds();
        assert(passed == elapsed_between(self@, now as int) / 1_000);
        passed
    }

    /// The whole milliseconds since the start.
    pub fn ellapsed_milliseconds(&self) -> (passed: StopWatchUnit)
        ensures
            exists|now: StopWatchUnit| passed == elapsed_between(self@, now as int) / 1_000_000,
    {
        let now = now_nanoseconds();
        let passed = self.ellapsed_at(now).to_milliseconds();
        assert(passed == elapsed_between(self@, now as int) / 1_000_000);
        passed
    }

    /// The whole seconds since the start.
    pub fn ellapsed_seconds(&self) -> (passed: StopWatchUnit)
        ensures
            exists|now: StopWatchUnit|
                passed == elapsed_between(self@, now as int) / 1_000_000_000,
    {
        let now = now_nanoseconds();
        let passed = self.ellapsed_at(now).to_seconds();
        assert(passed == elapsed_between(self@, now as int) / 1_000_000_000);
        passed
    }

    /// The whole minutes since the start.
    pub fn ellapsed_minutes(&self) -> (passed: StopWatchUnit)
        ensures
            exists|now: StopWatchUnit|
                passed == elapsed_between(self@, now as int) / 60_000_000_000,
    {
        let now = now_nanoseconds();
        let passed = self.ellapsed_at(now).to_minutes();
        assert(passed == elapsed_between(self@, now as int) / 60_000_000_000);
        passed
    }

    /// The whole hours since the start.
    pub fn ellapsed_hours(&self) -> (passed: StopWatchUnit)
        ensures
            exists|now: StopWatchUnit|
                passed == elapsed_between(self@, now as int) / 3_600_000_000_000,
    {
        let now = now_nanoseconds();
        let passed = self.ellapsed_at(now).to_hours();
        assert(passed == elapsed_between(self@, now as int) / 3_600_000_000_000);
        passed
    }

    /// The whole days since the start.
    pub fn ellapsed_days(&self) -> (passed: StopWatchUnit)
        ensures
            exists|now: StopWatchUnit|
                passed == elapsed_between(self@, now as int) / 86_400_000_000_000,
    {
        let now = now_nanoseconds();
        let passed = self.ellapsed_at(now).to_days();
        assert(passed == elapsed_between(self@, now as int) / 86_400_000_000_000);
        passed
    }
}

impl Clone for StopWatch {
    /// A stopwatch with the same start.
    fn clone(&self) -> (copy: Self)
        ensures
            copy@ == self@,
    {
        Self { start: self.start }
    }
}

} // verus!
