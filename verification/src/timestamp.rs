//! `TimeStamp`: when a record was made and when it was last changed.

use crate::clock::{saturated, since_unix_epoch};
use crate::datetime::{date_time_template, DateTime, DateTimeUnit};
use crate::time::Time;
use crate::time_helpers::{time_format, time_format_text, EPOCH_START};
use vstd::prelude::*;

verus! {

/// The instant at which a record was made and the instant at which it was last
/// changed, each as the milliseconds since the start of year 0: the count that a
/// `DateTime` holds. Both are open to be read, stored and set.
#[derive(Debug)]
pub struct TimeStamp {
    pub created: DateTimeUnit,
    pub updated: DateTimeUnit,
}

/// The whole milliseconds that the system clock shows since the Unix epoch
/// (1970-01-01T00:00:00 UTC). A clock that is set to a time before the epoch
/// gives 0, and a count too large for the result stays at its largest value.
pub fn now_milliseconds() -> (now: DateTimeUnit)
    ensures
        0 <= now,
{
    match since_unix_epoch() {
        Some(elapsed) => saturated(elapsed.as_millis()),
        None => 0,
    }
}

/// Whether more than `time` has passed from the instant `since` to the instant
/// `now`, all in milliseconds.
pub open spec fn spec_has_passed(since: int, time: int, now: int) -> bool {
    since + time < now
}

/// Whether more than `time` has passed from the instant `since` to the instant
/// `now`, both in milliseconds from the same start.
pub fn has_passed(since: DateTimeUnit, time: &Time, now: DateTimeUnit) -> (passed: bool)
    ensures
        passed == spec_has_passed(since as int, time@, now as int),
{
    since as i128 + (time.to_milliseconds() as i128) < now as i128
}

impl TimeStamp {
    /// The stamp of a record made at the instant that the system clock shows.
    pub fn now() -> (stamp: Self)
        ensures
            stamp.created == stamp.updated,
            stamp.created >= EPOCH_START,
    {
        Self::from_datetime(DateTime::now())
    }

    /// The stamp of a record made at the instant `time`.
    pub fn from_datetime(time: DateTime) -> (stamp: Self)
        ensures
            stamp.created == time@,
            stamp.updated == time@,
    {
        let milliseconds = time.to_milliseconds();
        Self { created: milliseconds, updated: milliseconds }
    }

    /// Marks the record as changed at the instant that the system clock shows.
    pub fn update(&mut self)
        ensures
            final(self).created == old(self).created,
            final(self).updated >= EPOCH_START,
    {
        let now = DateTime::now();
        self.update_at(&now);
    }

    /// Marks the record as changed at the instant `now`.
    pub fn update_at(&mut self, now: &DateTime)
        ensures
            final(self).updated == now@,
            final(self).created == old(self).created,
    {
        self.updated = now.to_milliseconds();
    }

    /// Whether more than `time` has passed since the last change, by the system
    /// clock. The stamp stays as it is.
    pub fn time_has_passed_since_last_update(&mut self, time: Time) -> (passed: bool)
        ensures
            *final(self) == *old(self),
            exists|now: DateTimeUnit|
                now >= EPOCH_START && passed == spec_has_passed(
                    old(self).updated as int,
                    time@,
                    now as int,
                ),
    {
        let now = DateTime::now().to_milliseconds();
        let passed = has_passed(self.updated, &time, now);
        assert(now >= EPOCH_START && passed == spec_has_passed(
            self.updated as int,
            time@,
            now as int,
        ));
        passed
    }

    /// Whether more than `time` has passed since the record was made, by the system
    /// clock. The stamp stays as it is.
    pub fn time_has_passed_since_created(&mut self, time: Time) -> (passed: bool)
        ensures
            *final(self) == *old(self),
            exists|now: DateTimeUnit|
                now >= EPOCH_START && passed == spec_has_passed(
                    old(self).created as int,
                    time@,
                    now as int,
                ),
    {
        let now = DateTime::now().to_milliseconds();
        let passed = has_passed(self.created, &time, now);
        assert(now >= EPOCH_START && passed == spec_has_passed(
            self.created as int,
            time@,
            now as int,
        ));
        passed
    }

    /// The instant at which the record was made, in the form of `DateTime::format`.
    /// An instant before the start of year 0 cannot be shown.
    pub fn get_created(&self) -> (out: String)
        requires
            self.created >= 0,
        ensures
            out@ == time_format_text(self.created as int, date_time_template()),
    {
        time_format(self.created, "%Y-%m-%d %H:%M:%S.%f")
    }

    /// The instant at which the record was last changed, in the form of
    /// `DateTime::format`. An instant before the start of year 0 cannot be shown.
    pub fn get_updated(&self) -> (out: String)
        requires
            self.updated >= 0,
        ensures
            out@ == time_format_text(self.updated as int, date_time_template()),
    {
        time_format(self.updated, "%Y-%m-%d %H:%M:%S.%f")
    }
}

impl Clone for TimeStamp {
    /// The same stamp.
    fn clone(&self) -> (copy: Self)
        ensures
            copy == *self,
    {
        Self { created: self.created, updated: self.updated }
    }
}

impl Default for TimeStamp {
    /// The stamp of a record made at the instant that the system clock shows.
    fn default() -> (stamp: Self)
        ensures
            stamp.created == stamp.updated,
            stamp.created >= EPOCH_START,
    {
        Self::now()
    }
}

} // verus!
