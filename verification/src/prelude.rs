//! The names that most users of the library need, in one place.

pub use crate::datetime::{DateTime, DateTimeUnit};
pub use crate::precisetime::{PreciseTime, PreciseTimeUnit};
pub use crate::stopwatch::{now_nanoseconds, StopWatch, StopWatchUnit};
pub use crate::time::{Time, TimeUnit};
pub use crate::time_helpers::{
    is_leap_year, precise_time_format, time_format, time_format_from_unix_epoch, EPOCH_START,
};
pub use crate::timestamp::{now_milliseconds, TimeStamp};
