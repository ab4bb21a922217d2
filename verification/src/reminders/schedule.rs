//! Recurrence schedules and the UTC calendar arithmetic they need.
//!
//! Instants are milliseconds since the Unix epoch. UTC days are exactly
//! `DAY_MILLIS` long, so an instant's day starts at the last multiple of
//! a day at or before it, counted from the earliest representable date
//! (-262143-01-01, a Wednesday), which is itself a day start.
use vstd::prelude::*;

use crate::time::{valid_timestamp, Timestamp, DAY_MILLIS, MAX_TIMESTAMP, MIN_TIMESTAMP};

verus! {

/// Start of the last representable day.
pub const MAX_DAY_START: i64 = 8210266790400000;

/// Start of the UTC day containing `t`.
pub open spec fn day_start(t: int) -> int {
    MIN_TIMESTAMP + ((t - MIN_TIMESTAMP) / (DAY_MILLIS as int)) * DAY_MILLIS
}

/// Day of the week of the day starting at `d`, counted from Monday = 0.
pub open spec fn weekday_number_of(d: int) -> int {
    ((d - MIN_TIMESTAMP) / (DAY_MILLIS as int) + 2) % 7
}

/// A day of the week.
#[derive(Debug, Clone, Copy, PartialEq, Eq, Structural, Hash)]
pub enum Weekday {
    Mon,
    Tue,
    Wed,
    Thu,
    Fri,
    Sat,
    Sun,
}

impl Weekday {
    /// Days since Monday: 0 for `Mon` up to 6 for `Sun`.
    pub open spec fn number(self) -> int {
        match self {
            Weekday::Mon => 0,
            Weekday::Tue => 1,
            Weekday::Wed => 2,
            Weekday::Thu => 3,
            Weekday::Fri => 4,
            Weekday::Sat => 5,
            Weekday::Sun => 6,
        }
    }

    /// Days since Monday: 0 for `Mon` up to 6 for `Sun`.
    pub fn num_days_from_monday(self) -> (r: u32)
        ensures
            r == self.number(),
    {
        match self {
            Weekday::Mon => 0,
            Weekday::Tue => 1,
            Weekday::Wed => 2,
            Weekday::Thu => 3,
            Weekday::Fri => 4,
            Weekday::Sat => 5,
            Weekday::Sun => 6,
        }
    }
}

/// A time of day in UTC, to the millisecond.
#[derive(Debug, Clone, Copy, PartialEq, Eq, Structural, Hash)]
pub struct TimeOfDay {
    millis: u32,
}

impl TimeOfDay {
    #[verifier::type_invariant]
    spec fn within_day(self) -> bool {
        self.millis < DAY_MILLIS
    }

    /// Milliseconds since midnight.
    pub closed spec fn ms(self) -> int {
        self.millis as int
    }

    /// Milliseconds since midnight.
    pub fn millis(&self) -> (r: u32)
        ensures
            r == self.ms(),
            r < DAY_MILLIS,
    {
        proof {
            use_type_invariant(self);
        }
        self.millis
    }

    /// The time `h:m:s`, or `None` when a field is out of range.
    pub fn from_hms_opt(h: u32, m: u32, s: u32) -> (r: Option<TimeOfDay>)
        ensures
            match r {
                Some(t) => h < 24 && m < 60 && s < 60 && t.ms() == ((h * 60 + m) * 60 + s) * 1000,
                None => !(h < 24 && m < 60 && s < 60),
            },
    {
        if h < 24 && m < 60 && s < 60 {
            Some(TimeOfDay { millis: ((h * 60 + m) * 60 + s) * 1000 })
        } else {
            None
        }
    }

    /// The time `ms` milliseconds after midnight, or `None` when that is a
    /// day or more.
    pub fn from_millis_opt(ms: u32) -> (r: Option<TimeOfDay>)
        ensures
            match r {
                Some(t) => ms < DAY_MILLIS && t.ms() == ms,
                None => ms >= DAY_MILLIS,
            },
    {
        if ms < 86400000 {
            Some(TimeOfDay { millis: ms })
        } else {
            None
        }
    }
}

/// Recurrence schedule for a repeating reminder.
#[derive(Debug, Clone, Copy, PartialEq, Eq, Structural)]
pub enum Schedule {
    /// Fire once (no recurrence).
    Once,
    /// Repeat every N seconds after each execution.
    Interval { every_seconds: u64 },
    /// Repeat daily at a fixed UTC time.
    Daily { time: TimeOfDay },
    /// Repeat weekly on a specific day at a fixed UTC time.
    Weekly { day: Weekday, time: TimeOfDay },
}

/// The seconds an interval adds: `every_seconds` read as an `i64`, the
/// way `every_seconds as i64` reads it (values past `i64::MAX` wrap).
pub open spec fn interval_secs(every_seconds: u64) -> int {
    if every_seconds <= i64::MAX {
        every_seconds as int
    } else {
        every_seconds - 0x1_0000_0000_0000_0000
    }
}

/// Days from the day starting at `d` to the next day (at or after it)
/// that falls on `day`.
pub open spec fn days_until(d: int, day: Weekday) -> int {
    (day.number() - weekday_number_of(d)) % 7
}

/// The next due time after `after` under schedule `s`: none for `Once`;
/// `after` plus the interval; today at `time` if that is still ahead,
/// else tomorrow at `time`; or the first `day` strictly after today, at
/// `time`.
pub open spec fn spec_next_due(s: Schedule, after: int) -> Option<int> {
    match s {
        Schedule::Once => None,
        Schedule::Interval { every_seconds } => Some(after + interval_secs(every_seconds) * 1000),
        Schedule::Daily { time } => {
            let d = day_start(after);
            if d + time.ms() > after {
                Some(d + time.ms())
            } else {
                Some(d + DAY_MILLIS + time.ms())
            }
        },
        Schedule::Weekly { day, time } => {
            let d = day_start(after) + DAY_MILLIS;
            Some(d + days_until(d, day) * DAY_MILLIS + time.ms())
        },
    }
}

/// The calendar arithmetic of `next_due` stays within the representable
/// range (the underlying date arithmetic panics outside it): the interval
/// is a valid duration and lands on a valid instant; the days stepped
/// through exist.
pub open spec fn next_due_defined(s: Schedule, after: int) -> bool {
    &&& valid_timestamp(after)
    &&& match s {
        Schedule::Once => true,
        Schedule::Interval { every_seconds } => {
            &&& -(i64::MAX / 1000) <= interval_secs(every_seconds) <= i64::MAX / 1000
            &&& valid_timestamp(after + interval_secs(every_seconds) * 1000)
        },
        Schedule::Daily { time } => {
            let d = day_start(after);
            d + time.ms() > after || d + DAY_MILLIS <= MAX_DAY_START
        },
        Schedule::Weekly { day, time } => {
            let d = day_start(after) + DAY_MILLIS;
            d + days_until(d, day) * DAY_MILLIS <= MAX_DAY_START
        },
    }
}

/// Start of the UTC day containing `t`, with its days since the earliest
/// representable date.
fn day_of(t: Timestamp) -> (r: (i64, u64))
    requires
        valid_timestamp(t as int),
    ensures
        r.0 == day_start(t as int),
        r.1 == (t - MIN_TIMESTAMP) / (DAY_MILLIS as int),
        r.0 <= t < r.0 + DAY_MILLIS,
        MIN_TIMESTAMP <= r.0 <= MAX_DAY_START,
        r.0 == MIN_TIMESTAMP + r.1 * DAY_MILLIS,
{
    let shift: u64 = (t - MIN_TIMESTAMP) as u64;
    let days: u64 = shift / 86400000u64;
    proof {
        assert(days * 86400000 <= shift < days * 86400000 + 86400000) by (nonlinear_arith)
            requires
                days == shift / 86400000u64,
        ;
        assert(shift <= 16544868191999999);
        assert(days <= 191491530) by (nonlinear_arith)
            requires
                days == shift / 86400000u64,
                shift <= 16544868191999999,
        ;
    }
    let start: i64 = MIN_TIMESTAMP + (days * 86400000u64) as i64;
    (start, days)
}

/// Day of the week for a day index counted from the earliest
/// representable date.
fn weekday_of_day(days: u64) -> (r: u64)
    ensures
        r == (days + 2) % 7,
{
    (days % 7 + 2) % 7
}

impl Schedule {
    /// The next due time after an execution that completed at `after`.
    /// `None` for `Once`.
    pub fn next_due(&self, after: Timestamp) -> (r: Option<Timestamp>)
        requires
            next_due_defined(*self, after as int),
        ensures
            match r {
                None => spec_next_due(*self, after as int) is None,
                Some(t) => spec_next_due(*self, after as int) == Some(t as int) && valid_timestamp(
                    t as int,
                ),
            },
    {
        match self {
            Schedule::Once => None,
            Schedule::Interval { every_seconds } => {
                let secs: i64 = if *every_seconds <= 9223372036854775807u64 {
                    *every_seconds as i64
                } else {
                    -((18446744073709551615u64 - *every_seconds) as i64) - 1
                };
                Some(after + secs * 1000)
            },
            Schedule::Daily { time } => {
                let ms = time.millis();
                let (d, _days) = day_of(after);
                if d + ms as i64 > after {
                    Some(d + ms as i64)
                } else {
                    Some(d + 86400000 + ms as i64)
                }
            },
            Schedule::Weekly { day, time } => {
                let ms = time.millis();
                let (d0, days0) = day_of(after);
                let target = day.num_days_from_monday() as u64;
                let d = d0 + 86400000;
                let wd = weekday_of_day(days0 + 1);
                proof {
                    assert(d == MIN_TIMESTAMP + (days0 + 1) * DAY_MILLIS);
                    assert((d - MIN_TIMESTAMP) / (DAY_MILLIS as int) == days0 + 1) by (
                    nonlinear_arith)
                        requires
                            d - MIN_TIMESTAMP == (days0 + 1) * DAY_MILLIS,
                    ;
                    assert(wd == weekday_number_of(d as int));
                }
                let k: u64 = (target + 7 - wd) % 7;
                proof {
                    assert(k == days_until(d as int, *day));
                }
                Some(d + (k * 86400000) as i64 + ms as i64)
            },
        }
    }
}

impl Schedule {
    /// Whether `next_due(after)` stays within the representable range.
    pub fn fits(&self, after: Timestamp) -> (b: bool)
        ensures
            b == next_due_defined(*self, after as int),
    {
        if after < MIN_TIMESTAMP || after > MAX_TIMESTAMP {
            return false;
        }
        match self {
            Schedule::Once => true,
            Schedule::Interval { every_seconds } => {
                let secs: i64 = if *every_seconds <= 9223372036854775807u64 {
                    *every_seconds as i64
                } else {
                    -((18446744073709551615u64 - *every_seconds) as i64) - 1
                };
                if secs < -9223372036854775 || secs > 9223372036854775 {
                    return false;
                }
                let t = after as i128 + secs as i128 * 1000;
                MIN_TIMESTAMP as i128 <= t && t <= MAX_TIMESTAMP as i128
            },
            Schedule::Daily { time } => {
                let ms = time.millis();
                let (d, _days) = day_of(after);
                d + ms as i64 > after || d <= MAX_DAY_START - 86400000
            },
            Schedule::Weekly { day, time } => {
                let (d0, days0) = day_of(after);
                if d0 > MAX_DAY_START - 86400000 {
                    return false;
                }
                let target = day.num_days_from_monday() as u64;
                let d = d0 + 86400000;
                let wd = weekday_of_day(days0 + 1);
                proof {
                    assert(d == MIN_TIMESTAMP + (days0 + 1) * DAY_MILLIS);
                    assert((d - MIN_TIMESTAMP) / (DAY_MILLIS as int) == days0 + 1) by (
                    nonlinear_arith)
                        requires
                            d - MIN_TIMESTAMP == (days0 + 1) * DAY_MILLIS,
                    ;
                }
                let k: u64 = (target + 7 - wd) % 7;
                d + (k * 86400000) as i64 <= MAX_DAY_START
            },
        }
    }
}

} // verus!
