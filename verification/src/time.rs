//! Calendar view of instants.
//!
//! An instant is a Unix timestamp in seconds; its calendar form holds the
//! UTC year, month, day and weekday. Only the conversions come from the
//! `chrono` crate, behind trusted wrappers; all calendar arithmetic on
//! the converted values is verified.

use vstd::prelude::*;
use chrono::Datelike;

verus! {

/// The calendar form of an instant, in UTC.
#[derive(Debug, Clone, Copy, PartialEq, Eq, Structural)]
pub struct DateParts {
    /// Seconds since the Unix epoch.
    pub ts: i64,
    /// Calendar year.
    pub year: i32,
    /// Calendar month, `1 ..= 12`.
    pub month: u32,
    /// Day of the month, `1 ..= 31`.
    pub day: u32,
    /// Days since the most recent Monday, `0 ..= 6`.
    pub weekday_from_monday: u32,
}

impl DateParts {
    /// The field ranges every converted instant satisfies.
    pub open spec fn wf(self) -> bool {
        &&& -9_000_000_000_000 <= self.ts <= 9_000_000_000_000
        &&& -300_000 <= self.year <= 300_000
        &&& 1 <= self.month <= 12
        &&& 1 <= self.day <= 31
        &&& self.weekday_from_monday <= 6
    }

    /// Two instants fall on the same calendar day.
    pub open spec fn same_day(self, other: DateParts) -> bool {
        self.year == other.year && self.month == other.month && self.day == other.day
    }
}

/// Relies on `chrono::Utc::now`, `DateTime::timestamp` and the `Datelike`
/// accessors: the current instant, with calendar fields in their
/// documented ranges. The clock is assumed to be at or after the epoch.
#[verifier::external_body]
pub(crate) fn now_parts() -> (r: DateParts)
    ensures
        r.wf(),
        r.ts >= 0,
{
    let dt = chrono::Utc::now();
    DateParts {
        ts: dt.timestamp(),
        year: dt.year(),
        month: dt.month(),
        day: dt.day(),
        weekday_from_monday: dt.weekday().num_days_from_monday(),
    }
}

/// Relies on `chrono::DateTime::from_timestamp` and the `Datelike`
/// accessors: the calendar form of a timestamp, `None` exactly on
/// timestamps outside the representable range. The conversion round-trips
/// on the timestamp, and the calendar fields stay in their documented
/// ranges.
#[verifier::external_body]
pub(crate) fn date_parts(ts: i64) -> (r: Option<DateParts>)
    ensures
        r matches Some(d) ==> d.wf() && d.ts == ts,
        -8_000_000_000_000 <= ts <= 8_000_000_000_000 ==> r is Some,
{
    chrono::DateTime::from_timestamp(ts, 0).map(|dt| DateParts {
        ts,
        year: dt.year(),
        month: dt.month(),
        day: dt.day(),
        weekday_from_monday: dt.weekday().num_days_from_monday(),
    })
}

/// The clock context a date rule is evaluated against: the current
/// instant and, when representable, the instant one day earlier.
#[derive(Debug, Clone, Copy, PartialEq, Eq, Structural)]
pub struct DateContext {
    pub now: DateParts,
    pub yesterday: Option<DateParts>,
}

impl DateContext {
    /// The context is made of well-formed parts and `yesterday` lies one
    /// day before `now`.
    pub open spec fn wf(self) -> bool {
        &&& self.now.wf()
        &&& self.yesterday matches Some(y) ==> y.wf() && y.ts == self.now.ts - 86400
    }

    /// Capture the current clock as a rule-evaluation context.
    pub fn capture() -> (r: DateContext)
        ensures
            r.wf(),
            r.now.ts >= 0,
            r.now.ts <= 8_000_000_000_000 ==> r.yesterday is Some,
    {
        let now = now_parts();
        let yesterday = date_parts(now.ts - 86400);
        DateContext { now, yesterday }
    }
}

} // verus!
