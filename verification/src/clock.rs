//! The run clock.
//!
//! A run captures one calendar date and one epoch-second timestamp, and every
//! artifact of the run is stored under directory segments made from the two,
//! so a whole run shares one `<date>/<timestamp>` prefix.

use vstd::prelude::*;

verus! {

/// One stamp of the run clock: a calendar-date string or an epoch-second
/// count.
pub enum Daily {
    Date(String),
    Time(i64),
}

/// The directory-segment string of a stamp: the date as given, the time in
/// decimal.
pub open spec fn daily_str(d: Daily) -> Seq<char> {
    match d {
        Daily::Date(s) => s@,
        Daily::Time(t) => crate::numfmt::int_str(t as int),
    }
}

impl Daily {
    /// The stamp as a directory segment.
    pub fn get(&self) -> (r: String)
        ensures
            r@ == daily_str(*self),
    {
        match self {
            Daily::Date(s) => s.clone(),
            Daily::Time(t) => crate::numfmt::i64_to_string(*t),
        }
    }

    /// An equal stamp.
    pub fn duplicate(&self) -> (r: Daily)
        ensures
            r == *self,
    {
        match self {
            Daily::Date(s) => Daily::Date(s.clone()),
            Daily::Time(t) => Daily::Time(*t),
        }
    }
}

/// The run clock: one date and one timestamp for a whole run.
pub struct Today {
    pub date: Daily,
    pub time: Daily,
}

/// Relies on chrono's `Utc::now`, `DateTime::date_naive` and
/// `DateTime::timestamp`: the current UTC calendar date as its ISO-8601
/// display string, and the count of non-leap seconds since the Unix epoch.
/// The values follow the machine clock, so nothing is promised of them.
#[verifier::external_body]
fn clock_now() -> (r: (String, i64)) {
    let now = chrono::Utc::now();
    (now.date_naive().to_string(), now.timestamp())
}

impl Today {
    /// Captures the run clock from the system time; meant to be called once
    /// per run.
    pub fn build() -> (r: Today)
        ensures
            r.date is Date,
            r.time is Time,
    {
        let (d, t) = clock_now();
        Today { date: Daily::Date(d), time: Daily::Time(t) }
    }

    /// The run clock from given parts, for callers that inject a clock.
    pub fn from_parts(date: String, time: i64) -> (r: Today)
        ensures
            r.date == Daily::Date(date),
            r.time == Daily::Time(time),
    {
        Today { date: Daily::Date(date), time: Daily::Time(time) }
    }

    /// An equal clock.
    pub fn duplicate(&self) -> (r: Today)
        ensures
            r == *self,
    {
        Today { date: self.date.duplicate(), time: self.time.duplicate() }
    }
}

} // verus!
