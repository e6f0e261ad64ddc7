use super::calendar::{Date, Timestamp, SECONDS_PER_DAY};
use chrono::{Datelike, Local, Timelike};
use vstd::prelude::*;

verus! {

/// Reads the clock with `chrono::Local::now`, moves the instant to the zone
/// `chrono_tz::Europe::London` with `DateTime::with_timezone`, and takes the
/// day number and the seconds since midnight of its `naive_local` value.
/// The seconds that chrono counts from midnight stay under a full day;
/// nothing else is claimed, and two calls may differ.
#[verifier::external_body]
fn chrono_uk_now() -> (now: (i32, u32))
    ensures
        now.1 < SECONDS_PER_DAY,
{
    let local = Local::now().with_timezone(&chrono_tz::Europe::London).naive_local();
    (local.date().num_days_from_ce(), local.time().num_seconds_from_midnight())
}

/// The current local date and time in the United Kingdom.
pub fn uk_datetime_now() -> (now: Timestamp) {
    let reading: (i32, u32) = chrono_uk_now();
    Timestamp::at(Date::from_day_number(reading.0), reading.1)
}

} // verus!
