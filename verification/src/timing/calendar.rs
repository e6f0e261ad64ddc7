use chrono::{Datelike, NaiveDate, NaiveDateTime, NaiveTime, Timelike};
use vstd::prelude::*;

verus! {

/// Number of seconds in one day.
pub const SECONDS_PER_DAY: u32 = 86_400;

/// Number of seconds in one week.
pub const SECONDS_PER_WEEK: u32 = 604_800;

/// Weekday of a day number, counted from Monday as 0 to Sunday as 6.
///
/// Day 1 is 1 January of year 1 in the proleptic Gregorian calendar, a Monday.
pub open spec fn weekday_index(days: int) -> int {
    (days - 1) % 7
}

/// Whole weeks from an earlier instant to a later one; zero when the second
/// instant is not later than the first.
pub open spec fn whole_weeks(elapsed_seconds: int) -> int {
    if elapsed_seconds <= 0 {
        0
    } else {
        elapsed_seconds / (SECONDS_PER_WEEK as int)
    }
}

/// The day number that the calendar gives to a year, month and day of month,
/// or `None` where the calendar has no such date.
pub uninterp spec fn civil_day_number(year: i32, month: u32, day: u32) -> Option<i32>;

/// The date that a text of the form `YYYY-MM-DD` denotes, as a day number.
pub uninterp spec fn date_of_text(text: Seq<char>) -> Option<i32>;

/// The text of the form `YYYY-MM-DD` for a day number.
pub uninterp spec fn text_of_date(days: i32) -> Option<Seq<char>>;

/// The instant that a text of the form `YYYY-MM-DDTHH:MM:SS` denotes, as a
/// day number and the seconds since midnight.
pub uninterp spec fn instant_of_text(text: Seq<char>) -> Option<(i32, u32)>;

/// The text of the form `YYYY-MM-DDTHH:MM:SS` for a day number and the seconds
/// since midnight.
pub uninterp spec fn text_of_instant(days: i32, seconds: u32) -> Option<Seq<char>>;

/// The date that a query names, as a day number: what chrono reads as a date
/// from a text.
pub uninterp spec fn date_of_query(text: Seq<char>) -> Option<i32>;

/// The instant that a query names, as a day number and the seconds since
/// midnight: what chrono reads as a date and time from a text.
pub uninterp spec fn instant_of_query(text: Seq<char>) -> Option<(i32, u32)>;

/// Calls `<chrono::NaiveDate as FromStr>::from_str` and takes the day number
/// of the date it returns. Nothing is claimed of the outcome but that it is a
/// function of the text.
#[verifier::external_body]
fn chrono_read_date(text: &str) -> (r: Option<i32>)
    ensures
        r == date_of_query(text@),
{
    match text.parse::<NaiveDate>() {
        Ok(date) => Some(date.num_days_from_ce()),
        Err(_) => None,
    }
}

/// Calls `<chrono::NaiveDateTime as FromStr>::from_str` and takes the day
/// number of its date and the `num_seconds_from_midnight` of its time. The
/// seconds that chrono counts from midnight stay under a full day; nothing
/// else is claimed but that the outcome is a function of the text.
#[verifier::external_body]
fn chrono_read_instant(text: &str) -> (r: Option<(i32, u32)>)
    ensures
        r == instant_of_query(text@),
        r matches Some(pair) ==> pair.1 < SECONDS_PER_DAY,
{
    match text.parse::<NaiveDateTime>() {
        Ok(instant) => Some(
            (instant.date().num_days_from_ce(), instant.time().num_seconds_from_midnight()),
        ),
        Err(_) => None,
    }
}

/// Calls `chrono::NaiveDate::from_ymd_opt` and, on the date it returns,
/// `Datelike::num_days_from_ce`. Nothing is claimed of the outcome but that it
/// is a function of the three numbers.
#[verifier::external_body]
fn chrono_day_number(year: i32, month: u32, day: u32) -> (r: Option<i32>)
    ensures
        r == civil_day_number(year, month, day),
{
    match NaiveDate::from_ymd_opt(year, month, day) {
        Some(date) => Some(date.num_days_from_ce()),
        None => None,
    }
}

/// Calls `chrono::NaiveDate::parse_from_str` with the pattern `%Y-%m-%d` and
/// takes the day number of the date it returns. Nothing is claimed of the
/// outcome but that it is a function of the text.
#[verifier::external_body]
fn chrono_parse_date(text: &str) -> (r: Option<i32>)
    ensures
        r == date_of_text(text@),
{
    match NaiveDate::parse_from_str(text, "%Y-%m-%d") {
        Ok(date) => Some(date.num_days_from_ce()),
        Err(_) => None,
    }
}

/// Calls `chrono::NaiveDate::from_num_days_from_ce_opt` and formats the date
/// it returns with the pattern `%Y-%m-%d`; `None` where chrono holds no date
/// for the day number.
#[verifier::external_body]
fn chrono_format_date(days: i32) -> (r: Option<String>)
    ensures
        (match r {
            Some(text) => Some(text@),
            None => None,
        }) == text_of_date(days),
{
    match NaiveDate::from_num_days_from_ce_opt(days) {
        Some(date) => Some(date.format("%Y-%m-%d").to_string()),
        None => None,
    }
}

/// Calls `chrono::NaiveDateTime::parse_from_str` with the pattern
/// `%Y-%m-%dT%H:%M:%S` and takes the day number of its date and the
/// `num_seconds_from_midnight` of its time. The seconds that chrono counts
/// from midnight stay under a full day; nothing else is claimed but that the
/// outcome is a function of the text.
#[verifier::external_body]
fn chrono_parse_instant(text: &str) -> (r: Option<(i32, u32)>)
    ensures
        r == instant_of_text(text@),
        r matches Some(pair) ==> pair.1 < SECONDS_PER_DAY,
{
    match NaiveDateTime::parse_from_str(text, "%Y-%m-%dT%H:%M:%S") {
        Ok(instant) => Some(
            (instant.date().num_days_from_ce(), instant.time().num_seconds_from_midnight()),
        ),
        Err(_) => None,
    }
}

/// Calls `chrono::NaiveDate::from_num_days_from_ce_opt` and
/// `chrono::NaiveTime::from_num_seconds_from_midnight_opt`, joins the two and
/// formats the result with the pattern `%Y-%m-%dT%H:%M:%S`; `None` where
/// chrono holds no date or no time for the numbers.
#[verifier::external_body]
fn chrono_format_instant(days: i32, seconds: u32) -> (r: Option<String>)
    ensures
        (match r {
            Some(text) => Some(text@),
            None => None,
        }) == text_of_instant(days, seconds),
{
    let date = NaiveDate::from_num_days_from_ce_opt(days)?;
    let time = NaiveTime::from_num_seconds_from_midnight_opt(seconds, 0)?;
    Some(NaiveDateTime::new(date, time).format("%Y-%m-%dT%H:%M:%S").to_string())
}

/// A calendar date, held as its day number: 1 January of year 1 is day 1.
#[derive(Copy, Clone, Debug, PartialEq, Eq, Structural)]
pub struct Date {
    pub days: i32,
}

impl View for Date {
    type V = int;

    open spec fn view(&self) -> int {
        self.days as int
    }
}

impl Date {
    /// The date with the given day number.
    pub fn from_day_number(days: i32) -> (date: Date)
        ensures
            date@ == days,
    {
        Date { days }
    }

    /// The day number of this date.
    pub fn day_number(&self) -> (days: i32)
        ensures
            days == self@,
    {
        self.days
    }

    /// The date of a year, month and day of month, where the calendar has it.
    pub fn from_ymd(year: i32, month: u32, day: u32) -> (date: Option<Date>)
        ensures
            match civil_day_number(year, month, day) {
                Some(days) => date == Some(Date { days }),
                None => date is None,
            },
    {
        match chrono_day_number(year, month, day) {
            Some(days) => Some(Date { days }),
            None => None,
        }
    }

    /// The weekday of this date, from Monday as 0 to Sunday as 6.
    pub fn weekday(&self) -> (index: u8)
        ensures
            index == weekday_index(self@),
            index < 7,
    {
        // 2_147_483_653 is a multiple of 7 that lifts every day number above zero.
        let lifted: i64 = self.days as i64 + 2_147_483_652;
        let index: i64 = lifted % 7;
        index as u8
    }

    /// The date `n` days after this one, or `None` where the day number would
    /// leave the range of `i32`.
    pub fn checked_add_days(&self, n: u32) -> (later: Option<Date>)
        ensures
            self@ + n <= i32::MAX ==> later == Some(Date { days: (self@ + n) as i32 }),
            self@ + n > i32::MAX ==> later is None,
    {
        let sum: i64 = self.days as i64 + n as i64;
        if sum <= i32::MAX as i64 {
            Some(Date { days: sum as i32 })
        } else {
            None
        }
    }

    /// The date `n` days before this one, or `None` where the day number would
    /// leave the range of `i32`.
    pub fn checked_sub_days(&self, n: u32) -> (earlier: Option<Date>)
        ensures
            self@ - n >= i32::MIN ==> earlier == Some(Date { days: (self@ - n) as i32 }),
            self@ - n < i32::MIN ==> earlier is None,
    {
        let difference: i64 = self.days as i64 - n as i64;
        if difference >= i32::MIN as i64 {
            Some(Date { days: difference as i32 })
        } else {
            None
        }
    }

    /// Reads a date from a text of the form `YYYY-MM-DD`.
    pub fn parse(text: &str) -> (date: Option<Date>)
        ensures
            match date_of_text(text@) {
                Some(days) => date == Some(Date { days }),
                None => date is None,
            },
    {
        match chrono_parse_date(text) {
            Some(days) => Some(Date { days }),
            None => None,
        }
    }

    /// Reads the date that a query names.
    pub fn from_query(text: &str) -> (date: Option<Date>)
        ensures
            match date_of_query(text@) {
                Some(days) => date == Some(Date { days }),
                None => date is None,
            },
    {
        match chrono_read_date(text) {
            Some(days) => Some(Date { days }),
            None => None,
        }
    }

    /// Writes this date as a text of the form `YYYY-MM-DD`; `None` for a day
    /// number that the calendar cannot write.
    pub fn to_text(&self) -> (text: Option<String>)
        ensures
            match text_of_date(self.days) {
                Some(chars) => text is Some && text->0@ == chars,
                None => text is None,
            },
    {
        chrono_format_date(self.days)
    }
}

/// A date and a time of day as numbers: the day number and the seconds since
/// midnight.
pub struct Instant {
    pub day: int,
    pub second: int,
}

/// Seconds from the first instant to the second, which may be negative.
pub open spec fn seconds_between(from: Instant, to: Instant) -> int {
    (to.day - from.day) * SECONDS_PER_DAY + (to.second - from.second)
}

/// A local date and time of day, to the second.
#[derive(Copy, Clone, Debug)]
pub struct Timestamp {
    date: Date,
    seconds: u32,
}

impl View for Timestamp {
    type V = Instant;

    closed spec fn view(&self) -> Instant {
        Instant { day: self.date.days as int, second: self.seconds as int }
    }
}

impl Timestamp {
    #[verifier::type_invariant]
    spec fn in_day(&self) -> bool {
        self.seconds < SECONDS_PER_DAY
    }

    /// The instant `seconds` after midnight on `date`, or `None` where the
    /// seconds do not lie within one day.
    pub fn new(date: Date, seconds: u32) -> (instant: Option<Timestamp>)
        ensures
            seconds < SECONDS_PER_DAY ==> instant is Some && instant->0@ == (Instant {
                day: date@,
                second: seconds as int,
            }),
            seconds >= SECONDS_PER_DAY ==> instant is None,
    {
        if seconds < SECONDS_PER_DAY {
            Some(Timestamp { date, seconds })
        } else {
            None
        }
    }

    /// The instant `seconds` after midnight on `date`.
    pub fn at(date: Date, seconds: u32) -> (instant: Timestamp)
        requires
            seconds < SECONDS_PER_DAY,
        ensures
            instant@ == (Instant { day: date@, second: seconds as int }),
    {
        Timestamp { date, seconds }
    }

    /// The date of this instant.
    pub fn date(&self) -> (date: Date)
        ensures
            date@ == self@.day,
    {
        self.date
    }

    /// The seconds since midnight, always less than a full day.
    pub fn seconds_from_midnight(&self) -> (seconds: u32)
        ensures
            seconds == self@.second,
            seconds < SECONDS_PER_DAY,
    {
        proof {
            use_type_invariant(self);
        }
        self.seconds
    }

    /// The hour of the day, 0 to 23.
    pub fn hour(&self) -> (hour: u32)
        ensures
            hour == self@.second / 3600,
            hour < 24,
    {
        proof {
            use_type_invariant(self);
        }
        self.seconds / 3600
    }

    /// The minute of the hour, 0 to 59.
    pub fn minute(&self) -> (minute: u32)
        ensures
            minute == (self@.second % 3600) / 60,
            minute < 60,
    {
        (self.seconds % 3600) / 60
    }

    /// The time of day as `HHMM`: 100 times the hour plus the minute.
    pub fn hm(&self) -> (hm: u16)
        ensures
            hm == spec_hm(self@.second),
            hm <= 2359,
    {
        let hour: u32 = self.hour();
        let minute: u32 = self.minute();
        (hour * 100 + minute) as u16
    }

    /// The weekday of the date, from Monday as 0 to Sunday as 6.
    pub fn weekday(&self) -> (index: u8)
        ensures
            index == weekday_index(self@.day),
            index < 7,
    {
        self.date.weekday()
    }

    /// Whether this instant is `other` or comes before it.
    pub fn not_after(&self, other: &Timestamp) -> (holds: bool)
        ensures
            holds == (seconds_between(self@, other@) >= 0),
    {
        proof {
            use_type_invariant(self);
            use_type_invariant(other);
        }
        self.date.days < other.date.days || (self.date.days == other.date.days && self.seconds
            <= other.seconds)
    }

    /// Whole weeks from `earlier` to this instant; zero when `earlier` is not
    /// earlier.
    pub fn weeks_since(&self, earlier: &Timestamp) -> (weeks: u32)
        ensures
            weeks == whole_weeks(seconds_between(earlier@, self@)),
    {
        proof {
            use_type_invariant(self);
            use_type_invariant(earlier);
        }
        let days: i64 = self.date.days as i64 - earlier.date.days as i64;
        let elapsed: i64 = days * (SECONDS_PER_DAY as i64) + (self.seconds as i64
            - earlier.seconds as i64);
        if elapsed <= 0 {
            0
        } else {
            (elapsed / (SECONDS_PER_WEEK as i64)) as u32
        }
    }

    /// Reads an instant from a text of the form `YYYY-MM-DDTHH:MM:SS`.
    pub fn parse(text: &str) -> (instant: Option<Timestamp>)
        ensures
            match instant_of_text(text@) {
                Some(pair) => instant is Some && instant->0@ == (Instant {
                    day: pair.0 as int,
                    second: pair.1 as int,
                }),
                None => instant is None,
            },
    {
        match chrono_parse_instant(text) {
            Some(pair) => Some(Timestamp { date: Date { days: pair.0 }, seconds: pair.1 }),
            None => None,
        }
    }

    /// Reads the instant that a query names.
    pub fn from_query(text: &str) -> (instant: Option<Timestamp>)
        ensures
            match instant_of_query(text@) {
                Some(pair) => instant is Some && instant->0@ == (Instant {
                    day: pair.0 as int,
                    second: pair.1 as int,
                }),
                None => instant is None,
            },
    {
        match chrono_read_instant(text) {
            Some(pair) => Some(Timestamp { date: Date { days: pair.0 }, seconds: pair.1 }),
            None => None,
        }
    }

    /// The same time of day on the next date; `None` where no day number is
    /// left for it.
    pub fn next_day(&self) -> (later: Option<Timestamp>)
        ensures
            self@.day < i32::MAX ==> later is Some && later->0@ == (Instant {
                day: self@.day + 1,
                second: self@.second,
            }),
            self@.day >= i32::MAX ==> later is None,
    {
        proof {
            use_type_invariant(self);
        }
        match self.date.checked_add_days(1) {
            Some(date) => Some(Timestamp { date, seconds: self.seconds }),
            None => None,
        }
    }

    /// Writes this instant as a text of the form `YYYY-MM-DDTHH:MM:SS`; `None`
    /// for a date that the calendar cannot write.
    pub fn to_text(&self) -> (text: Option<String>)
        ensures
            match text_of_instant(self@.day as i32, self@.second as u32) {
                Some(chars) => text is Some && text->0@ == chars,
                None => text is None,
            },
    {
        chrono_format_instant(self.date.days, self.seconds)
    }
}

/// The time of day as `HHMM` for a number of seconds since midnight.
pub open spec fn spec_hm(seconds: int) -> int {
    (seconds / 3600) * 100 + (seconds % 3600) / 60
}

} // verus!
