use super::gym::{day_between, fits, SCHEDULE_PATTERN};
use crate::pattern::{
    all_matches, first_match, group, group_text, group_texts, match_texts, regex_captures,
    regex_captures_all, Groups,
};
use crate::scraper::scraper::Scrape;
use crate::text::{chars_of, decimal, parse_u16};
use crate::timing::calendar::{date_of_text, Date};
use crate::timing::daily::Daily;
use crate::timing::schedule::Schedule;
use vstd::prelude::*;
use vstd::string::StringExecFns;

verus! {

/// The pattern that finds the opening and the closing in a day's hours, each
/// an hour and a half of the day.
pub const ENTRY_PATTERN: &'static str = "(\\d+)(\\w+)\\sto\\s(\\d+)(\\w+)|CLOSED";

/// How many weekdays of hours are read from the page at most.
pub const DAYS_READ: usize = 7;

/// The number that a reading of the library's counter holds under a key;
/// `None` where the reading is no JSON object, or holds no whole number that
/// is not negative under the key.
pub uninterp spec fn counter_field(body: Seq<char>, key: Seq<char>) -> Option<u64>;

/// Reads the text with `serde_json::from_str` as a `serde_json::Value`, looks
/// the key up with `Value::get`, and takes the number found with
/// `Value::as_u64`. Nothing is claimed of the outcome but that it is a
/// function of the text and the key.
#[verifier::external_body]
fn json_number(body: &str, key: &str) -> (number: Option<u64>)
    ensures
        number == counter_field(body@, key@),
{
    let value: serde_json::Value = serde_json::from_str(body).ok()?;
    value.get(key)?.as_u64()
}

/// The number of 32 bits that a reading holds under a key.
pub open spec fn counter(body: Seq<char>, key: Seq<char>) -> Option<u32> {
    match counter_field(body, key) {
        Some(value) => if value <= u32::MAX {
            Some(value as u32)
        } else {
            None
        },
        None => None,
    }
}

/// The occupancy in percent of a room of `capacity` that holds `total`,
/// rounded down; `None` for a room without capacity, and for more than 65535
/// percent.
pub open spec fn percent_of(total: u32, capacity: u32) -> Option<u16> {
    if capacity == 0 {
        None
    } else {
        fits((total as nat * 100) / (capacity as nat))
    }
}

/// The occupancy that a reading of the library's counter states: its total in
/// percent of its capacity, where it holds all five counts.
pub open spec fn library_occupancy(body: Seq<char>) -> Option<u16> {
    match (
        counter(body, "staff"@),
        counter(body, "other"@),
        counter(body, "student"@),
        counter(body, "total"@),
        counter(body, "capacity"@),
    ) {
        (Some(_), Some(_), Some(_), Some(total), Some(capacity)) => percent_of(total, capacity),
        _ => None,
    }
}

/// The clock time `HHMM` of a full hour in a half of the day: as it is before
/// noon, twelve hours later after noon, and 0 where the half is neither.
pub open spec fn library_time(hour: Seq<char>, half: Seq<char>) -> Option<u16> {
    match decimal(hour, 65_535) {
        Some(h) => if half == "am"@ {
            fits(h * 100)
        } else if half == "pm"@ {
            fits((h + 12) * 100)
        } else {
            Some(0)
        },
        None => None,
    }
}

/// The day that the hours of one weekday state; `None` where they cannot be
/// read.
pub open spec fn library_day(hours: Seq<char>) -> Option<Daily> {
    match first_match(ENTRY_PATTERN@, hours) {
        None => None,
        Some(groups) => match group_text(groups, 1) {
            None => None,
            Some(opening) => if opening == "CLOSED"@ {
                Some(Daily::closed_day())
            } else {
                match (group_text(groups, 2), group_text(groups, 3), group_text(groups, 4)) {
                    (Some(opening_half), Some(closing), Some(closing_half)) => day_between(
                        library_time(opening, opening_half),
                        library_time(closing, closing_half),
                    ),
                    _ => None,
                }
            },
        },
    }
}

/// The schedule that the hours found in a page state, weekday after weekday;
/// `None` where the hours of a weekday cannot be read.
pub open spec fn library_week(found: Seq<Seq<Option<Seq<char>>>>) -> Option<Schedule>
    decreases found.len(),
{
    if found.len() == 0 {
        Some(Schedule::empty())
    } else {
        match (library_week(found.drop_last()), group_text(found.last(), 1)) {
            (Some(schedule), Some(hours)) => match library_day(hours) {
                Some(day) => Some(schedule.with(day)),
                None => None,
            },
            _ => None,
        }
    }
}

/// The hours that are read from a page: the first seven that are found.
pub open spec fn hours_read(found: Seq<Seq<Option<Seq<char>>>>) -> Seq<Seq<Option<Seq<char>>>> {
    if found.len() <= DAYS_READ {
        found
    } else {
        found.take(DAYS_READ as int)
    }
}

/// A week cannot be read where a part of it cannot.
proof fn lemma_unreadable_week(found: Seq<Seq<Option<Seq<char>>>>, n: int)
    requires
        0 <= n <= found.len(),
        library_week(found.take(n)) is None,
    ensures
        library_week(found) is None,
    decreases found.len() - n,
{
    if n < found.len() {
        assert(found.take(n + 1).drop_last() == found.take(n));
        lemma_unreadable_week(found, n + 1);
    } else {
        assert(found.take(n) == found);
    }
}

/// The main library: where its counter and its page are, and how far its
/// forecast reaches.
pub struct MainLibrary {
    url: String,
    schedule_url: String,
    user_agent: String,
    last_scraped: Option<Date>,
}

impl MainLibrary {
    /// Where the counter of the library is.
    pub closed spec fn spec_url(&self) -> Seq<char> {
        self.url@
    }

    /// Where the page with the opening hours is.
    pub closed spec fn spec_schedule_url(&self) -> Seq<char> {
        self.schedule_url@
    }

    /// By what name the two are asked for.
    pub closed spec fn spec_user_agent(&self) -> Seq<char> {
        self.user_agent@
    }

    /// The last date through which a forecast has been computed.
    pub closed spec fn spec_last_scraped(&self) -> Option<Date> {
        self.last_scraped
    }

    /// The library, with the date through which its forecast was computed as
    /// it was kept, in the form `YYYY-MM-DD`. A text that is no date counts as
    /// none kept.
    pub fn new(last_scraped: Option<String>) -> (library: Self)
        ensures
            library.spec_url()
                == "https://www.st-andrews.ac.uk/library/sentry-api/current-occupancy"@,
            library.spec_schedule_url() == "https://www.st-andrews.ac.uk/library/"@,
            library.spec_user_agent() == "Mozilla/5.0"@,
            library.spec_last_scraped() == match last_scraped {
                Some(text) => match date_of_text(text@) {
                    Some(days) => Some(Date { days }),
                    None => None,
                },
                None => None,
            },
    {
        let last: Option<Date> = match last_scraped {
            Some(text) => Date::parse(text.as_str()),
            None => None,
        };
        Self {
            url: String::from_str(
                "https://www.st-andrews.ac.uk/library/sentry-api/current-occupancy",
            ),
            schedule_url: String::from_str("https://www.st-andrews.ac.uk/library/"),
            user_agent: String::from_str("Mozilla/5.0"),
            last_scraped: last,
        }
    }

    /// Where the counter of the library is.
    pub fn url(&self) -> (url: &String)
        ensures
            url@ == self.spec_url(),
    {
        &self.url
    }

    /// Where the page with the opening hours is.
    pub fn schedule_url(&self) -> (url: &String)
        ensures
            url@ == self.spec_schedule_url(),
    {
        &self.schedule_url
    }

    /// By what name the two are asked for.
    pub fn user_agent(&self) -> (agent: &String)
        ensures
            agent@ == self.spec_user_agent(),
    {
        &self.user_agent
    }

    /// The occupancy in percent of a room of `capacity` that holds `total`.
    pub fn occupancy_percent(total: u32, capacity: u32) -> (percent: Option<u16>)
        ensures
            percent == percent_of(total, capacity),
    {
        if capacity == 0 {
            return None;
        }
        let value: u64 = (total as u64 * 100) / (capacity as u64);
        if value <= 65_535 {
            Some(value as u16)
        } else {
            None
        }
    }

    /// Reads one count of a reading of the counter.
    fn count(body: &str, key: &str) -> (count: Option<u32>)
        ensures
            count == counter(body@, key@),
    {
        match json_number(body, key) {
            Some(value) => if value <= 0xFFFF_FFFF {
                Some(value as u32)
            } else {
                None
            },
            None => None,
        }
    }

    /// Reads a full hour in a half of the day as `HHMM`.
    pub fn parse_timings(&self, string: &str, ampm: &str) -> (time: Option<u16>)
        ensures
            time == library_time(string@, ampm@),
    {
        let hour: u32 = match parse_u16(&chars_of(string)) {
            Some(hour) => hour as u32,
            None => {
                return None;
            },
        };
        let half: String = String::from_str(ampm);
        let value: u32 = if half == String::from_str("am") {
            hour * 100
        } else if half == String::from_str("pm") {
            (hour + 12) * 100
        } else {
            0
        };
        if value <= 65_535 {
            Some(value as u16)
        } else {
            None
        }
    }

    /// Reads the hours of one weekday.
    fn parse_day(&self, hours: &str) -> (day: Option<Daily>)
        ensures
            day == library_day(hours@),
    {
        let groups: Groups = match regex_captures(ENTRY_PATTERN, hours) {
            Some(groups) => groups,
            None => {
                return None;
            },
        };
        let opening: &String = match group(&groups, 1) {
            Some(opening) => opening,
            None => {
                return None;
            },
        };
        if opening.clone() == String::from_str("CLOSED") {
            return Some(Daily::new_closed());
        }
        let (opening_half, closing, closing_half) = match (
            group(&groups, 2),
            group(&groups, 3),
            group(&groups, 4),
        ) {
            (Some(opening_half), Some(closing), Some(closing_half)) => (
                opening_half,
                closing,
                closing_half,
            ),
            _ => {
                return None;
            },
        };
        match (
            self.parse_timings(opening.as_str(), opening_half.as_str()),
            self.parse_timings(closing.as_str(), closing_half.as_str()),
        ) {
            (Some(from), Some(to)) => Daily::try_new_open(from, to),
            _ => None,
        }
    }
}

impl Scrape for MainLibrary {
    open spec fn occupancy_in(&self, body: Seq<char>) -> Option<u16> {
        library_occupancy(body)
    }

    open spec fn schedule_in(&self, body: Seq<char>) -> Option<Schedule> {
        library_week(hours_read(all_matches(SCHEDULE_PATTERN@, body)))
    }

    open spec fn last_updated(&self) -> Option<Date> {
        self.spec_last_scraped()
    }

    open spec fn table() -> Seq<char> {
        "main_library"@
    }

    fn table_name() -> (name: String) {
        String::from_str("main_library")
    }

    fn parse_occupancy(&self, body: &str) -> (occupancy: Option<u16>) {
        match (
            Self::count(body, "staff"),
            Self::count(body, "other"),
            Self::count(body, "student"),
            Self::count(body, "total"),
            Self::count(body, "capacity"),
        ) {
            (Some(_), Some(_), Some(_), Some(total), Some(capacity)) => Self::occupancy_percent(
                total,
                capacity,
            ),
            _ => None,
        }
    }

    fn parse_schedule(&self, body: &str) -> (schedule: Option<Schedule>) {
        let found: Vec<Groups> = regex_captures_all(SCHEDULE_PATTERN, body);
        let read: usize = if found.len() <= DAYS_READ {
            found.len()
        } else {
            DAYS_READ
        };
        let ghost taken = hours_read(match_texts(found@));
        let mut schedule: Schedule = Schedule::new();
        let mut i: usize = 0;
        while i < read
            invariant
                i <= read <= found.len(),
                taken == match_texts(found@).take(read as int),
                taken == hours_read(all_matches(SCHEDULE_PATTERN@, body@)),
                library_week(taken.take(i as int)) == Some(schedule),
            decreases read - i,
        {
            proof {
                assert(taken.take(i + 1).drop_last() == taken.take(i as int));
            }
            let hours: &String = match group(&found[i], 1) {
                Some(hours) => hours,
                None => {
                    proof {
                        lemma_unreadable_week(taken, i as int + 1);
                    }
                    return None;
                },
            };
            match self.parse_day(hours.as_str()) {
                Some(day) => {
                    let _ = schedule.add_timing(day);
                },
                None => {
                    proof {
                        lemma_unreadable_week(taken, i as int + 1);
                    }
                    return None;
                },
            }
            i += 1;
        }
        assert(taken.take(read as int) == taken);
        Some(schedule)
    }

    fn get_last_updated(&self) -> (last: Option<Date>) {
        self.last_scraped
    }

    fn set_last_updated(&mut self, last_updated: Date) {
        self.last_scraped = Some(last_updated);
    }
}

} // verus!
