use crate::pattern::{
    all_matches, first_match, group, group_text, group_texts, match_texts, regex_captures,
    regex_captures_all, Groups,
};
use crate::scraper::scraper::Scrape;
use crate::text::{chars_of, decimal, lowercase, lowercase_of, parse_u16};
use crate::timing::calendar::{date_of_text, Date};
use crate::timing::daily::{Daily, LAST_MINUTE};
use crate::timing::schedule::Schedule;
use vstd::prelude::*;
use vstd::string::StringExecFns;

verus! {

/// The pattern that finds the occupancy in the page of the gym.
pub const OCCUPANCY_PATTERN: &'static str = "Occupancy:\\s+(\\d+)%";

/// The pattern that finds each day's hours in the page of the gym.
pub const SCHEDULE_PATTERN: &'static str = "<dd class=\"paired-values-list__value\">(.*?)</dd>";

/// The pattern that finds the opening and the closing in a day's hours.
pub const ENTRY_PATTERN: &'static str = "(.*)\\sto\\s(.*)|CLOSED";

/// The pattern that finds the hour, the minute and the half of the day in a
/// time.
pub const TIME_PATTERN: &'static str = "(\\d+).(\\d+)(.*)";

/// A number as a clock time, where it is small enough to be written as one.
pub open spec fn fits(value: nat) -> Option<u16> {
    if value <= u16::MAX {
        Some(value as u16)
    } else {
        None
    }
}

/// The clock time `HHMM` of an hour and a minute in a half of the day: as
/// they are before noon, twelve hours later after noon, and 0 where the half
/// is neither.
pub open spec fn clock_time(hour: nat, minute: nat, half: Seq<char>) -> Option<u16> {
    if half == "am"@ {
        fits(hour * 100 + minute)
    } else if half == "pm"@ {
        fits((hour + 12) * 100 + minute)
    } else {
        Some(0)
    }
}

/// The clock time that a text such as `6.30am` states; `None` where it states
/// none.
pub open spec fn gym_time(text: Seq<char>) -> Option<u16> {
    match first_match(TIME_PATTERN@, text) {
        None => None,
        Some(groups) => match (
            group_text(groups, 1),
            group_text(groups, 2),
            group_text(groups, 3),
        ) {
            (Some(hour), Some(minute), Some(half)) => match (
                decimal(hour, 65_535),
                decimal(minute, 65_535),
            ) {
                (Some(h), Some(m)) => clock_time(h, m, lowercase_of(half)),
                _ => None,
            },
            _ => None,
        },
    }
}

/// The open day that two clock times bound; `None` where they bound none.
pub open spec fn day_between(opening: Option<u16>, closing: Option<u16>) -> Option<Daily> {
    match (opening, closing) {
        (Some(from), Some(to)) => if from <= to <= LAST_MINUTE {
            Some(Daily::open_day(from, to))
        } else {
            None
        },
        _ => None,
    }
}

/// The day that the hours of one weekday state; `None` where they cannot be
/// read.
pub open spec fn gym_day(hours: Seq<char>) -> Option<Daily> {
    match first_match(ENTRY_PATTERN@, hours) {
        None => None,
        Some(groups) => match group_text(groups, 1) {
            None => None,
            Some(opening) => if opening == "CLOSED"@ {
                Some(Daily::closed_day())
            } else {
                match group_text(groups, 2) {
                    None => None,
                    Some(closing) => day_between(gym_time(opening), gym_time(closing)),
                }
            },
        },
    }
}

/// The schedule that the hours found in a page state, weekday after weekday;
/// `None` where the hours of a weekday cannot be read.
pub open spec fn gym_week(found: Seq<Seq<Option<Seq<char>>>>) -> Option<Schedule>
    decreases found.len(),
{
    if found.len() == 0 {
        Some(Schedule::empty())
    } else {
        match (gym_week(found.drop_last()), group_text(found.last(), 1)) {
            (Some(schedule), Some(hours)) => match gym_day(hours) {
                Some(day) => Some(schedule.with(day)),
                None => None,
            },
            _ => None,
        }
    }
}

/// The occupancy that the page of the gym states.
pub open spec fn gym_occupancy(body: Seq<char>) -> Option<u16> {
    match first_match(OCCUPANCY_PATTERN@, body) {
        None => None,
        Some(groups) => match decimal(
            match group_text(groups, 1) {
                Some(digits) => digits,
                None => "0"@,
            },
            65_535,
        ) {
            Some(value) => Some(value as u16),
            None => None,
        },
    }
}

/// The gym: where its page is, and how far its forecast reaches.
pub struct Gym {
    url: String,
    user_agent: String,
    last_scraped: Option<Date>,
}

impl Gym {
    /// Where the page of the gym is.
    pub closed spec fn spec_url(&self) -> Seq<char> {
        self.url@
    }

    /// By what name the page is asked for.
    pub closed spec fn spec_user_agent(&self) -> Seq<char> {
        self.user_agent@
    }

    /// The last date through which a forecast has been computed.
    pub closed spec fn spec_last_scraped(&self) -> Option<Date> {
        self.last_scraped
    }

    /// The gym, with the date through which its forecast was computed as it
    /// was kept, in the form `YYYY-MM-DD`. A text that is no date counts as
    /// none kept.
    pub fn new(last_scraped: Option<String>) -> (gym: Self)
        ensures
            gym.spec_url() == "https://sport.wp.st-andrews.ac.uk/"@,
            gym.spec_user_agent() == "Mozilla/5.0"@,
            gym.spec_last_scraped() == match last_scraped {
                Some(text) => match date_of_text(text@) {
                    Some(days) => Some(Date { days }),
                    None => None,
                },
                None => None,
            },
    {
        let last: Option<Date> = match last_scraped {
            Some(text) => Date::parse(text.as_str()),
            None => None,
        };
        Self {
            url: String::from_str("https://sport.wp.st-andrews.ac.uk/"),
            user_agent: String::from_str("Mozilla/5.0"),
            last_scraped: last,
        }
    }

    /// Where the page of the gym is.
    pub fn url(&self) -> (url: &String)
        ensures
            url@ == self.spec_url(),
    {
        &self.url
    }

    /// By what name the page is asked for.
    pub fn user_agent(&self) -> (agent: &String)
        ensures
            agent@ == self.spec_user_agent(),
    {
        &self.user_agent
    }

    /// Reads a clock time such as `6.30am` as `HHMM`.
    pub fn parse_timings(&self, string: &str) -> (time: Option<u16>)
        ensures
            time == gym_time(string@),
    {
        let groups: Groups = match regex_captures(TIME_PATTERN, string) {
            Some(groups) => groups,
            None => {
                return None;
            },
        };
        let (hour_text, minute_text, half_text) = match (
            group(&groups, 1),
            group(&groups, 2),
            group(&groups, 3),
        ) {
            (Some(hour), Some(minute), Some(half)) => (hour, minute, half),
            _ => {
                return None;
            },
        };
        let hour: u32 = match parse_u16(&chars_of(hour_text.as_str())) {
            Some(hour) => hour as u32,
            None => {
                return None;
            },
        };
        let minute: u32 = match parse_u16(&chars_of(minute_text.as_str())) {
            Some(minute) => minute as u32,
            None => {
                return None;
            },
        };
        let half: String = lowercase(half_text.as_str());
        let value: u32 = if half == String::from_str("am") {
            hour * 100 + minute
        } else if half == String::from_str("pm") {
            (hour + 12) * 100 + minute
        } else {
            0
        };
        if value <= 65_535 {
            Some(value as u16)
        } else {
            None
        }
    }

    /// Reads the hours of one weekday.
    fn parse_day(&self, hours: &str) -> (day: Option<Daily>)
        ensures
            day == gym_day(hours@),
    {
        let groups: Groups = match regex_captures(ENTRY_PATTERN, hours) {
            Some(groups) => groups,
            None => {
                return None;
            },
        };
        let opening: &String = match group(&groups, 1) {
            Some(opening) => opening,
            None => {
                return None;
            },
        };
        if opening.clone() == String::from_str("CLOSED") {
            return Some(Daily::new_closed());
        }
        let closing: &String = match group(&groups, 2) {
            Some(closing) => closing,
            None => {
                return None;
            },
        };
        match (self.parse_timings(opening.as_str()), self.parse_timings(closing.as_str())) {
            (Some(from), Some(to)) => Daily::try_new_open(from, to),
            _ => None,
        }
    }
}

impl Scrape for Gym {
    open spec fn occupancy_in(&self, body: Seq<char>) -> Option<u16> {
        gym_occupancy(body)
    }

    open spec fn schedule_in(&self, body: Seq<char>) -> Option<Schedule> {
        gym_week(all_matches(SCHEDULE_PATTERN@, body))
    }

    open spec fn last_updated(&self) -> Option<Date> {
        self.spec_last_scraped()
    }

    open spec fn table() -> Seq<char> {
        "gym"@
    }

    fn table_name() -> (name: String) {
        String::from_str("gym")
    }

    fn parse_occupancy(&self, body: &str) -> (occupancy: Option<u16>) {
        let groups: Groups = match regex_captures(OCCUPANCY_PATTERN, body) {
            Some(groups) => groups,
            None => {
                return None;
            },
        };
        match group(&groups, 1) {
            Some(digits) => parse_u16(&chars_of(digits.as_str())),
            None => parse_u16(&chars_of("0")),
        }
    }

    fn parse_schedule(&self, body: &str) -> (schedule: Option<Schedule>) {
        let found: Vec<Groups> = regex_captures_all(SCHEDULE_PATTERN, body);
        let mut schedule: Schedule = Schedule::new();
        let mut i: usize = 0;
        while i < found.len()
            invariant
                i <= found.len(),
                match_texts(found@) == all_matches(SCHEDULE_PATTERN@, body@),
                gym_week(match_texts(found@).take(i as int)) == Some(schedule),
            decreases found.len() - i,
        {
            proof {
                let all = match_texts(found@);
                assert(all.take(i + 1).drop_last() == all.take(i as int));
            }
            let hours: &String = match group(&found[i], 1) {
                Some(hours) => hours,
                None => {
                    proof {
                        lemma_unreadable_week(match_texts(found@), i as int + 1);
                    }
                    return None;
                },
            };
            match self.parse_day(hours.as_str()) {
                Some(day) => {
                    let _ = schedule.add_timing(day);
                },
                None => {
                    proof {
                        lemma_unreadable_week(match_texts(found@), i as int + 1);
                    }
                    return None;
                },
            }
            i += 1;
        }
        assert(match_texts(found@).take(found.len() as int) == match_texts(found@));
        Some(schedule)
    }

    fn get_last_updated(&self) -> (last: Option<Date>) {
        self.last_scraped
    }

    fn set_last_updated(&mut self, last_updated: Date) {
        self.last_scraped = Some(last_updated);
    }
}

/// A week cannot be read where a part of it cannot.
proof fn lemma_unreadable_week(found: Seq<Seq<Option<Seq<char>>>>, n: int)
    requires
        0 <= n <= found.len(),
        gym_week(found.take(n)) is None,
    ensures
        gym_week(found) is None,
    decreases found.len() - n,
{
    if n < found.len() {
        assert(found.take(n + 1).drop_last() == found.take(n));
        lemma_unreadable_week(found, n + 1);
    } else {
        assert(found.take(n) == found);
    }
}

} // verus!
