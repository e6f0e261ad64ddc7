use super::calendar::{spec_hm, weekday_index, Timestamp};
use super::daily::Daily;
use vstd::prelude::*;

verus! {

/// Seconds since midnight of a clock time encoded as `HHMM`.
pub open spec fn hm_seconds(hm: int) -> int {
    (hm / 100) * 3600 + (hm % 100) * 60
}

/// Whether a venue with the given week is open at `hm` on weekday `weekday`:
/// the day is open, and `hm` lies from its opening to its closing, both
/// inclusive.
pub open spec fn open_at(week: Seq<Daily>, weekday: int, hm: int) -> bool {
    let day = week[weekday];
    &&& day.spec_open()
    &&& day.spec_opening() matches Some(opening)
    &&& day.spec_closing() matches Some(closing)
    &&& opening <= hm <= closing
}

/// The weekly opening hours of a venue: one `Daily` for each weekday, Monday
/// first. A new schedule is closed all week; days are then given in weekday
/// order, up to seven of them.
#[derive(Copy, Clone, Debug)]
pub struct Schedule {
    timings: [Daily; 7],
    count: usize,
    standard_interval_min: u16,
}

/// A venue is not open at any time of a day on which it stays closed.
pub proof fn lemma_closed_day_is_never_open(week: Seq<Daily>, weekday: int, hm: int)
    requires
        !week[weekday].spec_open(),
    ensures
        !open_at(week, weekday, hm),
{
}

/// On an open day a venue is open from its opening to its closing, both
/// included, and at no other time: not a minute before, nor a minute after.
pub proof fn lemma_open_day_is_open_within_its_hours(
    week: Seq<Daily>,
    weekday: int,
    hm: int,
    opening: u16,
    closing: u16,
)
    requires
        week[weekday] == Daily::open_day(opening, closing),
    ensures
        open_at(week, weekday, hm) <==> opening <= hm <= closing,
        open_at(week, weekday, opening as int) <==> opening <= closing,
        open_at(week, weekday, closing as int) <==> opening <= closing,
        !open_at(week, weekday, opening - 1),
        !open_at(week, weekday, closing + 1),
{
    Daily::lemma_open_day(opening, closing);
}

impl Schedule {
    #[verifier::type_invariant]
    spec fn within_week(&self) -> bool {
        self.count <= 7
    }

    /// The seven days of the week, Monday first.
    pub closed spec fn week(&self) -> Seq<Daily> {
        self.timings@
    }

    /// How many days have been given so far.
    pub closed spec fn filled(&self) -> nat {
        self.count as nat
    }

    /// The interval between two polls of the venue, in minutes.
    pub closed spec fn interval_minutes(&self) -> u16 {
        self.standard_interval_min
    }

    /// The schedule with no day given yet.
    pub closed spec fn empty() -> Schedule {
        Schedule {
            timings: [
                Daily::closed_day(),
                Daily::closed_day(),
                Daily::closed_day(),
                Daily::closed_day(),
                Daily::closed_day(),
                Daily::closed_day(),
                Daily::closed_day(),
            ],
            count: 0,
            standard_interval_min: 5,
        }
    }

    /// This schedule after the next weekday was given its hours; the same
    /// schedule where all seven days had been given.
    pub closed spec fn with(self, timing: Daily) -> Schedule {
        if self.count >= 7 {
            self
        } else {
            Schedule {
                timings: vstd::array::spec_array_update(self.timings, self.count as int, timing),
                count: (self.count + 1) as usize,
                standard_interval_min: self.standard_interval_min,
            }
        }
    }

    /// A schedule with no day given yet: closed on every weekday.
    pub fn new() -> (schedule: Self)
        ensures
            schedule == Schedule::empty(),
            schedule.filled() == 0,
            schedule.week().len() == 7,
            schedule.interval_minutes() == 5,
            forall|i: int| 0 <= i < 7 ==> !(#[trigger] schedule.week()[i]).spec_open(),
            forall|i: int| 0 <= i < 7 ==> (#[trigger] schedule.week()[i]).spec_opening() is None,
            forall|i: int| 0 <= i < 7 ==> (#[trigger] schedule.week()[i]).spec_closing() is None,
    {
        let closed = Daily::new_closed();
        Self {
            timings: [closed, closed, closed, closed, closed, closed, closed],
            count: 0,
            standard_interval_min: 5,
        }
    }

    /// Gives the next weekday its hours. Fails, leaving the schedule as it
    /// was, when all seven days have been given.
    pub fn add_timing(&mut self, timing: Daily) -> (outcome: Result<(), ()>)
        ensures
            *final(self) == old(self).with(timing),
            final(self).week().len() == 7,
            final(self).interval_minutes() == old(self).interval_minutes(),
            old(self).filled() < 7 ==> outcome is Ok
                && final(self).filled() == old(self).filled() + 1
                && final(self).week() == old(self).week().update(old(self).filled() as int, timing),
            old(self).filled() >= 7 ==> outcome is Err && *final(self) == *old(self),
    {
        proof {
            use_type_invariant(&*self);
        }
        if self.count >= 7 {
            return Err(());
        }
        self.timings[self.count] = timing;
        self.count += 1;
        Ok(())
    }

    /// How many days have been given so far.
    pub fn count(&self) -> (count: usize)
        ensures
            count == self.filled(),
            count <= 7,
    {
        proof {
            use_type_invariant(self);
        }
        self.count
    }

    /// The interval between two polls of the venue, in minutes.
    pub fn standard_interval_min(&self) -> (minutes: u16)
        ensures
            minutes == self.interval_minutes(),
    {
        self.standard_interval_min
    }

    /// The seven days of the week, Monday first.
    pub fn get_timings(&self) -> (timings: [Daily; 7])
        ensures
            timings@ == self.week(),
    {
        self.timings
    }

    /// The hours of one weekday, Monday being 0.
    pub fn timing(&self, weekday: u8) -> (day: Daily)
        requires
            weekday < 7,
        ensures
            day == self.week()[weekday as int],
    {
        self.timings[weekday as usize]
    }

    /// Whether the venue is open at `timestamp`. The closing minute itself
    /// still counts as open.
    pub fn is_open(&self, timestamp: Timestamp) -> (open: bool)
        ensures
            open == open_at(self.week(), weekday_index(timestamp@.day), spec_hm(timestamp@.second)),
    {
        let weekday: u8 = timestamp.weekday();
        let daily: Daily = self.timings[weekday as usize];
        if !daily.open() {
            return false;
        }
        let hm: u16 = timestamp.hm();
        match (daily.opening(), daily.closing()) {
            (Some(opening), Some(closing)) => opening <= hm && hm <= closing,
            _ => false,
        }
    }

    /// Seconds since midnight of a clock time encoded as `HHMM`.
    pub fn convert_hm_to_sec(hm: u16) -> (seconds: u64)
        ensures
            seconds == hm_seconds(hm as int),
    {
        let minutes: u64 = (hm % 100) as u64;
        let hours: u64 = (hm / 100) as u64;
        hours * 3600 + minutes * 60
    }
}

} // verus!
