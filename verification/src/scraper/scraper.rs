use super::refresh::{refresh_window, Window, FORECAST_DAYS};
use crate::database::store::{Observation, SourceState};
use crate::timing::calendar::{spec_hm, weekday_index, Date, Timestamp};
use crate::timing::schedule::{open_at, Schedule};
use vstd::prelude::*;

verus! {

/// Seconds that a venue's loop rests between two cycles.
pub const SLEEP_SECONDS: u64 = 300;

/// What one venue has to offer to be polled: how its pages are read, under
/// which name its readings are stored, and how far its forecast reaches.
pub trait Scrape {
    /// The occupancy that a page states, if it states one.
    spec fn occupancy_in(&self, body: Seq<char>) -> Option<u16>;

    /// The opening hours that a page states, if it states them.
    spec fn schedule_in(&self, body: Seq<char>) -> Option<Schedule>;

    /// The last date through which a forecast has been computed.
    spec fn last_updated(&self) -> Option<Date>;

    /// The name under which the readings of the venue are stored.
    spec fn table() -> Seq<char>;

    /// The name under which the readings of the venue are stored.
    fn table_name() -> (name: String)
        ensures
            name@ == Self::table(),
    ;

    /// Reads the occupancy from a page.
    fn parse_occupancy(&self, body: &str) -> (occupancy: Option<u16>)
        ensures
            occupancy == self.occupancy_in(body@),
    ;

    /// Reads the opening hours from a page.
    fn parse_schedule(&self, body: &str) -> (schedule: Option<Schedule>)
        ensures
            schedule == self.schedule_in(body@),
    ;

    /// The last date through which a forecast has been computed.
    fn get_last_updated(&self) -> (last: Option<Date>)
        ensures
            last == self.last_updated(),
    ;

    /// Records the date through which a forecast has been computed.
    fn set_last_updated(&mut self, last_updated: Date)
        ensures
            final(self).last_updated() == Some(last_updated),
            forall|body: Seq<char>| final(self).occupancy_in(body) == old(self).occupancy_in(body),
            forall|body: Seq<char>| final(self).schedule_in(body) == old(self).schedule_in(body),
    ;

    /// Reads a fetched page at the time `now`: what it states of the
    /// occupancy and of the opening hours, as the event that a venue's loop
    /// waits for after a fetch.
    fn scrape(&self, data: &str, now: Timestamp) -> (event: Event)
        ensures
            event == (Event::Extracted {
                occupancy: self.occupancy_in(data@),
                schedule: self.schedule_in(data@),
                now,
            }),
    {
        Event::Extracted {
            occupancy: self.parse_occupancy(data),
            schedule: self.parse_schedule(data),
            now,
        }
    }
}

/// Where a venue's loop stands in its cycle.
#[derive(Copy, Clone, Debug, PartialEq, Eq, Structural)]
pub enum Phase {
    /// Waiting for the venue's page.
    Fetching,
    /// Waiting for what the page states.
    Extracting,
    /// Waiting for the reading to be stored.
    Persisting,
    /// Waiting for today's date, to see whether the forecast reaches far
    /// enough.
    RefreshCheck,
    /// Waiting for the forecast of the window to be computed and stored.
    Refreshing,
    /// Resting until the next cycle.
    Sleeping,
}

/// What has happened outside since the last step of a venue's loop.
#[derive(Copy, Clone, Debug)]
pub enum Event {
    /// The rest is over.
    Woke,
    /// The page could not be fetched.
    FetchFailed,
    /// The page was fetched.
    Fetched,
    /// The page was read at the time `now`.
    Extracted { occupancy: Option<u16>, schedule: Option<Schedule>, now: Timestamp },
    /// The reading was stored, or could not be.
    Persisted { written: bool },
    /// The clock was read.
    Clock { now: Timestamp },
    /// The forecast of the window was computed and stored, or one of the two
    /// failed and nothing was stored.
    Refreshed { committed: bool },
}

/// What is to be done outside before the next step of a venue's loop.
#[derive(Copy, Clone, Debug)]
pub enum Action {
    /// Fetch the venue's page.
    Fetch,
    /// Read the fetched page.
    Extract,
    /// Store a reading.
    Persist(Observation),
    /// Read the clock.
    ReadClock,
    /// Compute the forecast of the dates from `from` to `to` and store it in
    /// place of what is stored for them; with `long_horizon`, have the
    /// longer-horizon model forecast the same dates too.
    Refresh { from: Date, to: Date, long_horizon: bool },
    /// Rest.
    Sleep { seconds: u64 },
}

/// The loop of one venue: where it stands, and what it carries through a
/// cycle.
#[derive(Copy, Clone, Debug)]
pub struct Scraper {
    /// Where the loop stands.
    pub phase: Phase,
    /// What the venue remembers between refreshes.
    pub source: SourceState,
    /// The opening hours read in this cycle.
    pub schedule: Option<Schedule>,
    /// The window that is being refreshed.
    pub window: Option<Window>,
    /// Whether the longer-horizon model forecasts this venue too.
    pub long_horizon: bool,
}

/// The state in which a cycle ends, with nothing kept of it but what the
/// venue remembers between refreshes.
pub open spec fn at_rest(state: Scraper) -> Scraper {
    Scraper {
        phase: Phase::Sleeping,
        source: state.source,
        schedule: None,
        window: None,
        long_horizon: state.long_horizon,
    }
}

/// The rest that ends every cycle.
pub open spec fn rest() -> Action {
    Action::Sleep { seconds: SLEEP_SECONDS }
}

/// One step of a venue's loop: the state after `event`, and what is to be
/// done next.
///
/// A cycle fetches the page, reads it, stores the reading if the venue is
/// open and the page states an occupancy, checks whether the forecast reaches
/// far enough, refreshes it if not, and rests. A failed fetch, a page without
/// opening hours, and any event that the phase does not wait for end the
/// cycle at once. Only a refresh that was stored moves the date that the
/// venue remembers.
pub open spec fn step(state: Scraper, event: Event) -> (Scraper, Action) {
    match (state.phase, event) {
        (Phase::Sleeping, Event::Woke) => (
            Scraper { phase: Phase::Fetching, ..at_rest(state) },
            Action::Fetch,
        ),
        (Phase::Fetching, Event::Fetched) => (
            Scraper { phase: Phase::Extracting, ..state },
            Action::Extract,
        ),
        (Phase::Extracting, Event::Extracted { occupancy, schedule: Some(hours), now }) => {
            if occupancy is Some && open_at(
                hours.week(),
                weekday_index(now@.day),
                spec_hm(now@.second),
            ) {
                (
                    Scraper { phase: Phase::Persisting, schedule: Some(hours), ..state },
                    Action::Persist(Observation { timestamp: now, occupancy: occupancy->0 }),
                )
            } else {
                (
                    Scraper { phase: Phase::RefreshCheck, schedule: Some(hours), ..state },
                    Action::ReadClock,
                )
            }
        },
        (Phase::Persisting, Event::Persisted { written }) => (
            Scraper { phase: Phase::RefreshCheck, ..state },
            Action::ReadClock,
        ),
        (Phase::RefreshCheck, Event::Clock { now }) => {
            match refresh_window(Date { days: now@.day as i32 }, state.source.last_forecast_horizon) {
                Some(window) => (
                    Scraper { phase: Phase::Refreshing, window: Some(window), ..state },
                    Action::Refresh {
                        from: window.from,
                        to: window.to,
                        long_horizon: state.long_horizon,
                    },
                ),
                None => (at_rest(state), rest()),
            }
        },
        (Phase::Refreshing, Event::Refreshed { committed }) => {
            if committed && state.window is Some {
                (
                    Scraper {
                        source: SourceState { last_forecast_horizon: Some(state.window->0.to) },
                        ..at_rest(state)
                    },
                    rest(),
                )
            } else {
                (at_rest(state), rest())
            }
        },
        _ => (at_rest(state), rest()),
    }
}

impl Scraper {
    /// The loop of a venue before its first cycle: at rest, remembering the
    /// date through which its forecast was computed, if any.
    pub fn setup(last_forecast_horizon: Option<Date>, long_horizon: bool) -> (scraper: Self)
        ensures
            scraper == (Scraper {
                phase: Phase::Sleeping,
                source: SourceState { last_forecast_horizon },
                schedule: None,
                window: None,
                long_horizon,
            }),
    {
        Scraper {
            phase: Phase::Sleeping,
            source: SourceState { last_forecast_horizon },
            schedule: None,
            window: None,
            long_horizon,
        }
    }

    /// Seconds that the loop rests between two cycles.
    pub fn standard_sleep() -> (seconds: u64)
        ensures
            seconds == SLEEP_SECONDS,
    {
        SLEEP_SECONDS
    }

    /// The state in which a cycle ends.
    fn rested(&self) -> (state: Scraper)
        ensures
            state == at_rest(*self),
    {
        Scraper {
            phase: Phase::Sleeping,
            source: self.source,
            schedule: None,
            window: None,
            long_horizon: self.long_horizon,
        }
    }

    /// Takes one step of the loop: moves to the state after `event` and
    /// returns what is to be done next.
    pub fn run_scraper(&mut self, event: Event) -> (action: Action)
        ensures
            (*final(self), action) == step(*old(self), event),
    {
        let sleep = Action::Sleep { seconds: SLEEP_SECONDS };
        let rested: Scraper = self.rested();
        match self.phase {
            Phase::Sleeping => {
                *self = rested;
                match event {
                    Event::Woke => {
                        self.phase = Phase::Fetching;
                        Action::Fetch
                    },
                    _ => sleep,
                }
            },
            Phase::Fetching => match event {
                Event::Fetched => {
                    self.phase = Phase::Extracting;
                    Action::Extract
                },
                _ => {
                    *self = rested;
                    sleep
                },
            },
            Phase::Extracting => match event {
                Event::Extracted { occupancy, schedule: Some(hours), now } => {
                    self.schedule = Some(hours);
                    match occupancy {
                        Some(percent) => {
                            if hours.is_open(now) {
                                self.phase = Phase::Persisting;
                                Action::Persist(Observation { timestamp: now, occupancy: percent })
                            } else {
                                self.phase = Phase::RefreshCheck;
                                Action::ReadClock
                            }
                        },
                        None => {
                            self.phase = Phase::RefreshCheck;
                            Action::ReadClock
                        },
                    }
                },
                _ => {
                    *self = rested;
                    sleep
                },
            },
            Phase::Persisting => match event {
                Event::Persisted { written } => {
                    self.phase = Phase::RefreshCheck;
                    Action::ReadClock
                },
                _ => {
                    *self = rested;
                    sleep
                },
            },
            Phase::RefreshCheck => match event {
                Event::Clock { now } => {
                    let today: Date = now.date();
                    match Self::check_and_predict(today, self.source.last_forecast_horizon) {
                        Some(window) => {
                            self.phase = Phase::Refreshing;
                            self.window = Some(window);
                            Action::Refresh {
                                from: window.from,
                                to: window.to,
                                long_horizon: self.long_horizon,
                            }
                        },
                        None => {
                            *self = rested;
                            sleep
                        },
                    }
                },
                _ => {
                    *self = rested;
                    sleep
                },
            },
            Phase::Refreshing => {
                let window: Option<Window> = self.window;
                *self = rested;
                match (event, window) {
                    (Event::Refreshed { committed: true }, Some(done)) => {
                        self.source = SourceState { last_forecast_horizon: Some(done.to) };
                        sleep
                    },
                    _ => sleep,
                }
            },
        }
    }
}

/// A failed fetch ends the cycle: the loop rests, nothing is to be stored,
/// and what the venue remembers is what it remembered before.
pub proof fn lemma_failed_fetch_changes_nothing(state: Scraper)
    requires
        state.phase == Phase::Fetching,
    ensures
        step(state, Event::FetchFailed).0.source == state.source,
        step(state, Event::FetchFailed).0.phase == Phase::Sleeping,
        step(state, Event::FetchFailed).1 == rest(),
{
}

/// What a venue remembers changes in one step only: when a refresh was
/// stored. It then remembers the end of the window that was refreshed.
pub proof fn lemma_only_a_stored_refresh_moves_the_horizon(state: Scraper, event: Event)
    ensures
        step(state, event).0.source != state.source ==> state.phase == Phase::Refreshing && event
            == (Event::Refreshed { committed: true }) && state.window is Some && step(
            state,
            event,
        ).0.source.last_forecast_horizon == Some(state.window->0.to),
{
}

/// Something is stored after a step only when the loop goes on to persist a
/// reading or to refresh a window; a step that ends the cycle stores nothing.
pub proof fn lemma_a_cycle_that_ends_stores_nothing(state: Scraper, event: Event)
    ensures
        step(state, event).0.phase == Phase::Sleeping ==> step(state, event).1 == rest(),
        step(state, event).1 is Persist ==> step(state, event).0.phase == Phase::Persisting,
        step(state, event).1 is Refresh ==> step(state, event).0.phase == Phase::Refreshing,
{
}

/// A forecast that reaches the day `FORECAST_DAYS` ahead of today, or
/// beyond, is not refreshed.
pub proof fn lemma_covered_horizon_needs_no_refresh(today: Date, last: Date)
    requires
        last@ >= today@ + FORECAST_DAYS,
    ensures
        refresh_window(today, Some(last)) is None,
{
}

/// A refresh reaches the day `FORECAST_DAYS` ahead of today and starts where
/// the forecast ended, or today where there was none.
pub proof fn lemma_refresh_reaches_the_horizon(today: Date, last: Option<Date>)
    requires
        refresh_window(today, last) is Some,
    ensures
        refresh_window(today, last)->0.to@ == today@ + FORECAST_DAYS,
        refresh_window(today, last)->0.from == match last {
            Some(reached) => reached,
            None => today,
        },
        last matches Some(reached) ==> reached@ < today@ + FORECAST_DAYS,
{
}

} // verus!
