use occupancy_monitor::database::store::{ForecastPoint, ForecastTable, SourceState};
use occupancy_monitor::predictor::knn_config::KNNConfig;
use occupancy_monitor::scraper::config::Config;
use occupancy_monitor::scraper::refresh::Window;
use occupancy_monitor::scraper::scraper::{Action, Event, Phase, Scraper, SLEEP_SECONDS};
use occupancy_monitor::server::myresponse::MyResponse;
use occupancy_monitor::timing::calendar::{Date, Timestamp};
use occupancy_monitor::timing::daily::Daily;
use occupancy_monitor::timing::schedule::Schedule;

// 1 January 2024 was a Monday.
fn monday() -> Date {
    Date::from_ymd(2024, 1, 1).unwrap()
}

fn at(date: Date, hour: u32, minute: u32) -> Timestamp {
    Timestamp::new(date, hour * 3600 + minute * 60).unwrap()
}

fn open_all_week() -> Schedule {
    let mut schedule = Schedule::new();
    for _ in 0..7 {
        schedule.add_timing(Daily::new_open(630, 2230)).unwrap();
    }
    schedule
}

fn is_sleep(action: Action) -> bool {
    matches!(action, Action::Sleep { seconds } if seconds == SLEEP_SECONDS)
}

fn extracted(occupancy: Option<u16>, schedule: Option<Schedule>, now: Timestamp) -> Event {
    Event::Extracted { occupancy, schedule, now }
}

#[test]
fn the_loop_starts_at_rest() {
    let scraper = Scraper::setup(Some(monday()), true);
    assert_eq!(scraper.phase, Phase::Sleeping);
    assert_eq!(scraper.source, SourceState { last_forecast_horizon: Some(monday()) });
    assert!(scraper.schedule.is_none());
    assert!(scraper.window.is_none());
    assert!(scraper.long_horizon);
    assert_eq!(Scraper::standard_sleep(), 300);
}

#[test]
fn a_full_cycle_stores_a_reading_and_refreshes() {
    let mut scraper = Scraper::setup(None, false);
    assert!(matches!(scraper.run_scraper(Event::Woke), Action::Fetch));
    assert_eq!(scraper.phase, Phase::Fetching);
    assert!(matches!(scraper.run_scraper(Event::Fetched), Action::Extract));
    assert_eq!(scraper.phase, Phase::Extracting);
    let now = at(monday(), 9, 0);
    match scraper.run_scraper(extracted(Some(42), Some(open_all_week()), now)) {
        Action::Persist(observation) => {
            assert_eq!(observation.occupancy, 42);
            assert_eq!(observation.timestamp.date(), monday());
            assert_eq!(observation.timestamp.seconds_from_midnight(), 32_400);
        }
        _ => panic!(),
    }
    assert_eq!(scraper.phase, Phase::Persisting);
    assert!(scraper.schedule.is_some());
    assert!(matches!(scraper.run_scraper(Event::Persisted { written: true }), Action::ReadClock));
    assert_eq!(scraper.phase, Phase::RefreshCheck);
    let to = monday().checked_add_days(7).unwrap();
    match scraper.run_scraper(Event::Clock { now }) {
        Action::Refresh { from, to: end, long_horizon } => {
            assert_eq!(from, monday());
            assert_eq!(end, to);
            assert!(!long_horizon);
        }
        _ => panic!(),
    }
    assert_eq!(scraper.phase, Phase::Refreshing);
    assert_eq!(scraper.window, Some(Window { from: monday(), to }));
    assert_eq!(scraper.source.last_forecast_horizon, None);
    assert!(is_sleep(scraper.run_scraper(Event::Refreshed { committed: true })));
    assert_eq!(scraper.phase, Phase::Sleeping);
    assert_eq!(scraper.source.last_forecast_horizon, Some(to));
    assert!(scraper.window.is_none());
    assert!(scraper.schedule.is_none());
}

#[test]
fn a_failed_fetch_changes_nothing() {
    let mut table = ForecastTable::new();
    table.insert_many(&vec![ForecastPoint { timestamp: at(monday(), 9, 0), occupancy: 12 }]);
    let before: Vec<(Date, u32, u16)> = table
        .points()
        .iter()
        .map(|p| (p.timestamp.date(), p.timestamp.seconds_from_midnight(), p.occupancy))
        .collect();
    let mut scraper = Scraper::setup(Some(monday()), true);
    scraper.run_scraper(Event::Woke);
    let action = scraper.run_scraper(Event::FetchFailed);
    // The loop rests, and asks for nothing to be stored or replaced.
    assert!(is_sleep(action));
    assert_eq!(scraper.phase, Phase::Sleeping);
    assert_eq!(scraper.source, SourceState { last_forecast_horizon: Some(monday()) });
    let after: Vec<(Date, u32, u16)> = table
        .points()
        .iter()
        .map(|p| (p.timestamp.date(), p.timestamp.seconds_from_midnight(), p.occupancy))
        .collect();
    assert_eq!(before, after);
    // The next cycle starts as any other.
    assert!(matches!(scraper.run_scraper(Event::Woke), Action::Fetch));
}

#[test]
fn a_page_without_hours_ends_the_cycle() {
    let mut scraper = Scraper::setup(None, false);
    scraper.run_scraper(Event::Woke);
    scraper.run_scraper(Event::Fetched);
    let action = scraper.run_scraper(extracted(Some(42), None, at(monday(), 9, 0)));
    assert!(is_sleep(action));
    assert_eq!(scraper.phase, Phase::Sleeping);
    assert_eq!(scraper.source.last_forecast_horizon, None);
}

#[test]
fn a_page_without_occupancy_still_refreshes() {
    let mut scraper = Scraper::setup(None, true);
    scraper.run_scraper(Event::Woke);
    scraper.run_scraper(Event::Fetched);
    let now = at(monday(), 9, 0);
    assert!(matches!(scraper.run_scraper(extracted(None, Some(open_all_week()), now)), Action::ReadClock));
    assert_eq!(scraper.phase, Phase::RefreshCheck);
    assert!(matches!(
        scraper.run_scraper(Event::Clock { now }),
        Action::Refresh { long_horizon: true, .. }
    ));
}

#[test]
fn a_reading_of_a_closed_venue_is_not_stored() {
    let mut scraper = Scraper::setup(None, false);
    scraper.run_scraper(Event::Woke);
    scraper.run_scraper(Event::Fetched);
    let night = at(monday(), 23, 0);
    assert!(matches!(
        scraper.run_scraper(extracted(Some(3), Some(open_all_week()), night)),
        Action::ReadClock
    ));
    let mut scraper = Scraper::setup(None, false);
    scraper.run_scraper(Event::Woke);
    scraper.run_scraper(Event::Fetched);
    let closing = at(monday(), 22, 30);
    assert!(matches!(
        scraper.run_scraper(extracted(Some(3), Some(open_all_week()), closing)),
        Action::Persist(_)
    ));
}

#[test]
fn a_failed_write_does_not_stop_the_cycle() {
    let mut scraper = Scraper::setup(None, false);
    scraper.run_scraper(Event::Woke);
    scraper.run_scraper(Event::Fetched);
    scraper.run_scraper(extracted(Some(3), Some(open_all_week()), at(monday(), 12, 0)));
    assert!(matches!(scraper.run_scraper(Event::Persisted { written: false }), Action::ReadClock));
    assert_eq!(scraper.phase, Phase::RefreshCheck);
}

#[test]
fn a_forecast_that_is_ahead_is_not_refreshed() {
    let today = monday();
    let ahead = today.checked_add_days(10).unwrap();
    let mut scraper = Scraper::setup(Some(ahead), true);
    scraper.run_scraper(Event::Woke);
    scraper.run_scraper(Event::Fetched);
    scraper.run_scraper(extracted(None, Some(open_all_week()), at(today, 12, 0)));
    let action = scraper.run_scraper(Event::Clock { now: at(today, 12, 0) });
    assert!(is_sleep(action));
    assert_eq!(scraper.phase, Phase::Sleeping);
    assert_eq!(scraper.source.last_forecast_horizon, Some(ahead));
}

#[test]
fn a_refresh_that_was_not_stored_is_forgotten() {
    let mut scraper = Scraper::setup(Some(monday()), false);
    scraper.run_scraper(Event::Woke);
    scraper.run_scraper(Event::Fetched);
    let now = at(monday(), 12, 0);
    scraper.run_scraper(extracted(None, Some(open_all_week()), now));
    assert!(matches!(scraper.run_scraper(Event::Clock { now }), Action::Refresh { .. }));
    assert!(is_sleep(scraper.run_scraper(Event::Refreshed { committed: false })));
    assert_eq!(scraper.source.last_forecast_horizon, Some(monday()));
    assert_eq!(scraper.phase, Phase::Sleeping);
    assert!(scraper.window.is_none());
}

#[test]
fn an_event_out_of_turn_ends_the_cycle() {
    let mut scraper = Scraper::setup(Some(monday()), false);
    assert!(is_sleep(scraper.run_scraper(Event::Refreshed { committed: true })));
    assert_eq!(scraper.source.last_forecast_horizon, Some(monday()));
    scraper.run_scraper(Event::Woke);
    assert!(is_sleep(scraper.run_scraper(Event::Woke)));
    assert_eq!(scraper.phase, Phase::Sleeping);
    scraper.run_scraper(Event::Woke);
    scraper.run_scraper(Event::Fetched);
    assert!(is_sleep(scraper.run_scraper(Event::Clock { now: at(monday(), 1, 0) })));
    assert_eq!(scraper.source.last_forecast_horizon, Some(monday()));
}

#[test]
fn a_checkpoint_keeps_its_text() {
    let config = KNNConfig::new("2024-01-08T00:00:00".to_string());
    assert_eq!(config.get_last_scraped(), "2024-01-08T00:00:00");
    assert_eq!(config.get_last_scraped_naive_date(), Date::from_ymd(2024, 1, 8));
    let odd = KNNConfig::new("soon".to_string());
    assert_eq!(odd.get_last_scraped(), "soon");
    assert_eq!(odd.get_last_scraped_naive_date(), None);
}

#[test]
fn a_checkpoint_is_written_for_a_date() {
    let config = KNNConfig::new_naive_date(monday()).unwrap();
    assert_eq!(config.get_last_scraped(), "2024-01-01T00:00:00");
    assert_eq!(config.get_last_scraped_naive_date(), Some(monday()));
    assert!(KNNConfig::new_naive_date(Date::from_day_number(i32::MAX)).is_none());
}

#[test]
fn a_response_keeps_its_parts() {
    let data = vec![("2024-01-01T09:00:00".to_string(), 40u16)];
    let prediction = vec![("2024-01-01T09:05:00".to_string(), 41u16), ("2024-01-01T09:10:00".to_string(), 43u16)];
    let response = MyResponse::new(data.clone(), open_all_week(), prediction.clone());
    assert_eq!(response.data(), &data);
    assert_eq!(response.prediction_knn(), &prediction);
    assert_eq!(response.schedule().timing(0).opening(), Some(630));
    let copy = response.clone();
    assert_eq!(copy.data(), &data);
}

#[test]
fn a_venue_configuration_holds_three_texts() {
    let config = Config {
        url: "https://example.org/".to_string(),
        headers: "User-Agent: x".to_string(),
        scrape_regex: "(\\d+)%".to_string(),
    };
    assert_eq!(config.url, "https://example.org/");
    assert_eq!(config.headers, "User-Agent: x");
    assert_eq!(config.scrape_regex, "(\\d+)%");
}
