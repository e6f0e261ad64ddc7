use crate::database::store::{
    dated_within, forecast, lemma_refresh_is_idempotent, observed, replaced, ForecastPoint,
    Observation, Reading,
};
use super::scraper::Scraper;
use crate::predictor::knn_regressor::{prediction, KNNRegressor, Sample};
use crate::timing::calendar::{
    instant_of_text, seconds_between, weekday_index, whole_weeks, Date, Instant, Timestamp,
};
use crate::timing::daily::Daily;
use crate::timing::schedule::{hm_seconds, Schedule};
use vstd::prelude::*;

verus! {

/// How many days ahead of today a forecast reaches.
pub const FORECAST_DAYS: u32 = 7;

/// How many weeks of readings a forecast looks back on.
pub const LOOKBACK_WEEKS: u32 = 3;

/// Seconds from one forecast point to the next.
pub const RESOLUTION: u32 = 300;

/// How many neighbours a forecast averages.
pub const NEIGHBOURS: usize = 3;

/// Opening time, as `HHMM`, that a forecast takes for a closed day.
pub const DEFAULT_OPENING: u16 = 630;

/// Closing time, as `HHMM`, that a forecast takes for a closed day.
pub const DEFAULT_CLOSING: u16 = 2230;

/// The weight of a reading that is less than a week old. It is divisible by
/// every number up to 12, so that the weights of readings up to eleven weeks
/// old stand in the exact ratios 1 : 1/2 : 1/3 and so on.
pub const WEIGHT_UNIT: u32 = 27_720;

/// The span of dates that a refresh recomputes, both ends included.
#[derive(Copy, Clone, Debug, PartialEq, Eq, Structural)]
pub struct Window {
    pub from: Date,
    pub to: Date,
}

/// Why a refresh produced no series.
#[derive(Copy, Clone, Debug, PartialEq, Eq, Structural)]
pub enum RefreshError {
    /// On this date the hours to forecast do not run from an earlier to a
    /// later time of day.
    ImproperHours(Date),
}

/// The weight of a reading that is `weeks` whole weeks older than the time
/// the forecast is made for: one unit divided by the weeks plus one, rounded
/// down.
pub open spec fn recency_weight(weeks: int) -> int {
    (WEIGHT_UNIT as int) / (weeks + 1)
}

/// The window to refresh on the date `today`, where the forecast so far
/// reaches through `last`: by default from `last`, or from today without it,
/// through the day `FORECAST_DAYS` ahead of today. `None` where the forecast
/// reaches that day already, or where no day number is left for it.
pub open spec fn refresh_window(today: Date, last: Option<Date>) -> Option<Window> {
    let horizon = today.days + FORECAST_DAYS;
    if horizon > i32::MAX {
        None
    } else {
        match last {
            Some(reached) => if reached.days >= horizon {
                None
            } else {
                Some(Window { from: reached, to: Date { days: horizon as i32 } })
            },
            None => Some(Window { from: today, to: Date { days: horizon as i32 } }),
        }
    }
}

/// The second of the day at which the forecast of a date begins: the opening
/// of its weekday, or the default on a closed day.
pub open spec fn opening_second(week: Seq<Daily>, day: int) -> int {
    hm_seconds(
        match week[weekday_index(day)].spec_opening() {
            Some(hm) => hm as int,
            None => DEFAULT_OPENING as int,
        },
    )
}

/// The second of the day at which the forecast of a date ends: the closing of
/// its weekday, or the default on a closed day.
pub open spec fn closing_second(week: Seq<Daily>, day: int) -> int {
    hm_seconds(
        match week[weekday_index(day)].spec_closing() {
            Some(hm) => hm as int,
            None => DEFAULT_CLOSING as int,
        },
    )
}

/// Whether the forecast of a date begins before it ends.
pub open spec fn proper_hours(week: Seq<Daily>, day: int) -> bool {
    opening_second(week, day) < closing_second(week, day)
}

/// Whether every date from `from` to `to` has proper hours.
pub open spec fn proper_window(week: Seq<Daily>, from: int, to: int) -> bool {
    forall|day: int| from <= day <= to ==> #[trigger] proper_hours(week, day)
}

/// The readings of each weekday's list.
pub open spec fn history_readings(history: Seq<Vec<Observation>>) -> Seq<Seq<Reading>> {
    Seq::new(history.len(), |d: int| observed(history[d]@))
}

/// The readings that a forecast of a date rests on: those of its weekday.
pub open spec fn weekday_history(history: Seq<Seq<Reading>>, day: int) -> Seq<Reading> {
    if weekday_index(day) < history.len() {
        history[weekday_index(day)]
    } else {
        Seq::empty()
    }
}

/// A reading as a sample for a forecast anchored at `anchor`: weighted by its
/// age in weeks, and placed at its time of day.
pub open spec fn sample_of(reading: Reading, anchor: Instant) -> Sample {
    Sample {
        weight: recency_weight(
            whole_weeks(
                seconds_between(Instant { day: reading.day, second: reading.second }, anchor),
            ),
        ) as u32,
        time: reading.second as u32,
        occupancy: reading.occupancy as u16,
    }
}

/// The samples for the forecast of a date, anchored at its opening.
pub open spec fn day_samples(history: Seq<Seq<Reading>>, week: Seq<Daily>, day: int) -> Seq<
    Sample,
> {
    let list = weekday_history(history, day);
    Seq::new(
        list.len(),
        |i: int| sample_of(list[i], Instant { day, second: opening_second(week, day) }),
    )
}

/// The forecast of one date: a point every `RESOLUTION` seconds from its
/// opening, as long as the closing is not passed.
pub open spec fn day_series(history: Seq<Seq<Reading>>, week: Seq<Daily>, day: int) -> Seq<
    Reading,
> {
    let start = opening_second(week, day);
    let steps = (closing_second(week, day) - start) / (RESOLUTION as int) + 1;
    Seq::new(
        steps as nat,
        |i: int|
            Reading {
                day,
                second: start + i * RESOLUTION,
                occupancy: prediction(
                    day_samples(history, week, day),
                    start + i * RESOLUTION,
                    NEIGHBOURS as nat,
                ) as int,
            },
    )
}

/// The forecast of the dates from `from` to `to`, day after day.
pub open spec fn forecast_series(
    history: Seq<Seq<Reading>>,
    week: Seq<Daily>,
    from: int,
    to: int,
) -> Seq<Reading>
    decreases to - from + 1,
{
    if to < from {
        Seq::empty()
    } else {
        forecast_series(history, week, from, to - 1) + day_series(history, week, to)
    }
}

/// The readings among `readings` that fall on a weekday, in their order.
pub open spec fn on_weekday(readings: Seq<Reading>, weekday: int) -> Seq<Reading>
    decreases readings.len(),
{
    if readings.len() == 0 {
        readings
    } else if weekday_index(readings.last().day) == weekday {
        on_weekday(readings.drop_last(), weekday).push(readings.last())
    } else {
        on_weekday(readings.drop_last(), weekday)
    }
}

/// Whether a reading was taken from `from` to `to`, both included.
pub open spec fn taken_within(reading: Reading, from: Instant, to: Instant) -> bool {
    let at = Instant { day: reading.day, second: reading.second };
    seconds_between(from, at) >= 0 && seconds_between(at, to) >= 0
}

/// The readings among `readings` that were taken from `from` to `to`, in
/// their order.
pub open spec fn in_span(readings: Seq<Reading>, from: Instant, to: Instant) -> Seq<Reading>
    decreases readings.len(),
{
    if readings.len() == 0 {
        readings
    } else if taken_within(readings.last(), from, to) {
        in_span(readings.drop_last(), from, to).push(readings.last())
    } else {
        in_span(readings.drop_last(), from, to)
    }
}

/// The instant `weeks` weeks before `now`, where the lookback of a forecast
/// begins; `None` where no day number is left for it.
pub open spec fn lookback_from(now: Instant, weeks: int) -> Option<Instant> {
    if now.day - 7 * weeks >= i32::MIN {
        Some(Instant { day: now.day - 7 * weeks, second: now.second })
    } else {
        None
    }
}

/// The readings that stored rows denote, each row a time as text and an
/// occupancy; `None` where the time of a row cannot be read.
pub open spec fn row_readings(rows: Seq<(String, u16)>) -> Option<Seq<Reading>>
    decreases rows.len(),
{
    if rows.len() == 0 {
        Some(Seq::empty())
    } else {
        match (row_readings(rows.drop_last()), instant_of_text(rows.last().0@)) {
            (Some(readings), Some(instant)) => Some(
                readings.push(
                    Reading {
                        day: instant.0 as int,
                        second: instant.1 as int,
                        occupancy: rows.last().1 as int,
                    },
                ),
            ),
            _ => None,
        }
    }
}

/// Every point of a day's forecast is dated on that day.
pub proof fn lemma_forecast_is_dated_within(
    history: Seq<Seq<Reading>>,
    week: Seq<Daily>,
    from: int,
    to: int,
)
    ensures
        forall|i: int|
            0 <= i < forecast_series(history, week, from, to).len() ==> from <= (
            #[trigger] forecast_series(history, week, from, to)[i]).day <= to,
    decreases to - from + 1,
{
    if to >= from {
        lemma_forecast_is_dated_within(history, week, from, to - 1);
        let before = forecast_series(history, week, from, to - 1);
        let all = forecast_series(history, week, from, to);
        assert forall|i: int| 0 <= i < all.len() implies from <= (#[trigger] all[i]).day <= to by {
            if i < before.len() {
                assert(all[i] == before[i]);
            } else {
                assert(all[i] == day_series(history, week, to)[i - before.len()]);
            }
        }
    }
}

/// Refreshing a window twice from the same readings and hours stores what
/// refreshing it once stores.
pub proof fn lemma_refreshing_twice_stores_the_same(
    stored: Seq<Reading>,
    history: Seq<Seq<Reading>>,
    week: Seq<Daily>,
    from: int,
    to: int,
)
    ensures
        replaced(
            replaced(stored, from, to, forecast_series(history, week, from, to)),
            from,
            to,
            forecast_series(history, week, from, to),
        ) == replaced(stored, from, to, forecast_series(history, week, from, to)),
{
    let series = forecast_series(history, week, from, to);
    lemma_forecast_is_dated_within(history, week, from, to);
    assert forall|i: int| 0 <= i < series.len() implies dated_within(
        #[trigger] series[i],
        from,
        to,
    ) by {}
    lemma_refresh_is_idempotent(stored, from, to, series);
}

/// The weight of a reading that is `weeks` whole weeks old.
pub fn weight_for_age(weeks: u32) -> (weight: u32)
    ensures
        weight == recency_weight(weeks as int),
        weight <= WEIGHT_UNIT,
{
    let parts: u64 = weeks as u64 + 1;
    (WEIGHT_UNIT as u64 / parts) as u32
}

/// The instant `weeks` weeks before `now`, from which the readings for a
/// forecast are taken; `None` where no day number is left for it.
pub fn lookback_start(now: Timestamp, weeks: u32) -> (start: Option<Timestamp>)
    ensures
        match lookback_from(now@, weeks as int) {
            Some(instant) => start is Some && start->0@ == instant,
            None => start is None,
        },
{
    let days: i64 = now.date().day_number() as i64 - 7 * (weeks as i64);
    if days >= i32::MIN as i64 {
        Some(Timestamp::at(Date::from_day_number(days as i32), now.seconds_from_midnight()))
    } else {
        None
    }
}

/// Reads the stored rows of a venue, each a time as text and an occupancy;
/// `None` where the time of a row cannot be read.
pub fn read_rows(rows: &Vec<(String, u16)>) -> (outcome: Option<Vec<Observation>>)
    ensures
        match row_readings(rows@) {
            Some(readings) => outcome is Some && observed(outcome->0@) == readings,
            None => outcome is None,
        },
{
    let mut list: Vec<Observation> = Vec::new();
    let mut i: usize = 0;
    while i < rows.len()
        invariant
            i <= rows.len(),
            row_readings(rows@.take(i as int)) == Some(observed(list@)),
        decreases rows.len() - i,
    {
        assert(rows@.take(i + 1).drop_last() == rows@.take(i as int));
        match Timestamp::parse(rows[i].0.as_str()) {
            Some(timestamp) => {
                list.push(Observation { timestamp, occupancy: rows[i].1 });
            },
            None => {
                proof {
                    lemma_unreadable_row(rows@, i as int + 1);
                }
                return None;
            },
        }
        i += 1;
    }
    assert(rows@.take(rows.len() as int) == rows@);
    Some(list)
}

/// Rows cannot be read where a part of them cannot.
proof fn lemma_unreadable_row(rows: Seq<(String, u16)>, n: int)
    requires
        0 <= n <= rows.len(),
        row_readings(rows.take(n)) is None,
    ensures
        row_readings(rows) is None,
    decreases rows.len() - n,
{
    if n < rows.len() {
        assert(rows.take(n + 1).drop_last() == rows.take(n));
        lemma_unreadable_row(rows, n + 1);
    } else {
        assert(rows.take(n) == rows);
    }
}

/// Picks the readings that were taken from `from` to `to`, both included.
pub fn readings_within(observations: &Vec<Observation>, from: &Timestamp, to: &Timestamp) -> (kept:
    Vec<Observation>)
    ensures
        observed(kept@) == in_span(observed(observations@), from@, to@),
{
    let mut kept: Vec<Observation> = Vec::new();
    let mut i: usize = 0;
    while i < observations.len()
        invariant
            i <= observations.len(),
            observed(kept@) == in_span(observed(observations@.take(i as int)), from@, to@),
        decreases observations.len() - i,
    {
        let observation: Observation = observations[i];
        assert(observed(observations@.take(i + 1)).drop_last() == observed(
            observations@.take(i as int),
        ));
        if from.not_after(&observation.timestamp) && observation.timestamp.not_after(to) {
            kept.push(observation);
        }
        i += 1;
    }
    assert(observations@.take(observations.len() as int) == observations@);
    kept
}

/// Sorts readings by weekday: the list at index 0 holds those of the Mondays,
/// and so on to the Sundays at index 6, each in the order of `observations`.
pub fn group_by_weekday(observations: &Vec<Observation>) -> (grouped: Vec<Vec<Observation>>)
    ensures
        grouped.len() == 7,
        forall|d: int|
            0 <= d < 7 ==> observed(#[trigger] grouped[d]@) == on_weekday(
                observed(observations@),
                d,
            ),
{
    let mut grouped: Vec<Vec<Observation>> = Vec::new();
    let mut weekday: u8 = 0;
    while weekday < 7
        invariant
            weekday <= 7,
            grouped.len() == weekday,
            forall|d: int|
                0 <= d < weekday ==> observed(#[trigger] grouped[d]@) == on_weekday(
                    observed(observations@),
                    d,
                ),
        decreases 7 - weekday,
    {
        let mut list: Vec<Observation> = Vec::new();
        let mut i: usize = 0;
        while i < observations.len()
            invariant
                i <= observations.len(),
                observed(list@) == on_weekday(
                    observed(observations@.take(i as int)),
                    weekday as int,
                ),
            decreases observations.len() - i,
        {
            let observation: Observation = observations[i];
            proof {
                let before = observed(observations@.take(i as int));
                let now = observed(observations@.take(i + 1));
                assert(now.drop_last() == before);
                assert(now.last() == observation@);
            }
            if observation.timestamp.weekday() == weekday {
                let ghost before = list@;
                list.push(observation);
                assert(observed(list@) == observed(before).push(observation@));
            }
            i += 1;
        }
        assert(observations@.take(observations.len() as int) == observations@);
        grouped.push(list);
        weekday += 1;
    }
    grouped
}

/// The samples for the forecast of `date`: the readings of its weekday, each
/// weighted by its age at `anchor`.
fn samples_for(history: &Vec<Vec<Observation>>, date: Date, anchor: Timestamp) -> (samples: Vec<
    Sample,
>)
    requires
        anchor@.day == date@,
    ensures
        samples@ == Seq::new(
            weekday_history(history_readings(history@), date@).len(),
            |i: int| sample_of(weekday_history(history_readings(history@), date@)[i], anchor@),
        ),
{
    let weekday: usize = date.weekday() as usize;
    let mut samples: Vec<Sample> = Vec::new();
    if weekday < history.len() {
        let list: &Vec<Observation> = &history[weekday];
        let mut i: usize = 0;
        while i < list.len()
            invariant
                i <= list.len(),
                samples@ == Seq::new(i as nat, |j: int| sample_of(observed(list@)[j], anchor@)),
            decreases list.len() - i,
        {
            let observation: Observation = list[i];
            let weeks: u32 = anchor.weeks_since(&observation.timestamp);
            let sample = Sample {
                weight: weight_for_age(weeks),
                time: observation.timestamp.seconds_from_midnight(),
                occupancy: observation.occupancy,
            };
            samples.push(sample);
            i += 1;
        }
    }
    samples
}

/// Forecasts one date: `None` where its hours are not proper.
fn day_predictions(history: &Vec<Vec<Observation>>, date: Date, schedule: &Schedule) -> (outcome:
    Option<Vec<ForecastPoint>>)
    ensures
        proper_hours(schedule.week(), date@) ==> outcome is Some && forecast(outcome->0@)
            == day_series(history_readings(history@), schedule.week(), date@),
        !proper_hours(schedule.week(), date@) ==> outcome is None,
{
    let daily: Daily = schedule.timing(date.weekday());
    let opening: u16 = match daily.opening() {
        Some(hm) => hm,
        None => DEFAULT_OPENING,
    };
    let closing: u16 = match daily.closing() {
        Some(hm) => hm,
        None => DEFAULT_CLOSING,
    };
    let start: u64 = Schedule::convert_hm_to_sec(opening);
    let end: u64 = Schedule::convert_hm_to_sec(closing);
    if start >= end {
        return None;
    }
    let anchor: Timestamp = Timestamp::at(date, start as u32);
    let samples: Vec<Sample> = samples_for(history, date, anchor);
    let predictions: Vec<(u32, u16)> = KNNRegressor::predict_range(
        &samples,
        start as u32,
        end as u32,
        RESOLUTION,
        NEIGHBOURS,
    );
    let mut points: Vec<ForecastPoint> = Vec::new();
    let mut i: usize = 0;
    while i < predictions.len()
        invariant
            i <= predictions.len(),
            end < 86_400,
            forall|j: int| 0 <= j < predictions.len() ==> (#[trigger] predictions[j]).0 <= end,
            points.len() == i,
            forall|j: int|
                0 <= j < i ==> (#[trigger] points[j])@ == (Reading {
                    day: date@,
                    second: predictions[j].0 as int,
                    occupancy: predictions[j].1 as int,
                }),
        decreases predictions.len() - i,
    {
        let entry: (u32, u16) = predictions[i];
        points.push(ForecastPoint { timestamp: Timestamp::at(date, entry.0), occupancy: entry.1 });
        i += 1;
    }
    assert(forecast(points@) == day_series(
        history_readings(history@),
        schedule.week(),
        date@,
    ));
    Some(points)
}

impl Scraper {
    /// Decides whether the forecast has to be extended on the date `today`, and
    /// over which dates.
    pub fn check_and_predict(today: Date, last: Option<Date>) -> (window: Option<Window>)
        ensures
            window == refresh_window(today, last),
    {
        let horizon: Date = match today.checked_add_days(FORECAST_DAYS) {
            Some(date) => date,
            None => {
                return None;
            },
        };
        match last {
            Some(reached) => {
                if reached.day_number() >= horizon.day_number() {
                    None
                } else {
                    Some(Window { from: reached, to: horizon })
                }
            },
            None => Some(Window { from: today, to: horizon }),
        }
    }

    /// Reads the stored rows of a venue, keeps the readings of the last `n`
    /// weeks before `now`, and sorts them by weekday, Monday first. `None`
    /// where the time of a row cannot be read, or where no day number is left
    /// for the instant `n` weeks ago.
    pub fn get_last_n_weeks_data_grouped(rows: &Vec<(String, u16)>, now: Timestamp, n: u32) -> (outcome:
        Option<Vec<Vec<Observation>>>)
        ensures
            match (row_readings(rows@), lookback_from(now@, n as int)) {
                (Some(readings), Some(from)) => outcome is Some && outcome->0.len() == 7
                    && forall|d: int|
                    0 <= d < 7 ==> observed(#[trigger] outcome->0[d]@) == on_weekday(
                        in_span(readings, from, now@),
                        d,
                    ),
                _ => outcome is None,
            },
    {
        let from: Timestamp = match lookback_start(now, n) {
            Some(from) => from,
            None => {
                return None;
            },
        };
        match read_rows(rows) {
            Some(observations) => {
                let recent: Vec<Observation> = readings_within(&observations, &from, &now);
                Some(group_by_weekday(&recent))
            },
            None => None,
        }
    }

    /// Takes the forecast of the longer-horizon model, each row a time as text
    /// and an occupancy, as a series of forecast points; `None` where the time of
    /// a row cannot be read.
    pub fn make_gb_prediction(rows: &Vec<(String, u16)>) -> (outcome: Option<Vec<ForecastPoint>>)
        ensures
            match row_readings(rows@) {
                Some(readings) => outcome is Some && forecast(outcome->0@) == readings,
                None => outcome is None,
            },
    {
        match read_rows(rows) {
            Some(observations) => {
                let mut series: Vec<ForecastPoint> = Vec::new();
                let mut i: usize = 0;
                while i < observations.len()
                    invariant
                        i <= observations.len(),
                        series.len() == i,
                        forall|j: int| 0 <= j < i ==> (#[trigger] series[j])@ == observations[j]@,
                    decreases observations.len() - i,
                {
                    let observation: Observation = observations[i];
                    series.push(
                        ForecastPoint {
                            timestamp: observation.timestamp,
                            occupancy: observation.occupancy,
                        },
                    );
                    i += 1;
                }
                Some(series)
            },
            None => None,
        }
    }

    /// Computes the forecast of the dates from `from` to `to`, both included.
    ///
    /// For each date the hours are those of its weekday in `schedule`, or the
    /// default hours where the venue is closed that day; the samples are the
    /// readings of that weekday in `history` (the list at index 0 for Mondays),
    /// weighted by their age; and the forecast runs from opening to closing, one
    /// point every `RESOLUTION` seconds. The refresh fails on the first date
    /// whose hours do not begin before they end.
    pub fn make_knn_predictions(
        history: &Vec<Vec<Observation>>,
        from: Date,
        to: Date,
        schedule: &Schedule,
    ) -> (outcome: Result<Vec<ForecastPoint>, RefreshError>)
        ensures
            proper_window(schedule.week(), from@, to@) ==> outcome is Ok && forecast(outcome->Ok_0@)
                == forecast_series(history_readings(history@), schedule.week(), from@, to@),
            !proper_window(schedule.week(), from@, to@) ==> (outcome matches Err(
                RefreshError::ImproperHours(date),
            ) && from@ <= date@ <= to@ && !proper_hours(schedule.week(), date@) && proper_window(
                schedule.week(),
                from@,
                date@ - 1,
            )),
    {
        let mut series: Vec<ForecastPoint> = Vec::new();
        if from.day_number() > to.day_number() {
            return Ok(series);
        }
        let mut day: i64 = from.day_number() as i64;
        while day <= to.day_number() as i64
            invariant
                from@ <= day <= to@ + 1,
                proper_window(schedule.week(), from@, day - 1),
                forecast(series@) == forecast_series(
                    history_readings(history@),
                    schedule.week(),
                    from@,
                    day - 1,
                ),
            decreases to@ + 1 - day,
        {
            let date: Date = Date::from_day_number(day as i32);
            match day_predictions(history, date, schedule) {
                None => {
                    return Err(RefreshError::ImproperHours(date));
                },
                Some(points) => {
                    let mut points = points;
                    let ghost before = series@;
                    let ghost added = points@;
                    series.append(&mut points);
                    assert(forecast(series@) == forecast(before) + forecast(added));
                },
            }
            day += 1;
        }
        Ok(series)
    }
}

} // verus!
