use crate::timing::calendar::{Date, Timestamp};
use vstd::prelude::*;

verus! {

/// An occupancy at a date and a time of day, as numbers: the day number, the
/// seconds since midnight, and the occupancy in percent.
pub struct Reading {
    pub day: int,
    pub second: int,
    pub occupancy: int,
}

/// One occupancy reading of a venue.
#[derive(Copy, Clone, Debug)]
pub struct Observation {
    pub timestamp: Timestamp,
    pub occupancy: u16,
}

impl View for Observation {
    type V = Reading;

    open spec fn view(&self) -> Reading {
        Reading {
            day: self.timestamp@.day,
            second: self.timestamp@.second,
            occupancy: self.occupancy as int,
        }
    }
}

/// One point of a forecast series.
#[derive(Copy, Clone, Debug)]
pub struct ForecastPoint {
    pub timestamp: Timestamp,
    pub occupancy: u16,
}

impl View for ForecastPoint {
    type V = Reading;

    open spec fn view(&self) -> Reading {
        Reading {
            day: self.timestamp@.day,
            second: self.timestamp@.second,
            occupancy: self.occupancy as int,
        }
    }
}

/// The model that produced a forecast series.
#[derive(Copy, Clone, Debug, PartialEq, Eq, Structural)]
pub enum Model {
    NearestNeighbour,
    GradientBoosted,
    Recurrent,
}

impl Model {
    /// What follows the name of a venue in the name of the table that holds
    /// its forecasts by this model.
    pub fn table_suffix(&self) -> (suffix: &'static str)
        ensures
            suffix@ == match self {
                Model::NearestNeighbour => "_prediction_knn"@,
                Model::GradientBoosted => "_prediction_gb"@,
                Model::Recurrent => "_prediction_lstm"@,
            },
    {
        match self {
            Model::NearestNeighbour => "_prediction_knn",
            Model::GradientBoosted => "_prediction_gb",
            Model::Recurrent => "_prediction_lstm",
        }
    }
}

/// What a venue remembers between refreshes: the last date through which a
/// forecast has been computed.
#[derive(Copy, Clone, Debug, PartialEq, Eq, Structural)]
pub struct SourceState {
    pub last_forecast_horizon: Option<Date>,
}

/// The readings of a list of observations.
pub open spec fn observed(list: Seq<Observation>) -> Seq<Reading> {
    Seq::new(list.len(), |i: int| list[i]@)
}

/// The readings of a list of forecast points.
pub open spec fn forecast(list: Seq<ForecastPoint>) -> Seq<Reading> {
    Seq::new(list.len(), |i: int| list[i]@)
}

/// Whether a reading is dated from `from` to `to`, both inclusive.
pub open spec fn dated_within(reading: Reading, from: int, to: int) -> bool {
    from <= reading.day <= to
}

/// The readings that are dated outside the days from `from` to `to`, in
/// their order.
pub open spec fn outside_window(points: Seq<Reading>, from: int, to: int) -> Seq<Reading>
    decreases points.len(),
{
    if points.len() == 0 {
        points
    } else if dated_within(points.last(), from, to) {
        outside_window(points.drop_last(), from, to)
    } else {
        outside_window(points.drop_last(), from, to).push(points.last())
    }
}

/// A stored series after a refresh of the days from `from` to `to`: every
/// point dated in the window is gone, and the new series follows what is left.
pub open spec fn replaced(
    points: Seq<Reading>,
    from: int,
    to: int,
    series: Seq<Reading>,
) -> Seq<Reading> {
    outside_window(points, from, to) + series
}

/// Readings that are all dated outside a window stay as they are.
pub proof fn lemma_outside_window_keeps(points: Seq<Reading>, from: int, to: int)
    requires
        forall|i: int| 0 <= i < points.len() ==> !dated_within(#[trigger] points[i], from, to),
    ensures
        outside_window(points, from, to) == points,
    decreases points.len(),
{
    if points.len() > 0 {
        lemma_outside_window_keeps(points.drop_last(), from, to);
    }
}

/// Readings that are all dated within a window all go.
pub proof fn lemma_outside_window_drops(points: Seq<Reading>, from: int, to: int)
    requires
        forall|i: int| 0 <= i < points.len() ==> dated_within(#[trigger] points[i], from, to),
    ensures
        outside_window(points, from, to) == Seq::<Reading>::empty(),
    decreases points.len(),
{
    if points.len() > 0 {
        lemma_outside_window_drops(points.drop_last(), from, to);
    }
}

/// What is left of two lists is what is left of the first, then of the second.
pub proof fn lemma_outside_window_concat(a: Seq<Reading>, b: Seq<Reading>, from: int, to: int)
    ensures
        outside_window(a + b, from, to) == outside_window(a, from, to) + outside_window(
            b,
            from,
            to,
        ),
    decreases b.len(),
{
    if b.len() > 0 {
        lemma_outside_window_concat(a, b.drop_last(), from, to);
        assert((a + b).drop_last() == a + b.drop_last());
    }
}

/// Nothing that is left after a window was cleared is dated within it.
pub proof fn lemma_outside_window_is_outside(points: Seq<Reading>, from: int, to: int)
    ensures
        forall|i: int|
            0 <= i < outside_window(points, from, to).len() ==> !dated_within(
                #[trigger] outside_window(points, from, to)[i],
                from,
                to,
            ),
    decreases points.len(),
{
    if points.len() > 0 {
        lemma_outside_window_is_outside(points.drop_last(), from, to);
        let rest = outside_window(points.drop_last(), from, to);
        assert forall|i: int| 0 <= i < outside_window(points, from, to).len() implies !dated_within(
            #[trigger] outside_window(points, from, to)[i],
            from,
            to,
        ) by {
            if i < rest.len() {
                assert(outside_window(points, from, to)[i] == rest[i]);
            }
        }
    }
}

/// Refreshing a window twice with the same series stores what refreshing it
/// once stores, for a series that is dated within the window.
pub proof fn lemma_refresh_is_idempotent(
    points: Seq<Reading>,
    from: int,
    to: int,
    series: Seq<Reading>,
)
    requires
        forall|i: int| 0 <= i < series.len() ==> dated_within(#[trigger] series[i], from, to),
    ensures
        replaced(replaced(points, from, to, series), from, to, series) == replaced(
            points,
            from,
            to,
            series,
        ),
{
    let kept = outside_window(points, from, to);
    lemma_outside_window_concat(kept, series, from, to);
    lemma_outside_window_is_outside(points, from, to);
    lemma_outside_window_keeps(kept, from, to);
    lemma_outside_window_drops(series, from, to);
}

/// The forecast series of one model for one venue, held in memory.
pub struct ForecastTable {
    points: Vec<ForecastPoint>,
}

impl View for ForecastTable {
    type V = Seq<Reading>;

    closed spec fn view(&self) -> Seq<Reading> {
        forecast(self.points@)
    }
}

impl ForecastTable {
    /// A table without points.
    pub fn new() -> (table: Self)
        ensures
            table@ == Seq::<Reading>::empty(),
    {
        ForecastTable { points: Vec::new() }
    }

    /// The points of the table, in the order in which they were stored.
    pub fn points(&self) -> (points: &Vec<ForecastPoint>)
        ensures
            forecast(points@) == self@,
    {
        &self.points
    }

    /// Removes every point that is dated from `from` to `to`.
    pub fn delete_range(&mut self, from: Date, to: Date)
        ensures
            final(self)@ == outside_window(old(self)@, from@, to@),
    {
        let mut kept: Vec<ForecastPoint> = Vec::new();
        let mut i: usize = 0;
        while i < self.points.len()
            invariant
                i <= self.points.len(),
                forecast(kept@) == outside_window(forecast(self.points@.take(i as int)), from@, to@),
            decreases self.points.len() - i,
        {
            let point: ForecastPoint = self.points[i];
            let day: i32 = point.timestamp.date().day_number();
            assert(forecast(self.points@.take(i + 1)).drop_last() == forecast(
                self.points@.take(i as int),
            ));
            if !(from.day_number() <= day && day <= to.day_number()) {
                kept.push(point);
            }
            i += 1;
        }
        assert(self.points@.take(self.points.len() as int) == self.points@);
        self.points = kept;
    }

    /// Adds the points of `series` at the end.
    pub fn insert_many(&mut self, series: &Vec<ForecastPoint>)
        ensures
            final(self)@ == old(self)@ + forecast(series@),
    {
        let mut i: usize = 0;
        while i < series.len()
            invariant
                i <= series.len(),
                self@ == old(self)@ + forecast(series@.take(i as int)),
            decreases series.len() - i,
        {
            let ghost before = self.points@;
            self.points.push(series[i]);
            proof {
                assert(forecast(self.points@) == forecast(before).push(series[i as int]@));
                assert(forecast(series@.take(i + 1)) == forecast(series@.take(i as int)).push(
                    series[i as int]@,
                ));
            }
            i += 1;
        }
    }

    /// Replaces what the table holds for the days from `from` to `to` by
    /// `series`: the old points of the window go, then the new ones are added.
    pub fn replace_forecast(&mut self, from: Date, to: Date, series: &Vec<ForecastPoint>)
        ensures
            final(self)@ == replaced(old(self)@, from@, to@, forecast(series@)),
    {
        self.delete_range(from, to);
        self.insert_many(series);
    }
}

} // verus!
