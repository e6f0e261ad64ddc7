use crate::timing::schedule::Schedule;
use vstd::prelude::*;

verus! {

/// What a query for one day of one venue is answered with: the readings of
/// the day, its forecast, and the opening hours, each reading a time as text
/// and an occupancy.
#[derive(Clone, Debug)]
pub struct MyResponse {
    data: Vec<(String, u16)>,
    prediction_knn: Vec<(String, u16)>,
    schedule: Schedule,
}

impl MyResponse {
    /// The readings of the day.
    pub closed spec fn spec_data(&self) -> Seq<(String, u16)> {
        self.data@
    }

    /// The forecast of the day.
    pub closed spec fn spec_prediction_knn(&self) -> Seq<(String, u16)> {
        self.prediction_knn@
    }

    /// The opening hours.
    pub closed spec fn spec_schedule(&self) -> Schedule {
        self.schedule
    }

    /// An answer made of the readings, the opening hours and the forecast.
    pub fn new(
        data: Vec<(String, u16)>,
        schedule: Schedule,
        prediction_knn: Vec<(String, u16)>,
    ) -> (response: Self)
        ensures
            response.spec_data() == data@,
            response.spec_schedule() == schedule,
            response.spec_prediction_knn() == prediction_knn@,
    {
        Self { data, schedule, prediction_knn }
    }

    /// The readings of the day.
    pub fn data(&self) -> (data: &Vec<(String, u16)>)
        ensures
            data@ == self.spec_data(),
    {
        &self.data
    }

    /// The forecast of the day.
    pub fn prediction_knn(&self) -> (prediction: &Vec<(String, u16)>)
        ensures
            prediction@ == self.spec_prediction_knn(),
    {
        &self.prediction_knn
    }

    /// The opening hours.
    pub fn schedule(&self) -> (schedule: Schedule)
        ensures
            schedule == self.spec_schedule(),
    {
        self.schedule
    }
}

} // verus!
