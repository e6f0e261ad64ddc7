use super::output::{output_rows, read_output, row_texts};
use vstd::prelude::*;

verus! {

/// The recurrent model: a program of its own that forecasts one date and
/// leaves its forecast as text, one line for each point.
pub struct LSTMRegressor {}

impl LSTMRegressor {
    /// Reads what the program has written: for each line the time and the
    /// occupancy, as written; `None` where a line does not hold the two.
    pub fn read_output(output: &str) -> (rows: Option<Vec<(String, String)>>)
        ensures
            match output_rows(output@) {
                Some(expected) => rows is Some && row_texts(rows->0@) == expected,
                None => rows is None,
            },
    {
        read_output(output)
    }
}

} // verus!
