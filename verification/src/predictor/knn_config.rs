use crate::timing::calendar::{instant_of_text, text_of_instant, Date, Timestamp};
use vstd::prelude::*;

verus! {

/// The checkpoint of a venue as it is kept on disk: the date through which
/// its forecast was computed, written as midnight of that date in the form
/// `YYYY-MM-DDTHH:MM:SS`.
#[derive(Debug)]
pub struct KNNConfig {
    last_scraped: String,
}

impl View for KNNConfig {
    type V = Seq<char>;

    closed spec fn view(&self) -> Seq<char> {
        self.last_scraped@
    }
}

impl KNNConfig {
    /// A checkpoint that holds the given text.
    pub fn new(last_scraped: String) -> (config: Self)
        ensures
            config@ == last_scraped@,
    {
        Self { last_scraped }
    }

    /// A checkpoint for a date; `None` for a date that the calendar cannot
    /// write.
    pub fn new_naive_date(last_scraped: Date) -> (config: Option<Self>)
        ensures
            match text_of_instant(last_scraped.days, 0) {
                Some(text) => config is Some && config->0@ == text,
                None => config is None,
            },
    {
        match Timestamp::at(last_scraped, 0).to_text() {
            Some(text) => Some(Self { last_scraped: text }),
            None => None,
        }
    }

    /// The text that the checkpoint holds.
    pub fn get_last_scraped(&self) -> (text: String)
        ensures
            text@ == self@,
    {
        self.last_scraped.clone()
    }

    /// The date that the checkpoint holds; `None` where its text is not an
    /// instant of the form `YYYY-MM-DDTHH:MM:SS`.
    pub fn get_last_scraped_naive_date(&self) -> (date: Option<Date>)
        ensures
            match instant_of_text(self@) {
                Some(instant) => date == Some(Date { days: instant.0 }),
                None => date is None,
            },
    {
        match Timestamp::parse(self.last_scraped.as_str()) {
            Some(instant) => Some(instant.date()),
            None => None,
        }
    }
}

} // verus!
