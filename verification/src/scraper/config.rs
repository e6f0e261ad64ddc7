use vstd::prelude::*;

verus! {

/// How the page of a venue is fetched and read.
#[derive(Debug)]
pub struct Config {
    /// Where the page is.
    pub url: String,
    /// The headers sent with the request.
    pub headers: String,
    /// The pattern that finds the occupancy in the page.
    pub scrape_regex: String,
}

} // verus!
