pub mod config;
pub mod refresh;
pub mod scraper;
pub mod sta;
