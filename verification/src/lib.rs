pub mod database;
pub mod pattern;
pub mod predictor;
pub mod scraper;
pub mod server;
pub mod text;
pub mod timing;
