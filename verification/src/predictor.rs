pub mod gb_regressor;
pub mod knn_config;
pub mod knn_regressor;
pub mod lstm_regressor;
pub mod output;
pub mod ranking;
pub mod tally;
