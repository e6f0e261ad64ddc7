pub mod calendar;
pub mod daily;
pub mod schedule;
pub mod uk_datetime_now;
