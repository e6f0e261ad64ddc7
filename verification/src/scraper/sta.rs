pub mod gym;
pub mod main_library;
