pub mod myresponse;
pub mod server;
