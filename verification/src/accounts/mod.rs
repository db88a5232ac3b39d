pub mod config;
pub mod listing;
pub mod store;
