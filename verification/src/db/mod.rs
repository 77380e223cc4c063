pub mod database;
pub mod request;
pub mod store;
