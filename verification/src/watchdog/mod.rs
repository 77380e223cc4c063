pub mod event;
pub mod watchdog;
