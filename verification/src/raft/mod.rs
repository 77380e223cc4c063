pub mod log_entry;
pub mod raft;
