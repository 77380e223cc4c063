use std::collections::HashMap;
use vstd::prelude::*;

verus! {

/// Everything that instances, the watchdog and the database send each other.
#[derive(Clone, Debug)]
pub enum Event {
    InstanceEvent(InstanceEvent),
    WatchdogEvent(WatchdogEvent),
    HeartbeatMessage(HeartbeatMessage),
    DatabaseRequest(DatabaseRequest<String>),
    RaftResponse(RaftResponse),
    RaftMessage(RaftMessage),
}

/// Messages about an instance's membership and liveness.
#[derive(Clone, Debug)]
pub enum InstanceEvent {
    Register { addr: String },
    Ping,
    Pong,
}

/// Messages that the watchdog sends to the instances.
#[derive(Clone, Debug)]
pub enum WatchdogEvent {
    InstanceRegistered { id: u32 },
    UpdateRaftInstances { peers: HashMap<u32, String> },
}

/// The heartbeat that probes whether a service still answers.
#[derive(Clone, Copy, Debug, PartialEq, Eq, Structural)]
pub enum HeartbeatMessage {
    Test,
}

/// A request to the key-value database.
#[derive(Clone, Debug)]
pub enum DatabaseRequest<T> {
    Get(String),
    Put { id: String, item: T },
}

/// The database's answer to a request that succeeded.
#[derive(Clone, Debug)]
pub enum DatabaseResponse<T> {
    GetSuccess(T),
    PutSuccess { id: String, item: T },
}

/// A Raft instance's answer to its peers.
#[derive(Clone, Copy, Debug, PartialEq, Eq, Structural)]
pub enum RaftResponse {
    Committed,
    VoteGranted,
}

/// Messages between Raft peers.
#[derive(Clone, Copy, Debug, PartialEq, Eq, Structural)]
pub enum RaftMessage {
    RequestVote { candidate_term: u32, candidate_id: u32, last_log_index: u32, last_log_term: u32 },
    AppendEntry,
}

} // verus!
