use vstd::prelude::*;

verus! {

/// One command of the replicated log, with the term in which it was received.
#[derive(Clone, Debug)]
pub struct LogEntry {
    pub term: u32,
    pub command: String,
}

} // verus!
