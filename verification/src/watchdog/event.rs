use vstd::prelude::*;

verus! {

/// A request to the watchdog.
#[derive(Clone, Debug)]
pub enum Event {
    Register { addr: String },
}

/// The watchdog's answer to a registration.
#[derive(Clone, Copy, Debug, PartialEq, Eq, Structural)]
pub enum WatchdogResponse {
    Registered { id: u32 },
}

} // verus!
