# dbraft

A small distributed key-value store: a watchdog registers instances and tells
each of them which instances exist; every instance runs a database behind a
REST endpoint and a Raft peer.

The decisions of every component are a verified library (`src/`, checked by
Verus): the store and the database's answers to `Get` and `Put`, the framing
of messages read from a connection, the watchdog's registry of instances, the
Raft instance's handling of events and of elections, the endpoint's answers,
and the instances' ports and addresses. Each public function states what it
returns or changes; `law_*` proof functions state the properties that hold
across calls (a `Get` answers what the last `Put` wrote, registrations get
fresh consecutive identities, a single-line message is received whole, ...).

`app/` is the program around the library: the network I/O with tokio and
axum, JSON encoding with serde, the tasks and the logging.
