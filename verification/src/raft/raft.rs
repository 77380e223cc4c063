use rand::Rng;
use std::collections::HashMap;
use vstd::prelude::*;

use super::log_entry::LogEntry;
use crate::communication::event::{
    DatabaseRequest, Event, InstanceEvent, RaftMessage, RaftResponse, WatchdogEvent,
};
use crate::instances::{addresses, lists_addresses};
use crate::watchdog::watchdog::Watchdog;
use crate::{listen_address, listen_address_of};

verus! {

broadcast use vstd::std_specs::hash::group_hash_axioms;

/// Shortest wait, in milliseconds, before an instance starts an election.
pub const ELECTION_TIMEOUT_MIN_MS: u64 = 150;

/// Bound, in milliseconds and not included, of the wait before an election.
pub const ELECTION_TIMEOUT_MAX_MS: u64 = 300;

/// The state of one Raft instance: its identity given by the watchdog, its
/// address, the other instances it knows of, its term, its vote and its log.
#[derive(Clone, Debug)]
pub struct Raft {
    pub id: Option<u32>,
    pub addr: String,
    pub peers: HashMap<u32, String>,
    pub current_term: u32,
    pub voted_for: Option<u32>,
    pub log: Vec<LogEntry>,
}

/// What an instance does after it handled an event.
#[derive(Clone, Debug)]
pub enum RaftAction {
    /// Nothing is sent.
    Nothing,
    /// The event is written back on the connection it came on.
    Reply(Event),
    /// The answer is sent to the address of a candidate.
    SendVote { addr: String, response: RaftResponse },
    /// The request is sent to each of the addresses.
    Broadcast { addrs: Vec<String>, request: DatabaseRequest<String> },
}

/// The number of granted votes among `responses`.
pub open spec fn granted_votes(responses: Seq<RaftResponse>) -> nat
    decreases responses.len(),
{
    if responses.len() == 0 {
        0
    } else {
        granted_votes(responses.drop_last()) + if responses.last() == RaftResponse::VoteGranted {
            1nat
        } else {
            0nat
        }
    }
}

/// The number of votes that wins an election among `peer_count` instances.
pub open spec fn majority(peer_count: nat) -> nat {
    peer_count / 2 + 1
}

impl Raft {
    /// The state with `id` as the identity given by the watchdog.
    pub open spec fn with_id(self, id: u32) -> Raft {
        Raft { id: Some(id), ..self }
    }

    /// The state with `peers` as the known instances.
    pub open spec fn with_peers(self, peers: HashMap<u32, String>) -> Raft {
        Raft { peers, ..self }
    }

    /// The state after a vote for `candidate_id`.
    pub open spec fn with_vote(self, candidate_id: u32) -> Raft {
        Raft { voted_for: Some(candidate_id), ..self }
    }

    /// Whether a request for a vote in `candidate_term` is granted: the
    /// candidate's term is not behind the instance's own.
    pub open spec fn grants_vote(self, candidate_term: u32) -> bool {
        candidate_term >= self.current_term
    }

    /// Whether the instance can handle `event`: a vote that it grants goes to
    /// the candidate's address, which must be known.
    pub open spec fn can_handle(self, event: Event) -> bool {
        match event {
            Event::RaftMessage(RaftMessage::RequestVote { candidate_term, candidate_id, .. }) => {
                self.grants_vote(candidate_term) ==> self.peers@.contains_key(candidate_id)
            },
            _ => true,
        }
    }

    /// Whether the instance can handle `event` (see `can_handle`).
    pub fn can_handle_event(&self, event: &Event) -> (ok: bool)
        ensures
            ok == self.can_handle(*event),
            ok == match *event {
                Event::RaftMessage(RaftMessage::RequestVote { candidate_term, candidate_id, .. }) => {
                    candidate_term < self.current_term || self.peers@.contains_key(candidate_id)
                },
                _ => true,
            },
    {
        match event {
            Event::RaftMessage(RaftMessage::RequestVote { candidate_term, candidate_id, .. }) => {
                *candidate_term < self.current_term || self.peers.contains_key(candidate_id)
            },
            _ => true,
        }
    }

    /// A fresh instance: no identity, no address, no peers, term 0, no vote
    /// and an empty log.
    pub fn new() -> (raft: Self)
        ensures
            raft.id is None,
            raft.addr@ == Seq::<char>::empty(),
            raft.peers@ == Map::<u32, String>::empty(),
            raft.current_term == 0,
            raft.voted_for is None,
            raft.log@ == Seq::<LogEntry>::empty(),
    {
        Raft {
            id: None,
            addr: String::new(),
            peers: HashMap::new(),
            current_term: 0,
            voted_for: None,
            log: Vec::new(),
        }
    }

    /// Takes as address the given port on every interface.
    pub fn set_address(&mut self, port: u32)
        ensures
            final(self).addr@ == listen_address_of(port),
            final(self).id == old(self).id,
            final(self).peers == old(self).peers,
            final(self).current_term == old(self).current_term,
            final(self).voted_for == old(self).voted_for,
            final(self).log == old(self).log,
    {
        self.addr = listen_address(port);
    }

    /// The request by which the instance registers with the watchdog.
    pub fn registration_request(&self) -> (request: Event)
        ensures
            request == Event::InstanceEvent((InstanceEvent::Register { addr: self.addr })),
    {
        Event::InstanceEvent(InstanceEvent::Register { addr: self.addr.clone() })
    }

    /// Handles the watchdog's answer to the registration: the identity it
    /// gives becomes the instance's; any other answer changes nothing.
    pub fn handle_watchdog_reply(&mut self, reply: Event)
        ensures
            match reply {
                Event::WatchdogEvent(WatchdogEvent::InstanceRegistered { id }) => *final(self)
                    == old(self).with_id(id),
                _ => *final(self) == *old(self),
            },
    {
        match reply {
            Event::WatchdogEvent(WatchdogEvent::InstanceRegistered { id }) => {
                self.id = Some(id);
            },
            _ => {},
        }
    }

    /// Handles an event that arrived on the instance's listener.
    pub fn handle_event(&mut self, event: Event) -> (action: RaftAction)
        requires
            old(self).can_handle(event),
        ensures
            match event {
                Event::WatchdogEvent(watchdog_event) => {
                    &&& action == RaftAction::Nothing
                    &&& match watchdog_event {
                        WatchdogEvent::UpdateRaftInstances { peers } => *final(self) == old(
                            self,
                        ).with_peers(peers),
                        _ => *final(self) == *old(self),
                    }
                },
                Event::InstanceEvent(instance_event) => {
                    &&& *final(self) == *old(self)
                    &&& action == match instance_event {
                        InstanceEvent::Ping => RaftAction::Reply(
                            Event::InstanceEvent(InstanceEvent::Pong),
                        ),
                        _ => RaftAction::Nothing,
                    }
                },
                Event::DatabaseRequest(request) => {
                    &&& *final(self) == *old(self)
                    &&& action matches RaftAction::Broadcast { addrs, request: sent }
                    &&& sent == request
                    &&& lists_addresses(addrs@, old(self).peers@)
                },
                Event::RaftMessage(RaftMessage::RequestVote { candidate_term, candidate_id, .. }) => {
                    if candidate_term >= old(self).current_term {
                        &&& *final(self) == old(self).with_vote(candidate_id)
                        &&& action == RaftAction::SendVote {
                            addr: old(self).peers@[candidate_id],
                            response: RaftResponse::VoteGranted,
                        }
                    } else {
                        &&& *final(self) == *old(self)
                        &&& action == RaftAction::Nothing
                    }
                },
                _ => {
                    &&& *final(self) == *old(self)
                    &&& action == RaftAction::Nothing
                },
            },
    {
        match event {
            Event::WatchdogEvent(watchdog_event) => {
                self.handle_watchdog_event(watchdog_event);
                RaftAction::Nothing
            },
            Event::InstanceEvent(instance_event) => match Self::handle_instance_event(
                instance_event,
            ) {
                Some(reply) => RaftAction::Reply(reply),
                None => RaftAction::Nothing,
            },
            Event::HeartbeatMessage(_) => RaftAction::Nothing,
            Event::DatabaseRequest(request) => self.handle_database_request(request),
            Event::RaftResponse(_) => RaftAction::Nothing,
            Event::RaftMessage(message) => match message {
                RaftMessage::RequestVote { candidate_term, candidate_id, .. } => {
                    self.handle_vote_request(candidate_term, candidate_id)
                },
                RaftMessage::AppendEntry => RaftAction::Nothing,
            },
        }
    }

    /// Grants a vote to a candidate whose term is not behind the instance's
    /// own, and records the vote.
    pub fn handle_vote_request(&mut self, candidate_term: u32, candidate_id: u32) -> (action:
        RaftAction)
        requires
            candidate_term >= old(self).current_term ==> old(self).peers@.contains_key(candidate_id),
        ensures
            if candidate_term >= old(self).current_term {
                &&& *final(self) == old(self).with_vote(candidate_id)
                &&& action == RaftAction::SendVote {
                    addr: old(self).peers@[candidate_id],
                    response: RaftResponse::VoteGranted,
                }
            } else {
                &&& *final(self) == *old(self)
                &&& action == RaftAction::Nothing
            },
    {
        if candidate_term >= self.current_term {
            let addr = self.peers.get(&candidate_id).unwrap().clone();
            self.voted_for = Some(candidate_id);
            RaftAction::SendVote { addr, response: RaftResponse::VoteGranted }
        } else {
            RaftAction::Nothing
        }
    }

    /// Answers a ping with a pong; other instance events ask for no answer.
    pub fn handle_instance_event(instance_event: InstanceEvent) -> (reply: Option<Event>)
        ensures
            reply == match instance_event {
                InstanceEvent::Ping => Some(Event::InstanceEvent(InstanceEvent::Pong)),
                _ => None::<Event>,
            },
    {
        match instance_event {
            InstanceEvent::Ping => Some(Event::InstanceEvent(InstanceEvent::Pong)),
            InstanceEvent::Register { .. } => None,
            InstanceEvent::Pong => None,
        }
    }

    /// Takes the watchdog's list of instances as the known peers.
    pub fn handle_watchdog_event(&mut self, watchdog_event: WatchdogEvent)
        ensures
            match watchdog_event {
                WatchdogEvent::UpdateRaftInstances { peers } => *final(self) == old(
                    self,
                ).with_peers(peers),
                _ => *final(self) == *old(self),
            },
    {
        match watchdog_event {
            WatchdogEvent::UpdateRaftInstances { peers } => {
                self.peers = peers;
            },
            WatchdogEvent::InstanceRegistered { .. } => {},
        }
    }

    /// Forwards a database request to every known peer.
    pub fn handle_database_request(&self, request: DatabaseRequest<String>) -> (action:
        RaftAction)
        ensures
            (action matches RaftAction::Broadcast { addrs, request: sent } && sent == request
                && lists_addresses(addrs@, self.peers@)),
    {
        RaftAction::Broadcast { addrs: self.peer_addresses(), request }
    }

    /// The addresses of all the known peers.
    pub fn peer_addresses(&self) -> (addrs: Vec<String>)
        ensures
            lists_addresses(addrs@, self.peers@),
    {
        addresses(&self.peers)
    }

    /// The request for votes with which the instance stands as a candidate:
    /// its term, its identity, the index of the last entry of its log (the
    /// log's length taken as a `u32`, minus one) and that entry's term.
    pub fn vote_request(&self) -> (request: RaftMessage)
        requires
            self.id is Some,
            self.log.len() as u32 > 0,
        ensures
            request == (RaftMessage::RequestVote {
                candidate_term: self.current_term,
                candidate_id: self.id.unwrap(),
                last_log_index: (self.log.len() as u32 - 1) as u32,
                last_log_term: self.log@.last().term,
            }),
    {
        let last_log_index = self.log.len() as u32 - 1;
        RaftMessage::RequestVote {
            candidate_term: self.current_term,
            candidate_id: self.id.unwrap(),
            last_log_index,
            last_log_term: self.log[self.log.len() - 1].term,
        }
    }

    /// Whether the answers to a request for votes win the election: at least
    /// half of the peers plus one granted their vote.
    pub fn election_won(peer_count: usize, responses: &Vec<RaftResponse>) -> (won: bool)
        ensures
            won == (granted_votes(responses@) >= majority(peer_count as nat)),
            won == (2 * granted_votes(responses@) > peer_count),
            won == (2 * responses@.filter(|r: RaftResponse| r == RaftResponse::VoteGranted).len()
                > peer_count),
    {
        let mut granted: usize = 0;
        let mut i: usize = 0;
        while i < responses.len()
            invariant
                i <= responses.len(),
                granted == granted_votes(responses@.take(i as int)),
                granted <= i,
            decreases responses.len() - i,
        {
            assert(responses@.take(i as int + 1).drop_last() =~= responses@.take(i as int));
            if responses[i] == RaftResponse::VoteGranted {
                granted = granted + 1;
            }
            i = i + 1;
        }
        assert(responses@.take(responses.len() as int) =~= responses@);
        proof {
            law_granted_votes_counts(responses@);
        }
        granted >= peer_count / 2 + 1
    }

    /// How long, in milliseconds, the instance waits before it starts an
    /// election: a random time in [150, 300).
    pub fn election_timeout_ms() -> (ms: u64)
        ensures
            ELECTION_TIMEOUT_MIN_MS <= ms < ELECTION_TIMEOUT_MAX_MS,
    {
        random_in_range(ELECTION_TIMEOUT_MIN_MS, ELECTION_TIMEOUT_MAX_MS)
    }
}

/// Calls `rand::Rng::gen_range` on the thread's generator
/// (`rand::thread_rng`) with the range `low..high`. Trusted: the result lies
/// in that range, as rand documents (it panics on an empty range, which
/// `requires` rules out); which value comes is left open. The generator is
/// seeded from the operating system on first use and panics if that source
/// fails, which depends on the machine and is not stated.
#[verifier::external_body]
fn random_in_range(low: u64, high: u64) -> (r: u64)
    requires
        low < high,
    ensures
        low <= r < high,
{
    rand::thread_rng().gen_range(low..high)
}

/// A majority of the peers outnumbers the rest: two sets of granted votes
/// that each reach it among the same peers have a voter in common. It is
/// the smallest such number: one vote fewer is at most half of the peers.
pub proof fn law_majority_is_strict(peer_count: nat)
    ensures
        2 * majority(peer_count) > peer_count,
        2 * (majority(peer_count) - 1) <= peer_count,
        peer_count > 0 ==> majority(peer_count) <= peer_count,
{
}

/// A request for votes is granted exactly when the candidate's term is not
/// behind the instance's own.
pub proof fn law_vote_granted_iff_term_not_behind(raft: Raft, candidate_term: u32)
    ensures
        raft.grants_vote(candidate_term) <==> candidate_term >= raft.current_term,
        candidate_term > raft.current_term ==> raft.grants_vote(candidate_term),
        candidate_term < raft.current_term ==> !raft.grants_vote(candidate_term),
{
}

/// Every event can be handled except a request for votes that would be
/// granted to a candidate whose address is unknown.
pub proof fn law_only_unknown_candidates_are_refused(raft: Raft, event: Event)
    ensures
        !(event matches Event::RaftMessage(RaftMessage::RequestVote { .. })) ==> raft.can_handle(
            event,
        ),
        event matches Event::RaftMessage(
            RaftMessage::RequestVote { candidate_term, candidate_id, .. },
        ) ==> (raft.can_handle(event) <==> (candidate_term < raft.current_term
            || raft.peers@.contains_key(candidate_id))),
{
}

/// The granted votes are counted one by one, wherever they stand among the
/// answers: a further granted vote adds one, any other answer adds none, the
/// count of two runs of answers is the sum of their counts, and it is the
/// number of answers that grant a vote.
pub proof fn law_granted_votes_counts(responses: Seq<RaftResponse>)
    ensures
        granted_votes(Seq::empty()) == 0,
        granted_votes(responses.push(RaftResponse::VoteGranted)) == granted_votes(responses) + 1,
        granted_votes(responses.push(RaftResponse::Committed)) == granted_votes(responses),
        granted_votes(responses) == responses.filter(
            |r: RaftResponse| r == RaftResponse::VoteGranted,
        ).len(),
    decreases responses.len(),
{
    assert(responses.push(RaftResponse::VoteGranted).drop_last() =~= responses);
    assert(responses.push(RaftResponse::Committed).drop_last() =~= responses);
    reveal(Seq::filter);
    if responses.len() > 0 {
        law_granted_votes_counts(responses.drop_last());
    }
}

/// The votes granted among two runs of answers add up.
pub proof fn law_granted_votes_add(first: Seq<RaftResponse>, second: Seq<RaftResponse>)
    ensures
        granted_votes(first + second) == granted_votes(first) + granted_votes(second),
    decreases second.len(),
{
    if second.len() > 0 {
        law_granted_votes_add(first, second.drop_last());
        assert((first + second).drop_last() =~= first + second.drop_last());
    } else {
        assert(first + second =~= first);
    }
}

/// No more votes are granted than answers arrived: an election among
/// `peer_count` instances is won only on answers from a majority of them.
pub proof fn law_granted_votes_bounded(responses: Seq<RaftResponse>)
    ensures
        granted_votes(responses) <= responses.len(),
    decreases responses.len(),
{
    if responses.len() > 0 {
        law_granted_votes_bounded(responses.drop_last());
    }
}

/// An instance that handles the list of instances that the watchdog
/// broadcasts takes exactly the watchdog's registered instances as its peers.
pub proof fn law_peers_follow_watchdog(watchdog: Watchdog, update: Event, raft: Raft)
    requires
        update matches Event::WatchdogEvent(WatchdogEvent::UpdateRaftInstances { peers })
            && peers@ == watchdog.raft_instances@,
    ensures
        update matches Event::WatchdogEvent(WatchdogEvent::UpdateRaftInstances { peers })
            && raft.with_peers(peers).peers@ == watchdog.raft_instances@,
        raft.can_handle(update),
{
}

} // verus!
