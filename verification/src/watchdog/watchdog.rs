use std::collections::HashMap;
use vstd::prelude::*;
use vstd::std_specs::iter::IteratorSpec;

use crate::communication::event::{Event, InstanceEvent, WatchdogEvent};
use crate::instances::{addresses, lists_addresses};

verus! {

broadcast use vstd::std_specs::hash::group_hash_axioms;

/// The service that registers Raft instances, gives each an identity and
/// tells all of them which instances there are.
#[derive(Clone, Debug)]
pub struct Watchdog {
    pub raft_instances: HashMap<u32, String>,
}

/// `id` is the identity that the next registration gets when `ids` are
/// taken: 0 when none is, else one more than the largest.
pub open spec fn is_next_instance_id(ids: Set<u32>, id: u32) -> bool {
    if ids.is_empty() {
        id == 0
    } else {
        &&& id > 0
        &&& ids.contains((id - 1) as u32)
        &&& forall|k: u32| ids.contains(k) ==> k < id
    }
}

/// Whether the identities are used up: the largest one is taken.
pub open spec fn ids_exhausted(ids: Set<u32>) -> bool {
    ids.contains(u32::MAX)
}

impl Watchdog {
    /// A watchdog that knows no instance.
    pub fn new() -> (watchdog: Self)
        ensures
            watchdog.raft_instances@ == Map::<u32, String>::empty(),
    {
        Watchdog { raft_instances: HashMap::new() }
    }

    /// The identity that the next registration gets, or `None` when the
    /// largest identity is taken.
    pub fn next_instance_id(&self) -> (id: Option<u32>)
        ensures
            match id {
                Some(id) => is_next_instance_id(self.raft_instances@.dom(), id),
                None => ids_exhausted(self.raft_instances@.dom()),
            },
            id is None <==> self.raft_instances@.dom().contains(u32::MAX),
    {
        let mut max: Option<u32> = None;
        let ghost ids: Seq<u32> = self.raft_instances.keys().remaining().unref();
        for id in it: self.raft_instances.keys()
            invariant
                ids == it.seq().unref(),
                ids.to_set() == self.raft_instances@.dom(),
                match max {
                    None => it.index() == 0,
                    Some(m) => {
                        &&& exists|j: int| 0 <= j < it.index() && ids[j] == m
                        &&& forall|j: int| 0 <= j < it.index() ==> ids[j] <= m
                    },
                },
        {
            let k = *id;
            match max {
                None => {
                    max = Some(k);
                },
                Some(m) => {
                    if k > m {
                        max = Some(k);
                    }
                },
            }
        }
        let ghost dom = self.raft_instances@.dom();
        match max {
            None => {
                proof {
                    assert(ids.len() == 0);
                    assert(dom =~= Set::<u32>::empty()) by {
                        assert forall|k: u32| !dom.contains(k) by {
                            if dom.contains(k) {
                                assert(ids.to_set().contains(k));
                            }
                        }
                    }
                }
                Some(0)
            },
            Some(m) => {
                proof {
                    let j = choose|j: int| 0 <= j < ids.len() && ids[j] == m;
                    assert(ids.to_set().contains(ids[j]));
                    assert forall|k: u32| dom.contains(k) implies k <= m by {
                        assert(ids.to_set().contains(k));
                    }
                }
                if m == u32::MAX {
                    None
                } else {
                    Some(m + 1)
                }
            },
        }
    }

    /// Registers an instance at `addr` under the next identity and answers
    /// with that identity.
    pub fn register_new_instance(&mut self, addr: String) -> (reply: Event)
        requires
            !ids_exhausted(old(self).raft_instances@.dom()),
            !old(self).raft_instances@.dom().contains(u32::MAX),
        ensures
            match reply {
                Event::WatchdogEvent(WatchdogEvent::InstanceRegistered { id }) => {
                    &&& is_next_instance_id(old(self).raft_instances@.dom(), id)
                    &&& final(self).raft_instances@ == old(self).raft_instances@.insert(id, addr)
                },
                _ => false,
            },
    {
        let new_id = match self.next_instance_id() {
            Some(id) => id,
            None => {
                assert(false);
                0
            },
        };
        self.raft_instances.insert(new_id, addr);
        Event::WatchdogEvent(WatchdogEvent::InstanceRegistered { id: new_id })
    }

    /// Handles an event that arrived on the watchdog's listener and gives the
    /// answer to write back, if any: a pong for a ping, the identity for a
    /// registration.
    pub fn handle_event(&mut self, event: Event) -> (reply: Option<Event>)
        requires
            event matches Event::InstanceEvent(InstanceEvent::Register { .. }) ==> !ids_exhausted(
                old(self).raft_instances@.dom(),
            ),
        ensures
            match event {
                Event::InstanceEvent(InstanceEvent::Ping) => {
                    &&& *final(self) == *old(self)
                    &&& reply == Some(Event::InstanceEvent(InstanceEvent::Pong))
                },
                Event::InstanceEvent(InstanceEvent::Register { addr }) => {
                    &&& reply matches Some(
                        Event::WatchdogEvent(WatchdogEvent::InstanceRegistered { id }),
                    )
                    &&& is_next_instance_id(old(self).raft_instances@.dom(), id)
                    &&& final(self).raft_instances@ == old(self).raft_instances@.insert(id, addr)
                },
                _ => {
                    &&& *final(self) == *old(self)
                    &&& reply == None::<Event>
                },
            },
    {
        match event {
            Event::InstanceEvent(instance_event) => match instance_event {
                InstanceEvent::Ping => Some(Event::InstanceEvent(InstanceEvent::Pong)),
                InstanceEvent::Register { addr } => Some(self.register_new_instance(addr)),
                InstanceEvent::Pong => None,
            },
            Event::HeartbeatMessage(_) => None,
            Event::WatchdogEvent(_) => None,
            Event::DatabaseRequest(_) => None,
            Event::RaftResponse(_) => None,
            Event::RaftMessage(_) => None,
        }
    }

    /// Forgets the instances found dead.
    pub fn remove_instances(&mut self, dead: &Vec<u32>)
        ensures
            final(self).raft_instances@ == old(self).raft_instances@.remove_keys(dead@.to_set()),
    {
        let mut i: usize = 0;
        while i < dead.len()
            invariant
                i <= dead.len(),
                self.raft_instances@ == old(self).raft_instances@.remove_keys(
                    dead@.take(i as int).to_set(),
                ),
            decreases dead.len() - i,
        {
            self.remove_instance(dead[i]);
            proof {
                assert(dead@.take(i as int + 1) =~= dead@.take(i as int).push(dead@[i as int]));
                dead@.take(i as int).lemma_push_to_set_commute(dead@[i as int]);
                assert(dead@.take(i as int + 1).to_set() =~= dead@.take(i as int).to_set().insert(
                    dead@[i as int],
                ));
            }
            i = i + 1;
        }
        assert(dead@.take(dead.len() as int) =~= dead@);
        assert(self.raft_instances@ =~= old(self).raft_instances@.remove_keys(dead@.to_set()));
    }

    /// Forgets the instance with identity `id`.
    pub fn remove_instance(&mut self, id: u32)
        ensures
            final(self).raft_instances@ == old(self).raft_instances@.remove(id),
    {
        self.raft_instances.remove(&id);
    }

    /// What the watchdog broadcasts: the addresses of all the instances, and
    /// the list of instances that each of them takes as its peers.
    pub fn instances_update(&self) -> (update: (Vec<String>, Event))
        ensures
            lists_addresses(update.0@, self.raft_instances@),
            update.1 matches Event::WatchdogEvent(WatchdogEvent::UpdateRaftInstances { peers })
                && peers@ == self.raft_instances@,
    {
        let addrs = addresses(&self.raft_instances);
        let peers = self.raft_instances.clone();
        (addrs, Event::WatchdogEvent(WatchdogEvent::UpdateRaftInstances { peers }))
    }
}

/// The identities are used up exactly when the largest one is taken, however
/// many instances there are.
pub proof fn law_ids_exhausted_iff_largest_taken(ids: Set<u32>)
    ensures
        ids_exhausted(ids) <==> ids.contains(u32::MAX),
{
}

proof fn lemma_largest_id(ids: Set<u32>) -> (largest: u32)
    requires
        ids.finite(),
        !ids.is_empty(),
    ensures
        ids.contains(largest),
        forall|k: u32| ids.contains(k) ==> k <= largest,
    decreases ids.len(),
{
    let x = ids.choose();
    let rest = ids.remove(x);
    if rest.is_empty() {
        assert forall|k: u32| ids.contains(k) implies k <= x by {
            if k != x {
                assert(rest.contains(k));
            }
        }
        x
    } else {
        let m = lemma_largest_id(rest);
        if m < x {
            assert forall|k: u32| ids.contains(k) implies k <= x by {
                if k != x {
                    assert(rest.contains(k));
                }
            }
            x
        } else {
            assert forall|k: u32| ids.contains(k) implies k <= m by {
                if k != x {
                    assert(rest.contains(k));
                }
            }
            m
        }
    }
}

/// Unless the largest identity is taken, a registration always has an
/// identity to give, and only one: 0 when no identity is taken, else one more
/// than the largest taken.
pub proof fn law_next_id_exists_and_is_unique(ids: Set<u32>, id: u32, other: u32)
    requires
        ids.finite(),
        !ids.contains(u32::MAX),
    ensures
        exists|next: u32| is_next_instance_id(ids, next),
        is_next_instance_id(ids, id) && is_next_instance_id(ids, other) ==> id == other,
        is_next_instance_id(ids, id) ==> {
            &&& ids.is_empty() ==> id == 0
            &&& forall|k: u32| ids.contains(k) ==> k + 1 <= id
            &&& !ids.is_empty() ==> ids.contains((id - 1) as u32)
        },
{
    if ids.is_empty() {
        assert(is_next_instance_id(ids, 0));
    } else {
        let m = lemma_largest_id(ids);
        assert(m < u32::MAX);
        assert(is_next_instance_id(ids, (m + 1) as u32));
        if is_next_instance_id(ids, id) && is_next_instance_id(ids, other) {
            assert(ids.contains((id - 1) as u32));
            assert(ids.contains((other - 1) as u32));
        }
    }
}

/// An identity that a registration gets is held by no instance yet, and is
/// larger than every identity held.
pub proof fn law_next_id_is_fresh(ids: Set<u32>, id: u32)
    requires
        is_next_instance_id(ids, id),
    ensures
        !ids.contains(id),
        forall|k: u32| ids.contains(k) ==> k < id,
{
}

/// Two registrations in a row, with nothing removed between them, give
/// consecutive identities.
pub proof fn law_consecutive_registrations(ids: Set<u32>, first: u32, second: u32)
    requires
        is_next_instance_id(ids, first),
        is_next_instance_id(ids.insert(first), second),
    ensures
        second == first + 1,
        !ids.contains(first),
{
    assert(ids.insert(first).contains(first));
}

} // verus!
