//! The heartbeat: which neighbours have missed how many pings, and when a
//! neighbour counts as timed out.

use vstd::prelude::*;
use std::collections::HashMap;
use crate::order::lemma_push_contains;
use crate::proto::{Body, ProtoParcel, Session, Type};
use crate::state::{lists, retuned, with_neighbours, Mode, Node, State};

verus! {

broadcast use vstd::std_specs::hash::group_hash_axioms;

/// The number of pings in a row that each watched neighbour has missed.
#[derive(Debug)]
pub struct Monitor {
    pub timeouts: HashMap<u64, u8>,
}

/// The counts after the neighbours `ids` were put under watch: a neighbour
/// that was not watched starts at 0, the others keep their count.
pub open spec fn watched(timeouts: Map<u64, u8>, ids: Set<u64>) -> Map<u64, u8> {
    Map::new(
        |k: u64| timeouts.contains_key(k) || ids.contains(k),
        |k: u64|
            if timeouts.contains_key(k) {
                timeouts[k]
            } else {
                0u8
            },
    )
}

/// The count of a neighbour after one more missed ping; it stops at 255.
pub open spec fn one_more(timeouts: Map<u64, u8>, id: u64) -> u8 {
    let before = if timeouts.contains_key(id) {
        timeouts[id]
    } else {
        0u8
    };
    if before == 255 {
        255u8
    } else {
        (before + 1) as u8
    }
}

/// The limit that a count has to pass: `timeout`, reduced to eight bits.
pub open spec fn limit_of(timeout: u32) -> u8 {
    (timeout % 0x100) as u8
}

impl View for Monitor {
    type V = Map<u64, u8>;

    open spec fn view(&self) -> Map<u64, u8> {
        self.timeouts@
    }
}

impl Monitor {
    /// A monitor that watches nobody.
    pub fn new() -> (m: Monitor)
        ensures
            m@ == Map::<u64, u8>::empty(),
    {
        Monitor { timeouts: HashMap::new() }
    }

    /// Puts every neighbour of `state` under watch.
    pub fn watch(&mut self, state: &State)
        ensures
            final(self)@ == watched(old(self)@, state.neighbours@.dom()),
    {
        let ids = state.neighbour_ids();
        let mut i: usize = 0;
        while i < ids.len()
            invariant
                i <= ids.len(),
                self@ == watched(old(self)@, ids@.take(i as int).to_set()),
            decreases ids.len() - i,
        {
            let id = ids[i];
            if !self.timeouts.contains_key(&id) {
                self.timeouts.insert(id, 0);
            }
            proof {
                let seen = ids@.take(i as int);
                assert(ids@.take(i + 1) =~= seen.push(id));
                assert(seen.push(id).to_set() =~= seen.to_set().insert(id)) by {
                    assert forall|k: u64| seen.push(id).contains(k) <==> seen.contains(k) || k
                        == id by {
                        lemma_push_contains(seen, id, k);
                    }
                }
                assert(self@ =~= watched(old(self)@, seen.to_set().insert(id)));
            }
            i += 1;
        }
        assert(ids@.take(ids.len() as int) =~= ids@);
    }

    /// Takes in whether the neighbour `id` answered the last ping. An answer
    /// sets its count back to 0. A missed ping raises the count by one, up
    /// to 255; once the count is above the limit the neighbour is marked as
    /// timed out in `state`.
    pub fn record(&mut self, state: &mut State, id: u64, responded: bool, timeout: u32) -> (timed_out:
        bool)
        ensures
            responded ==> {
                &&& !timed_out
                &&& final(self)@ == old(self)@.insert(id, 0)
                &&& with_neighbours(*final(state), *old(state), old(state).neighbours@)
            },
            !responded ==> {
                &&& final(self)@ == old(self)@.insert(id, one_more(old(self)@, id))
                &&& timed_out == (one_more(old(self)@, id) > limit_of(timeout))
                &&& with_neighbours(
                    *final(state),
                    *old(state),
                    if timed_out {
                        retuned(old(state).neighbours@, id, Mode::TimedOut)
                    } else {
                        old(state).neighbours@
                    },
                )
            },
    {
        if responded {
            self.timeouts.insert(id, 0);
            false
        } else {
            let before: u8 = match self.timeouts.get(&id) {
                Some(count) => *count,
                None => 0,
            };
            let count: u8 = if before == 255 {
                255
            } else {
                before + 1
            };
            self.timeouts.insert(id, count);
            let limit: u8 = (timeout % 0x100) as u8;
            if count > limit {
                state.set_neighbour_mode(id, Mode::TimedOut);
                true
            } else {
                false
            }
        }
    }
}

/// One beat: every neighbour comes under watch, and if this node is at work
/// the result is the neighbours to ping and the parcel to ping them with. A
/// node that is not at work pings nobody.
pub fn heartbeat(session: &Session, state: &State, monitor: &mut Monitor) -> (round: Option<
    (Vec<Node>, ProtoParcel),
>)
    ensures
        final(monitor)@ == watched(old(monitor)@, state.neighbours@.dom()),
        round is Some <==> state.mode == Mode::Wrk,
        round matches Some(r) ==> lists(state.neighbours@, true, r.0@) && r.1.carries(
            session.sender_id,
            false,
            Type::Ping,
            Body::Empty,
        ),
{
    monitor.watch(state);
    match state.mode {
        Mode::Wrk => Some((state.get_active_neighbours(), ProtoParcel::ping(session))),
        _ => None,
    }
}

} // verus!
