//! Requests that a node sends to its peers: how one peer's answer is read,
//! and how the answers of all peers add up.
//!
//! Connecting, writing and reading is the caller's part. It tells this
//! module how each exchange ended and gets back what the exchange means.

use vstd::prelude::*;
use crate::internal::TaskSignal;
use crate::net::{acknowledges, acks, is_acked};
use crate::proto::{Body, ProtoParcel, Type};
use crate::state::{Address, Node};

verus! {

/// How one exchange with a peer ended.
#[derive(Debug)]
pub enum Exchange {
    /// The peer could not be reached.
    Unreachable,
    /// The peer was reached, but what came back could not be read as a
    /// parcel.
    Unreadable,
    /// The peer answered with this parcel.
    Answered(ProtoParcel),
}

/// The signal for `message_id` that an acknowledging answer gives.
pub open spec fn signal_of(response: ProtoParcel, message_id: u64) -> TaskSignal {
    if acks(response, message_id) {
        TaskSignal::Success
    } else {
        TaskSignal::Fail
    }
}

/// What one peer's part in the broadcast of a request comes to: success if
/// the peer acknowledged the parcel `message_id`, failure in every other
/// case, the unreachable peer and the unreadable answer included.
pub fn publish_request(exchange: Exchange, message_id: u64) -> (signal: TaskSignal)
    ensures
        signal == outcome_of(exchange, message_id),
{
    match exchange {
        Exchange::Answered(response) => is_acked(response, message_id),
        _ => TaskSignal::Fail,
    }
}

/// What one peer's part in a broadcast comes to, as `publish_request` has it.
pub open spec fn outcome_of(exchange: Exchange, message_id: u64) -> TaskSignal {
    match exchange {
        Exchange::Answered(response) => signal_of(response, message_id),
        _ => TaskSignal::Fail,
    }
}

/// The outcome of a broadcast, peer by peer: for each exchange, in the order
/// of the exchanges, success if the peer acknowledged the parcel
/// `message_id` and failure otherwise.
pub fn broadcast(exchanges: &Vec<Exchange>, message_id: u64) -> (outcomes: Vec<TaskSignal>)
    ensures
        outcomes@.len() == exchanges@.len(),
        forall|i: int|
            0 <= i < exchanges@.len() ==> outcomes@[i] == outcome_of(exchanges@[i], message_id),
{
    let mut outcomes: Vec<TaskSignal> = Vec::new();
    let mut i: usize = 0;
    while i < exchanges.len()
        invariant
            i <= exchanges.len(),
            outcomes@.len() == i,
            forall|k: int| 0 <= k < i ==> outcomes@[k] == outcome_of(exchanges@[k], message_id),
        decreases exchanges.len() - i,
    {
        let outcome = match &exchanges[i] {
            Exchange::Answered(response) => {
                if acknowledges(response, message_id) {
                    TaskSignal::Success
                } else {
                    TaskSignal::Fail
                }
            },
            _ => TaskSignal::Fail,
        };
        outcomes.push(outcome);
        i += 1;
    }
    outcomes
}

/// What one peer's part in the broadcast of a release, of a state change or
/// of new neighbours comes to: a signal only if the peer answered at all.
pub fn publish_release(exchange: Exchange, message_id: u64) -> (signal: Option<TaskSignal>)
    ensures
        signal == (match exchange {
            Exchange::Answered(response) => Some(signal_of(response, message_id)),
            _ => None::<TaskSignal>,
        }),
{
    match exchange {
        Exchange::Answered(response) => Some(is_acked(response, message_id)),
        _ => None,
    }
}

/// The sequence number that a peer reported, if its answer is a sequence
/// response that carries one.
pub fn recover(exchange: Exchange) -> (seq: Option<u8>)
    ensures
        seq == (match exchange {
            Exchange::Answered(response) => match (response.parcel_type, response.body) {
                (Type::SeqRes, Body::SeqRes { seq_number }) => Some(seq_number),
                _ => None::<u8>,
            },
            _ => None::<u8>,
        }),
{
    match exchange {
        Exchange::Answered(response) => match response.parcel_type {
            Type::SeqRes => match response.body {
                Body::SeqRes { seq_number } => Some(seq_number),
                _ => None,
            },
            _ => None,
        },
        _ => None,
    }
}

/// The nodes that a peer made known, if its answer is a discovery response:
/// its neighbours, and the peer itself behind them.
pub fn discover(exchange: Exchange) -> (found: Option<Vec<Node>>)
    ensures
        match exchange {
            Exchange::Answered(response) => match (response.parcel_type, response.body) {
                (Type::DscRes, Body::DscRes { self_id, neighbours }) => found matches Some(nodes)
                    && nodes@ == neighbours@.push(self_id),
                _ => found is None,
            },
            _ => found is None,
        },
{
    match exchange {
        Exchange::Answered(response) => match response.parcel_type {
            Type::DscRes => match response.body {
                Body::DscRes { self_id, neighbours } => {
                    let mut nodes = neighbours;
                    nodes.push(self_id);
                    Some(nodes)
                },
                _ => None,
            },
            _ => None,
        },
        _ => None,
    }
}

/// Whether a pinged peer counts as alive: it does if it answered with a
/// pong. A peer that answered with an error parcel is not counted at all.
pub fn ping(exchange: Exchange) -> (alive: Option<bool>)
    ensures
        alive == (match exchange {
            Exchange::Answered(response) => match response.parcel_type {
                Type::Pong => Some(true),
                Type::ProtoError => None::<bool>,
                _ => Some(false),
            },
            _ => Some(false),
        }),
{
    match exchange {
        Exchange::Answered(response) => match response.parcel_type {
            Type::Pong => Some(true),
            Type::ProtoError => None,
            _ => Some(false),
        },
        _ => Some(false),
    }
}

/// The address by which a peer sees this node, if the peer's answer carries
/// one.
pub fn get_ext_addr_from_neighbour(exchange: Exchange) -> (addr: Option<Address>)
    ensures
        addr == (match exchange {
            Exchange::Answered(response) => match response.body {
                Body::ExtAddrRes { addr } => Some(addr),
                _ => None::<Address>,
            },
            _ => None::<Address>,
        }),
{
    match exchange {
        Exchange::Answered(response) => match response.body {
            Body::ExtAddrRes { addr } => Some(addr),
            _ => None,
        },
        _ => None,
    }
}

/// Whether every one of `total` peers acknowledged: the first `total`
/// signals are there and are all successes. Of no peer that is true.
pub open spec fn fully_acked(total: int, signals: Seq<TaskSignal>) -> bool {
    &&& total <= signals.len()
    &&& forall|i: int| 0 <= i < total ==> signals[i] == TaskSignal::Success
}

/// Adds up the peers' signals for a request that was broadcast to `total`
/// peers: success once `total` successes have come in, failure at the first
/// signal that is no success, and failure if the signals run out before. A
/// request that was sent to no peer succeeds at once: no peer failed.
pub fn pub_req(total: usize, signals: &Vec<TaskSignal>) -> (outcome: TaskSignal)
    ensures
        outcome == (if fully_acked(total as int, signals@) {
            TaskSignal::Success
        } else {
            TaskSignal::Fail
        }),
{
    if total == 0 {
        return TaskSignal::Success;
    }
    let mut received: usize = 0;
    while received < signals.len()
        invariant
            received <= signals.len(),
            received < total,
            forall|i: int| 0 <= i < received ==> signals@[i] == TaskSignal::Success,
        decreases signals.len() - received,
    {
        match signals[received] {
            TaskSignal::Success => {
                received += 1;
                if received == total {
                    return TaskSignal::Success;
                }
            },
            _ => {
                assert(!fully_acked(total as int, signals@)) by {
                    if fully_acked(total as int, signals@) {
                        assert(signals@[received as int] == TaskSignal::Success);
                    }
                }
                return TaskSignal::Fail;
            },
        }
    }
    TaskSignal::Fail
}

/// The highest of `replies`, and 0 if there is none.
pub open spec fn highest(replies: Seq<u8>) -> u8
    decreases replies.len(),
{
    if replies.len() == 0 {
        0
    } else if replies.last() >= highest(replies.drop_last()) {
        replies.last()
    } else {
        highest(replies.drop_last())
    }
}

/// `highest` is an upper bound of the replies, and one of them unless there
/// is none.
pub proof fn lemma_highest(replies: Seq<u8>)
    ensures
        forall|i: int| 0 <= i < replies.len() ==> replies[i] <= highest(replies),
        replies.len() > 0 ==> replies.contains(highest(replies)),
        replies.len() == 0 ==> highest(replies) == 0,
    decreases replies.len(),
{
    if replies.len() > 0 {
        let shorter = replies.drop_last();
        lemma_highest(shorter);
        assert forall|i: int| 0 <= i < replies.len() implies replies[i] <= highest(replies) by {
            if i < shorter.len() {
                assert(shorter[i] == replies[i]);
            }
        }
        if replies.last() >= highest(shorter) {
            assert(replies[replies.len() - 1] == highest(replies));
        } else {
            let j = choose|j: int| 0 <= j < shorter.len() && shorter[j] == highest(shorter);
            assert(replies[j] == highest(replies));
        }
    }
}

/// The sequence number to start from: the highest that the peers reported,
/// and 0 if none reported any.
pub fn seq_recovery(replies: &Vec<u8>) -> (seq: u8)
    ensures
        seq == highest(replies@),
        forall|i: int| 0 <= i < replies@.len() ==> replies@[i] <= seq,
        replies@.len() > 0 ==> replies@.contains(seq),
        replies@.len() == 0 ==> seq == 0,
{
    proof {
        lemma_highest(replies@);
    }
    let mut seq: u8 = 0;
    let mut i: usize = 0;
    while i < replies.len()
        invariant
            i <= replies.len(),
            seq == highest(replies@.take(i as int)),
        decreases replies.len() - i,
    {
        assert(replies@.take(i + 1).drop_last() =~= replies@.take(i as int));
        if replies[i] >= seq {
            seq = replies[i];
        }
        i += 1;
    }
    assert(replies@.take(replies.len() as int) =~= replies@);
    seq
}

} // verus!
