//! The worker's decisions: when this node may emit a release of its own, and
//! when the head of the queue is retired on a peer's release.
//!
//! The worker's loop lives with the caller. Each round it asks `next_step`;
//! told to emit, it broadcasts the release; told to listen, it takes the
//! releases that have arrived and hands each to `retire`; it backs off when
//! told to idle or when nothing has arrived.

use vstd::prelude::*;
use crate::pending::{acknowledged, PendingTable};
use crate::proto::{Body, Pledge, ProtoParcel, ResourceRelease, ResourceRequest, Session, Type};
use crate::queue::{
    distinct_stamps, enqueued, in_order, lemma_enqueued, lemma_head_is_earliest,
    lemma_order_is_unique, lemma_rest_in_order, none_earlier, PledgeQueue,
};
use crate::req::{highest, seq_recovery};
use crate::state::{Mode, State};

verus! {

broadcast use vstd::multiset::group_multiset_axioms;

/// What the worker is to do next.
#[derive(Debug)]
pub enum Step {
    /// The queue is empty: back off and ask again.
    Idle,
    /// This node's request was first in the queue and acknowledged. It has
    /// left the queue, and its release, taken from the pending table, is to
    /// be broadcast.
    Emit(ResourceRelease),
    /// The head of the queue cannot be released by this node now: take in the
    /// releases of the peers.
    Listen,
}

/// What a release that arrived from a peer did to the queue.
#[derive(Clone, Copy, Debug, PartialEq, Eq)]
pub enum Retirement {
    /// The release came from the owner of the head, and the head left the
    /// queue.
    Retired(ResourceRequest),
    /// The release did not come from the owner of the head: the queue is as
    /// it was.
    Violation,
}

/// Whether the node `self_id` may emit now: its own request is first in the
/// queue, and the pending entry under the request's shorthand is
/// acknowledged.
pub open spec fn may_emit(
    self_id: u64,
    queue: Seq<ResourceRequest>,
    pending: Map<u64, (ResourceRelease, bool)>,
) -> bool {
    &&& queue.len() > 0
    &&& queue[0].owner == self_id
    &&& pending.contains_key(queue[0].shorthand)
    &&& pending[queue[0].shorthand].1
}

/// Whether `release` retires the head of `queue`: it comes from the head's
/// owner.
pub open spec fn retires(queue: Seq<ResourceRequest>, release: ResourceRelease) -> bool {
    queue.len() > 0 && queue[0].owner == release.owner
}

/// The request that a release answers.
pub open spec fn request_of(release: ResourceRelease) -> ResourceRequest {
    ResourceRequest {
        owner: release.owner,
        message_hash: release.message_hash,
        shorthand: release.shorthand,
        timestamp: release.timestamp,
        sequence: release.sequence,
    }
}

/// The queue after `event` was delivered to it: a request enters, a release
/// retires the head if it comes from the head's owner.
pub open spec fn delivered(queue: Seq<ResourceRequest>, event: Pledge) -> Seq<ResourceRequest> {
    match event {
        Pledge::ResourceRequest(request) => enqueued(queue, request),
        Pledge::ResourceRelease(release) => if retires(queue, release) {
            queue.drop_first()
        } else {
            queue
        },
    }
}

/// Begins the work of a node that has joined the cluster: the node adopts
/// the highest sequence number that its peers reported, 0 if none reported
/// any, and the result is the parcel that tells the peers that it is at work.
pub fn begin_work(session: &Session, state: &mut State, replies: &Vec<u8>) -> (announcement:
    ProtoParcel)
    ensures
        final(state).sequence == highest(replies@),
        final(state).id == old(state).id,
        final(state).mode == old(state).mode,
        final(state).name == old(state).name,
        final(state).internal_addr == old(state).internal_addr,
        final(state).external_addr == old(state).external_addr,
        final(state).neighbours == old(state).neighbours,
        announcement.carries(
            session.sender_id,
            false,
            Type::StateChange,
            Body::StateChange { mode: Mode::Wrk },
        ),
{
    state.sequence = seq_recovery(replies);
    ProtoParcel::state_change(session, Mode::Wrk)
}

/// Decides the worker's next step. A release is emitted exactly when
/// `may_emit` holds; the request then leaves the queue and the release leaves
/// the pending table, so that it cannot be emitted again.
pub fn next_step(self_id: u64, queue: &mut PledgeQueue, pending: &mut PendingTable) -> (step: Step)
    requires
        old(queue).wf(),
    ensures
        final(queue).wf(),
        old(queue)@.len() == 0 ==> step is Idle,
        old(queue)@.len() > 0 && !may_emit(self_id, old(queue)@, old(pending)@) ==> step is Listen,
        !may_emit(self_id, old(queue)@, old(pending)@) ==> {
            &&& final(queue)@ == old(queue)@
            &&& final(pending)@ == old(pending)@
        },
        may_emit(self_id, old(queue)@, old(pending)@) ==> {
            &&& step == Step::Emit(old(pending)@[old(queue)@[0].shorthand].0)
            &&& final(queue)@ == old(queue)@.drop_first()
            &&& final(pending)@ == old(pending)@.remove(old(queue)@[0].shorthand)
        },
{
    match queue.peek() {
        None => Step::Idle,
        Some(head) => {
            if head.owner == self_id && pending.is_acknowledged(head.shorthand) {
                queue.pop();
                match pending.take(head.shorthand) {
                    Some(release) => Step::Emit(release),
                    None => Step::Listen,
                }
            } else {
                Step::Listen
            }
        },
    }
}

/// Delivers a peer's release to the queue: the head is retired if the release
/// comes from its owner; otherwise the queue is left as it is.
pub fn retire(queue: &mut PledgeQueue, release: &ResourceRelease) -> (r: Retirement)
    requires
        old(queue).wf(),
    ensures
        final(queue).wf(),
        final(queue)@ == delivered(old(queue)@, Pledge::ResourceRelease(*release)),
        retires(old(queue)@, *release) ==> r == Retirement::Retired(old(queue)@[0]),
        !retires(old(queue)@, *release) ==> r == Retirement::Violation,
{
    match queue.peek() {
        None => Retirement::Violation,
        Some(head) => {
            if head.owner == release.owner {
                queue.pop();
                Retirement::Retired(head)
            } else {
                Retirement::Violation
            }
        },
    }
}

/// A release is emitted at most once: the emission takes the entry out of
/// the pending table, and without the entry no queue whose head carries the
/// same shorthand lets the node emit.
pub proof fn lemma_emit_at_most_once(
    self_id: u64,
    queue: Seq<ResourceRequest>,
    pending: Map<u64, (ResourceRelease, bool)>,
    later: Seq<ResourceRequest>,
)
    requires
        may_emit(self_id, queue, pending),
        later.len() > 0,
        later[0].shorthand == queue[0].shorthand,
    ensures
        !may_emit(self_id, later, pending.remove(queue[0].shorthand)),
{
}

/// While a peer's request is first in the queue this node emits nothing,
/// whatever it has pending and acknowledged.
pub proof fn lemma_no_emission_behind_a_peer(
    self_id: u64,
    queue: Seq<ResourceRequest>,
    pending: Map<u64, (ResourceRelease, bool)>,
)
    requires
        queue.len() > 0,
        queue[0].owner != self_id,
    ensures
        !may_emit(self_id, queue, pending),
{
}

/// Without the head's entry being acknowledged nothing is emitted, whatever
/// stands in the queue: a request that is first but not acknowledged waits.
pub proof fn lemma_no_emission_before_acknowledgement(
    self_id: u64,
    queue: Seq<ResourceRequest>,
    pending: Map<u64, (ResourceRelease, bool)>,
)
    requires
        queue.len() > 0,
        !pending.contains_key(queue[0].shorthand) || !pending[queue[0].shorthand].1,
    ensures
        !may_emit(self_id, queue, pending),
{
}

/// What happens at a node, as far as the worker's queue and the pending
/// table are concerned.
pub enum WorkerEvent {
    /// A release was stored as pending under this shorthand.
    Stored(u64, ResourceRelease),
    /// The entry under this shorthand was flagged as acknowledged.
    Acknowledged(u64),
    /// A request or a release was delivered to the queue.
    Delivered(Pledge),
    /// The worker took its next step.
    Stepped,
}

/// The queue and the pending table of the node `self_id` after `events`,
/// both empty at the start.
pub open spec fn worker_after(self_id: u64, events: Seq<WorkerEvent>) -> (
    Seq<ResourceRequest>,
    Map<u64, (ResourceRelease, bool)>,
)
    decreases events.len(),
{
    if events.len() == 0 {
        (Seq::empty(), Map::empty())
    } else {
        let (queue, pending) = worker_after(self_id, events.drop_last());
        match events.last() {
            WorkerEvent::Stored(key, release) => (queue, pending.insert(key, (release, false))),
            WorkerEvent::Acknowledged(key) => (queue, acknowledged(pending, key)),
            WorkerEvent::Delivered(pledge) => (delivered(queue, pledge), pending),
            WorkerEvent::Stepped => if may_emit(self_id, queue, pending) {
                (queue.drop_first(), pending.remove(queue[0].shorthand))
            } else {
                (queue, pending)
            },
        }
    }
}

/// The number of releases that the worker of the node `self_id` has emitted
/// under the shorthand `key` in the course of `events`.
pub open spec fn emissions(self_id: u64, events: Seq<WorkerEvent>, key: u64) -> nat
    decreases events.len(),
{
    if events.len() == 0 {
        0
    } else {
        let (queue, pending) = worker_after(self_id, events.drop_last());
        emissions(self_id, events.drop_last(), key) + if events.last() is Stepped && may_emit(
            self_id,
            queue,
            pending,
        ) && queue[0].shorthand == key {
            1nat
        } else {
            0nat
        }
    }
}

/// The number of releases that were stored under the shorthand `key` in the
/// course of `events`.
pub open spec fn stores(events: Seq<WorkerEvent>, key: u64) -> nat
    decreases events.len(),
{
    if events.len() == 0 {
        0
    } else {
        stores(events.drop_last(), key) + if events.last() matches WorkerEvent::Stored(k, _) && k
            == key {
            1nat
        } else {
            0nat
        }
    }
}

/// Whatever happens at a node, and in whatever order: under each shorthand
/// the worker emits at most as many releases as were stored under it, and
/// one less while a release is still pending there. A release that was
/// stored once is therefore emitted at most once.
pub proof fn lemma_emissions_bounded(self_id: u64, events: Seq<WorkerEvent>, key: u64)
    ensures
        emissions(self_id, events, key) + (if worker_after(self_id, events).1.contains_key(key) {
            1nat
        } else {
            0nat
        }) <= stores(events, key),
    decreases events.len(),
{
    if events.len() > 0 {
        lemma_emissions_bounded(self_id, events.drop_last(), key);
    }
}

/// The queue of a node to which `events` were delivered in turn, starting
/// from an empty queue.
pub open spec fn replayed(events: Seq<Pledge>) -> Seq<ResourceRequest>
    decreases events.len(),
{
    if events.len() == 0 {
        Seq::empty()
    } else {
        delivered(replayed(events.drop_last()), events.last())
    }
}

/// Whether every release in `events` arrives when its own request is first
/// in the queue.
pub open spec fn orderly(events: Seq<Pledge>) -> bool
    decreases events.len(),
{
    if events.len() == 0 {
        true
    } else {
        &&& orderly(events.drop_last())
        &&& match events.last() {
            Pledge::ResourceRelease(release) => {
                let queue = replayed(events.drop_last());
                queue.len() > 0 && queue[0] == request_of(release)
            },
            Pledge::ResourceRequest(_) => true,
        }
    }
}

/// What `event` adds to the number of copies of `request` that are
/// outstanding: one for the request itself, minus one for its release.
pub open spec fn weight(event: Pledge, request: ResourceRequest) -> int {
    match event {
        Pledge::ResourceRequest(r) => if r == request {
            1
        } else {
            0
        },
        Pledge::ResourceRelease(l) => if request_of(l) == request {
            -1
        } else {
            0
        },
    }
}

/// The number of copies of `request` that `events` leave outstanding.
pub open spec fn balance(events: Seq<Pledge>, request: ResourceRequest) -> int
    decreases events.len(),
{
    if events.len() == 0 {
        0
    } else {
        balance(events.drop_last(), request) + weight(events.last(), request)
    }
}

/// The queue that events leave behind is ordered.
pub proof fn lemma_replayed_in_order(events: Seq<Pledge>)
    ensures
        in_order(replayed(events)),
    decreases events.len(),
{
    if events.len() > 0 {
        lemma_replayed_in_order(events.drop_last());
        let queue = replayed(events.drop_last());
        match events.last() {
            Pledge::ResourceRequest(request) => {
                lemma_enqueued(queue, request);
            },
            Pledge::ResourceRelease(release) => {
                if retires(queue, release) {
                    lemma_rest_in_order(queue);
                }
            },
        }
    }
}

/// After an orderly delivery the queue holds each request as often as the
/// events leave it outstanding.
pub proof fn lemma_replayed_counts(events: Seq<Pledge>, request: ResourceRequest)
    requires
        orderly(events),
    ensures
        replayed(events).to_multiset().count(request) == balance(events, request),
    decreases events.len(),
{
    if events.len() > 0 {
        let earlier = events.drop_last();
        lemma_replayed_counts(earlier, request);
        lemma_replayed_in_order(earlier);
        let queue = replayed(earlier);
        match events.last() {
            Pledge::ResourceRequest(r) => {
                lemma_enqueued(queue, r);
            },
            Pledge::ResourceRelease(l) => {
                lemma_rest_in_order(queue);
                queue.to_multiset_ensures();
                assert(queue.contains(queue[0]));
            },
        }
    } else {
        Seq::<ResourceRequest>::empty().to_multiset_ensures();
        assert(replayed(events).to_multiset().len() == 0);
    }
}

/// Taking one event out of a delivery takes its weight out of the balance.
pub proof fn lemma_balance_remove(events: Seq<Pledge>, i: int, request: ResourceRequest)
    requires
        0 <= i < events.len(),
    ensures
        balance(events, request) == balance(events.remove(i), request) + weight(events[i], request),
    decreases events.len(),
{
    if i == events.len() - 1 {
        assert(events.remove(i) =~= events.drop_last());
    } else {
        lemma_balance_remove(events.drop_last(), i, request);
        assert(events.remove(i).drop_last() =~= events.drop_last().remove(i));
        assert(events.remove(i).last() == events.last());
    }
}

/// The balance does not depend on the order in which the events arrive.
pub proof fn lemma_balance_permutation(a: Seq<Pledge>, b: Seq<Pledge>, request: ResourceRequest)
    requires
        a.to_multiset() == b.to_multiset(),
    ensures
        balance(a, request) == balance(b, request),
    decreases a.len(),
{
    a.to_multiset_ensures();
    b.to_multiset_ensures();
    if a.len() > 0 {
        let x = a.last();
        assert(a.contains(x));
        assert(b.to_multiset().count(x) > 0);
        assert(b.contains(x));
        let i = choose|i: int| 0 <= i < b.len() && b[i] == x;
        assert(a.drop_last() =~= a.remove(a.len() - 1));
        vstd::seq_lib::to_multiset_remove(a, a.len() - 1);
        vstd::seq_lib::to_multiset_remove(b, i);
        lemma_balance_permutation(a.drop_last(), b.remove(i), request);
        lemma_balance_remove(b, i, request);
    } else {
        assert(b.len() == 0);
    }
}

/// Two nodes to which the same events are delivered, each in an order of its
/// own in which every release meets its request at the head of the queue,
/// end with queues that hold the same requests.
pub proof fn lemma_convergence(a: Seq<Pledge>, b: Seq<Pledge>)
    requires
        a.to_multiset() == b.to_multiset(),
        orderly(a),
        orderly(b),
    ensures
        replayed(a).to_multiset() == replayed(b).to_multiset(),
{
    assert forall|request: ResourceRequest|
        replayed(a).to_multiset().count(request) == replayed(b).to_multiset().count(request) by {
        lemma_replayed_counts(a, request);
        lemma_replayed_counts(b, request);
        lemma_balance_permutation(a, b, request);
    }
    assert(replayed(a).to_multiset() =~= replayed(b).to_multiset());
}

/// If, besides, no two of the requests that are left have the same
/// timestamp, the two queues hold them in the same order.
pub proof fn lemma_convergence_in_order(a: Seq<Pledge>, b: Seq<Pledge>)
    requires
        a.to_multiset() == b.to_multiset(),
        orderly(a),
        orderly(b),
        distinct_stamps(replayed(a)),
    ensures
        replayed(a) == replayed(b),
{
    lemma_convergence(a, b);
    lemma_replayed_in_order(a);
    lemma_replayed_in_order(b);
    lemma_order_is_unique(replayed(a), replayed(b));
}

/// Whatever was delivered to a queue, and in whatever order: no request in
/// the queue has an earlier timestamp than the head.
pub proof fn lemma_head_is_earliest_after(events: Seq<Pledge>)
    requires
        replayed(events).len() > 0,
    ensures
        none_earlier(replayed(events), replayed(events)[0]),
{
    lemma_replayed_in_order(events);
    lemma_head_is_earliest(replayed(events));
}

} // verus!
