//! The pledge queue: the outstanding requests, earliest timestamp first.

use vstd::prelude::*;
use vstd::multiset::Multiset;
use crate::order::{ascending, lemma_slot_ascending, lemma_slot_is, parts_at, slot};
use crate::proto::ResourceRequest;
use crate::time::TicketKey;

verus! {

/// The outstanding requests in the order in which they are to be released:
/// by timestamp, and among equal timestamps in the order of arrival.
#[derive(Debug)]
pub struct PledgeQueue {
    items: Vec<ResourceRequest>,
}

/// The ranks of the requests' timestamps, in the order of the requests.
pub open spec fn stamps_of(requests: Seq<ResourceRequest>) -> Seq<int> {
    Seq::new(requests.len(), |i: int| requests[i].timestamp.rank())
}

/// The queue that holds `requests` after `request` has arrived.
pub open spec fn enqueued(requests: Seq<ResourceRequest>, request: ResourceRequest) -> Seq<
    ResourceRequest,
> {
    requests.insert(slot(stamps_of(requests), request.timestamp.rank()), request)
}

/// Whether no request in `requests` has a timestamp earlier than `request`'s.
pub open spec fn none_earlier(requests: Seq<ResourceRequest>, request: ResourceRequest) -> bool {
    forall|i: int|
        0 <= i < requests.len() ==> !(#[trigger] requests[i]).timestamp.earlier(request.timestamp)
}

/// Whether the requests stand in the order of their timestamps.
pub open spec fn in_order(requests: Seq<ResourceRequest>) -> bool {
    ascending(stamps_of(requests))
}

/// A request that arrives in an ordered queue leaves the queue ordered, and
/// the queue then holds what it held and the request, once more than before.
pub proof fn lemma_enqueued(requests: Seq<ResourceRequest>, request: ResourceRequest)
    requires
        in_order(requests),
    ensures
        in_order(enqueued(requests, request)),
        0 <= slot(stamps_of(requests), request.timestamp.rank()) <= requests.len(),
        enqueued(requests, request).to_multiset() == requests.to_multiset().insert(request),
{
    let stamps = stamps_of(requests);
    let x = request.timestamp.rank();
    lemma_slot_ascending(stamps, x);
    let p = slot(stamps, x);
    let after = enqueued(requests, request);
    assert(stamps_of(after) =~= stamps.insert(p, x));
    assert(after.remove(p) =~= requests);
    vstd::seq_lib::to_multiset_remove(after, p);
    assert(after[p] == request);
    after.to_multiset_ensures();
    assert(after.contains(request));
    assert(after.to_multiset() =~= requests.to_multiset().insert(request));
}

/// The head of an ordered queue has the earliest timestamp in it.
pub proof fn lemma_head_is_earliest(requests: Seq<ResourceRequest>)
    requires
        in_order(requests),
        requests.len() > 0,
    ensures
        none_earlier(requests, requests[0]),
{
    assert forall|i: int| 0 <= i < requests.len() implies !(#[trigger] requests[i]).timestamp.earlier(
        requests[0].timestamp,
    ) by {
        assert(stamps_of(requests)[0] <= stamps_of(requests)[i]);
        crate::time::lemma_timestamp_rank(requests[i].timestamp, requests[0].timestamp);
    }
}

/// An ordered queue without its head is ordered.
pub proof fn lemma_rest_in_order(requests: Seq<ResourceRequest>)
    requires
        in_order(requests),
        requests.len() > 0,
    ensures
        in_order(requests.drop_first()),
        requests.drop_first().to_multiset() == requests.to_multiset().remove(requests[0]),
{
    let rest = requests.drop_first();
    assert forall|i: int, j: int| 0 <= i <= j < stamps_of(rest).len() implies stamps_of(rest)[i]
        <= stamps_of(rest)[j] by {
        assert(stamps_of(requests)[i + 1] <= stamps_of(requests)[j + 1]);
    }
    assert(rest =~= requests.remove(0));
    vstd::seq_lib::to_multiset_remove(requests, 0);
}

/// Whether no two requests in `requests` have the same timestamp.
pub open spec fn distinct_stamps(requests: Seq<ResourceRequest>) -> bool {
    forall|i: int, j: int|
        0 <= i < j < requests.len() ==> stamps_of(requests)[i] != stamps_of(requests)[j]
}

/// Two ordered queues that hold the same requests, no two of them with the
/// same timestamp, hold them in the same order.
pub proof fn lemma_order_is_unique(a: Seq<ResourceRequest>, b: Seq<ResourceRequest>)
    requires
        in_order(a),
        in_order(b),
        distinct_stamps(a),
        a.to_multiset() == b.to_multiset(),
    ensures
        a == b,
    decreases a.len(),
{
    a.to_multiset_ensures();
    b.to_multiset_ensures();
    if a.len() == 0 {
        assert(a =~= b);
    } else {
        assert(a.contains(a[0]));
        assert(b.to_multiset().count(a[0]) > 0);
        let j = choose|j: int| 0 <= j < b.len() && b[j] == a[0];
        assert(b.contains(b[0]));
        assert(a.to_multiset().count(b[0]) > 0);
        let i = choose|i: int| 0 <= i < a.len() && a[i] == b[0];
        assert(stamps_of(a)[0] <= stamps_of(a)[i]);
        assert(stamps_of(b)[0] <= stamps_of(b)[j]);
        assert(stamps_of(a)[i] == stamps_of(b)[0]);
        assert(stamps_of(b)[j] == stamps_of(a)[0]);
        assert(i == 0);
        assert(a[0] == b[0]);
        lemma_rest_in_order(a);
        lemma_rest_in_order(b);
        let rest = a.drop_first();
        assert forall|m: int, n: int| 0 <= m < n < rest.len() implies stamps_of(rest)[m]
            != stamps_of(rest)[n] by {
            assert(stamps_of(a)[m + 1] != stamps_of(a)[n + 1]);
        }
        lemma_order_is_unique(rest, b.drop_first());
        assert(a =~= seq![a[0]] + rest);
        assert(b =~= seq![b[0]] + b.drop_first());
    }
}

impl PledgeQueue {
    /// The requests, head first.
    pub closed spec fn view(&self) -> Seq<ResourceRequest> {
        self.items@
    }

    /// The requests stand in the order of their timestamps.
    pub open spec fn wf(&self) -> bool {
        in_order(self@)
    }

    /// The requests as a multiset: what the queue holds, whatever the order.
    pub open spec fn content(&self) -> Multiset<ResourceRequest> {
        self@.to_multiset()
    }

    /// An empty queue.
    pub fn new() -> (q: PledgeQueue)
        ensures
            q.wf(),
            q@.len() == 0,
    {
        PledgeQueue { items: Vec::new() }
    }

    /// The number of outstanding requests.
    pub fn len(&self) -> (n: usize)
        ensures
            n == self@.len(),
    {
        self.items.len()
    }

    /// Whether no request is outstanding.
    pub fn is_empty(&self) -> (b: bool)
        ensures
            b == (self@.len() == 0),
    {
        self.items.len() == 0
    }

    /// Puts `request` behind the requests whose timestamp is not later than
    /// its own.
    pub fn push(&mut self, request: ResourceRequest)
        requires
            old(self).wf(),
        ensures
            final(self).wf(),
            final(self)@ == enqueued(old(self)@, request),
            final(self).content() == old(self).content().insert(request),
    {
        let ghost before = self@;
        let ghost stamps = stamps_of(before);
        let ghost x = request.timestamp.rank();
        let mut at: usize = 0;
        while at < self.items.len() && !request.timestamp.precedes(&self.items[at].timestamp)
            invariant
                self@ == before,
                at <= before.len(),
                x == request.timestamp.rank(),
                forall|k: int| 0 <= k < at ==> before[k].timestamp.rank() <= x,
            decreases before.len() - at,
        {
            at += 1;
        }
        proof {
            assert forall|k: int| at <= k < stamps.len() implies x < stamps[k] by {
                assert(stamps[at as int] <= stamps[k]);
            }
            assert(parts_at(stamps, x, at as int));
            lemma_slot_is(stamps, x, at as int);
            lemma_enqueued(before, request);
        }
        self.items.insert(at, request);
    }

    /// The request that is first in the order, if there is one: none in the
    /// queue has an earlier timestamp.
    pub fn peek(&self) -> (head: Option<ResourceRequest>)
        requires
            self.wf(),
        ensures
            head is None <==> self@.len() == 0,
            head is Some ==> head->0 == self@[0] && none_earlier(self@, head->0),
    {
        if self.items.len() == 0 {
            None
        } else {
            proof {
                lemma_head_is_earliest(self@);
            }
            Some(self.items[0])
        }
    }

    /// Takes the request that is first in the order out of the queue.
    pub fn pop(&mut self) -> (head: Option<ResourceRequest>)
        requires
            old(self).wf(),
        ensures
            final(self).wf(),
            old(self)@.len() == 0 ==> head is None && final(self)@ == old(self)@,
            old(self)@.len() > 0 ==> {
                &&& head == Some(old(self)@[0])
                &&& final(self)@ == old(self)@.drop_first()
                &&& final(self).content() == old(self).content().remove(old(self)@[0])
            },
    {
        if self.items.len() == 0 {
            None
        } else {
            proof {
                lemma_rest_in_order(self@);
            }
            let head = self.items.remove(0);
            assert(self@ =~= old(self)@.drop_first());
            Some(head)
        }
    }
}

} // verus!
