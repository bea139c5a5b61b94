//! The ordered ticket barrier: tickets are registered under a key, and a
//! caller may pass an event once every ticket with an earlier key is done.
//!
//! The barrier is a plain value. It never blocks: `wait_until` says whether
//! the caller may pass or which ticket it has to wait for, and whoever shares
//! the barrier between threads parks the caller until that ticket is
//! consumed and asks again.

use vstd::prelude::*;
use crate::order::{
    ascending, lemma_slot_ascending, lemma_slot_bounds, lemma_slot_is, parts_at, slot,
};
use crate::time::TicketKey;

verus! {

/// The handle given to whoever registered a ticket. All copies of a handle
/// stand for the same ticket.
#[derive(Clone, Copy, Debug, PartialEq, Eq, Structural)]
pub struct Client {
    pub id: u64,
}

/// The barrier's record of one ticket: its number and whether it is done.
#[derive(Clone, Copy, Debug, PartialEq, Eq, Structural)]
pub struct Watcher {
    pub id: u64,
    pub done: bool,
}

/// A ticket as it stands in the barrier, under its key.
#[derive(Debug)]
pub struct Waiter<T: TicketKey> {
    pub event: T,
    pub watcher: Watcher,
}

/// What `wait_until` found.
#[derive(Clone, Copy, Debug, PartialEq, Eq, Structural)]
pub enum Wait {
    /// Every ticket with an earlier key is done: the caller may pass.
    Ready,
    /// The ticket with the earliest key is earlier than the event and not
    /// done: the caller has to wait for it.
    Pending(Client),
}

/// Tickets in the order of their keys, earliest first.
#[derive(Debug)]
pub struct OrdSemaphore<T: TicketKey> {
    events: Vec<Waiter<T>>,
    issued: u64,
}

/// The ranks of the tickets' keys, in the order of the tickets.
pub open spec fn ranks_of<T: TicketKey>(tickets: Seq<Waiter<T>>) -> Seq<int> {
    Seq::new(tickets.len(), |i: int| tickets[i].event.rank())
}

/// Whether a ticket lets an event of rank `event` pass and may be dropped:
/// it is earlier than the event, and done.
pub open spec fn spent<T: TicketKey>(ticket: Waiter<T>, event: int) -> bool {
    ticket.event.rank() < event && ticket.watcher.done
}

/// The number of leading tickets that are spent for an event of rank `event`.
pub open spec fn spent_prefix<T: TicketKey>(tickets: Seq<Waiter<T>>, event: int) -> int
    decreases tickets.len(),
{
    if tickets.len() > 0 && spent(tickets[0], event) {
        1 + spent_prefix(tickets.drop_first(), event)
    } else {
        0
    }
}

/// The tickets with the one numbered `id`, if it is among them, marked done.
pub open spec fn consumed<T: TicketKey>(tickets: Seq<Waiter<T>>, id: u64) -> Seq<Waiter<T>> {
    Seq::new(
        tickets.len(),
        |i: int|
            if tickets[i].watcher.id == id {
                Waiter { event: tickets[i].event, watcher: Watcher { id, done: true } }
            } else {
                tickets[i]
            },
    )
}

/// Whether every ticket with a key before rank `event` is done.
pub open spec fn all_earlier_done<T: TicketKey>(tickets: Seq<Waiter<T>>, event: int) -> bool {
    forall|i: int|
        0 <= i < tickets.len() && tickets[i].event.rank() < event ==> tickets[i].watcher.done
}

/// The first `n` tickets are spent, and the one after them, if any, is not:
/// then `n` is the length of the spent prefix.
pub proof fn lemma_spent_prefix_is<T: TicketKey>(tickets: Seq<Waiter<T>>, event: int, n: int)
    requires
        0 <= n <= tickets.len(),
        forall|i: int| 0 <= i < n ==> spent(#[trigger] tickets[i], event),
        n < tickets.len() ==> !spent(tickets[n], event),
    ensures
        spent_prefix(tickets, event) == n,
    decreases n,
{
    if n > 0 {
        let rest = tickets.drop_first();
        assert forall|i: int| 0 <= i < n - 1 implies spent(#[trigger] rest[i], event) by {
            assert(rest[i] == tickets[i + 1]);
        }
        if n - 1 < rest.len() {
            assert(rest[n - 1] == tickets[n]);
        }
        lemma_spent_prefix_is(rest, event, n - 1);
    }
}

/// Marking a ticket done a second time changes nothing.
pub proof fn lemma_consume_idempotent<T: TicketKey>(tickets: Seq<Waiter<T>>, id: u64)
    ensures
        consumed(consumed(tickets, id), id) == consumed(tickets, id),
{
    assert(consumed(consumed(tickets, id), id) =~= consumed(tickets, id));
}

/// Marking tickets done in either order gives the same tickets.
pub proof fn lemma_consume_commutes<T: TicketKey>(tickets: Seq<Waiter<T>>, a: u64, b: u64)
    ensures
        consumed(consumed(tickets, a), b) == consumed(consumed(tickets, b), a),
{
    assert(consumed(consumed(tickets, a), b) =~= consumed(consumed(tickets, b), a));
}

/// The leading tickets that are spent for an event are within the tickets,
/// and each of them is spent.
pub proof fn lemma_spent_prefix_spent<T: TicketKey>(tickets: Seq<Waiter<T>>, event: int)
    ensures
        0 <= spent_prefix(tickets, event) <= tickets.len(),
        forall|i: int| 0 <= i < spent_prefix(tickets, event) ==> spent(#[trigger] tickets[i], event),
    decreases tickets.len(),
{
    if tickets.len() > 0 && spent(tickets[0], event) {
        let rest = tickets.drop_first();
        lemma_spent_prefix_spent(rest, event);
        assert forall|i: int| 0 <= i < spent_prefix(tickets, event) implies spent(
            #[trigger] tickets[i],
            event,
        ) by {
            if i > 0 {
                assert(rest[i - 1] == tickets[i]);
            }
        }
    }
}

/// One call on a barrier, as it appears in the history of the barrier.
pub enum BarrierCall<T: TicketKey> {
    /// `create_task` with this key.
    Create(T),
    /// `consume` on the handle of the ticket with this number.
    Consume(u64),
    /// `wait_until` for this event.
    Wait(T),
}

/// The number of tickets that `calls` have registered.
pub open spec fn created<T: TicketKey>(calls: Seq<BarrierCall<T>>) -> nat
    decreases calls.len(),
{
    if calls.len() == 0 {
        0
    } else {
        created(calls.drop_last()) + if calls.last() is Create {
            1nat
        } else {
            0nat
        }
    }
}

/// The tickets in a barrier that was new when `calls` were made on it, one
/// after the other.
pub open spec fn tickets_after<T: TicketKey>(calls: Seq<BarrierCall<T>>) -> Seq<Waiter<T>>
    decreases calls.len(),
{
    if calls.len() == 0 {
        Seq::empty()
    } else {
        let before = tickets_after(calls.drop_last());
        match calls.last() {
            BarrierCall::Create(key) => before.insert(
                slot(ranks_of(before), key.rank()),
                Waiter {
                    event: key,
                    watcher: Watcher { id: created(calls.drop_last()) as u64, done: false },
                },
            ),
            BarrierCall::Consume(id) => consumed(before, id),
            BarrierCall::Wait(event) => before.skip(spent_prefix(before, event.rank())),
        }
    }
}

/// The number of the ticket that the call at index `i` registered.
pub open spec fn ticket_of<T: TicketKey>(calls: Seq<BarrierCall<T>>, i: int) -> u64 {
    created(calls.take(i)) as u64
}

/// Whether the ticket that the call at index `i` registered stands in the
/// barrier after `calls`, not done.
pub open spec fn still_open<T: TicketKey>(calls: Seq<BarrierCall<T>>, i: int) -> bool {
    exists|p: int|
        0 <= p < tickets_after(calls).len() && (#[trigger] tickets_after(calls)[p]) == (Waiter {
            event: calls[i]->Create_0,
            watcher: Watcher { id: ticket_of(calls, i), done: false },
        })
}

/// Whether a call behind index `i` consumes the ticket that the call at
/// index `i` registered.
pub open spec fn consumed_later<T: TicketKey>(calls: Seq<BarrierCall<T>>, i: int) -> bool {
    exists|j: int|
        i < j < calls.len() && #[trigger] calls[j] == BarrierCall::<T>::Consume(ticket_of(calls, i))
}

/// Whatever calls are made on a barrier, in whatever order: a ticket that was
/// registered is either still in the barrier and not done, or it has been
/// consumed since.
pub proof fn lemma_open_or_consumed<T: TicketKey>(calls: Seq<BarrierCall<T>>, i: int)
    requires
        0 <= i < calls.len(),
        calls[i] is Create,
    ensures
        still_open(calls, i) || consumed_later(calls, i),
    decreases calls.len(),
{
    let earlier = calls.drop_last();
    let before = tickets_after(earlier);
    let after = tickets_after(calls);
    let last = calls.len() - 1;
    assert(calls.take(last) =~= earlier);
    if i == last {
        let at = slot(ranks_of(before), calls[i]->Create_0.rank());
        lemma_slot_bounds(ranks_of(before), calls[i]->Create_0.rank());
        assert(after[at] == (Waiter {
            event: calls[i]->Create_0,
            watcher: Watcher { id: ticket_of(calls, i), done: false },
        }));
    } else {
        assert(earlier.take(i) =~= calls.take(i));
        assert(earlier[i] == calls[i]);
        lemma_open_or_consumed(earlier, i);
        let mine = Waiter {
            event: calls[i]->Create_0,
            watcher: Watcher { id: ticket_of(calls, i), done: false },
        };
        if consumed_later(earlier, i) {
            let j = choose|j: int|
                i < j < earlier.len() && #[trigger] earlier[j] == BarrierCall::<T>::Consume(
                    ticket_of(earlier, i),
                );
            assert(calls[j] == BarrierCall::<T>::Consume(ticket_of(calls, i)));
        } else {
            let p = choose|p: int| 0 <= p < before.len() && (#[trigger] before[p]) == mine;
            match calls.last() {
                BarrierCall::Create(key) => {
                    let at = slot(ranks_of(before), key.rank());
                    lemma_slot_bounds(ranks_of(before), key.rank());
                    if p < at {
                        assert(after[p] == mine);
                    } else {
                        assert(after[p + 1] == mine);
                    }
                },
                BarrierCall::Consume(id) => {
                    if id == ticket_of(calls, i) {
                        assert(calls[last] == BarrierCall::<T>::Consume(ticket_of(calls, i)));
                    } else {
                        assert(after[p] == mine);
                    }
                },
                BarrierCall::Wait(event) => {
                    let n = spent_prefix(before, event.rank());
                    lemma_spent_prefix_spent(before, event.rank());
                    if p < n {
                        assert(spent(before[p], event.rank()));
                    }
                    assert(after[p - n] == mine);
                },
            }
        }
    }
}

/// A caller passes an event only after every ticket with an earlier key has
/// been consumed: if `wait_until` for `event` lets the caller pass after
/// `calls`, then each `create_task` among the calls whose key is earlier than
/// `event` is followed by a `consume` of its ticket.
pub proof fn lemma_ready_only_after_consume<T: TicketKey>(
    calls: Seq<BarrierCall<T>>,
    event: T,
    i: int,
)
    requires
        all_earlier_done(tickets_after(calls), event.rank()),
        0 <= i < calls.len(),
        calls[i] matches BarrierCall::Create(key) && key.rank() < event.rank(),
    ensures
        consumed_later(calls, i),
{
    lemma_open_or_consumed(calls, i);
}

impl Watcher {
    /// Whether the ticket is done.
    pub fn is_consumed(&self) -> (b: bool)
        ensures
            b == self.done,
    {
        self.done
    }
}

impl<T: TicketKey> Waiter<T> {
    /// The ticket with the record `watcher`, under the key `event`.
    pub fn new(event: T, watcher: Watcher) -> (w: Waiter<T>)
        ensures
            w.event == event,
            w.watcher == watcher,
    {
        Waiter { event, watcher }
    }
}

/// The handle and the record of the ticket numbered `id`, under `event`.
pub fn create_pair<T: TicketKey>(event: T, id: u64) -> (pair: (Client, Waiter<T>))
    ensures
        pair.0 == (Client { id }),
        pair.1 == (Waiter { event, watcher: Watcher { id, done: false } }),
{
    let (client, watcher) = Client::new(id);
    let waiter = Waiter::new(event, watcher);
    (client, waiter)
}

impl Client {
    /// The handle and the record of the ticket numbered `id`, not yet done.
    pub fn new(id: u64) -> (pair: (Client, Watcher))
        ensures
            pair.0 == (Client { id }),
            pair.1 == (Watcher { id, done: false }),
    {
        (Client { id }, Watcher { id, done: false })
    }

    /// Marks the ticket done in `barrier`. Only the first call for a ticket
    /// has an effect; a ticket that the barrier has dropped is left alone.
    pub fn consume<T: TicketKey>(&self, barrier: &mut OrdSemaphore<T>)
        requires
            old(barrier).wf(),
        ensures
            final(barrier).wf(),
            final(barrier)@ == consumed(old(barrier)@, self.id),
            final(barrier).issued() == old(barrier).issued(),
    {
        barrier.mark_done(self.id);
    }
}

impl<T: TicketKey> OrdSemaphore<T> {
    /// The tickets, earliest key first.
    pub closed spec fn view(&self) -> Seq<Waiter<T>> {
        self.events@
    }

    /// The number of tickets registered so far; the next ticket's number.
    pub closed spec fn issued(&self) -> u64 {
        self.issued
    }

    /// The tickets stand in the order of their keys, and each has a number
    /// of its own, below the number of tickets issued.
    pub open spec fn wf(&self) -> bool {
        &&& ascending(ranks_of(self@))
        &&& forall|i: int, j: int|
            0 <= i < j < self@.len() ==> self@[i].watcher.id != self@[j].watcher.id
        &&& forall|i: int| 0 <= i < self@.len() ==> self@[i].watcher.id < self.issued()
    }

    /// A barrier without tickets.
    pub fn new() -> (s: OrdSemaphore<T>)
        ensures
            s.wf(),
            s@.len() == 0,
            s.issued() == 0,
    {
        OrdSemaphore { events: Vec::new(), issued: 0 }
    }

    /// The number of tickets in the barrier.
    pub fn len(&self) -> (n: usize)
        ensures
            n == self@.len(),
    {
        self.events.len()
    }

    /// The number of tickets registered so far.
    pub fn tickets_issued(&self) -> (n: u64)
        ensures
            n == self.issued(),
    {
        self.issued
    }

    /// Registers a ticket under the key `task` and hands out its handle. The
    /// ticket stands behind those whose key is not later than `task`.
    pub fn create_task(&mut self, task: T) -> (client: Client)
        requires
            old(self).wf(),
            old(self).issued() < u64::MAX,
        ensures
            final(self).wf(),
            client.id == old(self).issued(),
            final(self).issued() == old(self).issued() + 1,
            final(self)@ == old(self)@.insert(
                slot(ranks_of(old(self)@), task.rank()),
                Waiter { event: task, watcher: Watcher { id: client.id, done: false } },
            ),
    {
        let ghost before = self@;
        let ghost ranks = ranks_of(before);
        let mut at: usize = 0;
        while at < self.events.len() && !task.precedes(&self.events[at].event)
            invariant
                self@ == before,
                at <= before.len(),
                forall|k: int| 0 <= k < at ==> before[k].event.rank() <= task.rank(),
            decreases before.len() - at,
        {
            at += 1;
        }
        let id = self.issued;
        let (client, waiter) = create_pair(task, id);
        proof {
            assert forall|k: int| at <= k < ranks.len() implies task.rank() < ranks[k] by {
                assert(ranks[at as int] <= ranks[k]);
            }
            assert(parts_at(ranks, task.rank(), at as int));
            lemma_slot_is(ranks, task.rank(), at as int);
            lemma_slot_ascending(ranks, task.rank());
            assert(ranks_of(before.insert(at as int, waiter)) =~= ranks.insert(
                at as int,
                task.rank(),
            ));
        }
        self.events.insert(at, waiter);
        self.issued = id + 1;
        client
    }

    fn mark_done(&mut self, id: u64)
        requires
            old(self).wf(),
        ensures
            final(self).wf(),
            final(self)@ == consumed(old(self)@, id),
            final(self).issued() == old(self).issued(),
    {
        let ghost before = self@;
        let mut at: usize = 0;
        while at < self.events.len() && self.events[at].watcher.id != id
            invariant
                self@ == before,
                at <= before.len(),
                forall|k: int| 0 <= k < at ==> before[k].watcher.id != id,
            decreases before.len() - at,
        {
            at += 1;
        }
        if at < self.events.len() {
            let found = self.events.remove(at);
            let marked = Waiter { event: found.event, watcher: Watcher { id, done: true } };
            self.events.insert(at, marked);
            assert(self@ =~= consumed(before, id));
        } else {
            assert(self@ =~= consumed(before, id));
        }
        assert(ranks_of(self@) =~= ranks_of(before));
    }

    /// Drops the leading tickets that are done and earlier than `event`, then
    /// says whether the caller may pass: it may once the earliest ticket left
    /// is not earlier than `event`, or none is left. Otherwise the result
    /// names the ticket to wait for.
    pub fn wait_until(&mut self, event: &T) -> (wait: Wait)
        requires
            old(self).wf(),
        ensures
            final(self).wf(),
            final(self).issued() == old(self).issued(),
            final(self)@ == old(self)@.skip(spent_prefix(old(self)@, event.rank())),
            wait == (if final(self)@.len() == 0 || !(final(self)@[0].event.rank() < event.rank()) {
                Wait::Ready
            } else {
                Wait::Pending(Client { id: final(self)@[0].watcher.id })
            }),
            wait is Ready <==> all_earlier_done(old(self)@, event.rank()),
    {
        let ghost before = self@;
        let ghost e = event.rank();
        let ghost mut dropped: int = 0;
        let mut wait = Wait::Ready;
        let mut settled = false;
        while !settled
            invariant
                0 <= dropped <= before.len(),
                self@ == before.skip(dropped),
                self.issued() == old(self).issued(),
                old(self).wf(),
                before == old(self)@,
                e == event.rank(),
                forall|i: int| 0 <= i < dropped ==> spent(#[trigger] before[i], e),
                !settled ==> wait == Wait::Ready,
                settled ==> (dropped < before.len() ==> !spent(before[dropped], e)),
                settled ==> wait == (if self@.len() == 0 || !(self@[0].event.rank() < e) {
                    Wait::Ready
                } else {
                    Wait::Pending(Client { id: self@[0].watcher.id })
                }),
            decreases before.len() - dropped + (if settled { 0int } else { 1int }),
        {
            if self.events.len() == 0 {
                settled = true;
            } else if !self.events[0].event.precedes(event) {
                settled = true;
            } else if self.events[0].watcher.is_consumed() {
                self.events.remove(0);
                proof {
                    assert(before.skip(dropped)[0] == before[dropped]);
                    assert(before.skip(dropped).remove(0) =~= before.skip(dropped + 1));
                    dropped = dropped + 1;
                }
            } else {
                wait = Wait::Pending(Client { id: self.events[0].watcher.id });
                settled = true;
            }
        }
        proof {
            lemma_spent_prefix_is(before, e, dropped);
            let after = self@;
            assert(ranks_of(after) =~= ranks_of(before).skip(dropped));
            assert forall|i: int, j: int| 0 <= i <= j < ranks_of(after).len() implies ranks_of(
                after,
            )[i] <= ranks_of(after)[j] by {
                assert(ranks_of(before)[i + dropped] <= ranks_of(before)[j + dropped]);
            }
            if wait is Ready {
                assert forall|i: int|
                    0 <= i < before.len() && before[i].event.rank() < e implies before[i].watcher.done by {
                    if i >= dropped {
                        assert(ranks_of(before)[dropped] <= ranks_of(before)[i]);
                    }
                }
            } else {
                assert(after[0] == before[dropped]);
            }
        }
        wait
    }
}

} // verus!
