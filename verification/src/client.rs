//! What a node does for its clients: subscriptions, polls, and the
//! publishing of a message.
//!
//! Reading a client's request and writing the response is the caller's part,
//! and so is the broadcast of a request to the peers. Publishing therefore
//! comes in two halves: `publish` pledges the message and says what is to be
//! broadcast; `publish_finish` takes in how the broadcast ended.

use vstd::prelude::*;
use std::collections::{HashMap, VecDeque};
use crate::internal::TaskSignal;
use crate::order::{lemma_slot_bounds, slot};
use crate::pending::{acknowledged, PendingTable};
use crate::proto::{pledged, Body, ProtoParcel, ResourceRelease, ResourceRequest, Session, Type};
use crate::queue::{enqueued, in_order, lemma_enqueued, PledgeQueue};
use crate::semaphore::{consumed, ranks_of, OrdSemaphore, Waiter, Watcher};
use crate::time::{TicketKey, Timestamp};

verus! {

broadcast use vstd::std_specs::hash::group_hash_axioms;

/// A subscribed client and the messages that wait for it.
#[derive(Debug)]
pub struct Client {
    pub identity: u64,
    pub message_queue: VecDeque<Vec<u8>>,
}

/// What a client is told.
#[derive(Debug)]
pub enum ClientRes {
    Success { message: String, bytes: Vec<u8> },
    Error { message: String },
}

/// What a client asks for.
#[derive(Debug)]
pub enum ClientReq {
    Poll { client_id: u64 },
    LongPoll { client_id: u64 },
    Subscribe { client_id: u64 },
    Unsubscribe { client_id: u64 },
    Publish { client_id: u64, message: Vec<u8> },
    WaitUntilClear { client_id: u64 },
}

impl ClientReq {
    /// The request to subscribe `client_id`.
    pub fn sub(client_id: u64) -> (req: ClientReq)
        ensures
            req == (ClientReq::Subscribe { client_id }),
    {
        ClientReq::Subscribe { client_id }
    }

    /// The request to end the subscription of `client_id`.
    pub fn unsub(client_id: u64) -> (req: ClientReq)
        ensures
            req == (ClientReq::Unsubscribe { client_id }),
    {
        ClientReq::Unsubscribe { client_id }
    }

    /// The request of `client_id` to publish `message`.
    pub fn publ(client_id: u64, message: Vec<u8>) -> (req: ClientReq)
        ensures
            req == (ClientReq::Publish { client_id, message }),
    {
        ClientReq::Publish { client_id, message }
    }

    /// The request of `client_id` for its next message.
    pub fn poll(client_id: u64) -> (req: ClientReq)
        ensures
            req == (ClientReq::Poll { client_id }),
    {
        ClientReq::Poll { client_id }
    }
}

impl ClientRes {
    /// Whether the response reports success with the text `text` and the
    /// bytes `bytes`.
    pub open spec fn says(self, text: Seq<char>, bytes: Seq<u8>) -> bool {
        self matches ClientRes::Success { message, bytes: b } && message@ == text && b@ == bytes
    }

    /// Whether the response reports an error with the text `text`.
    pub open spec fn refuses(self, text: Seq<char>) -> bool {
        self matches ClientRes::Error { message } && message@ == text
    }
}

/// The response that all went well.
pub fn ok() -> (res: ClientRes)
    ensures
        res.says("Ok"@, Seq::empty()),
{
    ClientRes::Success { message: "Ok".to_owned(), bytes: Vec::new() }
}

/// A response of success that carries `message`.
pub fn ok_with_message(message: &str) -> (res: ClientRes)
    ensures
        res.says(message@, Seq::empty()),
{
    ClientRes::Success { message: message.to_owned(), bytes: Vec::new() }
}

/// A response of failure that carries `message`.
pub fn err(message: &str) -> (res: ClientRes)
    ensures
        res.refuses(message@),
{
    ClientRes::Error { message: message.to_owned() }
}

/// Whether `clients` is `before` with `client_id` subscribed afresh, with no
/// message waiting.
pub open spec fn subscribed(
    clients: Map<u64, Client>,
    before: Map<u64, Client>,
    client_id: u64,
) -> bool {
    &&& clients.dom() == before.dom().insert(client_id)
    &&& clients[client_id].identity == client_id
    &&& clients[client_id].message_queue@ == Seq::<Vec<u8>>::empty()
    &&& forall|k: u64| k != client_id && before.contains_key(k) ==> clients[k] == before[k]
}

/// Subscribes a client. A client that was subscribed already loses the
/// messages that waited for it, and is told so.
pub fn subscribe(clients: &mut HashMap<u64, Client>, client_id: u64) -> (res: ClientRes)
    ensures
        subscribed(final(clients)@, old(clients)@, client_id),
        res.says(
            if old(clients)@.contains_key(client_id) {
                "Client exists, flushed queue"@
            } else {
                "Ok"@
            },
            Seq::empty(),
        ),
{
    let client = Client { identity: client_id, message_queue: VecDeque::new() };
    match clients.insert(client_id, client) {
        None => ok(),
        Some(_) => ok_with_message("Client exists, flushed queue"),
    }
}

/// Ends a client's subscription; a client that had none is told so.
pub fn unsubscribe(clients: &mut HashMap<u64, Client>, client_id: u64) -> (res: ClientRes)
    ensures
        final(clients)@ == old(clients)@.remove(client_id),
        old(clients)@.contains_key(client_id) ==> res.says("Ok"@, Seq::empty()),
        !old(clients)@.contains_key(client_id) ==> res.refuses(
            "Client wasn't previously subscribed"@,
        ),
{
    match clients.remove(&client_id) {
        None => err("Client wasn't previously subscribed"),
        Some(_) => ok(),
    }
}

/// Whether `clients` is `before` with the first waiting message of
/// `client_id` taken away.
pub open spec fn polled(clients: Map<u64, Client>, before: Map<u64, Client>, client_id: u64) -> bool {
    &&& clients.dom() == before.dom()
    &&& clients[client_id].identity == before[client_id].identity
    &&& clients[client_id].message_queue@ == before[client_id].message_queue@.drop_first()
    &&& forall|k: u64| k != client_id && before.contains_key(k) ==> clients[k] == before[k]
}

/// Whether `clients` holds the clients of `before`, each with its identity
/// and with the messages that waited for it.
pub open spec fn kept(clients: Map<u64, Client>, before: Map<u64, Client>) -> bool {
    &&& clients.dom() == before.dom()
    &&& forall|k: u64| #[trigger]
        before.contains_key(k) ==> clients[k].identity == before[k].identity
            && clients[k].message_queue@ == before[k].message_queue@
}

/// Hands a client the message that has waited longest for it. A client
/// without a waiting message is told so, and every client keeps what waits
/// for it.
pub fn poll(clients: &mut HashMap<u64, Client>, client_id: u64) -> (res: ClientRes)
    ensures
        !old(clients)@.contains_key(client_id) ==> {
            &&& final(clients)@ == old(clients)@
            &&& res.refuses("client not subscribed."@)
        },
        old(clients)@.contains_key(client_id) && old(clients)@[client_id].message_queue@.len() == 0
            ==> {
            &&& kept(final(clients)@, old(clients)@)
            &&& res.says("Queue empty"@, Seq::empty())
        },
        old(clients)@.contains_key(client_id) && old(clients)@[client_id].message_queue@.len() > 0
            ==> {
            &&& polled(final(clients)@, old(clients)@, client_id)
            &&& res.says("Message:"@, old(clients)@[client_id].message_queue@[0]@)
        },
{
    match clients.remove(&client_id) {
        None => {
            assert(clients@ =~= old(clients)@);
            err("client not subscribed.")
        },
        Some(client) => {
            let identity = client.identity;
            let mut waiting = client.message_queue;
            let message = waiting.pop_front();
            clients.insert(client_id, Client { identity, message_queue: waiting });
            assert(clients@.dom() =~= old(clients)@.dom());
            match message {
                None => ClientRes::Success { message: "Queue empty".to_owned(), bytes: Vec::new() },
                Some(bytes) => {
                    assert(waiting@ =~= old(clients)@[client_id].message_queue@.drop_first());
                    ClientRes::Success { message: "Message:".to_owned(), bytes }
                },
            }
        },
    }
}

/// A response's bytes as they travel to a client: one byte that gives their
/// number, reduced to eight bits, then the bytes.
pub open spec fn response_framed(payload: Seq<u8>) -> Seq<u8> {
    seq![(payload.len() % 0x100) as u8] + payload
}

/// Frames a response's bytes for a client. The length byte holds the number
/// of bytes modulo 256: a client reads a response of 256 bytes or more short.
pub fn frame_response(payload: &Vec<u8>) -> (bytes: Vec<u8>)
    ensures
        bytes@ == response_framed(payload@),
{
    let mut bytes: Vec<u8> = Vec::new();
    bytes.push((payload.len() % 0x100) as u8);
    let mut i: usize = 0;
    while i < payload.len()
        invariant
            i <= payload.len(),
            bytes@ == seq![(payload.len() % 0x100) as u8] + payload@.take(i as int),
        decreases payload.len() - i,
    {
        bytes.push(payload[i]);
        assert(payload@.take(i + 1) =~= payload@.take(i as int).push(payload@[i as int]));
        assert(seq![(payload.len() % 0x100) as u8] + payload@.take(i + 1) =~= (seq![
            (payload.len() % 0x100) as u8,
        ] + payload@.take(i as int)).push(payload@[i as int]));
        i += 1;
    }
    assert(payload@.take(payload.len() as int) =~= payload@);
    bytes
}

/// A message that this node has pledged and not yet seen acknowledged.
#[derive(Clone, Copy, Debug)]
pub struct Publication {
    /// The request that went into the queue and is to be broadcast.
    pub request: ResourceRequest,
    /// The ticket that holds back later requests of the peers.
    pub ticket: crate::semaphore::Client,
    /// The shorthand under which the release is pending.
    pub key: u64,
}

/// Whether the barrier, the queue and the pending table are what they were
/// before, with `message` pledged by `sender` at `timestamp`: a ticket stands
/// under the timestamp, the request is in the queue, and `release` is
/// pending under the request's shorthand, not yet acknowledged.
pub open spec fn published(
    publication: Publication,
    release: ResourceRelease,
    sender: u64,
    message: Vec<u8>,
    timestamp: Timestamp,
    tickets: Seq<Waiter<Timestamp>>,
    tickets_before: Seq<Waiter<Timestamp>>,
    queue: Seq<ResourceRequest>,
    queue_before: Seq<ResourceRequest>,
    pending: Map<u64, (ResourceRelease, bool)>,
    pending_before: Map<u64, (ResourceRelease, bool)>,
) -> bool {
    &&& pledged(publication.request, release, sender, message, timestamp)
    &&& publication.key == publication.request.shorthand
    &&& tickets == tickets_before.insert(
        slot(ranks_of(tickets_before), timestamp.rank()),
        Waiter { event: timestamp, watcher: Watcher { id: publication.ticket.id, done: false } },
    )
    &&& queue == enqueued(queue_before, publication.request)
    &&& pending == pending_before.insert(publication.key, (release, false))
}

/// What publishing does, whatever the message and the time: the queue gains
/// exactly the request, which the sender owns; a ticket stands in the barrier
/// under the request's timestamp, not done; and the release, which carries
/// the message, is pending under the request's shorthand, not acknowledged.
pub proof fn lemma_published(
    publication: Publication,
    release: ResourceRelease,
    sender: u64,
    message: Vec<u8>,
    timestamp: Timestamp,
    tickets: Seq<Waiter<Timestamp>>,
    tickets_before: Seq<Waiter<Timestamp>>,
    queue: Seq<ResourceRequest>,
    queue_before: Seq<ResourceRequest>,
    pending: Map<u64, (ResourceRelease, bool)>,
    pending_before: Map<u64, (ResourceRelease, bool)>,
)
    requires
        in_order(queue_before),
        published(
            publication,
            release,
            sender,
            message,
            timestamp,
            tickets,
            tickets_before,
            queue,
            queue_before,
            pending,
            pending_before,
        ),
    ensures
        publication.request.owner == sender,
        publication.request.timestamp == timestamp,
        in_order(queue),
        queue.to_multiset() == queue_before.to_multiset().insert(publication.request),
        queue.len() == queue_before.len() + 1,
        tickets.len() == tickets_before.len() + 1,
        tickets.contains(
            Waiter {
                event: publication.request.timestamp,
                watcher: Watcher { id: publication.ticket.id, done: false },
            },
        ),
        pending.contains_key(publication.request.shorthand),
        pending[publication.request.shorthand] == (release, false),
        release.message.message == message,
        forall|k: u64|
            k != publication.request.shorthand ==> (pending.contains_key(k)
                <==> pending_before.contains_key(k)),
        forall|k: u64|
            k != publication.request.shorthand && pending_before.contains_key(k) ==> pending[k]
                == pending_before[k],
{
    lemma_enqueued(queue_before, publication.request);
    let at = slot(ranks_of(tickets_before), timestamp.rank());
    lemma_slot_bounds(ranks_of(tickets_before), timestamp.rank());
    assert(tickets[at] == (Waiter {
        event: publication.request.timestamp,
        watcher: Watcher { id: publication.ticket.id, done: false },
    }));
}

/// What the end of an acknowledged broadcast does to what was published: the
/// pending entry keeps its release and is flagged as acknowledged, and the
/// ticket of the publication is done. The queue is not touched: the request
/// stays in it until the worker takes it out.
pub proof fn lemma_publish_acknowledged(
    publication: Publication,
    release: ResourceRelease,
    tickets: Seq<Waiter<Timestamp>>,
    pending: Map<u64, (ResourceRelease, bool)>,
)
    requires
        pending.contains_key(publication.key),
        pending[publication.key] == (release, false),
        tickets.contains(
            Waiter {
                event: publication.request.timestamp,
                watcher: Watcher { id: publication.ticket.id, done: false },
            },
        ),
    ensures
        acknowledged(pending, publication.key)[publication.key] == (release, true),
        acknowledged(pending, publication.key).dom() == pending.dom(),
        consumed(tickets, publication.ticket.id).contains(
            Waiter {
                event: publication.request.timestamp,
                watcher: Watcher { id: publication.ticket.id, done: true },
            },
        ),
        forall|i: int|
            0 <= i < tickets.len() && tickets[i].watcher.id == publication.ticket.id ==> consumed(
                tickets,
                publication.ticket.id,
            )[i].watcher.done,
{
    let open = Waiter {
        event: publication.request.timestamp,
        watcher: Watcher { id: publication.ticket.id, done: false },
    };
    let p = choose|p: int| 0 <= p < tickets.len() && tickets[p] == open;
    assert(consumed(tickets, publication.ticket.id)[p] == (Waiter {
        event: publication.request.timestamp,
        watcher: Watcher { id: publication.ticket.id, done: true },
    }));
    assert(acknowledged(pending, publication.key).dom() =~= pending.dom());
}

/// Pledges `message` for the session's sender at `timestamp`: a ticket is
/// registered under the timestamp, the request enters the queue, and the
/// release is stored as pending.
pub fn publish_at(
    session: &Session,
    barrier: &mut OrdSemaphore<Timestamp>,
    queue: &mut PledgeQueue,
    pending: &mut PendingTable,
    message: Vec<u8>,
    timestamp: Timestamp,
) -> (publication: Publication)
    requires
        old(barrier).wf(),
        old(barrier).issued() < u64::MAX,
        old(queue).wf(),
    ensures
        final(barrier).wf(),
        final(queue).wf(),
        publication.ticket.id == old(barrier).issued(),
        final(barrier).issued() == old(barrier).issued() + 1,
        exists|release: ResourceRelease| #[trigger]
            published(
                publication,
                release,
                session.sender_id,
                message,
                timestamp,
                final(barrier)@,
                old(barrier)@,
                final(queue)@,
                old(queue)@,
                final(pending)@,
                old(pending)@,
            ),
{
    let (request, release) = ResourceRequest::generate_at(session.sender_id, message, timestamp);
    let key = release.shorthand;
    let ticket = barrier.create_task(request.timestamp);
    queue.push(request);
    let ghost stored = release;
    pending.insert(key, release);
    let publication = Publication { request, ticket, key };
    assert(published(
        publication,
        stored,
        session.sender_id,
        message,
        timestamp,
        barrier@,
        old(barrier)@,
        queue@,
        old(queue)@,
        pending@,
        old(pending)@,
    ));
    publication
}

/// Pledges `message` for the session's sender at the current time.
pub fn publish(
    session: &Session,
    barrier: &mut OrdSemaphore<Timestamp>,
    queue: &mut PledgeQueue,
    pending: &mut PendingTable,
    message: Vec<u8>,
) -> (publication: Publication)
    requires
        old(barrier).wf(),
        old(barrier).issued() < u64::MAX,
        old(queue).wf(),
    ensures
        final(barrier).wf(),
        final(queue).wf(),
        publication.ticket.id == old(barrier).issued(),
        final(barrier).issued() == old(barrier).issued() + 1,
        exists|release: ResourceRelease| #[trigger]
            published(
                publication,
                release,
                session.sender_id,
                message,
                publication.request.timestamp,
                final(barrier)@,
                old(barrier)@,
                final(queue)@,
                old(queue)@,
                final(pending)@,
                old(pending)@,
            ),
{
    let timestamp = Timestamp::now();
    publish_at(session, barrier, queue, pending, message, timestamp)
}

/// Takes in how the broadcast of a pledged request ended. The ticket is done
/// either way; the pending release is flagged as acknowledged only if every
/// peer acknowledged the request.
pub fn publish_finish(
    barrier: &mut OrdSemaphore<Timestamp>,
    pending: &mut PendingTable,
    publication: &Publication,
    outcome: TaskSignal,
)
    requires
        old(barrier).wf(),
    ensures
        final(barrier).wf(),
        final(barrier).issued() == old(barrier).issued(),
        final(barrier)@ == consumed(old(barrier)@, publication.ticket.id),
        final(pending)@ == (if outcome == TaskSignal::Success {
            acknowledged(old(pending)@, publication.key)
        } else {
            old(pending)@
        }),
{
    publication.ticket.consume(barrier);
    match outcome {
        TaskSignal::Success => {
            pending.acknowledge(publication.key);
        },
        _ => {},
    }
}

/// Answers a client that waits for the queue to run empty: it is told once
/// no request is outstanding; until then there is no answer yet.
pub fn wait_until_clear(queue: &PledgeQueue) -> (res: Option<ClientRes>)
    ensures
        res is Some <==> queue@.len() == 0,
        res matches Some(r) ==> r.says("Ok"@, Seq::empty()),
{
    if queue.len() == 0 {
        Some(ok())
    } else {
        None
    }
}

/// What is to be done for a client.
#[derive(Debug)]
pub enum ClientReaction {
    /// Nothing is written back.
    Silence,
    /// The response is written back.
    Reply(ClientRes),
    /// `reply` is written back, `parcel` is broadcast to the peers, and how
    /// that ended is handed to `publish_finish` with `publication`.
    Broadcast { reply: ClientRes, publication: Publication, parcel: ProtoParcel },
    /// The queue is not empty yet: the same request is to be handed in again
    /// after a while.
    Retry,
}

/// Reacts to what was read from a client: `None` stands for a request that
/// could not be read.
pub fn process(
    session: &Session,
    clients: &mut HashMap<u64, Client>,
    barrier: &mut OrdSemaphore<Timestamp>,
    queue: &mut PledgeQueue,
    pending: &mut PendingTable,
    request: Option<ClientReq>,
) -> (reaction: ClientReaction)
    requires
        old(barrier).wf(),
        old(queue).wf(),
        request matches Some(ClientReq::Publish { .. }) ==> old(barrier).issued() < u64::MAX,
    ensures
        final(barrier).wf(),
        final(queue).wf(),
        !(request matches Some(ClientReq::Publish { .. })) ==> {
            &&& final(barrier)@ == old(barrier)@
            &&& final(barrier).issued() == old(barrier).issued()
            &&& final(queue)@ == old(queue)@
            &&& final(pending)@ == old(pending)@
        },
        match request {
            None => reaction is Silence && final(clients)@ == old(clients)@,
            Some(ClientReq::LongPoll { .. }) => reaction is Silence && final(clients)@ == old(
                clients,
            )@,
            Some(ClientReq::Subscribe { client_id }) => {
                &&& subscribed(final(clients)@, old(clients)@, client_id)
                &&& reaction matches ClientReaction::Reply(res) && res.says(
                    if old(clients)@.contains_key(client_id) {
                        "Client exists, flushed queue"@
                    } else {
                        "Ok"@
                    },
                    Seq::empty(),
                )
            },
            Some(ClientReq::Unsubscribe { client_id }) => {
                &&& final(clients)@ == old(clients)@.remove(client_id)
                &&& reaction matches ClientReaction::Reply(res) && (if old(clients)@.contains_key(
                    client_id,
                ) {
                    res.says("Ok"@, Seq::empty())
                } else {
                    res.refuses("Client wasn't previously subscribed"@)
                })
            },
            Some(ClientReq::Poll { client_id }) => {
                reaction matches ClientReaction::Reply(res) && (if !old(clients)@.contains_key(
                    client_id,
                ) {
                    final(clients)@ == old(clients)@ && res.refuses("client not subscribed."@)
                } else if old(clients)@[client_id].message_queue@.len() == 0 {
                    kept(final(clients)@, old(clients)@) && res.says("Queue empty"@, Seq::empty())
                } else {
                    polled(final(clients)@, old(clients)@, client_id) && res.says(
                        "Message:"@,
                        old(clients)@[client_id].message_queue@[0]@,
                    )
                })
            },
            Some(ClientReq::Publish { client_id, message }) => {
                &&& final(clients)@ == old(clients)@
                &&& reaction matches ClientReaction::Broadcast { reply, publication, parcel } && {
                    &&& reply.says("Ok"@, Seq::empty())
                    &&& publication.ticket.id == old(barrier).issued()
                    &&& final(barrier).issued() == old(barrier).issued() + 1
                    &&& parcel.carries(
                        session.sender_id,
                        false,
                        Type::ResourceRequest,
                        Body::ResourceRequest { resource_request: publication.request },
                    )
                    &&& exists|release: ResourceRelease| #[trigger]
                        published(
                            publication,
                            release,
                            session.sender_id,
                            message,
                            publication.request.timestamp,
                            final(barrier)@,
                            old(barrier)@,
                            final(queue)@,
                            old(queue)@,
                            final(pending)@,
                            old(pending)@,
                        )
                }
            },
            Some(ClientReq::WaitUntilClear { .. }) => {
                &&& final(clients)@ == old(clients)@
                &&& if old(queue)@.len() == 0 {
                    reaction matches ClientReaction::Reply(res) && res.says("Ok"@, Seq::empty())
                } else {
                    reaction is Retry
                }
            },
        },
{
    match request {
        None => ClientReaction::Silence,
        Some(ClientReq::LongPoll { client_id: _ }) => ClientReaction::Silence,
        Some(ClientReq::Subscribe { client_id }) => ClientReaction::Reply(
            subscribe(clients, client_id),
        ),
        Some(ClientReq::Unsubscribe { client_id }) => ClientReaction::Reply(
            unsubscribe(clients, client_id),
        ),
        Some(ClientReq::Poll { client_id }) => ClientReaction::Reply(poll(clients, client_id)),
        Some(ClientReq::Publish { client_id: _, message }) => {
            let publication = publish(session, barrier, queue, pending, message);
            let parcel = ProtoParcel::resource_request(session, publication.request);
            ClientReaction::Broadcast { reply: ok(), publication, parcel }
        },
        Some(ClientReq::WaitUntilClear { client_id: _ }) => match wait_until_clear(queue) {
            Some(res) => ClientReaction::Reply(res),
            None => ClientReaction::Retry,
        },
    }
}

} // verus!
