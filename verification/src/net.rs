//! What a node does with a parcel that a peer has sent, and how parcels are
//! framed on the wire.
//!
//! Reading and writing the stream, and turning bytes into parcels, is the
//! caller's part. The caller hands `process_stream` what it has read and
//! carries out the reaction that comes back.

use vstd::prelude::*;
use crate::digest::be_word;
use crate::internal::TaskSignal;
use crate::proto::{Body, ProtoParcel, ResourceRelease, ResourceRequest, Session, Type};
use crate::queue::{enqueued, PledgeQueue};
use crate::semaphore::{all_earlier_done, spent_prefix, Client, OrdSemaphore, Wait};
use crate::state::{
    added, addresses_of, describes, lists, retuned, with_neighbours, Address, Mode, Node, State,
};
use crate::time::{TicketKey, Timestamp};

verus! {

broadcast use vstd::std_specs::hash::group_hash_axioms;

/// Whether `response` acknowledges the parcel whose identifier is `ack_id`.
pub open spec fn acks(response: ProtoParcel, ack_id: u64) -> bool {
    response.parcel_type == Type::Ack && response.body == (Body::Ack { message_id: ack_id })
}

/// Whether `response` acknowledges the parcel whose identifier is `ack_id`.
pub fn acknowledges(response: &ProtoParcel, ack_id: u64) -> (b: bool)
    ensures
        b == acks(*response, ack_id),
{
    match response.parcel_type {
        Type::Ack => match &response.body {
            Body::Ack { message_id } => *message_id == ack_id,
            _ => false,
        },
        _ => false,
    }
}

/// Classifies a peer's answer to the parcel `ack_id`: success if it is an
/// acknowledgement of that parcel, failure for anything else.
pub fn is_acked(response: ProtoParcel, ack_id: u64) -> (signal: TaskSignal)
    ensures
        signal == (if acks(response, ack_id) {
            TaskSignal::Success
        } else {
            TaskSignal::Fail
        }),
{
    if acknowledges(&response, ack_id) {
        TaskSignal::Success
    } else {
        TaskSignal::Fail
    }
}

/// What is to be done in answer to a parcel.
#[derive(Debug)]
pub enum Reaction {
    /// Nothing is written back; the connection is closed.
    Silence,
    /// The parcel is written back.
    Reply(ProtoParcel),
    /// `nodes` are announced to `peers` as new neighbours, then `reply` is
    /// written back.
    Announce { peers: Vec<Address>, nodes: Vec<Node>, reply: ProtoParcel },
    /// The request has to wait for `ticket`: once the ticket is consumed the
    /// request is handed to `admit_request` again, under the same `id`.
    Deferred { ticket: Client, request: ResourceRequest, id: u64 },
    /// `release` is handed to the worker, then `reply` is written back.
    Forward { release: ResourceRelease, reply: ProtoParcel },
}

/// Answers a discovery request: the newcomer is to be announced to the
/// neighbours at work, it becomes a neighbour itself, and the reply lists the
/// neighbours known before, and this node.
pub fn on_dsc_req(session: &Session, state: &mut State, identity: Node) -> (reaction: Reaction)
    requires
        old(state).external_addr is Some,
    ensures
        with_neighbours(
            *final(state),
            *old(state),
            old(state).neighbours@.insert(identity.id, identity),
        ),
        reaction matches Reaction::Announce { peers, nodes, reply } && {
            &&& exists|active: Seq<Node>| #[trigger]
                lists(old(state).neighbours@, true, active) && peers@ == addresses_of(active)
            &&& nodes@ == seq![identity]
            &&& reply.proto_version@ == crate::proto::proto_version()
            &&& reply.sender_id == session.sender_id
            &&& reply.is_response
            &&& reply.parcel_type == Type::DscRes
            &&& reply.body matches Body::DscRes { self_id, neighbours } && {
                &&& describes(self_id, *old(state))
                &&& lists(old(state).neighbours@, false, neighbours@)
            }
        },
{
    let known = state.get_neighbours();
    let self_node = state.get_node_information();
    let peers = state.get_neighbour_addrs();
    let mut nodes: Vec<Node> = Vec::new();
    nodes.push(identity.clone());
    assert(nodes@ =~= seq![identity]);
    state.add_neighbour(identity);
    let reply = ProtoParcel::dsc_res(session, known, self_node);
    Reaction::Announce { peers, nodes, reply }
}

/// Records the mode that the neighbour `sender` has announced, and
/// acknowledges the parcel `id`. A sender that is no neighbour changes
/// nothing.
pub fn on_state_change(session: &Session, state: &mut State, sender: u64, mode: Mode, id: u64) -> (reply:
    ProtoParcel)
    ensures
        with_neighbours(*final(state), *old(state), retuned(old(state).neighbours@, sender, mode)),
        reply.carries(session.sender_id, true, Type::Ack, Body::Ack { message_id: id }),
{
    state.set_neighbour_mode(sender, mode);
    ProtoParcel::ack(session, id)
}

/// Adds `nodes` to the neighbours and acknowledges the parcel `id`.
pub fn on_add_node(session: &Session, state: &mut State, nodes: Vec<Node>, id: u64) -> (reply:
    ProtoParcel)
    ensures
        with_neighbours(*final(state), *old(state), added(old(state).neighbours@, nodes@)),
        reply.carries(session.sender_id, true, Type::Ack, Body::Ack { message_id: id }),
{
    let mut i: usize = 0;
    while i < nodes.len()
        invariant
            i <= nodes.len(),
            with_neighbours(*state, *old(state), added(old(state).neighbours@, nodes@.take(i as int))),
        decreases nodes.len() - i,
    {
        state.add_neighbour(nodes[i].clone());
        assert(nodes@.take(i + 1).drop_last() =~= nodes@.take(i as int));
        i += 1;
    }
    assert(nodes@.take(nodes.len() as int) =~= nodes@);
    ProtoParcel::ack(session, id)
}

/// Takes in a peer's request: it enters the queue once every ticket with an
/// earlier timestamp is done, and the parcel `id` is then acknowledged. Until
/// then the queue is left alone and the reaction names the ticket in the way.
pub fn admit_request(
    session: &Session,
    barrier: &mut OrdSemaphore<Timestamp>,
    queue: &mut PledgeQueue,
    request: ResourceRequest,
    id: u64,
) -> (reaction: Reaction)
    requires
        old(barrier).wf(),
        old(queue).wf(),
    ensures
        final(barrier).wf(),
        final(queue).wf(),
        final(barrier).issued() == old(barrier).issued(),
        final(barrier)@ == old(barrier)@.skip(
            spent_prefix(old(barrier)@, request.timestamp.rank()),
        ),
        all_earlier_done(old(barrier)@, request.timestamp.rank()) ==> {
            &&& final(queue)@ == enqueued(old(queue)@, request)
            &&& reaction matches Reaction::Reply(reply) && reply.carries(
                session.sender_id,
                true,
                Type::Ack,
                Body::Ack { message_id: id },
            )
        },
        !all_earlier_done(old(barrier)@, request.timestamp.rank()) ==> {
            &&& final(queue)@ == old(queue)@
            &&& final(barrier)@.len() > 0
            &&& reaction == (Reaction::Deferred {
                ticket: Client { id: final(barrier)@[0].watcher.id },
                request,
                id,
            })
        },
{
    match barrier.wait_until(&request.timestamp) {
        Wait::Ready => {
            queue.push(request);
            Reaction::Reply(ProtoParcel::ack(session, id))
        },
        Wait::Pending(ticket) => Reaction::Deferred { ticket, request, id },
    }
}

/// Reacts to what was read from a peer: `None` stands for a frame that could
/// not be read as a parcel. A parcel whose body does not fit its kind, an
/// error parcel and a parcel of a kind that no peer should send are met with
/// silence, and nothing changes.
pub fn process_stream(
    session: &Session,
    state: &mut State,
    barrier: &mut OrdSemaphore<Timestamp>,
    queue: &mut PledgeQueue,
    peer: Address,
    delivery: Option<ProtoParcel>,
) -> (reaction: Reaction)
    requires
        old(barrier).wf(),
        old(queue).wf(),
        delivery matches Some(p) && p.parcel_type == Type::DscReq && p.body is DscReq ==> old(
            state,
        ).external_addr is Some,
    ensures
        final(barrier).wf(),
        final(queue).wf(),
        final(barrier).issued() == old(barrier).issued(),
        final(state).same_self(*old(state)),
        !touches_neighbours(delivery) ==> final(state).neighbours@ == old(state).neighbours@,
        !carries_request(delivery) ==> final(queue)@ == old(queue)@ && final(barrier)@ == old(
            barrier,
        )@,
        match delivery {
            None => reaction is Silence,
            Some(p) => match (p.parcel_type, p.body) {
                (Type::DscReq, Body::DscReq { identity }) => {
                    &&& final(state).neighbours@ == old(state).neighbours@.insert(
                        identity.id,
                        identity,
                    )
                    &&& reaction matches Reaction::Announce { peers, nodes, reply } && {
                        &&& exists|active: Seq<Node>| #[trigger]
                            lists(old(state).neighbours@, true, active) && peers@ == addresses_of(
                                active,
                            )
                        &&& nodes@ == seq![identity]
                        &&& reply.proto_version@ == crate::proto::proto_version()
                        &&& reply.sender_id == session.sender_id
                        &&& reply.is_response
                        &&& reply.parcel_type == Type::DscRes
                        &&& reply.body matches Body::DscRes { self_id, neighbours } && {
                            &&& describes(self_id, *old(state))
                            &&& lists(old(state).neighbours@, false, neighbours@)
                        }
                    }
                },
                (Type::SeqReq, _) => reaction matches Reaction::Reply(reply) && reply.carries(
                    session.sender_id,
                    true,
                    Type::SeqRes,
                    Body::SeqRes { seq_number: old(state).sequence },
                ),
                (Type::Ping, _) => reaction matches Reaction::Reply(reply) && reply.carries(
                    session.sender_id,
                    true,
                    Type::Pong,
                    Body::Empty,
                ),
                (Type::StateChange, Body::StateChange { mode }) => {
                    &&& final(state).neighbours@ == retuned(
                        old(state).neighbours@,
                        p.sender_id,
                        mode,
                    )
                    &&& reaction matches Reaction::Reply(reply) && reply.carries(
                        session.sender_id,
                        true,
                        Type::Ack,
                        Body::Ack { message_id: p.id },
                    )
                },
                (Type::AddNode, Body::AddNode { nodes }) => {
                    &&& final(state).neighbours@ == added(old(state).neighbours@, nodes@)
                    &&& reaction matches Reaction::Reply(reply) && reply.carries(
                        session.sender_id,
                        true,
                        Type::Ack,
                        Body::Ack { message_id: p.id },
                    )
                },
                (Type::ResourceRequest, Body::ResourceRequest { resource_request }) => {
                    &&& final(barrier)@ == old(barrier)@.skip(
                        spent_prefix(old(barrier)@, resource_request.timestamp.rank()),
                    )
                    &&& all_earlier_done(old(barrier)@, resource_request.timestamp.rank()) ==> {
                        &&& final(queue)@ == enqueued(old(queue)@, resource_request)
                        &&& reaction matches Reaction::Reply(reply) && reply.carries(
                            session.sender_id,
                            true,
                            Type::Ack,
                            Body::Ack { message_id: p.id },
                        )
                    }
                    &&& !all_earlier_done(old(barrier)@, resource_request.timestamp.rank()) ==> {
                        &&& final(queue)@ == old(queue)@
                        &&& final(barrier)@.len() > 0
                        &&& reaction == (Reaction::Deferred {
                            ticket: Client { id: final(barrier)@[0].watcher.id },
                            request: resource_request,
                            id: p.id,
                        })
                    }
                },
                (Type::ResourceRelease, Body::ResourceRelease { resource_release }) => {
                    reaction matches Reaction::Forward { release, reply } && release
                        == resource_release && reply.carries(
                        session.sender_id,
                        true,
                        Type::Ack,
                        Body::Ack { message_id: p.id },
                    )
                },
                (Type::ExtAddrReq, _) => reaction matches Reaction::Reply(reply) && reply.carries(
                    session.sender_id,
                    false,
                    Type::ResourceRelease,
                    Body::ExtAddrRes { addr: peer },
                ),
                _ => reaction is Silence,
            },
        },
{
    let parcel = match delivery {
        Some(parcel) => parcel,
        None => {
            return Reaction::Silence;
        },
    };
    let id = parcel.id;
    let sender = parcel.sender_id;
    match parcel.parcel_type {
        Type::DscReq => match parcel.body {
            Body::DscReq { identity } => on_dsc_req(session, state, identity),
            _ => Reaction::Silence,
        },
        Type::SeqReq => Reaction::Reply(ProtoParcel::seq_res(session, state.sequence)),
        Type::Ping => Reaction::Reply(ProtoParcel::pong(session)),
        Type::StateChange => match parcel.body {
            Body::StateChange { mode } => Reaction::Reply(
                on_state_change(session, state, sender, mode, id),
            ),
            _ => Reaction::Silence,
        },
        Type::AddNode => match parcel.body {
            Body::AddNode { nodes } => Reaction::Reply(on_add_node(session, state, nodes, id)),
            _ => Reaction::Silence,
        },
        Type::ResourceRequest => match parcel.body {
            Body::ResourceRequest { resource_request } => admit_request(
                session,
                barrier,
                queue,
                resource_request,
                id,
            ),
            _ => Reaction::Silence,
        },
        Type::ResourceRelease => match parcel.body {
            Body::ResourceRelease { resource_release } => Reaction::Forward {
                release: resource_release,
                reply: ProtoParcel::ack(session, id),
            },
            _ => Reaction::Silence,
        },
        Type::ExtAddrReq => Reaction::Reply(ProtoParcel::ext_addr_res(session, peer)),
        _ => Reaction::Silence,
    }
}

/// Whether the delivery is one that changes the neighbours.
pub open spec fn touches_neighbours(delivery: Option<ProtoParcel>) -> bool {
    delivery matches Some(p) && match (p.parcel_type, p.body) {
        (Type::DscReq, Body::DscReq { .. }) => true,
        (Type::StateChange, Body::StateChange { .. }) => true,
        (Type::AddNode, Body::AddNode { .. }) => true,
        _ => false,
    }
}

/// Whether the delivery is a peer's request.
pub open spec fn carries_request(delivery: Option<ProtoParcel>) -> bool {
    delivery matches Some(p) && p.parcel_type == Type::ResourceRequest && p.body is ResourceRequest
}

/// The eight bytes of `n`, most significant first.
pub open spec fn be_bytes_u64(n: u64) -> Seq<u8> {
    seq![
        (n / 0x0100_0000_0000_0000) as u8,
        (n / 0x0001_0000_0000_0000 % 0x100) as u8,
        (n / 0x0000_0100_0000_0000 % 0x100) as u8,
        (n / 0x0000_0001_0000_0000 % 0x100) as u8,
        (n / 0x0000_0000_0100_0000 % 0x100) as u8,
        (n / 0x0000_0000_0001_0000 % 0x100) as u8,
        (n / 0x0000_0000_0000_0100 % 0x100) as u8,
        (n % 0x100) as u8,
    ]
}

/// A parcel's bytes as they travel between nodes: their number as eight
/// bytes, most significant first, then the bytes.
pub open spec fn framed(payload: Seq<u8>) -> Seq<u8> {
    be_bytes_u64(payload.len() as u64) + payload
}

/// Whether `bytes` is one whole frame: eight bytes that give a length, and
/// exactly that many bytes behind them.
pub open spec fn is_frame(bytes: Seq<u8>) -> bool {
    bytes.len() >= 8 && be_word(bytes, 0) == bytes.len() - 8
}

/// The eight bytes of `n`, most significant first.
pub fn length_prefix(n: u64) -> (bytes: [u8; 8])
    ensures
        bytes@ == be_bytes_u64(n),
{
    let bytes = [
        (n / 0x0100_0000_0000_0000) as u8,
        (n / 0x0001_0000_0000_0000 % 0x100) as u8,
        (n / 0x0000_0100_0000_0000 % 0x100) as u8,
        (n / 0x0000_0001_0000_0000 % 0x100) as u8,
        (n / 0x0000_0000_0100_0000 % 0x100) as u8,
        (n / 0x0000_0000_0001_0000 % 0x100) as u8,
        (n / 0x0000_0000_0000_0100 % 0x100) as u8,
        (n % 0x100) as u8,
    ];
    assert(bytes@ =~= be_bytes_u64(n));
    bytes
}

/// The length that the eight bytes of a frame's head give.
pub fn frame_length(header: &[u8; 8]) -> (n: u64)
    ensures
        n == be_word(header@, 0),
{
    (header[0] as u64) * 0x0100_0000_0000_0000 + (header[1] as u64) * 0x0001_0000_0000_0000 + (
    header[2] as u64) * 0x0000_0100_0000_0000 + (header[3] as u64) * 0x0000_0001_0000_0000 + (
    header[4] as u64) * 0x0000_0000_0100_0000 + (header[5] as u64) * 0x0000_0000_0001_0000 + (
    header[6] as u64) * 0x0000_0000_0000_0100 + (header[7] as u64)
}

/// Frames a parcel's bytes for the wire.
pub fn frame(payload: &Vec<u8>) -> (bytes: Vec<u8>)
    ensures
        bytes@ == framed(payload@),
        is_frame(bytes@),
        bytes@.skip(8) == payload@,
{
    proof {
        assert(payload@.len() == payload.len());
        assert(payload.len() <= usize::MAX <= u64::MAX);
        lemma_frame_round_trip(payload@);
    }
    let head = length_prefix(payload.len() as u64);
    let mut bytes: Vec<u8> = Vec::new();
    let mut i: usize = 0;
    while i < 8
        invariant
            i <= 8,
            bytes@ == head@.take(i as int),
        decreases 8 - i,
    {
        bytes.push(head[i]);
        assert(head@.take(i + 1) =~= head@.take(i as int).push(head@[i as int]));
        i += 1;
    }
    assert(head@.take(8) =~= head@);
    let mut j: usize = 0;
    while j < payload.len()
        invariant
            j <= payload.len(),
            bytes@ == head@ + payload@.take(j as int),
        decreases payload.len() - j,
    {
        bytes.push(payload[j]);
        assert(payload@.take(j + 1) =~= payload@.take(j as int).push(payload@[j as int]));
        assert(head@ + payload@.take(j + 1) =~= (head@ + payload@.take(j as int)).push(
            payload@[j as int],
        ));
        j += 1;
    }
    assert(payload@.take(payload.len() as int) =~= payload@);
    bytes
}

/// Takes the parcel's bytes out of one whole frame; `None` if `bytes` is not
/// one whole frame.
pub fn unframe(bytes: &Vec<u8>) -> (payload: Option<Vec<u8>>)
    ensures
        payload is Some <==> is_frame(bytes@),
        payload matches Some(p) ==> p@ == bytes@.skip(8),
{
    if bytes.len() < 8 {
        return None;
    }
    let head = [
        bytes[0],
        bytes[1],
        bytes[2],
        bytes[3],
        bytes[4],
        bytes[5],
        bytes[6],
        bytes[7],
    ];
    let announced = frame_length(&head);
    if announced != (bytes.len() - 8) as u64 {
        return None;
    }
    let mut payload: Vec<u8> = Vec::new();
    let mut i: usize = 8;
    while i < bytes.len()
        invariant
            8 <= i <= bytes.len(),
            payload@ == bytes@.subrange(8, i as int),
        decreases bytes.len() - i,
    {
        payload.push(bytes[i]);
        assert(bytes@.subrange(8, i + 1) =~= bytes@.subrange(8, i as int).push(bytes@[i as int]));
        i += 1;
    }
    assert(bytes@.subrange(8, bytes.len() as int) =~= bytes@.skip(8));
    Some(payload)
}

/// The length that a length prefix gives is the length that was framed.
pub proof fn lemma_length_prefix_round_trip(n: u64)
    ensures
        be_word(be_bytes_u64(n), 0) == n,
{
    let v = n as int;
    let q1 = v / 0x100;
    let q2 = q1 / 0x100;
    let q3 = q2 / 0x100;
    let q4 = q3 / 0x100;
    let q5 = q4 / 0x100;
    let q6 = q5 / 0x100;
    let q7 = q6 / 0x100;
    assert(q2 == v / 0x1_0000);
    assert(q3 == v / 0x100_0000);
    assert(q4 == v / 0x1_0000_0000);
    assert(q5 == v / 0x100_0000_0000);
    assert(q6 == v / 0x1_0000_0000_0000);
    assert(q7 == v / 0x100_0000_0000_0000);
    assert(q7 < 0x100);
    let bytes = be_bytes_u64(n);
    assert(bytes[0] == q7);
    assert(bytes[1] == q6 % 0x100);
    assert(bytes[2] == q5 % 0x100);
    assert(bytes[3] == q4 % 0x100);
    assert(bytes[4] == q3 % 0x100);
    assert(bytes[5] == q2 % 0x100);
    assert(bytes[6] == q1 % 0x100);
    assert(bytes[7] == v % 0x100);
    assert(v == q1 * 0x100 + v % 0x100);
    assert(q1 == q2 * 0x100 + q1 % 0x100);
    assert(q2 == q3 * 0x100 + q2 % 0x100);
    assert(q3 == q4 * 0x100 + q3 % 0x100);
    assert(q4 == q5 * 0x100 + q4 % 0x100);
    assert(q5 == q6 * 0x100 + q5 % 0x100);
    assert(q6 == q7 * 0x100 + q6 % 0x100);
}

/// What was framed comes out of the frame again.
pub proof fn lemma_frame_round_trip(payload: Seq<u8>)
    requires
        payload.len() <= u64::MAX,
    ensures
        is_frame(framed(payload)),
        framed(payload).skip(8) == payload,
{
    let n = payload.len() as u64;
    lemma_length_prefix_round_trip(n);
    let bytes = framed(payload);
    assert(be_word(bytes, 0) == be_word(be_bytes_u64(n), 0));
    assert(bytes.skip(8) =~= payload);
}

} // verus!
