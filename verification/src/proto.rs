//! The messages that nodes exchange.

use vstd::prelude::*;
use crate::digest::{calculate_hash, fingerprint_input, sha256_digest, shorthand_of};
use crate::state::{Address, Mode, Node};
use crate::time::Timestamp;

verus! {

/// Who is speaking: the identifier that outgoing parcels carry as sender.
#[derive(Clone, Copy, Debug, PartialEq, Eq)]
pub struct Session {
    pub sender_id: u64,
}

impl Session {
    /// A session whose sender is 0 until one is set.
    pub fn new() -> (s: Session)
        ensures
            s.sender_id == 0,
    {
        Session { sender_id: 0 }
    }
}

/// The protocol version that parcels carry.
pub open spec fn proto_version() -> Seq<char> {
    "1.1"@
}

/// The protocol version that parcels carry.
pub fn get_proto_version() -> (v: String)
    ensures
        v@ == proto_version(),
{
    "1.1".to_owned()
}

/// Makes `id` the sender of the parcels built from `session` from now on.
pub fn set_sender_id(session: &mut Session, id: u64)
    ensures
        final(session).sender_id == id,
{
    session.sender_id = id;
}

/// The kinds of parcel.
#[derive(Clone, Copy, Debug, PartialEq, Eq, Structural)]
pub enum Type {
    ProtoError,
    DscReq,
    DscRes,
    SeqReq,
    SeqRes,
    StateChange,
    Ping,
    Pong,
    ResourceRequest,
    ResourceRelease,
    Ack,
    AddNode,
    ExtAddrReq,
    ExtAddrRes,
}

impl Type {
    /// The text by which the kind is shown.
    pub open spec fn label(self) -> Seq<char> {
        match self {
            Type::DscReq => "DscReq"@,
            Type::DscRes => "DscRes"@,
            Type::SeqReq => "SeqReq"@,
            Type::SeqRes => "SeqRes"@,
            Type::ProtoError => "Err"@,
            Type::StateChange => "StateChange"@,
            Type::Ping => "Ping"@,
            Type::Pong => "Pong"@,
            Type::Ack => "Ack"@,
            Type::AddNode => "AddNode"@,
            Type::ResourceRelease => "ResourceRelease"@,
            Type::ResourceRequest => "ResourceRequest"@,
            Type::ExtAddrRes => "ExtAddrRes"@,
            Type::ExtAddrReq => "ExtAddrReq"@,
        }
    }

    /// The text by which the kind is shown.
    pub fn name(&self) -> (s: String)
        ensures
            s@ == self.label(),
    {
        match self {
            Type::DscReq => "DscReq".to_owned(),
            Type::DscRes => "DscRes".to_owned(),
            Type::SeqReq => "SeqReq".to_owned(),
            Type::SeqRes => "SeqRes".to_owned(),
            Type::ProtoError => "Err".to_owned(),
            Type::StateChange => "StateChange".to_owned(),
            Type::Ping => "Ping".to_owned(),
            Type::Pong => "Pong".to_owned(),
            Type::Ack => "Ack".to_owned(),
            Type::AddNode => "AddNode".to_owned(),
            Type::ResourceRelease => "ResourceRelease".to_owned(),
            Type::ResourceRequest => "ResourceRequest".to_owned(),
            Type::ExtAddrRes => "ExtAddrRes".to_owned(),
            Type::ExtAddrReq => "ExtAddrReq".to_owned(),
        }
    }
}

/// The kinds of protocol error.
#[derive(Clone, Copy, Debug, PartialEq, Eq, Structural)]
pub enum ProtoError {
    BadRes,
    BadReq,
}

/// A client's message on its way to the subscribers.
#[derive(Clone, Debug)]
pub struct MessageWrapper {
    pub message: Vec<u8>,
    pub sequence: u16,
    pub receiver_mask: u32,
}

/// A timestamped claim to publish one message.
#[derive(Clone, Copy, Debug, PartialEq, Eq)]
pub struct ResourceRequest {
    pub owner: u64,
    pub message_hash: [u8; 32],
    pub shorthand: u64,
    pub timestamp: Timestamp,
    pub sequence: u16,
}

/// The message itself, sent once its request is first in the global order.
#[derive(Clone, Debug)]
pub struct ResourceRelease {
    pub owner: u64,
    pub message_hash: [u8; 32],
    pub shorthand: u64,
    pub timestamp: Timestamp,
    pub message: MessageWrapper,
    pub local: bool,
    pub sequence: u16,
}

/// Whether `req` and `rel` are the two halves that `owner` pledges for
/// `message` at `timestamp`.
pub open spec fn pledged(
    req: ResourceRequest,
    rel: ResourceRelease,
    owner: u64,
    message: Vec<u8>,
    timestamp: Timestamp,
) -> bool {
    &&& req.owner == owner
    &&& req.message_hash@ == sha256_digest(fingerprint_input(message@, timestamp.nanos))
    &&& req.shorthand == shorthand_of(req.message_hash@)
    &&& req.timestamp == timestamp
    &&& req.sequence == 0
    &&& rel.owner == owner
    &&& rel.message_hash == req.message_hash
    &&& rel.shorthand == req.shorthand
    &&& rel.timestamp == timestamp
    &&& rel.message == (MessageWrapper { message, sequence: 0, receiver_mask: 0 })
    &&& !rel.local
    &&& rel.sequence == 0
}

impl ResourceRequest {
    /// The request and release for `message`, owned by `owner` and stamped
    /// `timestamp`.
    pub fn generate_at(owner: u64, message: Vec<u8>, timestamp: Timestamp) -> (pair: (
        ResourceRequest,
        ResourceRelease,
    ))
        ensures
            pledged(pair.0, pair.1, owner, message, timestamp),
    {
        let (message_hash, shorthand) = calculate_hash(&message, &timestamp);
        (
            ResourceRequest { owner, message_hash, shorthand, timestamp, sequence: 0 },
            ResourceRelease {
                owner,
                message_hash,
                shorthand,
                timestamp,
                message: MessageWrapper { message, sequence: 0, receiver_mask: 0 },
                local: false,
                sequence: 0,
            },
        )
    }

    /// The request and release for `message`, owned by the session's sender
    /// and stamped with the current time.
    pub fn generate(session: &Session, message: Vec<u8>) -> (pair: (
        ResourceRequest,
        ResourceRelease,
    ))
        ensures
            pledged(pair.0, pair.1, session.sender_id, message, pair.0.timestamp),
    {
        let timestamp = Timestamp::now();
        ResourceRequest::generate_at(session.sender_id, message, timestamp)
    }
}

/// Two pledges of the same bytes at the same sub-second instant carry the
/// same digest and the same shorthand, whoever owns them.
pub proof fn lemma_fingerprint_deterministic(
    req1: ResourceRequest,
    rel1: ResourceRelease,
    owner1: u64,
    message1: Vec<u8>,
    timestamp1: Timestamp,
    req2: ResourceRequest,
    rel2: ResourceRelease,
    owner2: u64,
    message2: Vec<u8>,
    timestamp2: Timestamp,
)
    requires
        pledged(req1, rel1, owner1, message1, timestamp1),
        pledged(req2, rel2, owner2, message2, timestamp2),
        message1@ == message2@,
        timestamp1.nanos == timestamp2.nanos,
    ensures
        req1.message_hash@ == req2.message_hash@,
        req1.shorthand == req2.shorthand,
        rel1.message_hash@ == rel2.message_hash@,
        rel1.shorthand == rel2.shorthand,
{
}

/// A protocol message on its way to the pledge queue.
#[derive(Clone, Debug)]
pub enum Pledge {
    ResourceRequest(ResourceRequest),
    ResourceRelease(ResourceRelease),
}

/// What a parcel carries.
#[derive(Clone, Debug)]
pub enum Body {
    Empty,
    DscReq { identity: Node },
    DscRes { self_id: Node, neighbours: Vec<Node> },
    SeqRes { seq_number: u8 },
    AddNode { nodes: Vec<Node> },
    StateChange { mode: Mode },
    Publish { message: Vec<u8> },
    ResourceRequest { resource_request: ResourceRequest },
    ResourceRelease { resource_release: ResourceRelease },
    ExtAddrRes { addr: Address },
    Ack { message_id: u64 },
}

/// One message between nodes.
#[derive(Clone, Debug)]
pub struct ProtoParcel {
    /// The message's identifier, by which it is acknowledged.
    pub id: u64,
    pub proto_version: String,
    pub sender_id: u64,
    /// Whether the parcel answers another.
    pub is_response: bool,
    pub parcel_type: Type,
    pub body: Body,
}

/// Reads `rand::random::<u64>()`. Nothing is claimed of the number.
#[verifier::external_body]
fn random_u64() -> u64 {
    rand::random::<u64>()
}

/// The identifier made of a clock reading and a random number: their
/// bitwise exclusive or.
pub fn mix_id(millis: u64, random: u64) -> (id: u64)
    ensures
        id == millis ^ random,
{
    millis ^ random
}

/// A fresh message identifier: the current time in milliseconds, mixed with
/// a random number.
pub fn generate_id() -> u64 {
    let now = Timestamp::now();
    let random = random_u64();
    mix_id(now.millis(), random)
}

impl ProtoParcel {
    /// Whether the parcel is at the protocol's version, comes from `sender`
    /// and has the given direction, kind and body. Its identifier is free.
    pub open spec fn carries(self, sender: u64, is_response: bool, parcel_type: Type, body: Body) -> bool {
        &&& self.proto_version@ == proto_version()
        &&& self.sender_id == sender
        &&& self.is_response == is_response
        &&& self.parcel_type == parcel_type
        &&& self.body == body
    }

    fn seal(session: &Session, is_response: bool, parcel_type: Type, body: Body) -> (p: ProtoParcel)
        ensures
            p.carries(session.sender_id, is_response, parcel_type, body),
    {
        ProtoParcel {
            id: generate_id(),
            proto_version: get_proto_version(),
            sender_id: session.sender_id,
            is_response,
            parcel_type,
            body,
        }
    }

    /// Asks a peer for the cluster, introducing this node.
    pub fn dsc_req(session: &Session, self_node_information: Node) -> (p: ProtoParcel)
        ensures
            p.carries(
                session.sender_id,
                false,
                Type::DscReq,
                Body::DscReq { identity: self_node_information },
            ),
    {
        ProtoParcel::seal(session, false, Type::DscReq, Body::DscReq { identity: self_node_information })
    }

    /// Answers a discovery request with the neighbours and this node.
    pub fn dsc_res(session: &Session, neighbours_information: Vec<Node>, self_id: Node) -> (p:
        ProtoParcel)
        ensures
            p.carries(
                session.sender_id,
                true,
                Type::DscRes,
                Body::DscRes { neighbours: neighbours_information, self_id },
            ),
    {
        ProtoParcel::seal(
            session,
            true,
            Type::DscRes,
            Body::DscRes { neighbours: neighbours_information, self_id },
        )
    }

    /// Asks a peer for its sequence number.
    pub fn seq_req(session: &Session) -> (p: ProtoParcel)
        ensures
            p.carries(session.sender_id, false, Type::SeqReq, Body::Empty),
    {
        ProtoParcel::seal(session, false, Type::SeqReq, Body::Empty)
    }

    /// Answers with this node's sequence number.
    pub fn seq_res(session: &Session, seq_number: u8) -> (p: ProtoParcel)
        ensures
            p.carries(session.sender_id, true, Type::SeqRes, Body::SeqRes { seq_number }),
    {
        ProtoParcel::seal(session, true, Type::SeqRes, Body::SeqRes { seq_number })
    }

    /// Tells the neighbours of newly found nodes.
    pub fn add_node(session: &Session, nodes: Vec<Node>) -> (p: ProtoParcel)
        ensures
            p.carries(session.sender_id, true, Type::AddNode, Body::AddNode { nodes }),
    {
        ProtoParcel::seal(session, true, Type::AddNode, Body::AddNode { nodes })
    }

    /// Announces this node's mode.
    pub fn state_change(session: &Session, mode: Mode) -> (p: ProtoParcel)
        ensures
            p.carries(session.sender_id, false, Type::StateChange, Body::StateChange { mode }),
    {
        ProtoParcel::seal(session, false, Type::StateChange, Body::StateChange { mode })
    }

    /// Asks a peer whether it is alive.
    pub fn ping(session: &Session) -> (p: ProtoParcel)
        ensures
            p.carries(session.sender_id, false, Type::Ping, Body::Empty),
    {
        ProtoParcel::seal(session, false, Type::Ping, Body::Empty)
    }

    /// Answers a ping.
    pub fn pong(session: &Session) -> (p: ProtoParcel)
        ensures
            p.carries(session.sender_id, true, Type::Pong, Body::Empty),
    {
        ProtoParcel::seal(session, true, Type::Pong, Body::Empty)
    }

    /// Acknowledges the parcel whose identifier is `message_id`.
    pub fn ack(session: &Session, message_id: u64) -> (p: ProtoParcel)
        ensures
            p.carries(session.sender_id, true, Type::Ack, Body::Ack { message_id }),
    {
        ProtoParcel::seal(session, true, Type::Ack, Body::Ack { message_id })
    }

    /// Announces a request to the peers.
    pub fn resource_request(session: &Session, resource_request: ResourceRequest) -> (p: ProtoParcel)
        ensures
            p.carries(
                session.sender_id,
                false,
                Type::ResourceRequest,
                Body::ResourceRequest { resource_request },
            ),
    {
        ProtoParcel::seal(
            session,
            false,
            Type::ResourceRequest,
            Body::ResourceRequest { resource_request },
        )
    }

    /// Carries a release to the peers.
    pub fn resource_release(session: &Session, resource_release: ResourceRelease) -> (p: ProtoParcel)
        ensures
            p.carries(
                session.sender_id,
                false,
                Type::ResourceRelease,
                Body::ResourceRelease { resource_release },
            ),
    {
        ProtoParcel::seal(
            session,
            false,
            Type::ResourceRelease,
            Body::ResourceRelease { resource_release },
        )
    }

    /// Asks a peer by which address it sees this node. The parcel travels
    /// under the kind `ResourceRelease`, with an empty body.
    pub fn ext_addr_req(session: &Session) -> (p: ProtoParcel)
        ensures
            p.carries(session.sender_id, false, Type::ResourceRelease, Body::Empty),
    {
        ProtoParcel::seal(session, false, Type::ResourceRelease, Body::Empty)
    }

    /// Tells a peer by which address it is seen. The parcel travels under
    /// the kind `ResourceRelease`.
    pub fn ext_addr_res(session: &Session, addr: Address) -> (p: ProtoParcel)
        ensures
            p.carries(session.sender_id, false, Type::ResourceRelease, Body::ExtAddrRes { addr }),
    {
        ProtoParcel::seal(session, false, Type::ResourceRelease, Body::ExtAddrRes { addr })
    }

    /// Tells a peer that its parcel broke the protocol.
    pub fn proto_error(session: &Session) -> (p: ProtoParcel)
        ensures
            p.carries(session.sender_id, true, Type::ProtoError, Body::Empty),
    {
        ProtoParcel::seal(session, true, Type::ProtoError, Body::Empty)
    }
}

} // verus!
