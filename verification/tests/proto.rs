use piko::proto::{
    generate_id, get_proto_version, mix_id, set_sender_id, Body, ProtoError, ProtoParcel,
    ResourceRequest, Session, Type,
};
use piko::state::{Address, Mode, Node};
use piko::time::Timestamp;

fn check(p: &ProtoParcel, sender: u64, is_response: bool, parcel_type: Type) {
    assert_eq!(p.proto_version, "1.1");
    assert_eq!(p.sender_id, sender);
    assert_eq!(p.is_response, is_response);
    assert_eq!(p.parcel_type, parcel_type);
}

#[test]
fn protocol_version() {
    assert_eq!(get_proto_version(), "1.1");
}

#[test]
fn session_starts_at_sender_zero() {
    let mut s = Session::new();
    assert_eq!(s.sender_id, 0);
    set_sender_id(&mut s, 99);
    assert_eq!(s.sender_id, 99);
    set_sender_id(&mut s, 7);
    assert_eq!(s.sender_id, 7);
    assert_eq!(ProtoParcel::ping(&s).sender_id, 7);
}

#[test]
fn identifier_is_time_xor_random() {
    assert_eq!(mix_id(0, 0), 0);
    assert_eq!(mix_id(0b1100, 0b1010), 0b0110);
    assert_eq!(mix_id(1_700_000_000_123, 0xDEAD_BEEF), 1696802068116);
    assert_eq!(mix_id(5, u64::MAX), u64::MAX - 5);
    let _ = generate_id();
}

#[test]
fn kinds_have_their_names() {
    let names: Vec<String> = [
        Type::ProtoError,
        Type::DscReq,
        Type::DscRes,
        Type::SeqReq,
        Type::SeqRes,
        Type::StateChange,
        Type::Ping,
        Type::Pong,
        Type::ResourceRequest,
        Type::ResourceRelease,
        Type::Ack,
        Type::AddNode,
        Type::ExtAddrReq,
        Type::ExtAddrRes,
    ]
    .iter()
    .map(|t| t.name())
    .collect();
    assert_eq!(
        names,
        vec![
            "Err",
            "DscReq",
            "DscRes",
            "SeqReq",
            "SeqRes",
            "StateChange",
            "Ping",
            "Pong",
            "ResourceRequest",
            "ResourceRelease",
            "Ack",
            "AddNode",
            "ExtAddrReq",
            "ExtAddrRes"
        ]
    );
    assert_ne!(ProtoError::BadReq, ProtoError::BadRes);
}

#[test]
fn modes_have_their_names() {
    let names: Vec<String> =
        [Mode::Wrk, Mode::Dsc, Mode::Fault, Mode::Panic, Mode::Shutdown, Mode::TimedOut]
            .iter()
            .map(|m| m.name())
            .collect();
    assert_eq!(names, vec!["Wrk", "Dsc", "Err", "Panic", "Shutdown", "TimedOut"]);
}

#[test]
fn parcels_without_a_body() {
    let s = Session { sender_id: 11 };
    let p = ProtoParcel::seq_req(&s);
    check(&p, 11, false, Type::SeqReq);
    assert!(matches!(p.body, Body::Empty));
    let p = ProtoParcel::ping(&s);
    check(&p, 11, false, Type::Ping);
    assert!(matches!(p.body, Body::Empty));
    let p = ProtoParcel::pong(&s);
    check(&p, 11, true, Type::Pong);
    assert!(matches!(p.body, Body::Empty));
    let p = ProtoParcel::proto_error(&s);
    check(&p, 11, true, Type::ProtoError);
    assert!(matches!(p.body, Body::Empty));
    let p = ProtoParcel::ext_addr_req(&s);
    check(&p, 11, false, Type::ResourceRelease);
    assert!(matches!(p.body, Body::Empty));
}

#[test]
fn parcels_with_a_body() {
    let s = Session { sender_id: 11 };
    let at = Address::V6 { octets: [1; 16], port: 80, flowinfo: 2, scope_id: 3 };
    let node = Node::new("n".to_string(), Mode::Dsc, at);

    let p = ProtoParcel::dsc_req(&s, node.clone());
    check(&p, 11, false, Type::DscReq);
    assert!(matches!(&p.body, Body::DscReq { identity } if identity.id == node.id));

    let p = ProtoParcel::dsc_res(&s, vec![node.clone()], node.clone());
    check(&p, 11, true, Type::DscRes);
    assert!(matches!(&p.body, Body::DscRes { self_id, neighbours }
        if self_id.id == node.id && neighbours.len() == 1));

    let p = ProtoParcel::seq_res(&s, 200);
    check(&p, 11, true, Type::SeqRes);
    assert!(matches!(p.body, Body::SeqRes { seq_number: 200 }));

    let p = ProtoParcel::add_node(&s, vec![node.clone(), node.clone()]);
    check(&p, 11, true, Type::AddNode);
    assert!(matches!(&p.body, Body::AddNode { nodes } if nodes.len() == 2));

    let p = ProtoParcel::state_change(&s, Mode::TimedOut);
    check(&p, 11, false, Type::StateChange);
    assert!(matches!(p.body, Body::StateChange { mode: Mode::TimedOut }));

    let p = ProtoParcel::ack(&s, 12345);
    check(&p, 11, true, Type::Ack);
    assert!(matches!(p.body, Body::Ack { message_id: 12345 }));

    let p = ProtoParcel::ext_addr_res(&s, at);
    check(&p, 11, false, Type::ResourceRelease);
    assert!(matches!(p.body, Body::ExtAddrRes { addr } if addr == at));
}

#[test]
fn parcels_with_a_pledge() {
    let s = Session { sender_id: 11 };
    let (req, rel) =
        ResourceRequest::generate_at(11, vec![1, 2], Timestamp { secs: 3, nanos: 4 });
    let p = ProtoParcel::resource_request(&s, req);
    check(&p, 11, false, Type::ResourceRequest);
    assert!(matches!(p.body, Body::ResourceRequest { resource_request } if resource_request == req));
    let p = ProtoParcel::resource_release(&s, rel);
    check(&p, 11, false, Type::ResourceRelease);
    assert!(matches!(&p.body, Body::ResourceRelease { resource_release }
        if resource_release.shorthand == req.shorthand
            && resource_release.message.message == vec![1, 2]));
}
