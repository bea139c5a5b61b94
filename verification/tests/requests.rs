use piko::internal::TaskSignal;
use piko::internal::TaskSignal::{Fail, StopProcess, Success};
use piko::net::is_acked;
use piko::proto::{Body, ProtoParcel, Session, Type};
use piko::req::{
    broadcast, discover, get_ext_addr_from_neighbour, ping, pub_req, publish_release, publish_request,
    recover, seq_recovery, Exchange,
};
use piko::state::{Address, Mode, Node};

fn session() -> Session {
    Session { sender_id: 3 }
}

fn addr(port: u16) -> Address {
    Address::V4 { octets: [10, 0, 0, 1], port }
}

#[test]
fn acknowledgement_of_the_right_parcel_is_a_success() {
    let s = session();
    assert_eq!(is_acked(ProtoParcel::ack(&s, 77), 77), TaskSignal::Success);
    assert_eq!(is_acked(ProtoParcel::ack(&s, 77), 78), TaskSignal::Fail);
    assert_eq!(is_acked(ProtoParcel::proto_error(&s), 77), TaskSignal::Fail);
    assert_eq!(is_acked(ProtoParcel::pong(&s), 77), TaskSignal::Fail);
    assert_eq!(is_acked(ProtoParcel::seq_res(&s, 77), 77), TaskSignal::Fail);
}

#[test]
fn acknowledgement_needs_kind_and_body_to_agree() {
    let s = session();
    let mut odd = ProtoParcel::ack(&s, 5);
    odd.body = Body::Empty;
    assert_eq!(is_acked(odd, 5), TaskSignal::Fail);
    let mut worn = ProtoParcel::pong(&s);
    worn.body = Body::Ack { message_id: 5 };
    assert_eq!(is_acked(worn, 5), TaskSignal::Fail);
}

#[test]
fn every_failed_exchange_of_a_request_is_a_failure() {
    let s = session();
    assert_eq!(publish_request(Exchange::Unreachable, 1), TaskSignal::Fail);
    assert_eq!(publish_request(Exchange::Unreadable, 1), TaskSignal::Fail);
    assert_eq!(publish_request(Exchange::Answered(ProtoParcel::ack(&s, 2)), 1), TaskSignal::Fail);
    assert_eq!(
        publish_request(Exchange::Answered(ProtoParcel::ack(&s, 1)), 1),
        TaskSignal::Success
    );
}

#[test]
fn release_gives_a_signal_only_for_an_answer() {
    let s = session();
    assert_eq!(publish_release(Exchange::Unreachable, 1), None);
    assert_eq!(publish_release(Exchange::Unreadable, 1), None);
    assert_eq!(
        publish_release(Exchange::Answered(ProtoParcel::ack(&s, 1)), 1),
        Some(TaskSignal::Success)
    );
    assert_eq!(
        publish_release(Exchange::Answered(ProtoParcel::proto_error(&s)), 1),
        Some(TaskSignal::Fail)
    );
}

#[test]
fn request_is_fully_acked_only_if_every_peer_acked() {
    assert_eq!(pub_req(1, &vec![Success]), Success);
    assert_eq!(pub_req(3, &vec![Success, Success, Success]), Success);
    assert_eq!(pub_req(3, &vec![Success, Fail, Success]), Fail);
    assert_eq!(pub_req(3, &vec![Success, Success, StopProcess]), Fail);
    assert_eq!(pub_req(3, &vec![Success, Success]), Fail);
    assert_eq!(pub_req(2, &vec![Fail, Success]), Fail);
    assert_eq!(pub_req(2, &vec![Success, Success, Fail]), Success);
}

#[test]
fn request_to_no_peer_is_acknowledged_at_once() {
    assert_eq!(pub_req(0, &vec![]), TaskSignal::Success);
    assert_eq!(pub_req(0, &broadcast(&Vec::new(), 9)), TaskSignal::Success);
    assert_eq!(pub_req(0, &vec![TaskSignal::Success]), TaskSignal::Success);
}

#[test]
fn request_with_too_few_answers_is_not_acknowledged() {
    assert_eq!(pub_req(1, &vec![]), TaskSignal::Fail);
    assert_eq!(pub_req(2, &vec![]), TaskSignal::Fail);
    assert_eq!(pub_req(2, &vec![TaskSignal::Success]), TaskSignal::Fail);
}

#[test]
fn recovery_takes_the_highest_sequence() {
    assert_eq!(seq_recovery(&vec![]), 0);
    assert_eq!(seq_recovery(&vec![0]), 0);
    assert_eq!(seq_recovery(&vec![4]), 4);
    assert_eq!(seq_recovery(&vec![4, 200, 17]), 200);
    assert_eq!(seq_recovery(&vec![255, 255]), 255);
}

#[test]
fn sequence_is_read_from_a_sequence_response_only() {
    let s = session();
    assert_eq!(recover(Exchange::Answered(ProtoParcel::seq_res(&s, 12))), Some(12));
    assert_eq!(recover(Exchange::Answered(ProtoParcel::proto_error(&s))), None);
    assert_eq!(recover(Exchange::Answered(ProtoParcel::pong(&s))), None);
    assert_eq!(recover(Exchange::Unreachable), None);
    assert_eq!(recover(Exchange::Unreadable), None);
    let mut odd = ProtoParcel::seq_res(&s, 12);
    odd.body = Body::Empty;
    assert_eq!(recover(Exchange::Answered(odd)), None);
    let mut worn = ProtoParcel::pong(&s);
    worn.parcel_type = Type::Ack;
    worn.body = Body::SeqRes { seq_number: 3 };
    assert_eq!(recover(Exchange::Answered(worn)), None);
}

#[test]
fn discovery_yields_the_neighbours_and_the_peer_itself() {
    let s = session();
    let a = Node::new("a".to_string(), Mode::Wrk, addr(1));
    let b = Node::new("b".to_string(), Mode::Dsc, addr(2));
    let me = Node::new("me".to_string(), Mode::Wrk, addr(3));
    let answer = ProtoParcel::dsc_res(&s, vec![a.clone(), b.clone()], me.clone());
    let found = discover(Exchange::Answered(answer)).unwrap();
    let ids: Vec<u64> = found.iter().map(|n| n.id).collect();
    assert_eq!(ids, vec![a.id, b.id, me.id]);
    assert_eq!(found[2].name, "me");
    assert!(discover(Exchange::Answered(ProtoParcel::proto_error(&s))).is_none());
    assert!(discover(Exchange::Answered(ProtoParcel::ack(&s, 1))).is_none());
    assert!(discover(Exchange::Unreachable).is_none());
    assert!(discover(Exchange::Unreadable).is_none());
}

#[test]
fn only_a_pong_counts_as_alive() {
    let s = session();
    assert_eq!(ping(Exchange::Answered(ProtoParcel::pong(&s))), Some(true));
    assert_eq!(ping(Exchange::Answered(ProtoParcel::ack(&s, 1))), Some(false));
    assert_eq!(ping(Exchange::Answered(ProtoParcel::proto_error(&s))), None);
    assert_eq!(ping(Exchange::Unreachable), Some(false));
    assert_eq!(ping(Exchange::Unreadable), Some(false));
}

#[test]
fn external_address_is_read_from_the_body() {
    let s = session();
    assert_eq!(
        get_ext_addr_from_neighbour(Exchange::Answered(ProtoParcel::ext_addr_res(&s, addr(9)))),
        Some(addr(9))
    );
    assert_eq!(get_ext_addr_from_neighbour(Exchange::Answered(ProtoParcel::pong(&s))), None);
    assert_eq!(get_ext_addr_from_neighbour(Exchange::Unreachable), None);
    assert_eq!(get_ext_addr_from_neighbour(Exchange::Unreadable), None);
}

#[test]
fn broadcast_gives_one_outcome_for_each_peer() {
    let s = session();
    let exchanges = vec![
        Exchange::Answered(ProtoParcel::ack(&s, 9)),
        Exchange::Unreachable,
        Exchange::Answered(ProtoParcel::ack(&s, 8)),
        Exchange::Unreadable,
        Exchange::Answered(ProtoParcel::proto_error(&s)),
        Exchange::Answered(ProtoParcel::ack(&s, 9)),
    ];
    assert_eq!(broadcast(&exchanges, 9), vec![Success, Fail, Fail, Fail, Fail, Success]);
    assert_eq!(broadcast(&Vec::new(), 9), Vec::<TaskSignal>::new());
    let all = vec![
        Exchange::Answered(ProtoParcel::ack(&s, 9)),
        Exchange::Answered(ProtoParcel::ack(&s, 9)),
    ];
    assert_eq!(pub_req(2, &broadcast(&all, 9)), Success);
    assert_eq!(pub_req(6, &broadcast(&exchanges, 9)), Fail);
}
