use piko::client::{publish_at, publish_finish};
use piko::dsc::{dsc, Discovery};
use piko::net::{process_stream, Reaction};
use piko::pending::PendingTable;
use piko::proto::{ProtoParcel, Session};
use piko::queue::PledgeQueue;
use piko::req::{pub_req, publish_request, Exchange};
use piko::semaphore::OrdSemaphore;
use piko::state::{Address, Mode, Node, State};
use piko::time::Timestamp;
use piko::wrk::{next_step, retire, Retirement, Step};
use std::collections::HashMap;

struct Replica {
    session: Session,
    state: State,
    barrier: OrdSemaphore<Timestamp>,
    queue: PledgeQueue,
    pending: PendingTable,
}

fn addr(port: u16) -> Address {
    Address::V4 { octets: [127, 0, 0, 1], port }
}

fn replica(name: &str, port: u16) -> Replica {
    let mut session = Session::new();
    let state =
        State::new(&mut session, Mode::Wrk, name.to_string(), addr(port), Some(addr(port)), HashMap::new());
    Replica {
        session,
        state,
        barrier: OrdSemaphore::new(),
        queue: PledgeQueue::new(),
        pending: PendingTable::new(),
    }
}

fn receive(r: &mut Replica, parcel: ProtoParcel) -> Reaction {
    process_stream(&r.session, &mut r.state, &mut r.barrier, &mut r.queue, addr(1), Some(parcel))
}

#[test]
fn single_node_goes_to_work_without_asking_anyone() {
    let mut session = Session::new();
    let mut state =
        State::new(&mut session, Mode::Dsc, "alone".to_string(), addr(1), None, HashMap::new());
    assert!(matches!(dsc(&session, &mut state, &Vec::new()), Discovery::Skipped));
    assert_eq!(state.mode, Mode::Wrk);
}

#[test]
fn two_nodes_one_message() {
    let mut a = replica("a", 1);
    let mut b = replica("b", 2);
    a.state.add_neighbour(Node::new("b".to_string(), Mode::Wrk, addr(2)));

    // A's client publishes "hi".
    let at = Timestamp { secs: 1000, nanos: 1 };
    let publication =
        publish_at(&a.session, &mut a.barrier, &mut a.queue, &mut a.pending, b"hi".to_vec(), at);
    assert_eq!(a.queue.len(), 1);
    assert_eq!(a.queue.peek().unwrap().owner, a.state.id);
    // Until B has acknowledged, A does not emit.
    assert!(matches!(next_step(a.state.id, &mut a.queue, &mut a.pending), Step::Listen));

    // The request travels to B, which takes it in and acknowledges it.
    let parcel = ProtoParcel::resource_request(&a.session, publication.request);
    let sent = parcel.id;
    let answer = match receive(&mut b, parcel) {
        Reaction::Reply(answer) => answer,
        other => panic!("{:?}", other),
    };
    assert_eq!(b.queue.peek(), Some(publication.request));
    let signal = publish_request(Exchange::Answered(answer), sent);
    let outcome = pub_req(a.state.get_neighbour_addrs().len(), &vec![signal]);
    publish_finish(&mut a.barrier, &mut a.pending, &publication, outcome);
    assert!(a.pending.is_acknowledged(publication.key));

    // A's worker pops its request and emits the release.
    let release = match next_step(a.state.id, &mut a.queue, &mut a.pending) {
        Step::Emit(release) => release,
        other => panic!("{:?}", other),
    };
    assert_eq!(release.message.message, b"hi".to_vec());
    assert_eq!(a.queue.len(), 0);
    assert_eq!(a.pending.len(), 0);

    // B's worker listens, observes the release and pops its copy.
    assert!(matches!(next_step(b.state.id, &mut b.queue, &mut b.pending), Step::Listen));
    let forwarded = match receive(&mut b, ProtoParcel::resource_release(&a.session, release)) {
        Reaction::Forward { release, .. } => release,
        other => panic!("{:?}", other),
    };
    assert_eq!(retire(&mut b.queue, &forwarded), Retirement::Retired(publication.request));
    assert_eq!(b.queue.len(), 0);
    assert!(matches!(next_step(b.state.id, &mut b.queue, &mut b.pending), Step::Idle));
    assert!(matches!(next_step(a.state.id, &mut a.queue, &mut a.pending), Step::Idle));
}

#[test]
fn two_nodes_publish_at_once() {
    let mut a = replica("a", 1);
    let mut b = replica("b", 2);
    let t1 = Timestamp { secs: 1000, nanos: 1 };
    let t2 = Timestamp { secs: 1000, nanos: 2 };

    let pa = publish_at(&a.session, &mut a.barrier, &mut a.queue, &mut a.pending, b"A".to_vec(), t1);
    let pb = publish_at(&b.session, &mut b.barrier, &mut b.queue, &mut b.pending, b"B".to_vec(), t2);

    // B's request reaches A: A's own ticket is earlier and still open, so the
    // request has to wait until A's broadcast has ended.
    let to_a = ProtoParcel::resource_request(&b.session, pb.request);
    let to_a_id = to_a.id;
    let held = match receive(&mut a, to_a) {
        Reaction::Deferred { ticket, request, id } => {
            assert_eq!(ticket, pa.ticket);
            (request, id)
        },
        other => panic!("{:?}", other),
    };
    // A's request reaches B: B's own ticket is later and does not hold it.
    let to_b = ProtoParcel::resource_request(&a.session, pa.request);
    let to_b_id = to_b.id;
    let from_b = match receive(&mut b, to_b) {
        Reaction::Reply(answer) => answer,
        other => panic!("{:?}", other),
    };
    publish_finish(
        &mut a.barrier,
        &mut a.pending,
        &pa,
        pub_req(1, &vec![publish_request(Exchange::Answered(from_b), to_b_id)]),
    );
    let from_a =
        match piko::net::admit_request(&a.session, &mut a.barrier, &mut a.queue, held.0, held.1) {
            Reaction::Reply(answer) => answer,
            other => panic!("{:?}", other),
        };
    publish_finish(
        &mut b.barrier,
        &mut b.pending,
        &pb,
        pub_req(1, &vec![publish_request(Exchange::Answered(from_a), to_a_id)]),
    );

    // Both queues place A's request ahead of B's.
    assert_eq!(a.queue.peek(), Some(pa.request));
    assert_eq!(b.queue.peek(), Some(pa.request));
    assert_eq!(a.queue.len(), 2);
    assert_eq!(b.queue.len(), 2);

    // B is acknowledged but must not emit before A's release was observed.
    assert!(b.pending.is_acknowledged(pb.key));
    assert!(matches!(next_step(b.state.id, &mut b.queue, &mut b.pending), Step::Listen));
    assert_eq!(b.queue.len(), 2);

    let release_a = match next_step(a.state.id, &mut a.queue, &mut a.pending) {
        Step::Emit(release) => release,
        other => panic!("{:?}", other),
    };
    assert_eq!(release_a.message.message, b"A".to_vec());
    assert_eq!(retire(&mut b.queue, &release_a), Retirement::Retired(pa.request));

    let release_b = match next_step(b.state.id, &mut b.queue, &mut b.pending) {
        Step::Emit(release) => release,
        other => panic!("{:?}", other),
    };
    assert_eq!(release_b.message.message, b"B".to_vec());
    assert!(matches!(next_step(a.state.id, &mut a.queue, &mut a.pending), Step::Listen));
    assert_eq!(retire(&mut a.queue, &release_b), Retirement::Retired(pb.request));
    assert_eq!(a.queue.len(), 0);
    assert_eq!(b.queue.len(), 0);
}

#[test]
fn unacknowledged_request_is_never_released() {
    let mut a = replica("a", 1);
    let at = Timestamp { secs: 1000, nanos: 1 };
    let p = publish_at(&a.session, &mut a.barrier, &mut a.queue, &mut a.pending, b"x".to_vec(), at);
    let outcome = pub_req(2, &vec![
        publish_request(Exchange::Answered(ProtoParcel::ack(&a.session, 1)), 1),
        publish_request(Exchange::Unreachable, 1),
    ]);
    publish_finish(&mut a.barrier, &mut a.pending, &p, outcome);
    for _ in 0..3 {
        assert!(matches!(next_step(a.state.id, &mut a.queue, &mut a.pending), Step::Listen));
    }
    assert_eq!(a.queue.len(), 1);
    assert_eq!(a.pending.len(), 1);
}

#[test]
fn malformed_frame_changes_nothing() {
    let mut a = replica("a", 1);
    let at = Timestamp { secs: 1000, nanos: 1 };
    let p = publish_at(&a.session, &mut a.barrier, &mut a.queue, &mut a.pending, b"x".to_vec(), at);
    assert_eq!(piko::net::unframe(&vec![0, 0, 0, 0, 0, 0, 0, 9, 1, 2, 3]), None);
    let reaction =
        process_stream(&a.session, &mut a.state, &mut a.barrier, &mut a.queue, addr(9), None);
    assert!(matches!(reaction, Reaction::Silence));
    assert_eq!(a.queue.len(), 1);
    assert_eq!(a.queue.peek(), Some(p.request));
    assert_eq!(a.pending.len(), 1);
    assert_eq!(a.barrier.len(), 1);
    assert_eq!(a.state.mode, Mode::Wrk);
    assert_eq!(a.state.get_cluster_size(), 0);
}

#[test]
fn single_node_releases_its_own_message() {
    let mut a = replica("alone", 1);
    let at = Timestamp { secs: 1000, nanos: 1 };
    let p = publish_at(&a.session, &mut a.barrier, &mut a.queue, &mut a.pending, b"hi".to_vec(), at);
    // No peer is there to fail: the request counts as acknowledged.
    let peers = a.state.get_neighbour_addrs();
    assert!(peers.is_empty());
    let outcome = pub_req(peers.len(), &piko::req::broadcast(&Vec::new(), 1));
    publish_finish(&mut a.barrier, &mut a.pending, &p, outcome);
    assert!(a.pending.is_acknowledged(p.key));
    assert_eq!(a.queue.peek(), Some(p.request));
    match next_step(a.state.id, &mut a.queue, &mut a.pending) {
        Step::Emit(release) => assert_eq!(release.message.message, b"hi".to_vec()),
        other => panic!("{:?}", other),
    }
    assert_eq!(a.queue.len(), 0);
    assert_eq!(a.pending.len(), 0);
}
