use piko::digest::calculate_node_id;
use piko::dsc::{dsc, dsc_finish, Discovery};
use piko::heartbeat::{heartbeat, Monitor};
use piko::proto::{Body, Session, Type};
use piko::state::{addresses, Address, Mode, Node, State};
use std::collections::HashMap;

fn addr(port: u16) -> Address {
    Address::V4 { octets: [10, 1, 1, 1], port }
}

fn node(name: &str, mode: Mode, port: u16) -> Node {
    Node::new(name.to_string(), mode, addr(port))
}

fn fresh(session: &mut Session, external: Option<Address>) -> State {
    State::new(session, Mode::Dsc, "self".to_string(), addr(1), external, HashMap::new())
}

#[test]
fn new_state_takes_its_identifier_from_its_name() {
    let mut session = Session::new();
    let state = fresh(&mut session, Some(addr(2)));
    assert_eq!(state.id, calculate_node_id(&"self".to_string()));
    assert_eq!(session.sender_id, state.id);
    assert_eq!(state.mode, Mode::Dsc);
    assert_eq!(state.name, "self");
    assert_eq!(state.internal_addr, addr(1));
    assert_eq!(state.external_addr, Some(addr(2)));
    assert_eq!(state.sequence, 0);
    assert_eq!(state.get_cluster_size(), 0);
    let me = state.get_node_information();
    assert_eq!(me.id, state.id);
    assert_eq!(me.mode, Mode::Dsc);
    assert_eq!(me.name, "self");
    assert_eq!(me.external_addr, addr(2));
}

#[test]
fn node_takes_its_identifier_from_its_name() {
    let n = node("alpha", Mode::Panic, 9);
    assert_eq!(n.id, 4210106920948092973);
    assert_eq!(n.name, "alpha");
    assert_eq!(n.mode, Mode::Panic);
    assert_eq!(n.external_addr, addr(9));
    let copy = n.clone();
    assert_eq!(copy.id, n.id);
    assert_eq!(copy.name, n.name);
    assert_eq!(copy.mode, n.mode);
    assert_eq!(copy.external_addr, n.external_addr);
}

#[test]
fn neighbours_are_kept_by_identifier() {
    let mut session = Session::new();
    let mut state = fresh(&mut session, None);
    let a = node("a", Mode::Wrk, 3);
    let b = node("b", Mode::Dsc, 4);
    state.add_neighbour(a.clone());
    state.add_neighbour(b.clone());
    state.add_neighbour(Node { id: a.id, mode: Mode::Wrk, name: "a'".to_string(), external_addr: addr(5) });
    assert_eq!(state.get_cluster_size(), 2);
    assert_eq!(state.neighbours[&a.id].name, "a'");
    let keys = state.get_neighbour_keys();
    assert_eq!(keys.len(), 2);
    assert!(keys.contains(&a.id) && keys.contains(&b.id));
    let mut ids = state.neighbour_ids();
    ids.sort();
    let mut expected = vec![a.id, b.id];
    expected.sort();
    assert_eq!(ids, expected);
}

#[test]
fn only_neighbours_at_work_are_active() {
    let mut session = Session::new();
    let mut state = fresh(&mut session, None);
    let modes = [Mode::Wrk, Mode::Dsc, Mode::Fault, Mode::Panic, Mode::Shutdown, Mode::TimedOut, Mode::Wrk];
    let mut working = Vec::new();
    for (i, mode) in modes.iter().enumerate() {
        let n = node(&format!("n{}", i), *mode, 100 + i as u16);
        if *mode == Mode::Wrk {
            working.push((n.id, n.external_addr));
        }
        state.add_neighbour(n);
    }
    working.sort_by_key(|w| w.0);
    let mut active: Vec<(u64, Address)> =
        state.get_active_neighbours().iter().map(|n| (n.id, n.external_addr)).collect();
    active.sort_by_key(|w| w.0);
    assert_eq!(active, working);
    let mut addrs: Vec<u16> = state
        .get_neighbour_addrs()
        .iter()
        .map(|a| match a {
            Address::V4 { port, .. } => *port,
            Address::V6 { port, .. } => *port,
        })
        .collect();
    addrs.sort();
    assert_eq!(addrs, vec![100, 106]);
    assert_eq!(state.get_neighbours().len(), 7);
    assert_eq!(state.get_cluster_size(), 7);
    assert_eq!(addresses(&state.get_active_neighbours()).len(), 2);
}

#[test]
fn mode_of_a_neighbour_can_be_set() {
    let mut session = Session::new();
    let mut state = fresh(&mut session, None);
    let a = node("a", Mode::Wrk, 3);
    state.add_neighbour(a.clone());
    state.set_neighbour_mode(a.id, Mode::TimedOut);
    assert_eq!(state.neighbours[&a.id].mode, Mode::TimedOut);
    assert!(state.get_active_neighbours().is_empty());
    state.set_neighbour_mode(a.id + 1, Mode::Wrk);
    assert_eq!(state.get_cluster_size(), 1);
    state.change_mode(Mode::Shutdown);
    assert_eq!(state.mode, Mode::Shutdown);
    assert_eq!(state.get_cluster_size(), 1);
}

#[test]
fn discovery_without_peers_goes_straight_to_work() {
    let mut session = Session::new();
    let mut state = fresh(&mut session, None);
    assert!(matches!(dsc(&session, &mut state, &vec![]), Discovery::Skipped));
    assert_eq!(state.mode, Mode::Wrk);
    assert_eq!(state.get_cluster_size(), 0);
    assert_eq!(state.sequence, 0);
}

#[test]
fn discovery_with_peers_introduces_this_node() {
    let mut session = Session::new();
    let mut state = fresh(&mut session, Some(addr(2)));
    match dsc(&session, &mut state, &vec![addr(8), addr(9)]) {
        Discovery::Query(p) => {
            assert_eq!(p.parcel_type, Type::DscReq);
            assert!(!p.is_response);
            assert_eq!(p.sender_id, state.id);
            match p.body {
                Body::DscReq { identity } => {
                    assert_eq!(identity.id, state.id);
                    assert_eq!(identity.name, "self");
                    assert_eq!(identity.mode, Mode::Dsc);
                    assert_eq!(identity.external_addr, addr(2));
                },
                other => panic!("{:?}", other),
            }
        },
        other => panic!("{:?}", other),
    }
    assert_eq!(state.mode, Mode::Dsc);
}

#[test]
fn found_nodes_become_neighbours_and_the_first_found_stays() {
    let mut session = Session::new();
    let mut state = fresh(&mut session, Some(addr(2)));
    let a = node("a", Mode::Wrk, 3);
    let b = node("b", Mode::Wrk, 4);
    let stale_b = Node { id: b.id, mode: Mode::Dsc, name: "old b".to_string(), external_addr: addr(40) };
    let late_a = Node { id: a.id, mode: Mode::Dsc, name: "late a".to_string(), external_addr: addr(30) };
    state.add_neighbour(stale_b);
    dsc_finish(&mut state, vec![a.clone(), b.clone(), late_a]);
    assert_eq!(state.mode, Mode::Wrk);
    assert_eq!(state.get_cluster_size(), 2);
    assert_eq!(state.neighbours[&a.id].name, "a");
    assert_eq!(state.neighbours[&a.id].external_addr, addr(3));
    assert_eq!(state.neighbours[&b.id].name, "b");
    dsc_finish(&mut state, vec![]);
    assert_eq!(state.get_cluster_size(), 2);
}

#[test]
fn heartbeat_watches_every_neighbour_and_pings_those_at_work() {
    let mut session = Session::new();
    let mut state = fresh(&mut session, None);
    let a = node("a", Mode::Wrk, 3);
    let b = node("b", Mode::TimedOut, 4);
    state.add_neighbour(a.clone());
    state.add_neighbour(b.clone());
    let mut monitor = Monitor::new();
    assert!(heartbeat(&session, &state, &mut monitor).is_none());
    assert_eq!(monitor.timeouts.get(&a.id), Some(&0));
    assert_eq!(monitor.timeouts.get(&b.id), Some(&0));
    state.change_mode(Mode::Wrk);
    let (targets, parcel) = heartbeat(&session, &state, &mut monitor).unwrap();
    assert_eq!(targets.iter().map(|n| n.id).collect::<Vec<u64>>(), vec![a.id]);
    assert_eq!(parcel.parcel_type, Type::Ping);
    assert_eq!(parcel.sender_id, state.id);
    assert!(!parcel.is_response);
    assert_eq!(monitor.timeouts.len(), 2);
}

#[test]
fn watching_keeps_the_counts_of_known_neighbours() {
    let mut session = Session::new();
    let mut state = fresh(&mut session, None);
    let a = node("a", Mode::Wrk, 3);
    state.add_neighbour(a.clone());
    let mut monitor = Monitor::new();
    monitor.watch(&state);
    assert!(!monitor.record(&mut state, a.id, false, 5));
    let b = node("b", Mode::Wrk, 4);
    state.add_neighbour(b.clone());
    monitor.watch(&state);
    assert_eq!(monitor.timeouts.get(&a.id), Some(&1));
    assert_eq!(monitor.timeouts.get(&b.id), Some(&0));
}

#[test]
fn neighbour_times_out_once_its_count_passes_the_limit() {
    let mut session = Session::new();
    let mut state = fresh(&mut session, None);
    let a = node("a", Mode::Wrk, 3);
    state.add_neighbour(a.clone());
    let mut monitor = Monitor::new();
    assert!(!monitor.record(&mut state, a.id, false, 2));
    assert!(!monitor.record(&mut state, a.id, false, 2));
    assert_eq!(monitor.timeouts.get(&a.id), Some(&2));
    assert_eq!(state.neighbours[&a.id].mode, Mode::Wrk);
    assert!(monitor.record(&mut state, a.id, false, 2));
    assert_eq!(monitor.timeouts.get(&a.id), Some(&3));
    assert_eq!(state.neighbours[&a.id].mode, Mode::TimedOut);
    assert!(!monitor.record(&mut state, a.id, true, 2));
    assert_eq!(monitor.timeouts.get(&a.id), Some(&0));
    // An answer does not bring the neighbour back to work by itself.
    assert_eq!(state.neighbours[&a.id].mode, Mode::TimedOut);
}

#[test]
fn count_of_missed_pings_stops_at_255() {
    let mut session = Session::new();
    let mut state = fresh(&mut session, None);
    let mut monitor = Monitor::new();
    for _ in 0..300 {
        monitor.record(&mut state, 9, false, 255);
    }
    assert_eq!(monitor.timeouts.get(&9), Some(&255));
    assert!(!monitor.record(&mut state, 9, false, 255));
    // The limit is taken to eight bits: 256 stands for 0.
    assert!(monitor.record(&mut state, 9, false, 256));
    assert!(monitor.record(&mut state, 8, false, 256));
    assert!(!monitor.record(&mut state, 7, false, 257));
    assert!(monitor.record(&mut state, 7, false, 257));
}
