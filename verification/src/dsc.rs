//! Discovery: how a node that starts up learns of the cluster.

use vstd::prelude::*;
use crate::proto::{Body, ProtoParcel, Session, Type};
use crate::state::{describes, Address, Mode, Node, State};

verus! {

broadcast use vstd::std_specs::hash::group_hash_axioms;

/// How discovery begins.
#[derive(Debug)]
pub enum Discovery {
    /// There is no peer to ask: the node is at work at once.
    Skipped,
    /// The parcel is to be sent to every peer; what the peers make known is
    /// then handed to `dsc_finish`.
    Query(ProtoParcel),
}

/// The neighbours after the nodes found were taken in: of two found nodes
/// with the same identifier the one found first stays, and a found node
/// replaces what was known under its identifier.
pub open spec fn absorbed(neighbours: Map<u64, Node>, found: Seq<Node>) -> Map<u64, Node>
    decreases found.len(),
{
    if found.len() == 0 {
        neighbours
    } else {
        absorbed(neighbours, found.drop_first()).insert(found[0].id, found[0])
    }
}

/// Begins discovery. Without peers the node goes to work and nothing is to
/// be sent. With peers the state stays as it is, and the result is the
/// request that introduces this node to them.
pub fn dsc(session: &Session, state: &mut State, neighbour_list: &Vec<Address>) -> (start: Discovery)
    requires
        neighbour_list.len() > 0 ==> old(state).external_addr is Some,
    ensures
        final(state).id == old(state).id,
        final(state).name == old(state).name,
        final(state).internal_addr == old(state).internal_addr,
        final(state).external_addr == old(state).external_addr,
        final(state).neighbours == old(state).neighbours,
        final(state).sequence == old(state).sequence,
        neighbour_list.len() == 0 ==> start is Skipped && final(state).mode == Mode::Wrk,
        neighbour_list.len() > 0 ==> {
            &&& final(state).mode == old(state).mode
            &&& start matches Discovery::Query(p) && {
                &&& p.proto_version@ == crate::proto::proto_version()
                &&& p.sender_id == session.sender_id
                &&& !p.is_response
                &&& p.parcel_type == Type::DscReq
                &&& p.body matches Body::DscReq { identity } && describes(identity, *old(state))
            }
        },
{
    if neighbour_list.len() == 0 {
        state.change_mode(Mode::Wrk);
        Discovery::Skipped
    } else {
        let node = state.get_node_information();
        Discovery::Query(ProtoParcel::dsc_req(session, node))
    }
}

/// Ends discovery: the nodes that the peers made known, in the order in
/// which they came in, become neighbours, and the node goes to work.
pub fn dsc_finish(state: &mut State, found: Vec<Node>)
    ensures
        final(state).neighbours@ == absorbed(old(state).neighbours@, found@),
        final(state).mode == Mode::Wrk,
        final(state).id == old(state).id,
        final(state).name == old(state).name,
        final(state).internal_addr == old(state).internal_addr,
        final(state).external_addr == old(state).external_addr,
        final(state).sequence == old(state).sequence,
{
    let mut i: usize = found.len();
    assert(found@.skip(found.len() as int) =~= Seq::<Node>::empty());
    while i > 0
        invariant
            i <= found.len(),
            state.neighbours@ == absorbed(old(state).neighbours@, found@.skip(i as int)),
            state.same_self(*old(state)),
        decreases i,
    {
        i -= 1;
        assert(found@.skip(i as int).drop_first() =~= found@.skip(i + 1));
        state.add_neighbour(found[i].clone());
    }
    assert(found@.skip(0) =~= found@);
    state.change_mode(Mode::Wrk);
}

} // verus!
