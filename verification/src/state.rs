//! What a node knows of itself and of its neighbours.

use vstd::prelude::*;
use std::collections::{HashMap, HashSet};
use vstd::std_specs::iter::IteratorSpec;
use crate::digest::{calculate_node_id, node_id_of};
use crate::order::lemma_push_contains;
use crate::proto::{set_sender_id, Session};

verus! {

broadcast use vstd::std_specs::hash::group_hash_axioms;

/// The mode a node is in.
#[derive(Clone, Copy, Debug, PartialEq, Eq, Structural, Hash)]
pub enum Mode {
    Wrk,
    Dsc,
    /// The node has met an error; shown as `Err`.
    Fault,
    Panic,
    Shutdown,
    TimedOut,
}

impl Mode {
    /// The text by which the mode is shown.
    pub open spec fn label(self) -> Seq<char> {
        match self {
            Mode::Wrk => "Wrk"@,
            Mode::Dsc => "Dsc"@,
            Mode::Fault => "Err"@,
            Mode::Panic => "Panic"@,
            Mode::Shutdown => "Shutdown"@,
            Mode::TimedOut => "TimedOut"@,
        }
    }

    /// The text by which the mode is shown.
    pub fn name(&self) -> (s: String)
        ensures
            s@ == self.label(),
    {
        match self {
            Mode::Wrk => "Wrk".to_owned(),
            Mode::Dsc => "Dsc".to_owned(),
            Mode::Fault => "Err".to_owned(),
            Mode::Panic => "Panic".to_owned(),
            Mode::Shutdown => "Shutdown".to_owned(),
            Mode::TimedOut => "TimedOut".to_owned(),
        }
    }
}

/// A socket address: an IPv4 or IPv6 host and a port, held as plain values.
#[derive(Clone, Copy, Debug, PartialEq, Eq, Hash)]
#[allow(inconsistent_fields)]
pub enum Address {
    V4 { octets: [u8; 4], port: u16 },
    V6 { octets: [u8; 16], port: u16, flowinfo: u32, scope_id: u32 },
}

/// One node of the cluster, as its peers know it.
#[derive(Debug)]
pub struct Node {
    pub id: u64,
    pub mode: Mode,
    pub name: String,
    pub external_addr: Address,
}

impl Clone for Node {
    fn clone(&self) -> (r: Self)
        ensures
            r == *self,
    {
        Node {
            id: self.id,
            mode: self.mode,
            name: self.name.clone(),
            external_addr: self.external_addr,
        }
    }
}

impl Node {
    /// A node named `name`; its identifier is derived from the name.
    pub fn new(name: String, mode: Mode, host: Address) -> (node: Node)
        ensures
            node.id == node_id_of(name@),
            node.name == name,
            node.mode == mode,
            node.external_addr == host,
    {
        let id = calculate_node_id(&name);
        Node { name, mode, external_addr: host, id }
    }
}

/// The state of this node: its identity, its mode, its neighbours by
/// identifier, and the sequence number it has adopted.
#[derive(Debug)]
pub struct State {
    pub id: u64,
    pub mode: Mode,
    pub name: String,
    pub internal_addr: Address,
    pub external_addr: Option<Address>,
    pub neighbours: HashMap<u64, Node>,
    pub sequence: u8,
}

impl State {
    /// The state of a node named `name`, at sequence 0. The node's identifier
    /// is derived from its name and becomes the session's sender.
    pub fn new(
        session: &mut Session,
        mode: Mode,
        name: String,
        internal_addr: Address,
        external_addr: Option<Address>,
        neighbours: HashMap<u64, Node>,
    ) -> (state: State)
        ensures
            state.id == node_id_of(name@),
            final(session).sender_id == state.id,
            state.mode == mode,
            state.name == name,
            state.internal_addr == internal_addr,
            state.external_addr == external_addr,
            state.neighbours == neighbours,
            state.sequence == 0,
    {
        let id = calculate_node_id(&name);
        set_sender_id(session, id);
        State { id, mode, name, internal_addr, external_addr, neighbours, sequence: 0 }
    }

    /// This node as its peers are to know it.
    pub fn get_node_information(&self) -> (node: Node)
        requires
            self.external_addr is Some,
        ensures
            node.id == self.id,
            node.mode == self.mode,
            node.name == self.name,
            node.external_addr == self.external_addr->0,
    {
        let addr = match self.external_addr {
            Some(a) => a,
            None => self.internal_addr,
        };
        Node { id: self.id, mode: self.mode, name: self.name.clone(), external_addr: addr }
    }

    /// The number of neighbours, whatever their mode.
    pub fn get_cluster_size(&self) -> (n: usize)
        ensures
            n == self.neighbours@.len(),
    {
        self.neighbours.len()
    }

    /// Records `node` under its identifier, replacing what was known of it.
    pub fn add_neighbour(&mut self, node: Node)
        ensures
            final(self).neighbours@ == old(self).neighbours@.insert(node.id, node),
            final(self).same_self(*old(self)),
    {
        self.neighbours.insert(node.id, node);
    }

    /// Sets this node's mode.
    pub fn change_mode(&mut self, mode: Mode)
        ensures
            final(self).mode == mode,
            final(self).id == old(self).id,
            final(self).name == old(self).name,
            final(self).internal_addr == old(self).internal_addr,
            final(self).external_addr == old(self).external_addr,
            final(self).neighbours == old(self).neighbours,
            final(self).sequence == old(self).sequence,
    {
        self.mode = mode;
    }

    /// The identifiers under which neighbours are known, each once, in the
    /// order in which the table yields them.
    pub fn neighbour_ids(&self) -> (ids: Vec<u64>)
        ensures
            ids@.no_duplicates(),
            ids@.to_set() == self.neighbours@.dom(),
    {
        let mut ids: Vec<u64> = Vec::new();
        let ghost all = self.neighbours.keys().remaining();
        for key in it: self.neighbours.keys()
            invariant
                it.seq() == all,
                ids@ == all.take(it.index()).unref(),
        {
            ids.push(*key);
            assert(all.take(it.index() + 1).unref() =~= all.take(it.index()).unref().push(*key));
        }
        proof {
            assert(all.take(all.len() as int) =~= all);
            assert(ids@ == all.unref());
            assert forall|i: int, j: int|
                0 <= i < ids@.len() && 0 <= j < ids@.len() && i != j implies ids@[i] != ids@[j] by {
                assert(all[i] != all[j]);
            }
        }
        ids
    }

    /// The identifiers under which neighbours are known.
    pub fn get_neighbour_keys(&self) -> (keys: HashSet<u64>)
        ensures
            keys@ == self.neighbours@.dom(),
    {
        let ids = self.neighbour_ids();
        let mut keys: HashSet<u64> = HashSet::new();
        let mut i: usize = 0;
        while i < ids.len()
            invariant
                i <= ids.len(),
                keys@ == ids@.take(i as int).to_set(),
            decreases ids.len() - i,
        {
            keys.insert(ids[i]);
            assert(ids@.take(i + 1) =~= ids@.take(i as int).push(ids@[i as int]));
            assert(ids@.take(i + 1).to_set() =~= ids@.take(i as int).to_set().insert(
                ids@[i as int],
            )) by {
                assert forall|k: u64|
                    ids@.take(i + 1).contains(k) <==> ids@.take(i as int).contains(k) || k
                        == ids@[i as int] by {
                    lemma_push_contains(ids@.take(i as int), ids@[i as int], k);
                }
            }
            i += 1;
        }
        assert(ids@.take(ids.len() as int) =~= ids@);
        keys
    }

    fn nodes_where(&self, only_active: bool) -> (nodes: Vec<Node>)
        ensures
            lists(self.neighbours@, only_active, nodes@),
    {
        let ids = self.neighbour_ids();
        let ghost table = self.neighbours@;
        let mut nodes: Vec<Node> = Vec::new();
        let ghost mut keys: Seq<u64> = Seq::empty();
        let mut i: usize = 0;
        while i < ids.len()
            invariant
                i <= ids.len(),
                table == self.neighbours@,
                ids@.no_duplicates(),
                ids@.to_set() == table.dom(),
                keys.no_duplicates(),
                forall|k: u64|
                    keys.contains(k) <==> ids@.take(i as int).contains(k) && chosen(
                        table,
                        only_active,
                    ).contains(k),
                nodes@ == keys.map_values(|k: u64| table[k]),
            decreases ids.len() - i,
        {
            let id = ids[i];
            let ghost seen = ids@.take(i as int);
            assert(ids@.take(i + 1) =~= seen.push(id));
            assert(!seen.contains(id)) by {
                if seen.contains(id) {
                    let j = choose|j: int| 0 <= j < seen.len() && seen[j] == id;
                    assert(ids@[j] == ids@[i as int]);
                }
            }
            assert(ids@.contains(id));
            assert(table.dom().contains(id));
            match self.neighbours.get(&id) {
                Some(node) => {
                    let wanted = !only_active || match node.mode {
                        Mode::Wrk => true,
                        _ => false,
                    };
                    if wanted {
                        nodes.push(node.clone());
                        proof {
                            let grown = keys.push(id);
                            assert(grown.map_values(|k: u64| table[k]) =~= keys.map_values(
                                |k: u64| table[k],
                            ).push(table[id]));
                            assert forall|k: u64|
                                grown.contains(k) <==> seen.push(id).contains(k) && chosen(
                                    table,
                                    only_active,
                                ).contains(k) by {
                                lemma_push_contains(keys, id, k);
                                lemma_push_contains(seen, id, k);
                            }
                            assert(grown.no_duplicates()) by {
                                assert(!keys.contains(id));
                            }
                            keys = grown;
                        }
                    } else {
                        proof {
                            lemma_pushed_other(seen, id, keys, chosen(table, only_active));
                        }
                    }
                },
                None => {},
            }
            i += 1;
        }
        proof {
            assert(ids@.take(ids.len() as int) =~= ids@);
            assert(keys.to_set() =~= chosen(table, only_active));
        }
        nodes
    }

    /// The neighbours that are at work, each once.
    pub fn get_active_neighbours(&self) -> (nodes: Vec<Node>)
        ensures
            lists(self.neighbours@, true, nodes@),
    {
        self.nodes_where(true)
    }

    /// All neighbours, each once, whatever their mode.
    pub fn get_neighbours(&self) -> (nodes: Vec<Node>)
        ensures
            lists(self.neighbours@, false, nodes@),
    {
        self.nodes_where(false)
    }

    /// The addresses of the neighbours that are at work: those of
    /// `get_active_neighbours`, in the same order.
    pub fn get_neighbour_addrs(&self) -> (addrs: Vec<Address>)
        ensures
            exists|nodes: Seq<Node>| #[trigger]
                lists(self.neighbours@, true, nodes) && addrs@ == addresses_of(nodes),
    {
        let nodes = self.get_active_neighbours();
        let addrs = addresses(&nodes);
        addrs
    }

    /// Records `mode` as the mode of the neighbour known as `id`; if there is
    /// no such neighbour nothing changes.
    pub fn set_neighbour_mode(&mut self, id: u64, mode: Mode)
        ensures
            with_neighbours(*final(self), *old(self), retuned(old(self).neighbours@, id, mode)),
    {
        match self.neighbours.remove(&id) {
            Some(node) => {
                self.neighbours.insert(
                    id,
                    Node { id: node.id, mode, name: node.name, external_addr: node.external_addr },
                );
                assert(self.neighbours@ =~= retuned(old(self).neighbours@, id, mode));
            },
            None => {
                assert(self.neighbours@ =~= old(self).neighbours@);
            },
        }
    }

    /// Whether `self` and `other` agree on everything but the neighbours.
    pub open spec fn same_self(self, other: State) -> bool {
        &&& self.id == other.id
        &&& self.mode == other.mode
        &&& self.name == other.name
        &&& self.internal_addr == other.internal_addr
        &&& self.external_addr == other.external_addr
        &&& self.sequence == other.sequence
    }
}

/// The neighbours after the one known as `sender`, if any, has announced
/// `mode`.
pub open spec fn retuned(neighbours: Map<u64, Node>, sender: u64, mode: Mode) -> Map<u64, Node> {
    if neighbours.contains_key(sender) {
        neighbours.insert(
            sender,
            Node {
                id: neighbours[sender].id,
                mode,
                name: neighbours[sender].name,
                external_addr: neighbours[sender].external_addr,
            },
        )
    } else {
        neighbours
    }
}

/// The neighbours after `nodes` were added in turn, each under its
/// identifier: of two nodes with the same identifier the later one stays.
pub open spec fn added(neighbours: Map<u64, Node>, nodes: Seq<Node>) -> Map<u64, Node>
    decreases nodes.len(),
{
    if nodes.len() == 0 {
        neighbours
    } else {
        added(neighbours, nodes.drop_last()).insert(nodes.last().id, nodes.last())
    }
}

/// Whether `state` is `before` with `neighbours` as its neighbours.
pub open spec fn with_neighbours(state: State, before: State, neighbours: Map<u64, Node>) -> bool {
    state.same_self(before) && state.neighbours@ == neighbours
}

/// Whether `node` is what `state` tells its peers of itself.
pub open spec fn describes(node: Node, state: State) -> bool {
    &&& state.external_addr is Some
    &&& node.id == state.id
    &&& node.mode == state.mode
    &&& node.name == state.name
    &&& node.external_addr == state.external_addr->0
}

/// The identifiers of the neighbours in `neighbours` that are listed: all of
/// them, or only those at work.
pub open spec fn chosen(neighbours: Map<u64, Node>, only_active: bool) -> Set<u64> {
    Set::new(
        |k: u64| neighbours.contains_key(k) && (only_active ==> neighbours[k].mode == Mode::Wrk),
    )
}

/// Whether `nodes` holds the listed neighbours, each once, in some order.
pub open spec fn lists(neighbours: Map<u64, Node>, only_active: bool, nodes: Seq<Node>) -> bool {
    exists|keys: Seq<u64>|
        {
            &&& #[trigger] keys.no_duplicates()
            &&& keys.to_set() == chosen(neighbours, only_active)
            &&& nodes == keys.map_values(|k: u64| neighbours[k])
        }
}

/// The addresses of `nodes`, in their order.
pub open spec fn addresses_of(nodes: Seq<Node>) -> Seq<Address> {
    nodes.map_values(|n: Node| n.external_addr)
}

/// The addresses of `nodes`, in their order.
pub fn addresses(nodes: &Vec<Node>) -> (addrs: Vec<Address>)
    ensures
        addrs@ == addresses_of(nodes@),
{
    let mut addrs: Vec<Address> = Vec::new();
    let mut i: usize = 0;
    while i < nodes.len()
        invariant
            i <= nodes.len(),
            addrs@ == addresses_of(nodes@.take(i as int)),
        decreases nodes.len() - i,
    {
        addrs.push(nodes[i].external_addr);
        assert(nodes@.take(i + 1) =~= nodes@.take(i as int).push(nodes@[i as int]));
        assert(addresses_of(nodes@.take(i + 1)) =~= addresses_of(nodes@.take(i as int)).push(
            nodes@[i as int].external_addr,
        ));
        i += 1;
    }
    assert(nodes@.take(nodes.len() as int) =~= nodes@);
    addrs
}

proof fn lemma_pushed_other(seen: Seq<u64>, id: u64, keys: Seq<u64>, wanted: Set<u64>)
    requires
        !wanted.contains(id),
        forall|k: u64| keys.contains(k) <==> seen.contains(k) && wanted.contains(k),
    ensures
        forall|k: u64| keys.contains(k) <==> seen.push(id).contains(k) && wanted.contains(k),
{
    assert forall|k: u64| keys.contains(k) <==> seen.push(id).contains(k) && wanted.contains(
        k,
    ) by {
        lemma_push_contains(seen, id, k);
    }
}

} // verus!
