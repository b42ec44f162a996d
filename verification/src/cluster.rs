//! The node's view of its cluster.
//!
//! The cluster is fixed at startup: the node knows its own identifier and
//! address, the identifier of the leader, and the addresses of its peers.
//! What changes is the liveness map, which says of each address whether
//! the node behind it answered the last heartbeat. The node itself is
//! always alive; a peer is down until a heartbeat says otherwise.

use vstd::prelude::*;
use vstd::hash_map::StringHashMap;
use vstd::std_specs::convert::FromSpecImpl;

verus! {

/// The contents of a list of texts, in order.
pub open spec fn texts_view(texts: Seq<String>) -> Seq<Seq<char>> {
    texts.map_values(|s: String| s@)
}

/// What a node is started with.
#[derive(Debug)]
pub struct CliArgs {
    pub node_id: u64,
    pub address: String,
    pub leader_id: u64,
    pub peer_addresses: Vec<String>,
}

/// The mathematical content of [`CliArgs`].
pub struct CliArgsView {
    pub node_id: u64,
    pub address: Seq<char>,
    pub leader_id: u64,
    pub peer_addresses: Seq<Seq<char>>,
}

impl View for CliArgs {
    type V = CliArgsView;

    open spec fn view(&self) -> CliArgsView {
        CliArgsView {
            node_id: self.node_id,
            address: self.address@,
            leader_id: self.leader_id,
            peer_addresses: texts_view(self.peer_addresses@),
        }
    }
}

/// The node's view of its cluster.
pub struct ClusterState {
    pub node_id: u64,
    pub address: String,
    pub leader_id: u64,
    pub peer_addresses: Vec<String>,
    pub is_alive: StringHashMap<bool>,
}

/// The mathematical content of a [`ClusterState`].
pub struct ClusterView {
    pub node_id: u64,
    pub address: Seq<char>,
    pub leader_id: u64,
    pub peer_addresses: Seq<Seq<char>>,
    pub is_alive: Map<Seq<char>, bool>,
}

impl View for ClusterState {
    type V = ClusterView;

    open spec fn view(&self) -> ClusterView {
        ClusterView {
            node_id: self.node_id,
            address: self.address@,
            leader_id: self.leader_id,
            peer_addresses: texts_view(self.peer_addresses@),
            is_alive: self.is_alive@,
        }
    }
}

/// The liveness map of a node that has just started: it knows its own
/// address and those of its peers, itself alive and every peer down.
pub open spec fn liveness_at_start(address: Seq<char>, peers: Seq<Seq<char>>) -> Map<
    Seq<char>,
    bool,
> {
    Map::new(|a: Seq<char>| a == address || peers.contains(a), |a: Seq<char>| a == address)
}

/// Whether the `i`-th peer answered, going by the list of results of one
/// round of heartbeats. A peer without a result did not answer.
pub open spec fn answered(results: Seq<bool>, i: int) -> bool {
    0 <= i < results.len() && results[i]
}

/// The liveness map after a round of heartbeats: the node itself alive,
/// then each peer as its result says, a later peer in the list overriding
/// an earlier one with the same address.
pub open spec fn liveness_after_heartbeat(
    address: Seq<char>,
    peers: Seq<Seq<char>>,
    results: Seq<bool>,
) -> Map<Seq<char>, bool>
    decreases peers.len(),
{
    if peers.len() == 0 {
        Map::<Seq<char>, bool>::empty().insert(address, true)
    } else {
        liveness_after_heartbeat(address, peers.drop_last(), results).insert(
            peers.last(),
            answered(results, peers.len() - 1),
        )
    }
}

impl ClusterView {
    /// The view of a node that has just been started with `args`.
    pub open spec fn at_start(args: CliArgsView) -> ClusterView {
        ClusterView {
            node_id: args.node_id,
            address: args.address,
            leader_id: args.leader_id,
            peer_addresses: args.peer_addresses,
            is_alive: liveness_at_start(args.address, args.peer_addresses),
        }
    }

    /// Whether the node at `address` is taken to be alive. An address that
    /// the map does not know is not.
    pub open spec fn alive(self, address: Seq<char>) -> bool {
        self.is_alive.contains_key(address) && self.is_alive[address]
    }

    /// Whether this node is the leader.
    pub open spec fn is_leader(self) -> bool {
        self.node_id == self.leader_id
    }
}

impl From<CliArgs> for ClusterState {
    /// The view of a node that has just been started with `args`.
    fn from(args: CliArgs) -> (state: ClusterState)
        ensures
            state@ == ClusterView::at_start(args@),
    {
        let ghost address = args.address@;
        let ghost names = texts_view(args.peer_addresses@);
        let peers = args.peer_addresses;
        let mut is_alive: StringHashMap<bool> = StringHashMap::new();
        let mut i: usize = 0;
        while i < peers.len()
            invariant
                i <= peers.len(),
                names == texts_view(peers@),
                is_alive@ =~= Map::new(
                    |a: Seq<char>| names.take(i as int).contains(a),
                    |a: Seq<char>| false,
                ),
            decreases peers.len() - i,
        {
            proof {
                let seen = names.take(i as int);
                let next = names.take(i + 1);
                assert(next =~= seen.push(peers@[i as int]@));
                assert forall|a: Seq<char>| next.contains(a) <==> (seen.contains(a) || a
                    == peers@[i as int]@) by {
                    if seen.contains(a) {
                        let j = choose|j: int| 0 <= j < seen.len() && seen[j] == a;
                        assert(next[j] == a);
                    }
                    if a == peers@[i as int]@ {
                        assert(next[i as int] == a);
                    }
                }
            }
            is_alive.insert(peers[i].clone(), false);
            i = i + 1;
        }
        let address_text = args.address;
        is_alive.insert(address_text.clone(), true);
        proof {
            assert(names.take(i as int) =~= names);
            assert(is_alive@ =~= liveness_at_start(address, names));
        }
        ClusterState {
            node_id: args.node_id,
            address: address_text,
            leader_id: args.leader_id,
            peer_addresses: peers,
            is_alive,
        }
    }
}

impl FromSpecImpl<CliArgs> for ClusterState {
    open spec fn obeys_from_spec() -> bool {
        false
    }

    open spec fn from_spec(args: CliArgs) -> ClusterState {
        arbitrary()
    }
}

impl ClusterState {
    /// Whether this node is the leader.
    pub fn is_leader(&self) -> (leader: bool)
        ensures
            leader == self@.is_leader(),
    {
        self.node_id == self.leader_id
    }

    /// Whether the peer at `address` is taken to be alive. An address
    /// that the liveness map does not know is not.
    pub fn is_peer_alive(&self, address: &str) -> (alive: bool)
        ensures
            alive == self@.alive(address@),
    {
        match self.is_alive.get(address) {
            Some(up) => *up,
            None => false,
        }
    }

    /// Takes in the results of one round of heartbeats, `results[i]`
    /// saying whether the `i`-th peer answered: the liveness map is made
    /// anew from them, and nothing else changes.
    pub fn record_heartbeat(&mut self, results: &Vec<bool>)
        ensures
            final(self)@ == (ClusterView {
                is_alive: liveness_after_heartbeat(
                    old(self)@.address,
                    old(self)@.peer_addresses,
                    results@,
                ),
                ..old(self)@
            }),
    {
        let ghost address = self.address@;
        let ghost names = texts_view(self.peer_addresses@);
        let mut fresh: StringHashMap<bool> = StringHashMap::new();
        fresh.insert(self.address.clone(), true);
        let mut i: usize = 0;
        proof {
            assert(names.take(0).len() == 0);
        }
        while i < self.peer_addresses.len()
            invariant
                i <= self.peer_addresses.len(),
                names == texts_view(self.peer_addresses@),
                fresh@ == liveness_after_heartbeat(address, names.take(i as int), results@),
            decreases self.peer_addresses.len() - i,
        {
            proof {
                assert(names.take(i + 1).drop_last() =~= names.take(i as int));
                assert(names.take(i + 1).last() == self.peer_addresses@[i as int]@);
            }
            let up = i < results.len() && results[i];
            fresh.insert(self.peer_addresses[i].clone(), up);
            i = i + 1;
        }
        proof {
            assert(names.take(i as int) =~= names);
        }
        self.is_alive = fresh;
    }

    /// The liveness map as a list: this node first, then the peers in
    /// their order, each address with whether it is taken to be alive.
    pub fn liveness(&self) -> (list: Vec<(String, bool)>)
        ensures
            list@.len() == self@.peer_addresses.len() + 1,
            list@[0].0@ == self@.address,
            list@[0].1 == self@.alive(self@.address),
            forall|i: int|
                0 <= i < self@.peer_addresses.len() ==> (#[trigger] list@[i + 1]).0@
                    == self@.peer_addresses[i] && list@[i + 1].1 == self@.alive(
                    self@.peer_addresses[i],
                ),
    {
        let mut list: Vec<(String, bool)> = Vec::new();
        list.push((self.address.clone(), self.is_peer_alive(self.address.as_str())));
        let mut i: usize = 0;
        while i < self.peer_addresses.len()
            invariant
                i <= self.peer_addresses.len(),
                list@.len() == i + 1,
                list@[0].0@ == self@.address,
                list@[0].1 == self@.alive(self@.address),
                forall|j: int|
                    0 <= j < i ==> (#[trigger] list@[j + 1]).0@ == self@.peer_addresses[j]
                        && list@[j + 1].1 == self@.alive(self@.peer_addresses[j]),
            decreases self.peer_addresses.len() - i,
        {
            let peer = &self.peer_addresses[i];
            list.push((peer.clone(), self.is_peer_alive(peer.as_str())));
            i = i + 1;
        }
        list
    }
}

/// After a round of heartbeats the node itself is alive, unless a peer
/// is listed under the node's own address.
pub proof fn lemma_heartbeat_keeps_self_alive(
    address: Seq<char>,
    peers: Seq<Seq<char>>,
    results: Seq<bool>,
)
    requires
        !peers.contains(address),
    ensures
        liveness_after_heartbeat(address, peers, results).contains_key(address),
        liveness_after_heartbeat(address, peers, results)[address],
    decreases peers.len(),
{
    if peers.len() > 0 {
        let front = peers.drop_last();
        assert forall|a: Seq<char>| front.contains(a) implies peers.contains(a) by {
            let j = choose|j: int| 0 <= j < front.len() && front[j] == a;
            assert(peers[j] == a);
        }
        assert(peers[peers.len() - 1] == peers.last());
        lemma_heartbeat_keeps_self_alive(address, front, results);
    }
}

/// After a round of heartbeats a peer is alive exactly when it answered,
/// going by the last place at which its address is listed.
pub proof fn lemma_heartbeat_marks_peer(
    address: Seq<char>,
    peers: Seq<Seq<char>>,
    results: Seq<bool>,
    i: int,
)
    requires
        0 <= i < peers.len(),
        forall|j: int| i < j < peers.len() ==> peers[j] != peers[i],
    ensures
        liveness_after_heartbeat(address, peers, results).contains_key(peers[i]),
        liveness_after_heartbeat(address, peers, results)[peers[i]] == answered(results, i),
    decreases peers.len(),
{
    if i < peers.len() - 1 {
        let front = peers.drop_last();
        assert(front[i] == peers[i]);
        assert forall|j: int| i < j < front.len() implies front[j] != front[i] by {
            assert(front[j] == peers[j]);
        }
        lemma_heartbeat_marks_peer(address, front, results, i);
    }
}

} // verus!
