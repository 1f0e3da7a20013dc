//! The node's connection tables.
//!
//! Peers, links and handshakes in flight are kept in maps keyed by integers.
//! Addresses are named by handles: two equal addresses have the same handle.
//! Sessions and message bytes stay with the caller; the tables record whether
//! they are there.

use std::collections::{HashMap, HashSet};
use vstd::prelude::*;
use vstd::std_specs::iter::IteratorSpec;

verus! {

broadcast use vstd::std_specs::hash::group_hash_axioms;

/// What the tables know of an authenticated peer.
#[derive(Clone, Copy, Debug)]
pub struct PeerRecord {
    /// Link the peer is reached over.
    pub link_id: u64,
    /// Transport of that link.
    pub transport_id: Option<u32>,
    /// Address the last authenticated frame came from.
    pub current_addr: Option<u64>,
    /// Session index we chose.
    pub our_index: Option<u32>,
    /// Session index the peer chose.
    pub their_index: Option<u32>,
    /// Startup epoch the peer announced.
    pub remote_epoch: Option<u64>,
    /// Whether the handshake was ours.
    pub is_outbound: bool,
    /// Whether a session is in place.
    pub has_session: bool,
    /// Whether the peer counts as healthy.
    pub is_healthy: bool,
    /// Indices of a completed rekey that awaits cutover: ours, theirs.
    pub pending_session: Option<(u32, u32)>,
    /// Index of a rekey we started and that is still open.
    pub rekey: Option<u32>,
    /// Whether msg2 bytes are stored for resending.
    pub has_msg2: bool,
}

/// What the tables know of a handshake in flight.
#[derive(Clone, Copy, Debug)]
pub struct ConnectionRecord {
    /// Identity expected (outbound) or learned (inbound).
    pub identity: Option<u128>,
    /// Session index we chose.
    pub our_index: Option<u32>,
    /// Session index the peer chose.
    pub their_index: Option<u32>,
    /// Transport in use.
    pub transport_id: Option<u32>,
    /// Address the peer answered from.
    pub source_addr: Option<u64>,
    /// Startup epoch the peer announced.
    pub remote_epoch: Option<u64>,
    /// Whether the handshake is ours.
    pub is_outbound: bool,
    /// Whether the handshake has produced a session.
    pub has_session: bool,
    /// Whether msg2 bytes are stored for resending.
    pub has_msg2: bool,
    /// Whether completion failed.
    pub failed: bool,
}

/// A link to a remote address.
#[derive(Clone, Copy, Debug)]
pub struct LinkRecord {
    /// Transport of the link.
    pub transport_id: u32,
    /// Remote address.
    pub remote_addr: u64,
    /// Whether the remote side opened the link.
    pub inbound: bool,
}

/// Key of a session index on a transport.
pub open spec fn index_key(transport_id: u32, index: u32) -> u64 {
    (transport_id as int * 0x1_0000_0000 + index as int) as u64
}

/// Key of an address on a transport.
pub open spec fn addr_key(transport_id: u32, addr: u64) -> u128 {
    (transport_id as int * 0x1_0000_0000_0000_0000 + addr as int) as u128
}

/// Two index keys are equal only for the same transport and index.
pub proof fn index_key_is_injective(t1: u32, i1: u32, t2: u32, i2: u32)
    ensures
        index_key(t1, i1) == index_key(t2, i2) ==> t1 == t2 && i1 == i2,
{
}

/// Two address keys are equal only for the same transport and address.
pub proof fn addr_key_is_injective(t1: u32, a1: u64, t2: u32, a2: u64)
    ensures
        addr_key(t1, a1) == addr_key(t2, a2) ==> t1 == t2 && a1 == a2,
{
}

/// Computes the key of a session index.
pub fn make_index_key(transport_id: u32, index: u32) -> (key: u64)
    ensures
        key == index_key(transport_id, index),
{
    (transport_id as u64) * 0x1_0000_0000 + (index as u64)
}

/// Computes the key of an address.
pub fn make_addr_key(transport_id: u32, addr: u64) -> (key: u128)
    ensures
        key == addr_key(transport_id, addr),
{
    (transport_id as u128) * 0x1_0000_0000_0000_0000 + (addr as u128)
}

/// The tables as mathematical maps.
pub ghost struct TablesModel {
    pub peers: Map<u128, PeerRecord>,
    pub connections: Map<u64, ConnectionRecord>,
    pub links: Map<u64, LinkRecord>,
    pub addr_to_link: Map<u128, u64>,
    pub pending_outbound: Map<u64, u64>,
    pub peers_by_index: Map<u64, u128>,
    pub sessions: Set<u128>,
    pub retry_pending: Set<u128>,
    pub restart_dampener: Map<u128, u128>,
    pub indices: Set<u32>,
    pub accepting: Map<u32, bool>,
    pub max_peers: nat,
}

/// The connection tables.
pub struct NodeTables {
    /// Authenticated peers by node address.
    pub peers: HashMap<u128, PeerRecord>,
    /// Handshakes in flight by link.
    pub connections: HashMap<u64, ConnectionRecord>,
    /// Links by identifier.
    pub links: HashMap<u64, LinkRecord>,
    /// Link by transport and address.
    pub addr_to_link: HashMap<u128, u64>,
    /// Link of our open handshakes by transport and our index.
    pub pending_outbound: HashMap<u64, u64>,
    /// Peer by transport and our index.
    pub peers_by_index: HashMap<u64, u128>,
    /// Peers with an end-to-end session.
    pub sessions: HashSet<u128>,
    /// Peers that a reconnect is scheduled for.
    pub retry_pending: HashSet<u128>,
    /// When each peer's last epoch change was accepted, in nanoseconds.
    pub restart_dampener: HashMap<u128, u128>,
    /// Session indices in use.
    pub indices: HashSet<u32>,
    /// Registered transports, and whether each accepts fresh handshakes.
    pub accepting: HashMap<u32, bool>,
    /// Most peers admitted at once; zero means no limit.
    pub max_peers: usize,
}

impl View for NodeTables {
    type V = TablesModel;

    open spec fn view(&self) -> TablesModel {
        TablesModel {
            peers: self.peers@,
            connections: self.connections@,
            links: self.links@,
            addr_to_link: self.addr_to_link@,
            pending_outbound: self.pending_outbound@,
            peers_by_index: self.peers_by_index@,
            sessions: self.sessions@,
            retry_pending: self.retry_pending@,
            restart_dampener: self.restart_dampener@,
            indices: self.indices@,
            accepting: self.accepting@,
            max_peers: self.max_peers as nat,
        }
    }
}

impl TablesModel {
    /// Tables without any entry.
    pub open spec fn empty(max_peers: nat) -> TablesModel {
        TablesModel {
            peers: Map::empty(),
            connections: Map::empty(),
            links: Map::empty(),
            addr_to_link: Map::empty(),
            pending_outbound: Map::empty(),
            peers_by_index: Map::empty(),
            sessions: Set::empty(),
            retry_pending: Set::empty(),
            restart_dampener: Map::empty(),
            indices: Set::empty(),
            accepting: Map::empty(),
            max_peers,
        }
    }

    /// Whether some peer is reached over `link_id`.
    pub open spec fn link_has_peer(self, link_id: u64) -> bool {
        exists|a: u128| #[trigger] self.peers.contains_key(a) && self.peers[a].link_id == link_id
    }

    /// Whether `a` is a peer last seen at this transport and address.
    pub open spec fn peer_is_at(self, a: u128, transport_id: u32, addr: u64) -> bool {
        &&& self.peers.contains_key(a)
        &&& self.peers[a].transport_id == Some(transport_id)
        &&& self.peers[a].current_addr == Some(addr)
    }

    /// Whether a handshake in flight names `identity`.
    pub open spec fn connecting_to(self, identity: u128) -> bool {
        exists|l: u64| #[trigger]
            self.connections.contains_key(l) && self.connections[l].identity == Some(identity)
    }

    /// Whether `a` is a peer whose open rekey uses `index`.
    pub open spec fn rekeys_with(self, a: u128, index: u32) -> bool {
        self.peers.contains_key(a) && self.peers[a].rekey == Some(index)
    }

    /// Whether a net-new peer would exceed the limit.
    pub open spec fn is_full(self) -> bool {
        self.max_peers > 0 && self.peers.len() >= self.max_peers
    }

    /// The tables without `link_id` and without the entry of that link's own
    /// remote address.
    pub open spec fn without_link(self, link_id: u64) -> TablesModel {
        if self.links.contains_key(link_id) {
            let link = self.links[link_id];
            TablesModel {
                links: self.links.remove(link_id),
                addr_to_link: self.addr_to_link.remove(
                    addr_key(link.transport_id, link.remote_addr),
                ),
                ..self
            }
        } else {
            self
        }
    }
}

impl NodeTables {
    /// Empty tables that admit at most `max_peers` peers (zero: no limit).
    pub fn new(max_peers: usize) -> (t: NodeTables)
        ensures
            t@ == TablesModel::empty(max_peers as nat),
    {
        NodeTables {
            peers: HashMap::new(),
            connections: HashMap::new(),
            links: HashMap::new(),
            addr_to_link: HashMap::new(),
            pending_outbound: HashMap::new(),
            peers_by_index: HashMap::new(),
            sessions: HashSet::new(),
            retry_pending: HashSet::new(),
            restart_dampener: HashMap::new(),
            indices: HashSet::new(),
            accepting: HashMap::new(),
            max_peers,
        }
    }

    /// A peer reached over `link_id`, if there is one.
    pub fn peer_on_link(&self, link_id: u64) -> (r: Option<u128>)
        ensures
            match r {
                Some(a) => self@.peers.contains_key(a) && self@.peers[a].link_id == link_id,
                None => !self@.link_has_peer(link_id),
            },
    {
        for key in it: self.peers.keys()
            invariant
                it.seq() == self.peers.keys().remaining(),
                forall|j: int|
                    0 <= j < it.index() ==> self.peers@[*#[trigger] it.seq()[j]].link_id != link_id,
        {
            if let Some(peer) = self.peers.get(key) {
                if peer.link_id == link_id {
                    return Some(*key);
                }
            }
        }
        None
    }

    /// A peer last seen at this transport and address, if there is one.
    pub fn peer_at_addr(&self, transport_id: u32, addr: u64) -> (r: Option<u128>)
        ensures
            match r {
                Some(a) => self@.peer_is_at(a, transport_id, addr),
                None => forall|a: u128| !self@.peer_is_at(a, transport_id, addr),
            },
    {
        for key in it: self.peers.keys()
            invariant
                it.seq() == self.peers.keys().remaining(),
                forall|j: int|
                    0 <= j < it.index() ==> !self@.peer_is_at(
                        *#[trigger] it.seq()[j],
                        transport_id,
                        addr,
                    ),
        {
            if let Some(peer) = self.peers.get(key) {
                if peer.transport_id == Some(transport_id) && peer.current_addr == Some(addr) {
                    return Some(*key);
                }
            }
        }
        None
    }

    /// Whether a handshake in flight names `identity`.
    pub fn is_connecting_to(&self, identity: u128) -> (r: bool)
        ensures
            r == self@.connecting_to(identity),
    {
        for key in it: self.connections.keys()
            invariant
                it.seq() == self.connections.keys().remaining(),
                forall|j: int|
                    0 <= j < it.index() ==> self.connections@[*#[trigger] it.seq()[j]].identity
                        != Some(identity),
        {
            if let Some(conn) = self.connections.get(key) {
                if conn.identity == Some(identity) {
                    return true;
                }
            }
        }
        false
    }

    /// A peer whose open rekey uses `index`, if there is one.
    pub fn peer_with_rekey(&self, index: u32) -> (r: Option<u128>)
        ensures
            match r {
                Some(a) => self@.rekeys_with(a, index),
                None => forall|a: u128| !self@.rekeys_with(a, index),
            },
    {
        for key in it: self.peers.keys()
            invariant
                it.seq() == self.peers.keys().remaining(),
                forall|j: int|
                    0 <= j < it.index() ==> !self@.rekeys_with(*#[trigger] it.seq()[j], index),
        {
            if let Some(peer) = self.peers.get(key) {
                if peer.rekey == Some(index) {
                    return Some(*key);
                }
            }
        }
        None
    }

    /// Removes a link, and the entry of its own remote address with it. An
    /// entry made for the same link under another address stays.
    pub fn remove_link(&mut self, link_id: u64)
        ensures
            final(self)@ == old(self)@.without_link(link_id),
    {
        match self.links.remove(&link_id) {
            Some(link) => {
                self.addr_to_link.remove(&make_addr_key(link.transport_id, link.remote_addr));
            },
            None => {
                assert(self.links@ =~= old(self).links@);
            },
        }
    }
}

} // verus!
