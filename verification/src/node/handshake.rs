//! Handshake admission, restart and rekey detection, and promotion.
//!
//! The Noise exchange itself, the transports and the access control list are
//! the caller's. Each function here takes what those returned as plain values,
//! decides, and updates the tables.

use crate::identity::NodeAddr;
use crate::node::tables::{
    addr_key, index_key, make_addr_key, make_index_key, ConnectionRecord, LinkRecord, NodeTables,
    PeerRecord, TablesModel,
};
use crate::recency::{recent, retain_recent};
use vstd::prelude::*;

verus! {

broadcast use vstd::std_specs::hash::group_hash_axioms;

/// Minimum interval between accepted epoch changes for one peer identity, and
/// the idle time below which the peering an epoch change would destroy still
/// counts as live.
pub const EPOCH_RESTART_MIN_INTERVAL_SECS: u64 = 15;

/// The same interval in milliseconds.
pub const EPOCH_RESTART_MIN_INTERVAL_MS: u64 = 15_000;

/// The same interval in nanoseconds.
pub const EPOCH_RESTART_MIN_INTERVAL_NS: u128 = 15_000_000_000;

/// Age a session must have before a same-epoch msg1 counts as a rekey.
pub const REKEY_MIN_SESSION_AGE_SECS: u64 = 30;

/// Which budget an inbound msg1 draws on.
#[derive(Clone, Copy, Debug, PartialEq, Eq, Structural)]
pub enum Msg1Class {
    /// Maintenance traffic of an established link.
    EstablishedLink,
    /// A fresh handshake.
    Stranger,
}

/// Why a handshake message was dropped.
#[derive(Clone, Copy, Debug, PartialEq, Eq, Structural)]
pub enum HandshakeReject {
    /// The message does not fit the state of the node.
    BadState,
    /// No handshake is known that the message could belong to.
    UnknownConnection,
}

/// Why an inbound msg1 was admitted, and against what identity it must be
/// confirmed once it has been opened.
#[derive(Clone, Copy, Debug, PartialEq, Eq, Structural)]
pub enum Msg1Waiver {
    /// The transport takes strangers, or none is registered: nothing to confirm.
    NotNeeded,
    /// The source address admitted the message, and it belongs to this identity.
    Expect(NodeAddr),
    /// The source address admitted the message, and it belongs to nobody known.
    Unattributed,
}

/// Where the msg2 to resend is stored.
#[derive(Clone, Copy, Debug, PartialEq, Eq, Structural)]
pub enum Msg2Source {
    /// With the handshake in flight.
    Connection,
    /// With this peer.
    Peer(NodeAddr),
}

/// What to do with an inbound msg1 before it is opened.
#[derive(Clone, Copy, Debug, PartialEq, Eq, Structural)]
pub enum Msg1Start {
    /// Drop it and count the reason.
    Refused(HandshakeReject),
    /// Answer with the msg2 stored for this link.
    Resend(u64, Msg2Source),
    /// Open it.
    Proceed {
        /// What must be confirmed afterwards.
        waiver: Msg1Waiver,
        /// Whether the address belongs to the link of an active peer.
        possible_restart: bool,
    },
}

/// What to do with an inbound msg1 that was opened.
#[derive(Clone, Copy, Debug, PartialEq, Eq, Structural)]
pub enum Msg1Verdict {
    /// Drop it and count the reason.
    Refused(HandshakeReject),
    /// The peer restarted: drop the stale peering, then go on as for `Accept`.
    Restart,
    /// Answer as responder of a rekey, giving up our own if one is open.
    Rekey {
        /// Whether our own rekey has to be abandoned first.
        abandon_ours: bool,
    },
    /// A duplicate: resend the msg2 stored with the peer, if there is one.
    Duplicate {
        /// Whether a msg2 is stored.
        resend: bool,
    },
    /// A new connection.
    Accept,
}

/// Whether both epochs are known and differ.
pub open spec fn epoch_changed(known: Option<u64>, announced: Option<u64>) -> bool {
    known is Some && announced is Some && known != announced
}

/// Whether a connection of this direction survives a cross-connection: the
/// handshake that the smaller address initiated does.
pub open spec fn wins_cross_connection(ours: NodeAddr, peer: NodeAddr, is_outbound: bool) -> bool {
    is_outbound == (ours.value < peer.value)
}

/// The two ends of a cross-connection keep the same handshake: what is outbound
/// at one end is inbound at the other.
pub proof fn cross_connection_ends_agree(a: NodeAddr, b: NodeAddr, a_initiated: bool)
    requires
        a != b,
    ensures
        wins_cross_connection(a, b, a_initiated) == wins_cross_connection(b, a, !a_initiated),
{
}

/// Of the two handshakes of a cross-connection exactly one survives at each end.
pub proof fn cross_connection_keeps_one(ours: NodeAddr, peer: NodeAddr)
    ensures
        wins_cross_connection(ours, peer, true) != wins_cross_connection(ours, peer, false),
{
}

impl TablesModel {
    /// Whether the transport takes fresh handshakes; one that is not registered
    /// does.
    pub open spec fn takes_strangers(self, transport_id: u32) -> bool {
        !self.accepting.contains_key(transport_id) || self.accepting[transport_id]
    }

    /// Whether the source belongs to an established link.
    pub open spec fn is_established(self, transport_id: u32, addr: u64) -> bool {
        ||| self.addr_to_link.contains_key(addr_key(transport_id, addr))
        ||| exists|a: u128| self.peer_is_at(a, transport_id, addr)
    }

    /// Whether the link filed under the address names `who`: the peer on that
    /// link, or with no peer there the identity of its handshake.
    pub open spec fn link_names(self, transport_id: u32, addr: u64, who: u128) -> bool {
        let key = addr_key(transport_id, addr);
        let link = self.addr_to_link[key];
        &&& self.addr_to_link.contains_key(key)
        &&& {
            ||| self.peers.contains_key(who) && self.peers[who].link_id == link
            ||| !self.link_has_peer(link) && self.connections.contains_key(link)
                && self.connections[link].identity == Some(who)
        }
    }

    /// Whether the address is attributed to `who`: through its link, or, where
    /// that names nobody, because a peer was last seen there.
    pub open spec fn is_attributed(self, transport_id: u32, addr: u64, who: u128) -> bool {
        ||| self.link_names(transport_id, addr, who)
        ||| (forall|x: u128| !self.link_names(transport_id, addr, x)) && self.peer_is_at(
            who,
            transport_id,
            addr,
        )
    }

    /// Whether `waiver` is what an admitted msg1 from this source needs.
    pub open spec fn is_waiver(
        self,
        established: bool,
        transport_id: u32,
        addr: u64,
        waiver: Msg1Waiver,
    ) -> bool {
        match waiver {
            Msg1Waiver::NotNeeded => self.takes_strangers(transport_id),
            Msg1Waiver::Expect(who) => {
                &&& !self.takes_strangers(transport_id)
                &&& established
                &&& self.is_attributed(transport_id, addr, who.value)
            },
            Msg1Waiver::Unattributed => {
                &&& !self.takes_strangers(transport_id)
                &&& established ==> forall|x: u128|
                    !self.is_attributed(transport_id, addr, x)
            },
        }
    }

    /// Whether a msg2 for the link is stored at `source`; what a handshake in
    /// flight holds goes before what a peer holds.
    pub open spec fn stores_msg2(self, link_id: u64, source: Msg2Source) -> bool {
        let in_flight = self.connections.contains_key(link_id)
            && self.connections[link_id].has_msg2;
        match source {
            Msg2Source::Connection => in_flight,
            Msg2Source::Peer(a) => !in_flight && self.peers.contains_key(a.value)
                && self.peers[a.value].link_id == link_id && self.peers[a.value].has_msg2,
        }
    }

    /// Whether the address is filed under a link that exists.
    pub open spec fn knows_link(self, transport_id: u32, addr: u64) -> bool {
        let key = addr_key(transport_id, addr);
        self.addr_to_link.contains_key(key) && self.links.contains_key(self.addr_to_link[key])
    }

    /// Whether `r` is what an arriving msg1 calls for.
    pub open spec fn msg1_starts(
        self,
        transport_id: u32,
        addr: u64,
        header_ok: bool,
        r: Msg1Start,
    ) -> bool {
        let established = self.is_established(transport_id, addr);
        let link = self.addr_to_link[addr_key(transport_id, addr)];
        let on_peer_link = self.knows_link(transport_id, addr) && self.link_has_peer(link);
        if !established && !self.takes_strangers(transport_id) || !header_ok {
            r == Msg1Start::Refused(HandshakeReject::BadState)
        } else if self.knows_link(transport_id, addr) && self.links[link].inbound
            && !on_peer_link {
            match r {
                Msg1Start::Resend(l, source) => l == link && self.stores_msg2(link, source),
                _ => r == Msg1Start::Refused(HandshakeReject::UnknownConnection) && forall|
                    source: Msg2Source,
                | !self.stores_msg2(link, source),
            }
        } else {
            match r {
                Msg1Start::Proceed { waiver, possible_restart } => {
                    &&& self.is_waiver(established, transport_id, addr, waiver)
                    &&& possible_restart == on_peer_link
                },
                _ => false,
            }
        }
    }

    /// Whether an accepted epoch change of `peer` is too recent for another.
    pub open spec fn is_dampened(self, peer: NodeAddr, now_ns: u128) -> bool {
        &&& self.restart_dampener.contains_key(peer.value)
        &&& now_ns < self.restart_dampener[peer.value] + EPOCH_RESTART_MIN_INTERVAL_NS
    }

    /// Whether an opened msg1 is a rekey of a peer that we are rekeying too.
    pub open spec fn awaits_rekey(self, opened: OpenedMsg1) -> bool {
        let p = self.peers[opened.peer.value];
        &&& waiver_confirms(opened.waiver, opened.peer)
        &&& self.peers.contains_key(opened.peer.value)
        &&& !epoch_changed(p.remote_epoch, opened.epoch)
        &&& opened.rekey_enabled && p.has_session && p.is_healthy
        &&& opened.session_age_secs >= REKEY_MIN_SESSION_AGE_SECS
        &&& p.pending_session is None
        &&& p.rekey is Some
    }

    /// What an opened msg1 calls for.
    pub open spec fn msg1_verdict(self, our_addr: NodeAddr, opened: OpenedMsg1) -> Msg1Verdict {
        let refused = Msg1Verdict::Refused(HandshakeReject::BadState);
        let known = self.peers.contains_key(opened.peer.value);
        let p = self.peers[opened.peer.value];
        if !waiver_confirms(opened.waiver, opened.peer) {
            refused
        } else if self.is_full() && !known && !self.connecting_to(opened.peer.value) {
            refused
        } else if !known {
            Msg1Verdict::Accept
        } else if epoch_changed(p.remote_epoch, opened.epoch) {
            if opened.peering_idle_ms < EPOCH_RESTART_MIN_INTERVAL_MS || self.is_dampened(
                opened.peer,
                opened.now_ns,
            ) {
                refused
            } else {
                Msg1Verdict::Restart
            }
        } else if opened.rekey_enabled && p.has_session && p.is_healthy
            && opened.session_age_secs >= REKEY_MIN_SESSION_AGE_SECS {
            if p.pending_session is Some || p.rekey is Some && our_addr.value
                < opened.peer.value {
                refused
            } else {
                Msg1Verdict::Rekey { abandon_ours: p.rekey is Some }
            }
        } else {
            Msg1Verdict::Duplicate { resend: p.has_msg2 }
        }
    }
}

/// Whether the identity revealed by msg1 meets the waiver.
pub open spec fn waiver_confirms(waiver: Msg1Waiver, peer: NodeAddr) -> bool {
    match waiver {
        Msg1Waiver::NotNeeded => true,
        Msg1Waiver::Expect(who) => who == peer,
        Msg1Waiver::Unattributed => false,
    }
}

/// What is known of a msg1 once it has been opened.
#[derive(Clone, Copy, Debug)]
pub struct OpenedMsg1 {
    /// Waiver found before it was opened.
    pub waiver: Msg1Waiver,
    /// Whether its address belongs to the link of an active peer.
    pub possible_restart: bool,
    /// Identity it revealed.
    pub peer: NodeAddr,
    /// Startup epoch it carried.
    pub epoch: Option<u64>,
    /// Time since the existing peering last carried authenticated traffic.
    pub peering_idle_ms: u64,
    /// Age of the existing session.
    pub session_age_secs: u64,
    /// Whether rekeying is enabled.
    pub rekey_enabled: bool,
    /// Clock reading.
    pub now_ns: u128,
}

/// Whether a connection of this direction survives a cross-connection.
pub fn cross_connection_winner(ours: &NodeAddr, peer: &NodeAddr, is_outbound: bool) -> (r: bool)
    ensures
        r == wins_cross_connection(*ours, *peer, is_outbound),
{
    is_outbound == (ours.value < peer.value)
}

impl NodeTables {
    /// Whether the transport takes fresh handshakes.
    fn accepts(&self, transport_id: u32) -> (r: bool)
        ensures
            r == self@.takes_strangers(transport_id),
    {
        match self.accepting.get(&transport_id) {
            Some(accepting) => *accepting,
            None => true,
        }
    }

    /// Whether an inbound msg1 comes from an established link: its address is
    /// filed under a link, or a peer was last seen there.
    pub fn is_established_link_msg1(&self, transport_id: u32, remote_addr: u64) -> (r: bool)
        ensures
            r == self@.is_established(transport_id, remote_addr),
    {
        self.addr_to_link.contains_key(&make_addr_key(transport_id, remote_addr))
            || self.peer_at_addr(transport_id, remote_addr).is_some()
    }

    /// Which budget an inbound msg1 draws on.
    pub fn msg1_class(&self, transport_id: u32, remote_addr: u64) -> (r: Msg1Class)
        ensures
            r == if self@.is_established(transport_id, remote_addr) {
                Msg1Class::EstablishedLink
            } else {
                Msg1Class::Stranger
            },
    {
        if self.is_established_link_msg1(transport_id, remote_addr) {
            Msg1Class::EstablishedLink
        } else {
            Msg1Class::Stranger
        }
    }

    /// What must be confirmed of a msg1 that was admitted from this source.
    pub fn msg1_waiver(&self, established: bool, transport_id: u32, remote_addr: u64) -> (r:
        Msg1Waiver)
        ensures
            self@.is_waiver(established, transport_id, remote_addr, r),
    {
        if self.accepts(transport_id) {
            return Msg1Waiver::NotNeeded;
        }
        if !established {
            return Msg1Waiver::Unattributed;
        }
        if let Some(link_id) = self.addr_to_link.get(&make_addr_key(transport_id, remote_addr)) {
            if let Some(peer) = self.peer_on_link(*link_id) {
                return Msg1Waiver::Expect(NodeAddr { value: peer });
            }
            if let Some(conn) = self.connections.get(link_id) {
                if let Some(identity) = conn.identity {
                    return Msg1Waiver::Expect(NodeAddr { value: identity });
                }
            }
        }
        match self.peer_at_addr(transport_id, remote_addr) {
            Some(peer) => Msg1Waiver::Expect(NodeAddr { value: peer }),
            None => Msg1Waiver::Unattributed,
        }
    }

    /// Whether an inbound msg1 is admitted.
    pub fn should_admit_msg1(&self, transport_id: u32, remote_addr: u64) -> (r: bool)
        ensures
            r == (self@.is_established(transport_id, remote_addr) || self@.takes_strangers(transport_id)),
    {
        self.is_established_link_msg1(transport_id, remote_addr) || self.accepts(transport_id)
    }

    /// Where the msg2 for a link is stored.
    pub fn find_stored_msg2(&self, link_id: u64) -> (r: Option<Msg2Source>)
        ensures
            match r {
                Some(source) => self@.stores_msg2(link_id, source),
                None => forall|source: Msg2Source| !self@.stores_msg2(link_id, source),
            },
    {
        if let Some(conn) = self.connections.get(&link_id) {
            if conn.has_msg2 {
                return Some(Msg2Source::Connection);
            }
        }
        for key in it: self.peers.keys()
            invariant
                it.seq() == vstd::std_specs::iter::IteratorSpec::remaining(&self.peers.keys()),
                !(self@.connections.contains_key(link_id)
                    && self@.connections[link_id].has_msg2),
                forall|j: int|
                    0 <= j < it.index() ==> !self@.stores_msg2(
                        link_id,
                        Msg2Source::Peer(NodeAddr { value: *#[trigger] it.seq()[j] }),
                    ),
        {
            if let Some(peer) = self.peers.get(key) {
                if peer.link_id == link_id && peer.has_msg2 {
                    return Some(Msg2Source::Peer(NodeAddr { value: *key }));
                }
            }
        }
        None
    }

    /// Decides about an inbound msg1 that is within its budget, before any
    /// cryptography: refuse it, answer a duplicate, or open it.
    pub fn handle_msg1(&self, transport_id: u32, remote_addr: u64, header_ok: bool) -> (r: Msg1Start)
        ensures
            self@.msg1_starts(transport_id, remote_addr, header_ok, r),
    {
        let established = self.is_established_link_msg1(transport_id, remote_addr);
        if !established && !self.should_admit_msg1(transport_id, remote_addr) {
            return Msg1Start::Refused(HandshakeReject::BadState);
        }
        let waiver = self.msg1_waiver(established, transport_id, remote_addr);
        if !header_ok {
            return Msg1Start::Refused(HandshakeReject::BadState);
        }
        let mut possible_restart = false;
        if let Some(link_id) = self.addr_to_link.get(&make_addr_key(transport_id, remote_addr)) {
            if let Some(link) = self.links.get(link_id) {
                let is_active_peer = self.peer_on_link(*link_id).is_some();
                if is_active_peer {
                    possible_restart = true;
                } else if link.inbound {
                    return match self.find_stored_msg2(*link_id) {
                        Some(source) => Msg1Start::Resend(*link_id, source),
                        None => Msg1Start::Refused(HandshakeReject::UnknownConnection),
                    };
                }
            }
        }
        Msg1Start::Proceed { waiver, possible_restart }
    }

    /// Decides about an inbound msg1 that was opened: confirms the waiver,
    /// applies the peer limit, and tells a restart, a rekey and a duplicate
    /// from a new connection. The tables do not change.
    pub fn judge_msg1(&self, our_addr: &NodeAddr, opened: &OpenedMsg1) -> (r: Msg1Verdict)
        ensures
            r == self@.msg1_verdict(*our_addr, *opened),
    {
        let refused = Msg1Verdict::Refused(HandshakeReject::BadState);
        match opened.waiver {
            Msg1Waiver::NotNeeded => {},
            Msg1Waiver::Expect(expected) => {
                if expected != opened.peer {
                    return refused;
                }
            },
            Msg1Waiver::Unattributed => {
                return refused;
            },
        }
        let known = self.peers.contains_key(&opened.peer.value);
        let possible_restart = opened.possible_restart || known;
        if self.max_peers > 0 && self.peers.len() >= self.max_peers {
            if !known && !self.is_connecting_to(opened.peer.value) {
                return refused;
            }
        }
        if possible_restart {
            if let Some(existing) = self.peers.get(&opened.peer.value) {
                let changed = match (existing.remote_epoch, opened.epoch) {
                    (Some(old_epoch), Some(new_epoch)) => old_epoch != new_epoch,
                    _ => false,
                };
                if changed {
                    let dampened = match self.restart_dampener.get(&opened.peer.value) {
                        Some(at) => opened.now_ns < *at || opened.now_ns - *at
                            < EPOCH_RESTART_MIN_INTERVAL_NS,
                        None => false,
                    };
                    if opened.peering_idle_ms < EPOCH_RESTART_MIN_INTERVAL_MS || dampened {
                        return refused;
                    }
                    return Msg1Verdict::Restart;
                }
                if opened.rekey_enabled && existing.has_session && existing.is_healthy
                    && opened.session_age_secs >= REKEY_MIN_SESSION_AGE_SECS {
                    if existing.pending_session.is_some() {
                        return refused;
                    }
                    if existing.rekey.is_some() && our_addr.value < opened.peer.value {
                        return refused;
                    }
                    return Msg1Verdict::Rekey { abandon_ours: existing.rekey.is_some() };
                }
                return Msg1Verdict::Duplicate { resend: existing.has_msg2 };
            }
        }
        Msg1Verdict::Accept
    }
}

/// Field that a connection lacks for promotion.
#[derive(Clone, Copy, Debug, PartialEq, Eq, Structural)]
pub enum MissingField {
    /// Our session index.
    OurIndex,
    /// The peer's session index.
    TheirIndex,
    /// The transport.
    TransportId,
    /// The address the peer answered from.
    SourceAddr,
}

impl MissingField {
    /// The field named in a message.
    pub open spec fn spec_reason(self) -> Seq<char> {
        match self {
            MissingField::OurIndex => "missing our_index"@,
            MissingField::TheirIndex => "missing their_index"@,
            MissingField::TransportId => "missing transport_id"@,
            MissingField::SourceAddr => "missing source_addr"@,
        }
    }

    /// The field named in a message.
    pub fn reason(&self) -> (r: &'static str)
        ensures
            r@ == self.spec_reason(),
    {
        match self {
            MissingField::OurIndex => "missing our_index",
            MissingField::TheirIndex => "missing their_index",
            MissingField::TransportId => "missing transport_id",
            MissingField::SourceAddr => "missing source_addr",
        }
    }
}

/// Why a connection was not promoted.
#[derive(Clone, Copy, Debug, PartialEq, Eq, Structural)]
pub enum NodeError {
    /// No handshake is in flight on the link.
    ConnectionNotFound(u64),
    /// The handshake has not produced a session.
    HandshakeIncomplete(u64),
    /// The handshake lacks something a peer needs.
    PromotionFailed {
        /// Link of the handshake.
        link_id: u64,
        /// What it lacks.
        reason: MissingField,
    },
    /// The peer limit is reached.
    MaxPeersExceeded {
        /// The limit.
        max: usize,
    },
}

/// How a promotion ended.
#[derive(Clone, Copy, Debug, PartialEq, Eq, Structural)]
pub enum PromotionResult {
    /// The peer is new.
    Promoted(NodeAddr),
    /// The connection replaced the peer's existing one.
    CrossConnectionWon {
        /// Link of the connection that was replaced.
        loser_link_id: u64,
        /// The peer.
        node_addr: NodeAddr,
    },
    /// The peer's existing connection stays.
    CrossConnectionLost {
        /// Link of the connection that stays.
        winner_link_id: u64,
    },
}

/// The first field that a promotion misses.
pub open spec fn missing_field(c: ConnectionRecord) -> Option<MissingField> {
    if c.our_index is None {
        Some(MissingField::OurIndex)
    } else if c.their_index is None {
        Some(MissingField::TheirIndex)
    } else if c.transport_id is None {
        Some(MissingField::TransportId)
    } else if c.source_addr is None {
        Some(MissingField::SourceAddr)
    } else {
        None
    }
}

/// The peer that a complete connection becomes.
pub open spec fn promoted_peer(link_id: u64, c: ConnectionRecord) -> PeerRecord {
    PeerRecord {
        link_id,
        transport_id: c.transport_id,
        current_addr: c.source_addr,
        our_index: c.our_index,
        their_index: c.their_index,
        remote_epoch: c.remote_epoch,
        is_outbound: c.is_outbound,
        has_session: true,
        is_healthy: true,
        pending_session: None,
        rekey: None,
        has_msg2: false,
    }
}

impl TablesModel {
    /// The tables with `index` released on every table that files it under
    /// this transport.
    pub open spec fn without_index(self, transport_id: u32, index: u32) -> TablesModel {
        TablesModel {
            peers_by_index: self.peers_by_index.remove(index_key(transport_id, index)),
            indices: self.indices.remove(index),
            ..self
        }
    }

    /// The tables with a peer filed under its address and its index.
    pub open spec fn with_peer(self, peer: NodeAddr, record: PeerRecord) -> TablesModel {
        TablesModel {
            peers: self.peers.insert(peer.value, record),
            peers_by_index: self.peers_by_index.insert(
                index_key(record.transport_id->0, record.our_index->0),
                peer.value,
            ),
            retry_pending: self.retry_pending.remove(peer.value),
            ..self
        }
    }

    /// The tables without the index that `old` was filed under.
    pub open spec fn without_peer_index(self, old: PeerRecord) -> TablesModel {
        match (old.transport_id, old.our_index) {
            (Some(t), Some(i)) => self.without_index(t, i),
            _ => self,
        }
    }

    /// The tables without a session for `peer`, where `stale` holds.
    pub open spec fn without_stale_session(self, peer: NodeAddr, stale: bool) -> TablesModel {
        if stale {
            TablesModel { sessions: self.sessions.remove(peer.value), ..self }
        } else {
            self
        }
    }

    /// What promoting the connection on `link_id` leads to.
    pub open spec fn promote(self, our_addr: NodeAddr, link_id: u64, peer: NodeAddr) -> (
        TablesModel,
        Result<PromotionResult, NodeError>,
    ) {
        let c = self.connections[link_id];
        let taken = TablesModel { connections: self.connections.remove(link_id), ..self };
        let released = TablesModel { indices: self.indices.remove(c.our_index->0), ..taken };
        let old = self.peers[peer.value];
        let restarted = epoch_changed(old.remote_epoch, c.remote_epoch);
        if !self.connections.contains_key(link_id) {
            (self, Err(NodeError::ConnectionNotFound(link_id)))
        } else if !c.has_session {
            (taken, Err(NodeError::HandshakeIncomplete(link_id)))
        } else if missing_field(c) is Some {
            (taken, Err(NodeError::PromotionFailed { link_id, reason: missing_field(c)->0 }))
        } else if self.peers.contains_key(peer.value) {
            if restarted || wins_cross_connection(our_addr, peer, c.is_outbound) {
                (
                    taken.without_peer_index(old).without_stale_session(peer, restarted).with_peer(
                        peer,
                        promoted_peer(link_id, c),
                    ),
                    Ok(
                        PromotionResult::CrossConnectionWon {
                            loser_link_id: old.link_id,
                            node_addr: peer,
                        },
                    ),
                )
            } else {
                (
                    released,
                    Ok(PromotionResult::CrossConnectionLost { winner_link_id: old.link_id }),
                )
            }
        } else if self.is_full() {
            (released, Err(NodeError::MaxPeersExceeded { max: self.max_peers as usize }))
        } else {
            (
                taken.with_peer(peer, promoted_peer(link_id, c)),
                Ok(PromotionResult::Promoted(peer)),
            )
        }
    }
}

impl NodeTables {
    /// Promotes the connection on `link_id` to the peer it authenticated as.
    ///
    /// Where that peer is already active, an announced restart lets this
    /// connection win, and otherwise the address order decides.
    pub fn promote_connection(&mut self, our_addr: &NodeAddr, link_id: u64, peer: NodeAddr) -> (r:
        Result<PromotionResult, NodeError>)
        ensures
            (final(self)@, r) == old(self)@.promote(*our_addr, link_id, peer),
    {
        let connection = match self.connections.remove(&link_id) {
            Some(c) => c,
            None => {
                assert(self.connections@ =~= old(self).connections@);
                return Err(NodeError::ConnectionNotFound(link_id));
            },
        };
        if !connection.has_session {
            return Err(NodeError::HandshakeIncomplete(link_id));
        }
        let our_index = match connection.our_index {
            Some(i) => i,
            None => {
                return Err(
                    NodeError::PromotionFailed { link_id, reason: MissingField::OurIndex },
                );
            },
        };
        if connection.their_index.is_none() {
            return Err(NodeError::PromotionFailed { link_id, reason: MissingField::TheirIndex });
        }
        let transport_id = match connection.transport_id {
            Some(t) => t,
            None => {
                return Err(
                    NodeError::PromotionFailed { link_id, reason: MissingField::TransportId },
                );
            },
        };
        if connection.source_addr.is_none() {
            return Err(NodeError::PromotionFailed { link_id, reason: MissingField::SourceAddr });
        }
        let new_peer = PeerRecord {
            link_id,
            transport_id: connection.transport_id,
            current_addr: connection.source_addr,
            our_index: connection.our_index,
            their_index: connection.their_index,
            remote_epoch: connection.remote_epoch,
            is_outbound: connection.is_outbound,
            has_session: true,
            is_healthy: true,
            pending_session: None,
            rekey: None,
            has_msg2: false,
        };
        let existing: Option<PeerRecord> = match self.peers.get(&peer.value) {
            Some(p) => Some(*p),
            None => None,
        };
        match existing {
            Some(old_peer) => {
                let restarted = match (old_peer.remote_epoch, connection.remote_epoch) {
                    (Some(old_epoch), Some(new_epoch)) => old_epoch != new_epoch,
                    _ => false,
                };
                let this_wins = restarted || cross_connection_winner(
                    our_addr,
                    &peer,
                    connection.is_outbound,
                );
                if !this_wins {
                    self.indices.remove(&our_index);
                    return Ok(
                        PromotionResult::CrossConnectionLost { winner_link_id: old_peer.link_id },
                    );
                }
                if let Some(old_transport) = old_peer.transport_id {
                    if let Some(old_index) = old_peer.our_index {
                        self.peers_by_index.remove(&make_index_key(old_transport, old_index));
                        self.indices.remove(&old_index);
                    }
                }
                if restarted {
                    self.sessions.remove(&peer.value);
                }
                self.peers.insert(peer.value, new_peer);
                self.peers_by_index.insert(make_index_key(transport_id, our_index), peer.value);
                self.retry_pending.remove(&peer.value);
                Ok(
                    PromotionResult::CrossConnectionWon {
                        loser_link_id: old_peer.link_id,
                        node_addr: peer,
                    },
                )
            },
            None => {
                if self.max_peers > 0 && self.peers.len() >= self.max_peers {
                    self.indices.remove(&our_index);
                    return Err(NodeError::MaxPeersExceeded { max: self.max_peers });
                }
                self.peers.insert(peer.value, new_peer);
                self.peers_by_index.insert(make_index_key(transport_id, our_index), peer.value);
                self.retry_pending.remove(&peer.value);
                Ok(PromotionResult::Promoted(peer))
            },
        }
    }
}

/// Promotion never takes the peers above their limit.
pub proof fn promotion_respects_peer_limit(
    t: TablesModel,
    our_addr: NodeAddr,
    link_id: u64,
    peer: NodeAddr,
)
    requires
        t.peers.dom().finite(),
        t.max_peers > 0,
        t.peers.len() <= t.max_peers,
    ensures
        t.promote(our_addr, link_id, peer).0.peers.len() <= t.max_peers,
{
}

/// A connection that does not win, or finds the node full, leaves the peers as
/// they were and gives its session index back.
pub proof fn losing_promotion_changes_no_peer(
    t: TablesModel,
    our_addr: NodeAddr,
    link_id: u64,
    peer: NodeAddr,
)
    requires
        t.connections.contains_key(link_id),
        t.connections[link_id].has_session,
        missing_field(t.connections[link_id]) is None,
    ensures
        ({
            let (after, r) = t.promote(our_addr, link_id, peer);
            r is Err || r->Ok_0 is CrossConnectionLost ==> {
                &&& after.peers == t.peers
                &&& after.peers_by_index == t.peers_by_index
                &&& !after.indices.contains(t.connections[link_id].our_index->0)
            }
        }),
{
}

/// A peer that announces a new epoch replaces its stale connection whichever
/// side initiated, and its stale session goes.
pub proof fn restart_always_wins_promotion(
    t: TablesModel,
    our_addr: NodeAddr,
    link_id: u64,
    peer: NodeAddr,
)
    requires
        t.connections.contains_key(link_id),
        t.connections[link_id].has_session,
        missing_field(t.connections[link_id]) is None,
        t.peers.contains_key(peer.value),
        epoch_changed(t.peers[peer.value].remote_epoch, t.connections[link_id].remote_epoch),
    ensures
        ({
            let (after, r) = t.promote(our_addr, link_id, peer);
            &&& r is Ok && r->Ok_0 is CrossConnectionWon
            &&& after.peers[peer.value] == promoted_peer(link_id, t.connections[link_id])
            &&& !after.sessions.contains(peer.value)
        }),
{
}

/// A msg1 about to become a connection.
#[derive(Clone, Copy, Debug)]
pub struct InboundHandshake {
    /// Link identifier chosen for it.
    pub link_id: u64,
    /// Transport it came over.
    pub transport_id: u32,
    /// Address it came from.
    pub remote_addr: u64,
    /// Identity it revealed.
    pub peer: NodeAddr,
    /// Startup epoch it carried.
    pub epoch: Option<u64>,
    /// Index the sender chose.
    pub sender_idx: u32,
    /// Whether the exchange produced a session.
    pub has_session: bool,
}

/// What is left to do outside the tables once a promotion has been settled.
#[derive(Clone, Copy, Debug, PartialEq, Eq)]
pub struct Settlement {
    /// Peer to send the initial announcements to.
    pub announce: Option<NodeAddr>,
    /// Transport connection to close: transport and address.
    pub close: Option<(u32, u64)>,
    /// Whether to count a rejected message.
    pub rejected: bool,
    /// Peer whose link's MTU is to be seeded as the limit of the path to it.
    pub seed: Option<NodeAddr>,
}

/// The connection that an accepted msg1 becomes.
pub open spec fn inbound_connection(h: InboundHandshake, our_index: u32) -> ConnectionRecord {
    ConnectionRecord {
        identity: Some(h.peer.value),
        our_index: Some(our_index),
        their_index: Some(h.sender_idx),
        transport_id: Some(h.transport_id),
        source_addr: Some(h.remote_addr),
        remote_epoch: h.epoch,
        is_outbound: false,
        has_session: h.has_session,
        has_msg2: true,
        failed: false,
    }
}

impl TablesModel {
    /// The tables once an accepted epoch change of `peer` has been noted: the
    /// stale peering is gone, the change is stamped, older stamps are dropped.
    pub open spec fn with_restart(self, peer: NodeAddr, now_ns: u128) -> TablesModel {
        TablesModel {
            peers: self.peers.remove(peer.value),
            restart_dampener: recent(
                self.restart_dampener,
                now_ns,
                EPOCH_RESTART_MIN_INTERVAL_NS,
            ).insert(peer.value, now_ns),
            retry_pending: self.retry_pending.insert(peer.value),
            ..self
        }
    }

    /// The tables with an accepted msg1 registered.
    pub open spec fn with_inbound(self, h: InboundHandshake, our_index: u32) -> TablesModel {
        TablesModel {
            indices: self.indices.insert(our_index),
            links: self.links.insert(
                h.link_id,
                LinkRecord {
                    transport_id: h.transport_id,
                    remote_addr: h.remote_addr,
                    inbound: true,
                },
            ),
            addr_to_link: self.addr_to_link.insert(
                addr_key(h.transport_id, h.remote_addr),
                h.link_id,
            ),
            connections: self.connections.insert(h.link_id, inbound_connection(h, our_index)),
            ..self
        }
    }

    /// The tables with an accepted msg1 taken back.
    pub open spec fn without_inbound(self, h: InboundHandshake, our_index: u32) -> TablesModel {
        TablesModel {
            indices: self.indices.remove(our_index),
            links: self.links.remove(h.link_id),
            addr_to_link: self.addr_to_link.remove(addr_key(h.transport_id, h.remote_addr)),
            connections: self.connections.remove(h.link_id),
            ..self
        }
    }

    /// The tables with a msg2 stored for `peer`, if it is active.
    pub open spec fn with_msg2(self, peer: NodeAddr) -> TablesModel {
        if self.peers.contains_key(peer.value) {
            TablesModel {
                peers: self.peers.insert(
                    peer.value,
                    PeerRecord { has_msg2: true, ..self.peers[peer.value] },
                ),
                ..self
            }
        } else {
            self
        }
    }

    /// The tables with an address filed under a link.
    pub open spec fn with_addr(self, transport_id: u32, addr: u64, link_id: u64) -> TablesModel {
        TablesModel {
            addr_to_link: self.addr_to_link.insert(addr_key(transport_id, addr), link_id),
            ..self
        }
    }

    /// Transport and address of a link.
    pub open spec fn link_target(self, link_id: u64) -> Option<(u32, u64)> {
        if self.links.contains_key(link_id) {
            Some((self.links[link_id].transport_id, self.links[link_id].remote_addr))
        } else {
            None
        }
    }

    /// What the end of an inbound promotion leads to.
    pub open spec fn settle_inbound(
        self,
        h: InboundHandshake,
        our_index: u32,
        result: Result<PromotionResult, NodeError>,
    ) -> (TablesModel, Settlement) {
        match result {
            Ok(PromotionResult::Promoted(a)) => (
                self.with_msg2(a),
                Settlement { announce: Some(a), close: None, rejected: false, seed: Some(a) },
            ),
            Ok(PromotionResult::CrossConnectionWon { loser_link_id, node_addr }) => (
                self.with_msg2(node_addr).without_link(loser_link_id),
                Settlement {
                    announce: Some(node_addr),
                    close: self.link_target(loser_link_id),
                    rejected: false,
                    seed: Some(node_addr),
                },
            ),
            Ok(PromotionResult::CrossConnectionLost { winner_link_id }) => (
                self.without_link(h.link_id).with_addr(
                    h.transport_id,
                    h.remote_addr,
                    winner_link_id,
                ),
                Settlement {
                    announce: None,
                    close: Some((h.transport_id, h.remote_addr)),
                    rejected: false,
                    seed: None,
                },
            ),
            Err(_) => {
                let t = self.without_link(h.link_id);
                (
                    TablesModel { indices: t.indices.remove(our_index), ..t },
                    Settlement { announce: None, close: None, rejected: true, seed: None },
                )
            },
        }
    }

    /// What an accepted msg1 leads to once its msg2 was sent, or not: unsent it is
    /// taken back, and sent the connection is promoted.
    pub open spec fn finish_inbound(
        self,
        our_addr: NodeAddr,
        h: InboundHandshake,
        our_index: u32,
        sent: bool,
    ) -> (TablesModel, Result<Settlement, HandshakeReject>) {
        if !sent {
            (self.without_inbound(h, our_index), Err(HandshakeReject::BadState))
        } else {
            let (promoted, result) = self.promote(our_addr, h.link_id, h.peer);
            let (settled, settlement) = promoted.settle_inbound(h, our_index, result);
            (settled, Ok(settlement))
        }
    }

    /// The tables once our open rekey with `peer` has been given up: its index
    /// is free and filed nowhere.
    pub open spec fn without_rekey(self, peer: NodeAddr) -> TablesModel {
        let p = self.peers[peer.value];
        let closed = TablesModel {
            peers: self.peers.insert(peer.value, PeerRecord { rekey: None, ..p }),
            indices: self.indices.remove(p.rekey->0),
            ..self
        };
        if !self.peers.contains_key(peer.value) || p.rekey is None {
            self
        } else {
            match p.transport_id {
                Some(t) => TablesModel {
                    peers_by_index: self.peers_by_index.remove(index_key(t, p.rekey->0)),
                    pending_outbound: self.pending_outbound.remove(index_key(t, p.rekey->0)),
                    ..closed
                },
                None => closed,
            }
        }
    }

    /// The tables once a rekey was answered as responder.
    pub open spec fn with_pending_session(
        self,
        peer: NodeAddr,
        transport_id: u32,
        our_index: u32,
        their_index: u32,
    ) -> TablesModel {
        let p = self.peers[peer.value];
        let filed = TablesModel {
            indices: self.indices.insert(our_index),
            peers_by_index: self.peers_by_index.insert(
                index_key(transport_id, our_index),
                peer.value,
            ),
            ..self
        };
        if self.peers.contains_key(peer.value) {
            TablesModel {
                peers: self.peers.insert(
                    peer.value,
                    PeerRecord {
                        pending_session: Some((our_index, their_index)),
                        rekey: None,
                        ..p
                    },
                ),
                ..filed
            }
        } else {
            filed
        }
    }
}

impl NodeTables {
    /// Notes an accepted epoch change. Only an accepted one is stamped, so
    /// refusals do not put off a peer that really restarts.
    pub fn note_restart(&mut self, peer: &NodeAddr, now_ns: u128)
        ensures
            final(self)@ == old(self)@.with_restart(*peer, now_ns),
    {
        self.peers.remove(&peer.value);
        retain_recent(&mut self.restart_dampener, now_ns, EPOCH_RESTART_MIN_INTERVAL_NS);
        self.restart_dampener.insert(peer.value, now_ns);
        self.retry_pending.insert(peer.value);
    }

    /// Registers a msg1 as a connection with its msg2 stored, provided the
    /// access control list admits the peer and an index could be allocated.
    /// Returns the index.
    pub fn accept_msg1(&mut self, h: &InboundHandshake, authorized: bool, allocated: Option<u32>) -> (r:
        Result<u32, HandshakeReject>)
        ensures
            match allocated {
                Some(our_index) if authorized => r == Ok::<_, HandshakeReject>(our_index)
                    && final(self)@ == old(self)@.with_inbound(*h, our_index),
                _ => r == Err::<u32, _>(HandshakeReject::BadState) && final(self)@ == old(self)@,
            },
    {
        if !authorized {
            return Err(HandshakeReject::BadState);
        }
        match allocated {
            Some(our_index) => {
                self.indices.insert(our_index);
                self.links.insert(
                    h.link_id,
                    LinkRecord {
                        transport_id: h.transport_id,
                        remote_addr: h.remote_addr,
                        inbound: true,
                    },
                );
                self.addr_to_link.insert(make_addr_key(h.transport_id, h.remote_addr), h.link_id);
                self.connections.insert(
                    h.link_id,
                    ConnectionRecord {
                        identity: Some(h.peer.value),
                        our_index: Some(our_index),
                        their_index: Some(h.sender_idx),
                        transport_id: Some(h.transport_id),
                        source_addr: Some(h.remote_addr),
                        remote_epoch: h.epoch,
                        is_outbound: false,
                        has_session: h.has_session,
                        has_msg2: true,
                        failed: false,
                    },
                );
                Ok(our_index)
            },
            None => Err(HandshakeReject::BadState),
        }
    }

    /// Takes an accepted msg1 back after its msg2 could not be sent.
    pub fn undo_accept(&mut self, h: &InboundHandshake, our_index: u32)
        ensures
            final(self)@ == old(self)@.without_inbound(*h, our_index),
    {
        self.connections.remove(&h.link_id);
        self.links.remove(&h.link_id);
        self.addr_to_link.remove(&make_addr_key(h.transport_id, h.remote_addr));
        self.indices.remove(&our_index);
    }

    /// Marks that msg2 bytes are stored with a peer.
    fn store_msg2(&mut self, peer: &NodeAddr)
        ensures
            final(self)@ == old(self)@.with_msg2(*peer),
    {
        let record: Option<PeerRecord> = match self.peers.get(&peer.value) {
            Some(p) => Some(*p),
            None => None,
        };
        if let Some(p) = record {
            self.peers.insert(peer.value, PeerRecord { has_msg2: true, ..p });
        }
    }

    /// Transport and address of a link.
    fn target_of(&self, link_id: u64) -> (r: Option<(u32, u64)>)
        ensures
            r == self@.link_target(link_id),
    {
        match self.links.get(&link_id) {
            Some(link) => Some((link.transport_id, link.remote_addr)),
            None => None,
        }
    }

    /// Brings links and addresses in line with the end of an inbound promotion.
    pub fn settle_inbound(
        &mut self,
        h: &InboundHandshake,
        our_index: u32,
        result: Result<PromotionResult, NodeError>,
    ) -> (r: Settlement)
        ensures
            (final(self)@, r) == old(self)@.settle_inbound(*h, our_index, result),
    {
        match result {
            Ok(PromotionResult::Promoted(a)) => {
                self.store_msg2(&a);
                Settlement { announce: Some(a), close: None, rejected: false, seed: Some(a) }
            },
            Ok(PromotionResult::CrossConnectionWon { loser_link_id, node_addr }) => {
                self.store_msg2(&node_addr);
                let close = self.target_of(loser_link_id);
                self.remove_link(loser_link_id);
                Settlement { announce: Some(node_addr), close, rejected: false, seed: Some(node_addr) }
            },
            Ok(PromotionResult::CrossConnectionLost { winner_link_id }) => {
                self.remove_link(h.link_id);
                self.addr_to_link.insert(
                    make_addr_key(h.transport_id, h.remote_addr),
                    winner_link_id,
                );
                Settlement {
                    announce: None,
                    close: Some((h.transport_id, h.remote_addr)),
                    rejected: false,
                    seed: None,
                }
            },
            Err(_) => {
                self.remove_link(h.link_id);
                self.indices.remove(&our_index);
                Settlement { announce: None, close: None, rejected: true, seed: None }
            },
        }
    }

    /// Finishes an accepted msg1 once its msg2 was sent, or not.
    pub fn finish_inbound(
        &mut self,
        our_addr: &NodeAddr,
        h: &InboundHandshake,
        our_index: u32,
        sent: bool,
    ) -> (r: Result<Settlement, HandshakeReject>)
        ensures
            (final(self)@, r) == old(self)@.finish_inbound(*our_addr, *h, our_index, sent),
    {
        if !sent {
            self.undo_accept(h, our_index);
            return Err(HandshakeReject::BadState);
        }
        let result = self.promote_connection(our_addr, h.link_id, h.peer);
        Ok(self.settle_inbound(h, our_index, result))
    }

    /// Gives up our open rekey with a peer and frees its index.
    pub fn abandon_rekey(&mut self, peer: &NodeAddr)
        ensures
            final(self)@ == old(self)@.without_rekey(*peer),
    {
        let record: Option<PeerRecord> = match self.peers.get(&peer.value) {
            Some(p) => Some(*p),
            None => None,
        };
        if let Some(p) = record {
            if let Some(index) = p.rekey {
                self.peers.insert(peer.value, PeerRecord { rekey: None, ..p });
                if let Some(transport_id) = p.transport_id {
                    self.peers_by_index.remove(&make_index_key(transport_id, index));
                    self.pending_outbound.remove(&make_index_key(transport_id, index));
                }
                self.indices.remove(&index);
            }
        }
    }

    /// Ends a rekey that the peer started: with an index allocated, a session
    /// produced and the msg2 sent, the session awaits cutover under that index.
    /// Otherwise no table changes.
    pub fn answer_rekey(
        &mut self,
        peer: &NodeAddr,
        transport_id: u32,
        sender_idx: u32,
        allocated: Option<u32>,
        has_session: bool,
        sent: bool,
    ) -> (r: Result<u32, HandshakeReject>)
        ensures
            match allocated {
                Some(our_index) if has_session && sent => r == Ok::<_, HandshakeReject>(our_index)
                    && final(self)@ == old(self)@.with_pending_session(
                    *peer,
                    transport_id,
                    our_index,
                    sender_idx,
                ),
                _ => r == Err::<u32, _>(HandshakeReject::BadState) && final(self)@ == old(self)@,
            },
    {
        let our_index = match allocated {
            Some(i) => i,
            None => {
                return Err(HandshakeReject::BadState);
            },
        };
        if !has_session || !sent {
            return Err(HandshakeReject::BadState);
        }
        self.indices.insert(our_index);
        let record: Option<PeerRecord> = match self.peers.get(&peer.value) {
            Some(p) => Some(*p),
            None => None,
        };
        if let Some(p) = record {
            self.peers.insert(
                peer.value,
                PeerRecord { pending_session: Some((our_index, sender_idx)), rekey: None, ..p },
            );
        }
        self.peers_by_index.insert(make_index_key(transport_id, our_index), peer.value);
        Ok(our_index)
    }
}

/// After an accepted epoch change of a peer, no msg1 that is judged within the
/// minimum interval makes the node accept another.
pub proof fn restarts_are_spaced(
    before: TablesModel,
    peer: NodeAddr,
    restarted_ns: u128,
    t: TablesModel,
    our_addr: NodeAddr,
    opened: OpenedMsg1,
)
    requires
        t.restart_dampener == before.with_restart(peer, restarted_ns).restart_dampener,
        opened.peer == peer,
        opened.now_ns < restarted_ns + EPOCH_RESTART_MIN_INTERVAL_NS,
    ensures
        t.msg1_verdict(our_addr, opened) != Msg1Verdict::Restart,
{
}

/// An epoch change of another peer leaves a stamp that still counts in place.
pub proof fn restart_stamp_survives_others(
    t: TablesModel,
    peer: NodeAddr,
    other: NodeAddr,
    now_ns: u128,
)
    requires
        t.is_dampened(peer, now_ns),
        other != peer,
    ensures
        t.with_restart(other, now_ns).restart_dampener.contains_key(peer.value),
        t.with_restart(other, now_ns).restart_dampener[peer.value]
            == t.restart_dampener[peer.value],
{
}

/// A msg1 that revealed another identity than its address is attributed to, or
/// whose address nobody owns, is refused.
pub proof fn waiver_fails_closed(t: TablesModel, our_addr: NodeAddr, opened: OpenedMsg1)
    requires
        opened.waiver != Msg1Waiver::NotNeeded,
        opened.waiver != Msg1Waiver::Expect(opened.peer),
    ensures
        t.msg1_verdict(our_addr, opened) == Msg1Verdict::Refused(HandshakeReject::BadState),
{
}

/// When both ends have a rekey open, exactly one of them answers the other.
pub proof fn dual_rekey_has_one_responder(
    a: TablesModel,
    a_addr: NodeAddr,
    at_a: OpenedMsg1,
    b: TablesModel,
    b_addr: NodeAddr,
    at_b: OpenedMsg1,
)
    requires
        a_addr != b_addr,
        at_a.peer == b_addr,
        at_b.peer == a_addr,
        a.awaits_rekey(at_a),
        b.awaits_rekey(at_b),
    ensures
        (a.msg1_verdict(a_addr, at_a) is Rekey) != (b.msg1_verdict(b_addr, at_b) is Rekey),
{
}

/// An accepted msg1 whose msg2 could not be sent leaves no trace, provided its
/// link, address and index were unused.
pub proof fn undone_accept_leaves_no_trace(t: TablesModel, h: InboundHandshake, our_index: u32)
    requires
        !t.links.contains_key(h.link_id),
        !t.connections.contains_key(h.link_id),
        !t.addr_to_link.contains_key(addr_key(h.transport_id, h.remote_addr)),
        !t.indices.contains(our_index),
    ensures
        t.with_inbound(h, our_index).without_inbound(h, our_index) == t,
{
    let u = t.with_inbound(h, our_index).without_inbound(h, our_index);
    assert(u.indices =~= t.indices);
    assert(u.links =~= t.links);
    assert(u.addr_to_link =~= t.addr_to_link);
    assert(u.connections =~= t.connections);
}

/// What to do with an inbound msg2.
#[derive(Clone, Copy, Debug, PartialEq, Eq, Structural)]
pub enum Msg2Start {
    /// Drop it and count the reason.
    Refused(HandshakeReject),
    /// Complete our rekey with this peer.
    Rekey(NodeAddr),
    /// Complete our handshake on this link.
    Handshake(u64),
}

/// What completing a handshake revealed.
#[derive(Clone, Copy, Debug)]
pub struct Completed {
    /// Identity of the peer, where it is known.
    pub identity: Option<u128>,
    /// Startup epoch of the peer.
    pub epoch: Option<u64>,
}

/// A msg2 on its way through the tables.
#[derive(Clone, Copy, Debug)]
pub struct InboundMsg2 {
    /// Transport it came over.
    pub transport_id: u32,
    /// Address it came from.
    pub remote_addr: u64,
    /// Our index, which it answers.
    pub receiver_idx: u32,
    /// Index the sender chose.
    pub sender_idx: u32,
}

impl TablesModel {
    /// Whether `r` is what an arriving msg2 calls for, and `after` the tables
    /// it leaves: an entry that leads nowhere is dropped.
    pub open spec fn msg2_starts(
        self,
        m: InboundMsg2,
        header_ok: bool,
        after: TablesModel,
        r: Msg2Start,
    ) -> bool {
        let key = index_key(m.transport_id, m.receiver_idx);
        let link = self.pending_outbound[key];
        if !header_ok {
            after == self && r == Msg2Start::Refused(HandshakeReject::BadState)
        } else if !self.pending_outbound.contains_key(key) {
            after == self && r == Msg2Start::Refused(HandshakeReject::UnknownConnection)
        } else if self.connections.contains_key(link) {
            after == self && r == Msg2Start::Handshake(link)
        } else {
            match r {
                Msg2Start::Rekey(peer) => after == self && self.rekeys_with(
                    peer.value,
                    m.receiver_idx,
                ),
                _ => {
                    &&& r == Msg2Start::Refused(HandshakeReject::BadState)
                    &&& after == self.without_pending(m)
                    &&& forall|a: u128| !self.rekeys_with(a, m.receiver_idx)
                },
            }
        }
    }

    /// The tables without the open handshake that `m` answers.
    pub open spec fn without_pending(self, m: InboundMsg2) -> TablesModel {
        TablesModel {
            pending_outbound: self.pending_outbound.remove(
                index_key(m.transport_id, m.receiver_idx),
            ),
            ..self
        }
    }

    /// The tables once our rekey with `peer` completed.
    pub open spec fn with_completed_rekey(
        self,
        m: InboundMsg2,
        peer: NodeAddr,
        epoch: Option<u64>,
    ) -> TablesModel {
        let p = self.peers[peer.value];
        let our_index = if p.rekey is Some {
            p.rekey->0
        } else {
            m.receiver_idx
        };
        let renewed = PeerRecord {
            remote_epoch: if epoch is Some {
                epoch
            } else {
                p.remote_epoch
            },
            pending_session: Some((our_index, m.sender_idx)),
            rekey: None,
            ..p
        };
        let updated = TablesModel {
            peers: self.peers.insert(peer.value, renewed),
            ..self.without_stale_session(peer, epoch_changed(p.remote_epoch, epoch))
        };
        match p.transport_id {
            Some(t) => TablesModel {
                peers_by_index: self.peers_by_index.insert(index_key(t, our_index), peer.value),
                ..updated
            },
            None => updated,
        }
    }

    /// The tables once our rekey with `peer` failed.
    pub open spec fn with_failed_rekey(self, peer: NodeAddr) -> TablesModel {
        let p = self.peers[peer.value];
        let closed = TablesModel {
            peers: self.peers.insert(peer.value, PeerRecord { rekey: None, ..p }),
            indices: self.indices.remove(p.rekey->0),
            ..self
        };
        if p.rekey is None {
            self
        } else {
            match p.transport_id {
                Some(t) => TablesModel {
                    peers_by_index: self.peers_by_index.remove(index_key(t, p.rekey->0)),
                    ..closed
                },
                None => closed,
            }
        }
    }

    /// The tables with the handshake on `link_id` completed, or marked failed.
    pub open spec fn with_completion(
        self,
        m: InboundMsg2,
        link_id: u64,
        outcome: Option<Completed>,
    ) -> TablesModel {
        let c = self.connections[link_id];
        let record = match outcome {
            Some(done) => ConnectionRecord {
                their_index: Some(m.sender_idx),
                source_addr: Some(m.remote_addr),
                identity: done.identity,
                remote_epoch: done.epoch,
                has_session: true,
                ..c
            },
            None => ConnectionRecord { failed: true, ..c },
        };
        TablesModel { connections: self.connections.insert(link_id, record), ..self }
    }

    /// The tables once the access control list refused our handshake's peer.
    pub open spec fn without_refused(
        self,
        m: InboundMsg2,
        link_id: u64,
        our_index: Option<u32>,
    ) -> TablesModel {
        let t = self.without_pending(m);
        let u = TablesModel { connections: t.connections.remove(link_id), ..t }.without_link(
            link_id,
        );
        match our_index {
            Some(i) => TablesModel { indices: u.indices.remove(i), ..u },
            None => u,
        }
    }

    /// The tables with the peer moved to the session of our own handshake `c`.
    pub open spec fn with_swapped_session(
        self,
        peer: NodeAddr,
        c: ConnectionRecord,
        their_index: u32,
    ) -> TablesModel {
        let p = self.peers[peer.value];
        let t = p.transport_id->0;
        let freed = match p.our_index {
            Some(old_index) => self.without_index(t, old_index),
            None => self,
        };
        TablesModel {
            peers: self.peers.insert(
                peer.value,
                PeerRecord {
                    our_index: c.our_index,
                    their_index: Some(their_index),
                    has_session: true,
                    ..p
                },
            ),
            peers_by_index: freed.peers_by_index.insert(
                index_key(t, c.our_index->0),
                peer.value,
            ),
            ..freed
        }
    }

    /// Whether completing our handshake moves an active peer to its session: our
    /// handshake wins and is complete.
    pub open spec fn swaps_session(self, our_addr: NodeAddr, link_id: u64, peer: NodeAddr) -> bool {
        let c = self.connections[link_id];
        &&& wins_cross_connection(our_addr, peer, true)
        &&& self.connections.contains_key(link_id)
        &&& c.has_session && c.our_index is Some
    }

    /// What completing our handshake leads to when the peer is already active
    /// through its own.
    pub open spec fn resolve_cross(
        self,
        our_addr: NodeAddr,
        m: InboundMsg2,
        link_id: u64,
        peer: NodeAddr,
    ) -> (TablesModel, Result<Settlement, HandshakeReject>) {
        let c = self.connections[link_id];
        let taken = TablesModel { connections: self.connections.remove(link_id), ..self };
        let wins = wins_cross_connection(our_addr, peer, true);
        let kept = TablesModel { indices: taken.indices.remove(c.our_index->0), ..taken };
        let settled = if wins {
            taken.with_swapped_session(peer, c, m.sender_idx)
        } else if c.our_index is Some {
            kept
        } else {
            taken
        };
        if !self.connections.contains_key(link_id) {
            (self.without_pending(m), Err(HandshakeReject::UnknownConnection))
        } else if wins && (!c.has_session || c.our_index is None) {
            (taken.without_pending(m), Err(HandshakeReject::BadState))
        } else {
            (
                settled.without_pending(m).without_link(link_id),
                Ok(
                    Settlement {
                        announce: Some(peer),
                        close: self.link_target(link_id),
                        rejected: false,
                        seed: None,
                    },
                ),
            )
        }
    }

    /// What the end of an outbound promotion leads to.
    pub open spec fn settle_outbound(
        self,
        m: InboundMsg2,
        link_id: u64,
        result: Result<PromotionResult, NodeError>,
    ) -> (TablesModel, Settlement) {
        let t = self.without_pending(m);
        match result {
            Ok(PromotionResult::Promoted(a)) => (
                t,
                Settlement { announce: Some(a), close: None, rejected: false, seed: Some(a) },
            ),
            Ok(PromotionResult::CrossConnectionWon { loser_link_id, node_addr }) => (
                t.without_link(loser_link_id).with_addr(m.transport_id, m.remote_addr, link_id),
                Settlement {
                    announce: Some(node_addr),
                    close: self.link_target(loser_link_id),
                    rejected: false,
                    seed: Some(node_addr),
                },
            ),
            Ok(PromotionResult::CrossConnectionLost { winner_link_id }) => (
                t.without_link(link_id).with_addr(m.transport_id, m.remote_addr, winner_link_id),
                Settlement {
                    announce: None,
                    close: Some((m.transport_id, m.remote_addr)),
                    rejected: false,
                    seed: None,
                },
            ),
            Err(_) => (self, Settlement { announce: None, close: None, rejected: true, seed: None }),
        }
    }

    /// What a handshake of ours that completed leads to: a peer that the access
    /// control list refuses is dropped, one that is active already resolves the
    /// cross-connection, and any other is promoted.
    pub open spec fn finish_outbound(
        self,
        our_addr: NodeAddr,
        m: InboundMsg2,
        link_id: u64,
        peer: NodeAddr,
        our_index: Option<u32>,
        authorized: bool,
    ) -> (TablesModel, Result<Settlement, HandshakeReject>) {
        if !authorized {
            (
                self.without_refused(m, link_id, our_index),
                Ok(
                    Settlement {
                        announce: None,
                        close: self.link_target(link_id),
                        rejected: true,
                        seed: None,
                    },
                ),
            )
        } else if self.peers.contains_key(peer.value) {
            self.resolve_cross(our_addr, m, link_id, peer)
        } else {
            let (promoted, result) = self.promote(our_addr, link_id, peer);
            let (settled, settlement) = promoted.settle_outbound(m, link_id, result);
            (settled, Ok(settlement))
        }
    }
}

impl NodeTables {
    /// Forgets the open handshake that `m` answers.
    fn drop_pending(&mut self, m: &InboundMsg2)
        ensures
            final(self)@ == old(self)@.without_pending(*m),
    {
        self.pending_outbound.remove(&make_index_key(m.transport_id, m.receiver_idx));
    }

    /// Decides what an inbound msg2 completes: one of our handshakes, or a
    /// rekey of ours.
    pub fn handle_msg2(&mut self, m: &InboundMsg2, header_ok: bool) -> (r: Msg2Start)
        ensures
            old(self)@.msg2_starts(*m, header_ok, final(self)@, r),
    {
        if !header_ok {
            return Msg2Start::Refused(HandshakeReject::BadState);
        }
        let key = make_index_key(m.transport_id, m.receiver_idx);
        let link_id = match self.pending_outbound.get(&key) {
            Some(id) => *id,
            None => {
                return Msg2Start::Refused(HandshakeReject::UnknownConnection);
            },
        };
        if self.connections.contains_key(&link_id) {
            return Msg2Start::Handshake(link_id);
        }
        match self.peer_with_rekey(m.receiver_idx) {
            Some(peer) => Msg2Start::Rekey(NodeAddr { value: peer }),
            None => {
                self.drop_pending(m);
                Msg2Start::Refused(HandshakeReject::BadState)
            },
        }
    }

    /// Ends our rekey with an active peer. On success the new session awaits
    /// cutover, and where the peer restarted meanwhile its stale session goes
    /// (`Ok(true)`).
    pub fn finish_rekey(
        &mut self,
        m: &InboundMsg2,
        peer: &NodeAddr,
        outcome: Option<Option<u64>>,
    ) -> (r: Result<bool, HandshakeReject>)
        requires
            old(self)@.peers.contains_key(peer.value),
        ensures
            match outcome {
                Some(epoch) => {
                    &&& r == Ok::<_, HandshakeReject>(
                        epoch_changed(old(self)@.peers[peer.value].remote_epoch, epoch),
                    )
                    &&& final(self)@ == old(self)@.with_completed_rekey(
                        *m,
                        *peer,
                        epoch,
                    ).without_pending(*m)
                },
                None => {
                    &&& r == Err::<bool, _>(HandshakeReject::BadState)
                    &&& final(self)@ == old(self)@.with_failed_rekey(*peer).without_pending(*m)
                },
            },
    {
        let p: PeerRecord = match self.peers.get(&peer.value) {
            Some(p) => *p,
            None => {
                return Err(HandshakeReject::BadState);
            },
        };
        let r = match outcome {
            Some(epoch) => {
                let our_index = match p.rekey {
                    Some(i) => i,
                    None => m.receiver_idx,
                };
                let restarted = match (p.remote_epoch, epoch) {
                    (Some(old_epoch), Some(new_epoch)) => old_epoch != new_epoch,
                    _ => false,
                };
                let remote_epoch = if epoch.is_some() {
                    epoch
                } else {
                    p.remote_epoch
                };
                self.peers.insert(
                    peer.value,
                    PeerRecord {
                        remote_epoch,
                        pending_session: Some((our_index, m.sender_idx)),
                        rekey: None,
                        ..p
                    },
                );
                if let Some(transport_id) = p.transport_id {
                    self.peers_by_index.insert(
                        make_index_key(transport_id, our_index),
                        peer.value,
                    );
                }
                if restarted {
                    self.sessions.remove(&peer.value);
                }
                Ok(restarted)
            },
            None => {
                if let Some(index) = p.rekey {
                    self.peers.insert(peer.value, PeerRecord { rekey: None, ..p });
                    if let Some(transport_id) = p.transport_id {
                        self.peers_by_index.remove(&make_index_key(transport_id, index));
                    }
                    self.indices.remove(&index);
                }
                Err(HandshakeReject::BadState)
            },
        };
        self.drop_pending(m);
        r
    }

    /// Files what completing our handshake revealed. Returns the peer and our
    /// index, or refuses a handshake that failed or left the peer unknown.
    pub fn complete_outbound(
        &mut self,
        m: &InboundMsg2,
        link_id: u64,
        outcome: Option<Completed>,
    ) -> (r: Result<(NodeAddr, Option<u32>), HandshakeReject>)
        requires
            old(self)@.connections.contains_key(link_id),
        ensures
            final(self)@ == old(self)@.with_completion(*m, link_id, outcome),
            match outcome {
                Some(Completed { identity: Some(a), epoch: _ }) => r == Ok::<_, HandshakeReject>(
                    (NodeAddr { value: a }, old(self)@.connections[link_id].our_index),
                ),
                _ => r == Err::<(NodeAddr, Option<u32>), _>(HandshakeReject::BadState),
            },
    {
        let c: ConnectionRecord = match self.connections.get(&link_id) {
            Some(c) => *c,
            None => {
                return Err(HandshakeReject::BadState);
            },
        };
        match outcome {
            None => {
                self.connections.insert(link_id, ConnectionRecord { failed: true, ..c });
                Err(HandshakeReject::BadState)
            },
            Some(done) => {
                self.connections.insert(
                    link_id,
                    ConnectionRecord {
                        their_index: Some(m.sender_idx),
                        source_addr: Some(m.remote_addr),
                        identity: done.identity,
                        remote_epoch: done.epoch,
                        has_session: true,
                        ..c
                    },
                );
                match done.identity {
                    Some(a) => Ok((NodeAddr { value: a }, c.our_index)),
                    None => Err(HandshakeReject::BadState),
                }
            },
        }
    }

    /// Drops our handshake after the access control list refused its peer.
    /// Returns the transport connection to close.
    pub fn refuse_outbound(&mut self, m: &InboundMsg2, link_id: u64, our_index: Option<u32>) -> (r:
        Option<(u32, u64)>)
        ensures
            final(self)@ == old(self)@.without_refused(*m, link_id, our_index),
            r == old(self)@.link_target(link_id),
    {
        self.drop_pending(m);
        let close = self.target_of(link_id);
        self.connections.remove(&link_id);
        self.remove_link(link_id);
        if let Some(index) = our_index {
            self.indices.remove(&index);
        }
        close
    }

    /// Resolves a cross-connection when our handshake completes although the
    /// peer is already active through its own: the smaller address moves to
    /// the session it initiated, the larger keeps what it has.
    pub fn resolve_cross_connection(
        &mut self,
        our_addr: &NodeAddr,
        m: &InboundMsg2,
        link_id: u64,
        peer: NodeAddr,
    ) -> (r: Result<Settlement, HandshakeReject>)
        requires
            old(self)@.peers.contains_key(peer.value),
            old(self)@.swaps_session(*our_addr, link_id, peer)
                ==> old(self)@.peers[peer.value].transport_id is Some,
        ensures
            (final(self)@, r) == old(self)@.resolve_cross(*our_addr, *m, link_id, peer),
    {
        let our_outbound_wins = cross_connection_winner(our_addr, &peer, true);
        let c = match self.connections.remove(&link_id) {
            Some(c) => c,
            None => {
                assert(self.connections@ =~= old(self).connections@);
                self.drop_pending(m);
                return Err(HandshakeReject::UnknownConnection);
            },
        };
        if our_outbound_wins {
            let our_index = match c.our_index {
                Some(i) if c.has_session => i,
                _ => {
                    self.drop_pending(m);
                    return Err(HandshakeReject::BadState);
                },
            };
            let record: Option<PeerRecord> = match self.peers.get(&peer.value) {
                Some(p) => Some(*p),
                None => None,
            };
            if let Some(p) = record {
                if let Some(transport_id) = p.transport_id {
                    self.peers.insert(
                        peer.value,
                        PeerRecord {
                            our_index: c.our_index,
                            their_index: Some(m.sender_idx),
                            has_session: true,
                            ..p
                        },
                    );
                    if let Some(old_index) = p.our_index {
                        self.peers_by_index.remove(&make_index_key(transport_id, old_index));
                        self.indices.remove(&old_index);
                    }
                    self.peers_by_index.insert(make_index_key(transport_id, our_index), peer.value);
                }
            }
        } else if let Some(index) = c.our_index {
            self.indices.remove(&index);
        }
        self.drop_pending(m);
        let close = self.target_of(link_id);
        self.remove_link(link_id);
        Ok(Settlement { announce: Some(peer), close, rejected: false, seed: None })
    }

    /// Brings links and addresses in line with the end of an outbound promotion.
    pub fn settle_outbound(
        &mut self,
        m: &InboundMsg2,
        link_id: u64,
        result: Result<PromotionResult, NodeError>,
    ) -> (r: Settlement)
        ensures
            (final(self)@, r) == old(self)@.settle_outbound(*m, link_id, result),
    {
        match result {
            Ok(PromotionResult::Promoted(a)) => {
                self.drop_pending(m);
                Settlement { announce: Some(a), close: None, rejected: false, seed: Some(a) }
            },
            Ok(PromotionResult::CrossConnectionWon { loser_link_id, node_addr }) => {
                self.drop_pending(m);
                let close = self.target_of(loser_link_id);
                self.remove_link(loser_link_id);
                self.addr_to_link.insert(make_addr_key(m.transport_id, m.remote_addr), link_id);
                Settlement { announce: Some(node_addr), close, rejected: false, seed: Some(node_addr) }
            },
            Ok(PromotionResult::CrossConnectionLost { winner_link_id }) => {
                self.drop_pending(m);
                self.remove_link(link_id);
                self.addr_to_link.insert(
                    make_addr_key(m.transport_id, m.remote_addr),
                    winner_link_id,
                );
                Settlement {
                    announce: None,
                    close: Some((m.transport_id, m.remote_addr)),
                    rejected: false,
                    seed: None,
                }
            },
            Err(_) => Settlement { announce: None, close: None, rejected: true, seed: None },
        }
    }

    /// Finishes a handshake of ours that completed, given what the access control
    /// list said of its peer.
    pub fn finish_outbound(
        &mut self,
        our_addr: &NodeAddr,
        m: &InboundMsg2,
        link_id: u64,
        peer: NodeAddr,
        our_index: Option<u32>,
        authorized: bool,
    ) -> (r: Result<Settlement, HandshakeReject>)
        requires
            authorized && old(self)@.peers.contains_key(peer.value) && old(self)@.swaps_session(
                *our_addr,
                link_id,
                peer,
            ) ==> old(self)@.peers[peer.value].transport_id is Some,
        ensures
            (final(self)@, r) == old(self)@.finish_outbound(
                *our_addr,
                *m,
                link_id,
                peer,
                our_index,
                authorized,
            ),
    {
        if !authorized {
            let close = self.refuse_outbound(m, link_id, our_index);
            return Ok(Settlement { announce: None, close, rejected: true, seed: None });
        }
        if self.peers.contains_key(&peer.value) {
            return self.resolve_cross_connection(our_addr, m, link_id, peer);
        }
        let result = self.promote_connection(our_addr, link_id, peer);
        Ok(self.settle_outbound(m, link_id, result))
    }
}

/// The peer that a promotion made active.
pub open spec fn promoted_by(result: Result<PromotionResult, NodeError>) -> Option<NodeAddr> {
    match result {
        Ok(PromotionResult::Promoted(a)) => Some(a),
        Ok(PromotionResult::CrossConnectionWon { node_addr, .. }) => Some(node_addr),
        _ => None,
    }
}

/// The peer whose link's MTU is to be seeded after a promotion: one that is new or
/// won a cross-connection.
pub fn peer_to_seed(result: &Result<PromotionResult, NodeError>) -> (r: Option<NodeAddr>)
    ensures
        r == promoted_by(*result),
{
    match result {
        Ok(PromotionResult::Promoted(a)) => Some(*a),
        Ok(PromotionResult::CrossConnectionWon { loser_link_id: _, node_addr }) => Some(*node_addr),
        _ => None,
    }
}

/// However a promotion is settled, the link's MTU is seeded for exactly the peer
/// that it made active, which is also announced to.
pub proof fn promotion_seeds_what_it_announces(
    t: TablesModel,
    h: InboundHandshake,
    our_index: u32,
    m: InboundMsg2,
    link_id: u64,
    result: Result<PromotionResult, NodeError>,
)
    ensures
        t.settle_inbound(h, our_index, result).1.seed == promoted_by(result),
        t.settle_inbound(h, our_index, result).1.announce == promoted_by(result),
        t.settle_outbound(m, link_id, result).1.seed == promoted_by(result),
        t.settle_outbound(m, link_id, result).1.announce == promoted_by(result),
{
}

/// A handshake of ours whose peer the access control list refuses leaves no peer
/// behind and none changed.
pub proof fn refused_peer_is_not_admitted(
    t: TablesModel,
    our_addr: NodeAddr,
    m: InboundMsg2,
    link_id: u64,
    peer: NodeAddr,
    our_index: Option<u32>,
)
    ensures
        ({
            let (after, r) = t.finish_outbound(our_addr, m, link_id, peer, our_index, false);
            &&& after.peers == t.peers
            &&& after.peers_by_index == t.peers_by_index
            &&& !after.connections.contains_key(link_id)
            &&& r is Ok && r->Ok_0.rejected && r->Ok_0.announce is None && r->Ok_0.seed is None
        }),
{
}

/// The larger address keeps its inbound session when its own handshake
/// completes late: the peer's indices do not change.
pub proof fn cross_connection_loser_keeps_session(
    t: TablesModel,
    our_addr: NodeAddr,
    m: InboundMsg2,
    link_id: u64,
    peer: NodeAddr,
)
    requires
        t.peers.contains_key(peer.value),
        peer.value < our_addr.value,
    ensures
        t.resolve_cross(our_addr, m, link_id, peer).0.peers == t.peers,
        t.resolve_cross(our_addr, m, link_id, peer).0.peers_by_index == t.peers_by_index,
{
}

} // verus!
