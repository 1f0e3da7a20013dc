//! Handshakes: who is admitted, what counts as a restart or a rekey, and what the
//! tables hold afterwards.

use crate::identity::NodeAddr;
use crate::node::handshake::{
    epoch_changed, wins_cross_connection, Completed, HandshakeReject,
    InboundHandshake, InboundMsg2, MissingField, Msg1Start, Msg1Verdict, Msg1Waiver, Msg2Source,
    Msg2Start, NodeError, OpenedMsg1, PromotionResult, Settlement,
};
use crate::node::tables::{
    addr_key, index_key, ConnectionRecord, PeerRecord, TablesModel,
};
use vstd::prelude::*;

verus! {

/// Two known epochs tell of a restart exactly if they differ, whichever is the
/// larger; an unknown one never does.
pub proof fn any_difference_of_epochs_is_a_change(a: u64, b: u64, x: Option<u64>)
    ensures
        epoch_changed(Some(a), Some(b)) <==> a != b,
        !epoch_changed(None, x),
        !epoch_changed(x, None),
{
}

/// A known peer whose peering has been idle for fifteen seconds and that has not
/// restarted within fifteen seconds is taken to have restarted exactly if the epoch
/// it announces differs from the one on file, in either direction.
pub proof fn restart_follows_the_epochs(
    t: TablesModel,
    our_addr: NodeAddr,
    opened: OpenedMsg1,
    a: u64,
    b: u64,
)
    requires
        opened.waiver == Msg1Waiver::NotNeeded || opened.waiver == Msg1Waiver::Expect(opened.peer),
        t.peers.contains_key(opened.peer.value),
        t.peers[opened.peer.value].remote_epoch == Some(a),
        opened.epoch == Some(b),
        opened.peering_idle_ms >= 15_000,
        t.restart_dampener.contains_key(opened.peer.value) ==> opened.now_ns
            >= t.restart_dampener[opened.peer.value] + 15_000_000_000,
    ensures
        t.msg1_verdict(our_addr, opened) == Msg1Verdict::Restart <==> a != b,
{
}

/// A message never counts as a restart if an epoch is unknown, if the peer is
/// unknown, while its peering carried traffic within fifteen seconds, or within
/// fifteen seconds of an accepted restart; a differing epoch is then refused.
pub proof fn restart_is_never_premature(t: TablesModel, our_addr: NodeAddr, opened: OpenedMsg1)
    requires
        ({
            let key = opened.peer.value;
            ||| !t.peers.contains_key(key)
            ||| opened.epoch is None
            ||| t.peers[key].remote_epoch is None
            ||| opened.peering_idle_ms < 15_000
            ||| t.restart_dampener.contains_key(key) && opened.now_ns < t.restart_dampener[key]
                + 15_000_000_000
        }),
    ensures
        t.msg1_verdict(our_addr, opened) != Msg1Verdict::Restart,
        t.peers.contains_key(opened.peer.value) && opened.epoch is Some
            && t.peers[opened.peer.value].remote_epoch is Some
            && t.peers[opened.peer.value].remote_epoch != opened.epoch ==> t.msg1_verdict(
            our_addr,
            opened,
        ) == Msg1Verdict::Refused(HandshakeReject::BadState),
{
}

/// A new peer whose waiver is met is accepted exactly while there is room for it,
/// or a handshake with it is under way.
pub proof fn newcomers_are_accepted_while_there_is_room(
    t: TablesModel,
    our_addr: NodeAddr,
    opened: OpenedMsg1,
)
    requires
        opened.waiver == Msg1Waiver::NotNeeded || opened.waiver == Msg1Waiver::Expect(opened.peer),
        !t.peers.contains_key(opened.peer.value),
    ensures
        ({
            let v = t.msg1_verdict(our_addr, opened);
            let room = t.max_peers == 0 || t.peers.len() < t.max_peers;
            &&& room ==> v == Msg1Verdict::Accept
            &&& !room && (exists|l: u64| #[trigger]
                t.connections.contains_key(l) && t.connections[l].identity == Some(
                    opened.peer.value,
                )) ==> v == Msg1Verdict::Accept
            &&& !room && !(exists|l: u64| #[trigger]
                t.connections.contains_key(l) && t.connections[l].identity == Some(
                    opened.peer.value,
                )) ==> v == Msg1Verdict::Refused(HandshakeReject::BadState)
        }),
{
}

/// Of a known peer with an unchanged epoch, a message is a rekey only if rekeying
/// is on and the session is there, healthy and thirty seconds old; it is then
/// refused while another session waits, and, where both sides began, by the smaller
/// address. Every other such message is a duplicate.
pub proof fn rekey_needs_a_settled_session(t: TablesModel, our_addr: NodeAddr, opened: OpenedMsg1)
    requires
        opened.waiver == Msg1Waiver::NotNeeded || opened.waiver == Msg1Waiver::Expect(opened.peer),
        t.peers.contains_key(opened.peer.value),
        t.peers[opened.peer.value].remote_epoch == opened.epoch || opened.epoch is None
            || t.peers[opened.peer.value].remote_epoch is None,
    ensures
        ({
            let p = t.peers[opened.peer.value];
            let v = t.msg1_verdict(our_addr, opened);
            let settled = opened.rekey_enabled && p.has_session && p.is_healthy
                && opened.session_age_secs >= 30;
            &&& !settled ==> v == (Msg1Verdict::Duplicate { resend: p.has_msg2 })
            &&& settled && p.pending_session is Some ==> v == Msg1Verdict::Refused(
                HandshakeReject::BadState,
            )
            &&& settled && p.pending_session is None && p.rekey is None ==> v == (
            Msg1Verdict::Rekey { abandon_ours: false })
            &&& settled && p.pending_session is None && p.rekey is Some && our_addr.value
                < opened.peer.value ==> v == Msg1Verdict::Refused(HandshakeReject::BadState)
            &&& settled && p.pending_session is None && p.rekey is Some && our_addr.value
                > opened.peer.value ==> v == (Msg1Verdict::Rekey { abandon_ours: true })
        }),
{
}

/// An accepted restart forgets the peer, schedules a reconnect, and is stamped with
/// its time; stamps of the last fifteen seconds stay and older ones go.
pub proof fn accepted_restart_is_stamped(
    t: TablesModel,
    peer: NodeAddr,
    now_ns: u128,
    other: u128,
)
    requires
        other != peer.value,
    ensures
        ({
            let after = t.with_restart(peer, now_ns);
            &&& !after.peers.contains_key(peer.value)
            &&& after.retry_pending.contains(peer.value)
            &&& after.restart_dampener.contains_key(peer.value)
            &&& after.restart_dampener[peer.value] == now_ns
            &&& t.peers.contains_key(other) ==> after.peers.contains_key(other)
                && after.peers[other] == t.peers[other]
            &&& t.restart_dampener.contains_key(other) && t.restart_dampener[other] <= now_ns ==> (
            after.restart_dampener.contains_key(other) <==> now_ns - t.restart_dampener[other]
                < 15_000_000_000)
            &&& after.restart_dampener.contains_key(other) ==> t.restart_dampener.contains_key(
                other,
            ) && after.restart_dampener[other] == t.restart_dampener[other]
            &&& after.connections == t.connections && after.links == t.links
        }),
{
}

/// A stranger on a transport that takes none is turned away, and on any other its
/// message is opened without anything to confirm.
pub proof fn strangers_need_an_open_transport(
    t: TablesModel,
    transport_id: u32,
    addr: u64,
    r: Msg1Start,
)
    requires
        t.msg1_starts(transport_id, addr, true, r),
        !t.addr_to_link.contains_key(addr_key(transport_id, addr)),
        forall|a: u128| #[trigger]
            t.peers.contains_key(a) ==> t.peers[a].transport_id != Some(transport_id)
                || t.peers[a].current_addr != Some(addr),
    ensures
        t.accepting.contains_key(transport_id) && !t.accepting[transport_id] ==> r
            == Msg1Start::Refused(HandshakeReject::BadState),
        !t.accepting.contains_key(transport_id) || t.accepting[transport_id] ==> r == (
        Msg1Start::Proceed { waiver: Msg1Waiver::NotNeeded, possible_restart: false }),
{
}

/// An active peer reaches its node from the address it was last seen at, whatever
/// the transport takes; where the transport takes no strangers, the message must
/// then prove to be that peer's.
pub proof fn active_peers_are_always_heard(
    t: TablesModel,
    transport_id: u32,
    addr: u64,
    who: NodeAddr,
    r: Msg1Start,
)
    requires
        t.msg1_starts(transport_id, addr, true, r),
        !t.addr_to_link.contains_key(addr_key(transport_id, addr)),
        t.peers.contains_key(who.value),
        t.peers[who.value].transport_id == Some(transport_id),
        t.peers[who.value].current_addr == Some(addr),
        forall|a: u128| #[trigger]
            t.peers.contains_key(a) && t.peers[a].transport_id == Some(transport_id)
                && t.peers[a].current_addr == Some(addr) ==> a == who.value,
    ensures
        r is Proceed,
        t.accepting.contains_key(transport_id) && !t.accepting[transport_id] ==> r->waiver
            == Msg1Waiver::Expect(who),
        !t.accepting.contains_key(transport_id) || t.accepting[transport_id] ==> r->waiver
            == Msg1Waiver::NotNeeded,
{
    assert(t.peer_is_at(who.value, transport_id, addr));
    assert(t.is_established(transport_id, addr));
    assert(t.is_attributed(transport_id, addr, who.value));
    assert(forall|x: u128| t.is_attributed(transport_id, addr, x) ==> x == who.value);
}

/// A message on the link of a handshake in flight from the other side is answered
/// with what is stored there, or refused where nothing is, and never opened again.
pub proof fn handshake_in_flight_is_answered_again(
    t: TablesModel,
    transport_id: u32,
    addr: u64,
    link: u64,
    r: Msg1Start,
)
    requires
        t.msg1_starts(transport_id, addr, true, r),
        t.addr_to_link.contains_key(addr_key(transport_id, addr)),
        t.addr_to_link[addr_key(transport_id, addr)] == link,
        t.links.contains_key(link),
        t.links[link].inbound,
        forall|a: u128| #[trigger] t.peers.contains_key(a) ==> t.peers[a].link_id != link,
    ensures
        t.connections.contains_key(link) && t.connections[link].has_msg2 ==> r == Msg1Start::Resend(
            link,
            Msg2Source::Connection,
        ),
        !t.connections.contains_key(link) || !t.connections[link].has_msg2 ==> r
            == Msg1Start::Refused(HandshakeReject::UnknownConnection),
{
    assert(t.is_established(transport_id, addr));
    assert(t.connections.contains_key(link) && t.connections[link].has_msg2 ==> t.stores_msg2(
        link,
        Msg2Source::Connection,
    ));
}

/// A message on the link of an active peer is opened, and may tell of a restart; one
/// on a link that we opened and that has no peer yet is opened, and tells of none.
pub proof fn known_links_are_opened(
    t: TablesModel,
    transport_id: u32,
    addr: u64,
    link: u64,
    who: u128,
    r: Msg1Start,
)
    requires
        t.msg1_starts(transport_id, addr, true, r),
        t.addr_to_link.contains_key(addr_key(transport_id, addr)),
        t.addr_to_link[addr_key(transport_id, addr)] == link,
        t.links.contains_key(link),
    ensures
        t.peers.contains_key(who) && t.peers[who].link_id == link ==> r is Proceed
            && r->possible_restart,
        !t.links[link].inbound && (forall|a: u128| #[trigger]
            t.peers.contains_key(a) ==> t.peers[a].link_id != link) ==> r is Proceed
            && !r->possible_restart,
{
    assert(t.is_established(transport_id, addr));
    assert(t.peers.contains_key(who) && t.peers[who].link_id == link ==> t.link_has_peer(link));
}

/// On a transport that takes no strangers, a message on a link that names somebody
/// is expected to be from them: from the peer on that link, or with no peer on it
/// from whom its handshake names. Where the link names nobody and no peer was last
/// seen at the address, it is not to be trusted.
pub proof fn closed_transport_expects_whom_the_link_names(
    t: TablesModel,
    transport_id: u32,
    addr: u64,
    link: u64,
    who: NodeAddr,
    r: Msg1Start,
)
    requires
        t.msg1_starts(transport_id, addr, true, r),
        t.accepting.contains_key(transport_id),
        !t.accepting[transport_id],
        t.addr_to_link.contains_key(addr_key(transport_id, addr)),
        t.addr_to_link[addr_key(transport_id, addr)] == link,
        t.links.contains_key(link),
        !t.links[link].inbound,
    ensures
        r is Proceed,
        t.peers.contains_key(who.value) && t.peers[who.value].link_id == link ==> r->waiver
            is Expect && t.peers.contains_key(r->waiver->Expect_0.value) && t.peers[
            r->waiver->Expect_0.value
        ].link_id == link,
        (forall|a: u128| #[trigger] t.peers.contains_key(a) ==> t.peers[a].link_id != link)
            && t.connections.contains_key(link) && t.connections[link].identity == Some(who.value)
            ==> r->waiver == Msg1Waiver::Expect(who),
        (forall|a: u128| #[trigger]
            t.peers.contains_key(a) ==> t.peers[a].link_id != link && t.peers[a].current_addr
                != Some(addr)) && (!t.connections.contains_key(link)
            || t.connections[link].identity is None) ==> r->waiver == Msg1Waiver::Unattributed,
{
    assert(t.is_established(transport_id, addr));
    let w = r->waiver;
    if t.peers.contains_key(who.value) && t.peers[who.value].link_id == link {
        assert(t.link_has_peer(link));
        assert(t.link_names(transport_id, addr, who.value));
        assert(t.is_attributed(transport_id, addr, who.value));
    }
    if (forall|a: u128| #[trigger] t.peers.contains_key(a) ==> t.peers[a].link_id != link)
        && t.connections.contains_key(link) && t.connections[link].identity == Some(who.value) {
        assert(!t.link_has_peer(link));
        assert(t.link_names(transport_id, addr, who.value));
        assert(t.is_attributed(transport_id, addr, who.value));
    }
}

/// A message without a valid header is always refused.
pub proof fn broken_headers_are_refused(
    t: TablesModel,
    transport_id: u32,
    addr: u64,
    r: Msg1Start,
    m: InboundMsg2,
    after: TablesModel,
    s: Msg2Start,
)
    requires
        t.msg1_starts(transport_id, addr, false, r),
        t.msg2_starts(m, false, after, s),
    ensures
        r == Msg1Start::Refused(HandshakeReject::BadState),
        s == Msg2Start::Refused(HandshakeReject::BadState),
        after == t,
{
}

/// A connection that a promotion could use: it has a session and all that a peer
/// needs.
pub open spec fn is_complete(c: ConnectionRecord) -> bool {
    c.has_session && c.our_index is Some && c.their_index is Some && c.transport_id is Some
        && c.source_addr is Some
}

/// Whether the tables file a peer under the link, indices, address and epoch of a
/// connection.
pub open spec fn files_peer(t: TablesModel, peer: u128, link_id: u64, c: ConnectionRecord) -> bool {
    let p = t.peers[peer];
    &&& t.peers.contains_key(peer)
    &&& p.link_id == link_id && p.our_index == c.our_index && p.their_index == c.their_index
    &&& p.transport_id == c.transport_id && p.current_addr == c.source_addr
    &&& p.remote_epoch == c.remote_epoch && p.is_outbound == c.is_outbound
    &&& p.has_session && p.is_healthy && p.rekey is None && p.pending_session is None
    &&& t.peers_by_index.contains_key(index_key(c.transport_id->0, c.our_index->0))
    &&& t.peers_by_index[index_key(c.transport_id->0, c.our_index->0)] == peer
}

/// Promoting a complete connection of a new peer, while there is room, files the
/// peer under it and leaves every other peer alone; a full node files nobody and
/// gives the index back.
pub proof fn promotion_files_a_new_peer(
    t: TablesModel,
    our_addr: NodeAddr,
    link_id: u64,
    peer: NodeAddr,
    other: u128,
)
    requires
        t.connections.contains_key(link_id),
        is_complete(t.connections[link_id]),
        !t.peers.contains_key(peer.value),
        other != peer.value,
    ensures
        ({
            let c = t.connections[link_id];
            let (after, r) = t.promote(our_addr, link_id, peer);
            let room = t.max_peers == 0 || t.peers.len() < t.max_peers;
            &&& !after.connections.contains_key(link_id)
            &&& after.peers.contains_key(other) == t.peers.contains_key(other)
            &&& after.peers.contains_key(other) ==> after.peers[other] == t.peers[other]
            &&& room ==> {
                &&& r == Ok::<PromotionResult, NodeError>(PromotionResult::Promoted(peer))
                &&& files_peer(after, peer.value, link_id, c)
                &&& !after.peers[peer.value].has_msg2
                &&& !after.retry_pending.contains(peer.value)
                &&& after.indices == t.indices && after.sessions == t.sessions
            }
            &&& !room ==> {
                &&& r is Err && r->Err_0 is MaxPeersExceeded
                &&& !after.peers.contains_key(peer.value)
                &&& !after.indices.contains(c.our_index->0)
            }
        }),
{
}

/// Promoting a complete connection of an active peer replaces its connection exactly
/// if the epochs differ or the connection is the one that the smaller address
/// initiated. What is replaced gives its index back, and the end-to-end session goes
/// only with a restart.
pub proof fn promotion_of_an_active_peer(
    t: TablesModel,
    our_addr: NodeAddr,
    link_id: u64,
    peer: NodeAddr,
)
    requires
        t.connections.contains_key(link_id),
        is_complete(t.connections[link_id]),
        t.peers.contains_key(peer.value),
        our_addr != peer,
    ensures
        ({
            let c = t.connections[link_id];
            let old = t.peers[peer.value];
            let (after, r) = t.promote(our_addr, link_id, peer);
            let restarted = old.remote_epoch is Some && c.remote_epoch is Some && old.remote_epoch
                != c.remote_epoch;
            let wins = restarted || c.is_outbound && our_addr.value < peer.value || !c.is_outbound
                && our_addr.value > peer.value;
            &&& !after.connections.contains_key(link_id)
            &&& wins ==> {
                &&& r == Ok::<PromotionResult, NodeError>(
                    PromotionResult::CrossConnectionWon {
                        loser_link_id: old.link_id,
                        node_addr: peer,
                    },
                )
                &&& files_peer(after, peer.value, link_id, c)
                &&& after.sessions.contains(peer.value) == (t.sessions.contains(peer.value)
                    && !restarted)
                &&& old.transport_id is Some && old.our_index is Some && index_key(
                    old.transport_id->0,
                    old.our_index->0,
                ) != index_key(c.transport_id->0, c.our_index->0) ==> !after.indices.contains(
                    old.our_index->0,
                ) && !after.peers_by_index.contains_key(
                    index_key(old.transport_id->0, old.our_index->0),
                )
            }
            &&& !wins ==> {
                &&& r == Ok::<PromotionResult, NodeError>(
                    PromotionResult::CrossConnectionLost { winner_link_id: old.link_id },
                )
                &&& after.peers == t.peers && after.sessions == t.sessions
                &&& !after.indices.contains(c.our_index->0)
            }
        }),
{
}

/// A connection that is missing, has no session or lacks something a peer needs is
/// not promoted, and says what is wrong; no peer changes.
pub proof fn incomplete_connections_are_not_promoted(
    t: TablesModel,
    our_addr: NodeAddr,
    link_id: u64,
    peer: NodeAddr,
)
    requires
        !t.connections.contains_key(link_id) || !is_complete(t.connections[link_id]),
    ensures
        ({
            let c = t.connections[link_id];
            let (after, r) = t.promote(our_addr, link_id, peer);
            let there = t.connections.contains_key(link_id);
            &&& after.peers == t.peers && after.peers_by_index == t.peers_by_index
            &&& r is Err
            &&& !there ==> r->Err_0 == NodeError::ConnectionNotFound(link_id)
            &&& there && !c.has_session ==> r->Err_0 == NodeError::HandshakeIncomplete(link_id)
            &&& there && c.has_session && c.our_index is None ==> r->Err_0 == (
            NodeError::PromotionFailed { link_id, reason: MissingField::OurIndex })
            &&& there && c.has_session && c.our_index is Some && c.their_index is None
                ==> r->Err_0 == (NodeError::PromotionFailed {
                link_id,
                reason: MissingField::TheirIndex,
            })
        }),
{
}

/// Of two nodes with crossing handshakes, both keep the one that the smaller address
/// initiated; towards our own address what came in stays.
pub proof fn smaller_address_initiates(a: NodeAddr, b: NodeAddr)
    requires
        a.value < b.value,
    ensures
        wins_cross_connection(a, b, true),
        wins_cross_connection(b, a, false),
        !wins_cross_connection(a, b, false),
        !wins_cross_connection(b, a, true),
        wins_cross_connection(a, a, false),
        !wins_cross_connection(a, a, true),
{
}

/// An accepted msg1 is on file with its link, address, indices, identity and epoch,
/// ready to be answered again.
pub proof fn accepted_handshake_is_on_file(t: TablesModel, h: InboundHandshake, our_index: u32)
    ensures
        ({
            let after = t.with_inbound(h, our_index);
            let c = after.connections[h.link_id];
            &&& after.connections.contains_key(h.link_id) && after.links.contains_key(h.link_id)
            &&& c.identity == Some(h.peer.value) && c.our_index == Some(our_index)
            &&& c.their_index == Some(h.sender_idx) && c.transport_id == Some(h.transport_id)
            &&& c.source_addr == Some(h.remote_addr) && c.remote_epoch == h.epoch
            &&& !c.is_outbound && c.has_session == h.has_session && c.has_msg2
            &&& after.links[h.link_id].inbound
            &&& after.links[h.link_id].transport_id == h.transport_id
            &&& after.links[h.link_id].remote_addr == h.remote_addr
            &&& after.addr_to_link[addr_key(h.transport_id, h.remote_addr)] == h.link_id
            &&& after.indices.contains(our_index)
            &&& after.peers == t.peers
        }),
{
}

/// An accepted msg1 whose msg2 went out makes a new peer, while there is room, that
/// is announced to, keeps its msg2 for resending, and is reached over its link.
pub proof fn inbound_handshake_ends_in_a_peer(
    t: TablesModel,
    our_addr: NodeAddr,
    h: InboundHandshake,
    our_index: u32,
)
    requires
        h.has_session,
        !t.peers.contains_key(h.peer.value),
        t.max_peers == 0 || t.peers.len() < t.max_peers,
    ensures
        ({
            let accepted = t.with_inbound(h, our_index);
            let (after, r) = accepted.finish_inbound(our_addr, h, our_index, true);
            let p = after.peers[h.peer.value];
            &&& r == Ok::<Settlement, HandshakeReject>(
                Settlement {
                    announce: Some(h.peer),
                    close: None,
                    rejected: false,
                    seed: Some(h.peer),
                },
            )
            &&& after.peers.contains_key(h.peer.value)
            &&& p.link_id == h.link_id && p.our_index == Some(our_index) && p.their_index == Some(
                h.sender_idx,
            )
            &&& p.has_msg2 && p.remote_epoch == h.epoch && !p.is_outbound
            &&& after.peers_by_index[index_key(h.transport_id, our_index)] == h.peer.value
            &&& after.addr_to_link[addr_key(h.transport_id, h.remote_addr)] == h.link_id
            &&& after.links.contains_key(h.link_id)
        }),
{
}

/// A crossing handshake of the other side that loses is closed and forgotten, and
/// its address leads to the link that stays; one that wins closes and forgets the
/// link it replaces.
pub proof fn crossing_inbound_leaves_one_link(
    t: TablesModel,
    our_addr: NodeAddr,
    h: InboundHandshake,
    our_index: u32,
)
    requires
        h.has_session,
        t.peers.contains_key(h.peer.value),
        t.peers[h.peer.value].remote_epoch == h.epoch,
        t.links.contains_key(t.peers[h.peer.value].link_id),
        t.peers[h.peer.value].link_id != h.link_id,
        our_addr != h.peer,
    ensures
        ({
            let old = t.peers[h.peer.value];
            let link = t.links[old.link_id];
            let (after, r) = t.with_inbound(h, our_index).finish_inbound(
                our_addr,
                h,
                our_index,
                true,
            );
            &&& r is Ok && !r->Ok_0.rejected
            &&& our_addr.value < h.peer.value ==> {
                &&& after.peers[h.peer.value] == old
                &&& !after.links.contains_key(h.link_id)
                &&& after.links.contains_key(old.link_id)
                &&& after.addr_to_link[addr_key(h.transport_id, h.remote_addr)] == old.link_id
                &&& r->Ok_0.close == Some((h.transport_id, h.remote_addr))
                &&& r->Ok_0.announce is None
            }
            &&& our_addr.value > h.peer.value ==> {
                &&& after.peers[h.peer.value].link_id == h.link_id
                &&& after.peers[h.peer.value].has_msg2
                &&& after.links.contains_key(h.link_id)
                &&& !after.links.contains_key(old.link_id)
                &&& r->Ok_0.close == Some((link.transport_id, link.remote_addr))
                &&& r->Ok_0.announce == Some(h.peer)
            }
        }),
{
}

/// A handshake of ours on a new peer that completes, and that may connect, makes a
/// peer with the index that the msg2 chose, is announced to, and is open no more.
pub proof fn outbound_handshake_ends_in_a_peer(
    t: TablesModel,
    our_addr: NodeAddr,
    m: InboundMsg2,
    link_id: u64,
    peer: NodeAddr,
    epoch: Option<u64>,
)
    requires
        t.connections.contains_key(link_id),
        t.connections[link_id].our_index is Some,
        t.connections[link_id].transport_id is Some,
        !t.peers.contains_key(peer.value),
        t.max_peers == 0 || t.peers.len() < t.max_peers,
    ensures
        ({
            let c = t.connections[link_id];
            let done = Some(Completed { identity: Some(peer.value), epoch });
            let (after, r) = t.with_completion(m, link_id, done).finish_outbound(
                our_addr,
                m,
                link_id,
                peer,
                c.our_index,
                true,
            );
            let p = after.peers[peer.value];
            &&& r is Ok && r->Ok_0.announce == Some(peer) && r->Ok_0.seed == Some(peer)
            &&& r->Ok_0.close is None && !r->Ok_0.rejected
            &&& after.peers.contains_key(peer.value)
            &&& p.link_id == link_id && p.our_index == c.our_index && p.their_index == Some(
                m.sender_idx,
            )
            &&& p.current_addr == Some(m.remote_addr) && p.remote_epoch == epoch
            &&& after.peers_by_index[index_key(c.transport_id->0, c.our_index->0)] == peer.value
            &&& !after.pending_outbound.contains_key(index_key(m.transport_id, m.receiver_idx))
            &&& !after.connections.contains_key(link_id)
        }),
{
}

/// A handshake of ours that fails keeps its place and is marked.
pub proof fn failed_handshake_is_marked(t: TablesModel, m: InboundMsg2, link_id: u64)
    requires
        t.connections.contains_key(link_id),
    ensures
        t.with_completion(m, link_id, None).connections[link_id].failed,
        t.with_completion(m, link_id, None).peers == t.peers,
        t.with_completion(m, link_id, None).pending_outbound == t.pending_outbound,
        t.with_completion(m, link_id, None).connections[link_id].has_session
            == t.connections[link_id].has_session,
{
}

/// When a handshake of ours completes although its peer is active already, the
/// smaller address moves the peer to the new session and gives the old index back,
/// the larger gives the new index back; either way one link is closed.
pub proof fn crossing_outbound_leaves_one_session(
    t: TablesModel,
    our_addr: NodeAddr,
    m: InboundMsg2,
    link_id: u64,
    peer: NodeAddr,
)
    requires
        t.peers.contains_key(peer.value),
        t.peers[peer.value].transport_id is Some,
        t.peers[peer.value].our_index is Some,
        t.connections.contains_key(link_id),
        t.connections[link_id].has_session,
        t.connections[link_id].our_index is Some,
        t.connections[link_id].our_index != t.peers[peer.value].our_index,
        t.links.contains_key(link_id),
        our_addr != peer,
    ensures
        ({
            let c = t.connections[link_id];
            let old = t.peers[peer.value];
            let tid = old.transport_id->0;
            let (after, r) = t.finish_outbound(our_addr, m, link_id, peer, c.our_index, true);
            let p = after.peers[peer.value];
            &&& r is Ok && r->Ok_0.announce == Some(peer) && !r->Ok_0.rejected
            &&& r->Ok_0.close == Some((t.links[link_id].transport_id, t.links[link_id].remote_addr))
            &&& !after.links.contains_key(link_id) && !after.connections.contains_key(link_id)
            &&& !after.pending_outbound.contains_key(index_key(m.transport_id, m.receiver_idx))
            &&& after.peers.contains_key(peer.value)
            &&& our_addr.value < peer.value ==> {
                &&& p.our_index == c.our_index && p.their_index == Some(m.sender_idx)
                &&& after.peers_by_index[index_key(tid, c.our_index->0)] == peer.value
                &&& !after.peers_by_index.contains_key(index_key(tid, old.our_index->0))
                &&& !after.indices.contains(old.our_index->0)
                &&& p.link_id == old.link_id && p.remote_epoch == old.remote_epoch
            }
            &&& our_addr.value > peer.value ==> {
                &&& p == old
                &&& !after.indices.contains(c.our_index->0)
                &&& after.peers_by_index == t.peers_by_index
            }
        }),
{
}

/// A msg2 reaches exactly the handshake or the rekey that its index was issued for.
pub proof fn msg2_finds_what_it_answers(
    t: TablesModel,
    m: InboundMsg2,
    after: TablesModel,
    r: Msg2Start,
    peer: u128,
)
    requires
        t.msg2_starts(m, true, after, r),
    ensures
        ({
            let key = index_key(m.transport_id, m.receiver_idx);
            let pending = t.pending_outbound.contains_key(key);
            let link = t.pending_outbound[key];
            &&& !pending ==> r == Msg2Start::Refused(HandshakeReject::UnknownConnection) && after
                == t
            &&& pending && t.connections.contains_key(link) ==> r == Msg2Start::Handshake(link)
                && after == t
            &&& pending && !t.connections.contains_key(link) && t.peers.contains_key(peer)
                && t.peers[peer].rekey == Some(m.receiver_idx) ==> r is Rekey && t.peers[
                r->Rekey_0.value
            ].rekey == Some(m.receiver_idx) && after == t
            &&& pending && !t.connections.contains_key(link) && (forall|a: u128| #[trigger]
                t.peers.contains_key(a) ==> t.peers[a].rekey != Some(m.receiver_idx)) ==> r
                == Msg2Start::Refused(HandshakeReject::BadState)
                && !after.pending_outbound.contains_key(key) && after.peers == t.peers
        }),
{
    assert(t.peers.contains_key(peer) && t.peers[peer].rekey == Some(m.receiver_idx)
        ==> t.rekeys_with(peer, m.receiver_idx));
}

/// Giving up a rekey that is not open changes nothing.
pub proof fn no_rekey_is_nothing_to_give_up(t: TablesModel, peer: NodeAddr)
    requires
        t.peers.contains_key(peer.value) ==> t.peers[peer.value].rekey is None,
    ensures
        t.without_rekey(peer) == t,
{
}

/// A rekey of ours that completes waits with its index and the peer's, is filed
/// under our index, and takes over the epoch that came with it; the end-to-end
/// session goes exactly if the epoch changed.
pub proof fn completed_rekey_waits_for_cutover(
    t: TablesModel,
    m: InboundMsg2,
    peer: NodeAddr,
    epoch: Option<u64>,
    index: u32,
)
    requires
        t.peers.contains_key(peer.value),
        t.peers[peer.value].rekey == Some(index),
    ensures
        ({
            let old = t.peers[peer.value];
            let after = t.with_completed_rekey(m, peer, epoch);
            let p = after.peers[peer.value];
            let restarted = old.remote_epoch is Some && epoch is Some && old.remote_epoch != epoch;
            &&& after.peers.contains_key(peer.value)
            &&& p.pending_session == Some((index, m.sender_idx)) && p.rekey is None
            &&& p.remote_epoch == if epoch is Some {
                epoch
            } else {
                old.remote_epoch
            }
            &&& p.our_index == old.our_index && p.their_index == old.their_index
            &&& p.link_id == old.link_id
            &&& old.transport_id is Some ==> after.peers_by_index[index_key(
                old.transport_id->0,
                index,
            )] == peer.value
            &&& after.sessions.contains(peer.value) == (t.sessions.contains(peer.value)
                && !restarted)
        }),
{
}

/// A rekey that is given up or fails frees its index and files it nowhere; the
/// peer's session stays.
pub proof fn abandoned_rekey_frees_its_index(t: TablesModel, peer: NodeAddr, index: u32, tid: u32)
    requires
        t.peers.contains_key(peer.value),
        t.peers[peer.value].rekey == Some(index),
        t.peers[peer.value].transport_id == Some(tid),
    ensures
        ({
            let given_up = t.without_rekey(peer);
            let failed = t.with_failed_rekey(peer);
            let old = t.peers[peer.value];
            &&& given_up.peers[peer.value] == (PeerRecord { rekey: None, ..old })
            &&& failed.peers[peer.value] == (PeerRecord { rekey: None, ..old })
            &&& !given_up.indices.contains(index) && !failed.indices.contains(index)
            &&& !given_up.peers_by_index.contains_key(index_key(tid, index))
            &&& !failed.peers_by_index.contains_key(index_key(tid, index))
            &&& !given_up.pending_outbound.contains_key(index_key(tid, index))
            &&& given_up.sessions == t.sessions && failed.sessions == t.sessions
        }),
{
}

/// A rekey answered as responder waits with both indices, is filed under ours, and
/// leaves the peer's present session alone.
pub proof fn answered_rekey_waits_for_cutover(
    t: TablesModel,
    peer: NodeAddr,
    tid: u32,
    ours: u32,
    theirs: u32,
)
    requires
        t.peers.contains_key(peer.value),
    ensures
        ({
            let after = t.with_pending_session(peer, tid, ours, theirs);
            let old = t.peers[peer.value];
            let p = after.peers[peer.value];
            &&& p.pending_session == Some((ours, theirs)) && p.rekey is None
            &&& p.our_index == old.our_index && p.their_index == old.their_index
            &&& p.has_session == old.has_session && p.remote_epoch == old.remote_epoch
            &&& after.indices.contains(ours)
            &&& after.peers_by_index[index_key(tid, ours)] == peer.value
            &&& after.addr_to_link == t.addr_to_link && after.connections == t.connections
        }),
{
}

/// A peer that the access control list refuses is dropped with its link, its open
/// handshake and its index.
pub proof fn refused_peer_leaves_nothing(
    t: TablesModel,
    our_addr: NodeAddr,
    m: InboundMsg2,
    link_id: u64,
    peer: NodeAddr,
    index: u32,
)
    requires
        t.links.contains_key(link_id),
    ensures
        ({
            let (after, r) = t.finish_outbound(our_addr, m, link_id, peer, Some(index), false);
            let link = t.links[link_id];
            &&& after.peers == t.peers
            &&& !after.links.contains_key(link_id) && !after.connections.contains_key(link_id)
            &&& !after.addr_to_link.contains_key(addr_key(link.transport_id, link.remote_addr))
            &&& !after.pending_outbound.contains_key(index_key(m.transport_id, m.receiver_idx))
            &&& !after.indices.contains(index)
            &&& r is Ok && r->Ok_0.rejected
            &&& r->Ok_0.close == Some((link.transport_id, link.remote_addr))
        }),
{
}

/// Forgetting a link forgets its own address and nothing else.
pub proof fn forgotten_link_takes_its_address(t: TablesModel, link_id: u64, other: u64, key: u128)
    requires
        t.links.contains_key(link_id),
        other != link_id,
        key != addr_key(t.links[link_id].transport_id, t.links[link_id].remote_addr),
    ensures
        ({
            let after = t.without_link(link_id);
            &&& !after.links.contains_key(link_id)
            &&& !after.addr_to_link.contains_key(
                addr_key(t.links[link_id].transport_id, t.links[link_id].remote_addr),
            )
            &&& after.links.contains_key(other) == t.links.contains_key(other)
            &&& after.addr_to_link.contains_key(key) == t.addr_to_link.contains_key(key)
            &&& after.peers == t.peers && after.connections == t.connections
        }),
{
}

/// A promotion of ours that fails changes nothing more, announces nobody and counts
/// as rejected; one that works is never rejected.
pub proof fn failed_promotion_is_rejected(
    t: TablesModel,
    m: InboundMsg2,
    link_id: u64,
    e: NodeError,
    r: PromotionResult,
)
    ensures
        ({
            let (after, settled) = t.settle_outbound(m, link_id, Err(e));
            &&& after == t
            &&& settled.rejected && settled.announce is None && settled.close is None
            &&& settled.seed is None
        }),
        !t.settle_outbound(m, link_id, Ok(r)).1.rejected,
        r is Promoted ==> t.settle_outbound(m, link_id, Ok(r)).1.announce == Some(r->Promoted_0),
        r is CrossConnectionLost ==> t.settle_outbound(m, link_id, Ok(r)).1.announce is None,
{
}

/// A promotion of a peer's handshake that fails frees its index and its link,
/// announces nobody and counts as rejected; one that works is never rejected.
pub proof fn failed_inbound_promotion_is_rejected(
    t: TablesModel,
    h: InboundHandshake,
    our_index: u32,
    e: NodeError,
    r: PromotionResult,
)
    ensures
        ({
            let (after, settled) = t.settle_inbound(h, our_index, Err(e));
            &&& !after.indices.contains(our_index)
            &&& !after.links.contains_key(h.link_id)
            &&& after.peers == t.peers
            &&& settled.rejected && settled.announce is None && settled.close is None
            &&& settled.seed is None
        }),
        !t.settle_inbound(h, our_index, Ok(r)).1.rejected,
        r is Promoted ==> t.settle_inbound(h, our_index, Ok(r)).1.announce == Some(r->Promoted_0),
        r is CrossConnectionLost ==> t.settle_inbound(h, our_index, Ok(r)).1.announce is None,
{
}

} // verus!
