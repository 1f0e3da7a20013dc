//! Handshake decisions over the node's tables.

use fips::identity::NodeAddr;
use fips::node::handshake::{
    cross_connection_winner, peer_to_seed, Completed, HandshakeReject, InboundHandshake, InboundMsg2,
    MissingField, Msg1Class, Msg1Start, Msg1Verdict, Msg1Waiver, Msg2Source, Msg2Start, NodeError,
    OpenedMsg1, PromotionResult,
};
use fips::node::tables::{
    make_addr_key, make_index_key, ConnectionRecord, LinkRecord, NodeTables, PeerRecord,
};

const SEC: u128 = 1_000_000_000;

fn node(n: u8) -> NodeAddr {
    NodeAddr::from_bytes([n; 16])
}

fn peer_record(link_id: u64) -> PeerRecord {
    PeerRecord {
        link_id,
        transport_id: Some(1),
        current_addr: Some(100),
        our_index: Some(11),
        their_index: Some(22),
        remote_epoch: Some(5),
        is_outbound: false,
        has_session: true,
        is_healthy: true,
        pending_session: None,
        rekey: None,
        has_msg2: true,
    }
}

fn connection(is_outbound: bool) -> ConnectionRecord {
    ConnectionRecord {
        identity: Some(node(7).value),
        our_index: Some(31),
        their_index: Some(32),
        transport_id: Some(1),
        source_addr: Some(200),
        remote_epoch: Some(5),
        is_outbound,
        has_session: true,
        has_msg2: false,
        failed: false,
    }
}

fn opened(peer: NodeAddr) -> OpenedMsg1 {
    OpenedMsg1 {
        waiver: Msg1Waiver::NotNeeded,
        possible_restart: false,
        peer,
        epoch: Some(5),
        peering_idle_ms: 60_000,
        session_age_secs: 60,
        rekey_enabled: true,
        now_ns: 100 * SEC,
    }
}

/// Tables with one active peer on link 9 at address 100 of transport 1.
fn with_peer(peer: NodeAddr) -> NodeTables {
    let mut t = NodeTables::new(0);
    t.accepting.insert(1, true);
    t.links.insert(9, LinkRecord { transport_id: 1, remote_addr: 100, inbound: true });
    t.addr_to_link.insert(make_addr_key(1, 100), 9);
    t.peers.insert(peer.value, peer_record(9));
    t.peers_by_index.insert(make_index_key(1, 11), peer.value);
    t.indices.insert(11);
    t
}

#[test]
fn both_ends_keep_the_same_connection() {
    assert!(cross_connection_winner(&node(1), &node(2), true));
    assert!(cross_connection_winner(&node(2), &node(1), false));
    assert!(!cross_connection_winner(&node(1), &node(2), false));
    assert!(!cross_connection_winner(&node(2), &node(1), true));
}

#[test]
fn closed_transport_admits_only_established_links() {
    let mut t = with_peer(node(7));
    assert_eq!(t.msg1_class(1, 100), Msg1Class::EstablishedLink);
    assert_eq!(t.msg1_class(1, 101), Msg1Class::Stranger);
    t.accepting.insert(1, false);
    assert!(!t.should_admit_msg1(1, 101));
    assert_eq!(t.handle_msg1(1, 101, true), Msg1Start::Refused(HandshakeReject::BadState));
    assert!(t.is_established_link_msg1(1, 100));
    assert_eq!(t.msg1_waiver(true, 1, 100), Msg1Waiver::Expect(node(7)));
    match t.handle_msg1(1, 100, true) {
        Msg1Start::Proceed { waiver, possible_restart } => {
            assert_eq!(waiver, Msg1Waiver::Expect(node(7)));
            assert!(possible_restart);
        }
        _ => panic!("expected the handshake to go on"),
    }
    assert_eq!(t.handle_msg1(1, 100, false), Msg1Start::Refused(HandshakeReject::BadState));
}

#[test]
fn waiver_is_held_to_its_peer() {
    let t = with_peer(node(7));
    let mut other = opened(node(8));
    other.waiver = Msg1Waiver::Expect(node(7));
    assert_eq!(
        t.judge_msg1(&node(1), &other),
        Msg1Verdict::Refused(HandshakeReject::BadState)
    );
    other.waiver = Msg1Waiver::Unattributed;
    assert_eq!(
        t.judge_msg1(&node(1), &other),
        Msg1Verdict::Refused(HandshakeReject::BadState)
    );
    other.waiver = Msg1Waiver::Expect(node(8));
    assert_eq!(t.judge_msg1(&node(1), &other), Msg1Verdict::Accept);
}

#[test]
fn full_node_admits_only_known_peers() {
    let mut t = with_peer(node(7));
    t.max_peers = 1;
    assert_eq!(
        t.judge_msg1(&node(1), &opened(node(8))),
        Msg1Verdict::Refused(HandshakeReject::BadState)
    );
    let mut dialled = connection(true);
    dialled.identity = Some(node(8).value);
    t.connections.insert(4, dialled);
    assert!(t.is_connecting_to(node(8).value));
    assert_eq!(t.judge_msg1(&node(1), &opened(node(8))), Msg1Verdict::Accept);
}

#[test]
fn restarts_are_dampened() {
    let mut t = with_peer(node(7));
    let mut m = opened(node(7));
    m.epoch = Some(6);
    assert_eq!(t.judge_msg1(&node(1), &m), Msg1Verdict::Restart);
    t.note_restart(&node(7), 100 * SEC);
    assert!(t.restart_dampener.contains_key(&node(7).value));
    m.now_ns = 110 * SEC;
    let mut fresh = with_peer(node(7));
    fresh.restart_dampener.insert(node(7).value, 100 * SEC);
    assert_eq!(
        fresh.judge_msg1(&node(1), &m),
        Msg1Verdict::Refused(HandshakeReject::BadState)
    );
    m.now_ns = 115 * SEC;
    assert_eq!(fresh.judge_msg1(&node(1), &m), Msg1Verdict::Restart);
    m.peering_idle_ms = 14_999;
    assert_eq!(
        fresh.judge_msg1(&node(1), &m),
        Msg1Verdict::Refused(HandshakeReject::BadState)
    );
}

#[test]
fn rekeys_have_one_responder() {
    let mut t = with_peer(node(7));
    let m = opened(node(7));
    assert_eq!(t.judge_msg1(&node(1), &m), Msg1Verdict::Rekey { abandon_ours: false });
    t.peers.insert(node(7).value, PeerRecord { rekey: Some(40), ..peer_record(9) });
    // Both sides began: the smaller address goes on with its own.
    assert_eq!(t.judge_msg1(&node(1), &m), Msg1Verdict::Refused(HandshakeReject::BadState));
    assert_eq!(t.judge_msg1(&node(9), &m), Msg1Verdict::Rekey { abandon_ours: true });
    t.peers.insert(node(7).value, PeerRecord { pending_session: Some((1, 2)), ..peer_record(9) });
    assert_eq!(t.judge_msg1(&node(9), &m), Msg1Verdict::Refused(HandshakeReject::BadState));
    let mut young = m;
    young.session_age_secs = 29;
    assert_eq!(t.judge_msg1(&node(9), &young), Msg1Verdict::Duplicate { resend: true });
}

#[test]
fn rekey_answer_is_filed() {
    let mut t = with_peer(node(7));
    t.peers.insert(node(7).value, PeerRecord { rekey: Some(40), ..peer_record(9) });
    t.indices.insert(40);
    t.pending_outbound.insert(make_index_key(1, 40), 77);
    assert_eq!(t.peer_with_rekey(40), Some(node(7).value));
    t.abandon_rekey(&node(7));
    assert!(!t.indices.contains(&40));
    assert_eq!(t.peer_with_rekey(40), None);
    assert_eq!(t.answer_rekey(&node(7), 1, 55, Some(41), true, true), Ok(41));
    assert_eq!(t.peers[&node(7).value].pending_session, Some((41, 55)));
    let mut full = with_peer(node(7));
    assert_eq!(
        full.answer_rekey(&node(7), 1, 55, None, true, true),
        Err(HandshakeReject::BadState)
    );
    assert!(full.answer_rekey(&node(7), 1, 55, Some(41), true, false).is_err());
    assert!(full.peers[&node(7).value].pending_session.is_none());
}

#[test]
fn accepted_handshake_is_promoted() {
    let mut t = NodeTables::new(0);
    let h = InboundHandshake {
        link_id: 3,
        transport_id: 1,
        remote_addr: 100,
        peer: node(7),
        epoch: Some(5),
        sender_idx: 50,
        has_session: true,
    };
    assert_eq!(t.accept_msg1(&h, false, Some(60)), Err(HandshakeReject::BadState));
    assert_eq!(t.accept_msg1(&h, true, None), Err(HandshakeReject::BadState));
    assert_eq!(t.accept_msg1(&h, true, Some(60)), Ok(60));
    assert_eq!(t.find_stored_msg2(3), Some(Msg2Source::Connection));
    assert_eq!(t.handle_msg1(1, 100, true), Msg1Start::Resend(3, Msg2Source::Connection));
    let r = t.promote_connection(&node(1), 3, node(7));
    assert_eq!(r, Ok(PromotionResult::Promoted(node(7))));
    let settled = t.settle_inbound(&h, 60, r);
    assert_eq!(settled.announce, Some(node(7)));
    assert_eq!(t.peers_by_index[&make_index_key(1, 60)], node(7).value);
    assert_eq!(t.find_stored_msg2(3), Some(Msg2Source::Peer(node(7))));
    assert_eq!(t.peer_on_link(3), Some(node(7).value));
    assert_eq!(t.peer_at_addr(1, 100), Some(node(7).value));
}

#[test]
fn undone_handshake_leaves_nothing() {
    let mut t = NodeTables::new(0);
    let h = InboundHandshake {
        link_id: 3,
        transport_id: 1,
        remote_addr: 100,
        peer: node(7),
        epoch: None,
        sender_idx: 50,
        has_session: true,
    };
    assert!(t.accept_msg1(&h, true, Some(60)).is_ok());
    t.undo_accept(&h, 60);
    assert!(t.connections.is_empty() && t.links.is_empty());
    assert!(t.addr_to_link.is_empty() && t.indices.is_empty());
}

#[test]
fn promotion_needs_a_complete_connection() {
    let mut t = NodeTables::new(0);
    assert_eq!(
        t.promote_connection(&node(1), 3, node(7)),
        Err(NodeError::ConnectionNotFound(3))
    );
    let cases = [
        (
            ConnectionRecord { has_session: false, ..connection(true) },
            NodeError::HandshakeIncomplete(3),
        ),
        (
            ConnectionRecord { our_index: None, ..connection(true) },
            NodeError::PromotionFailed { link_id: 3, reason: MissingField::OurIndex },
        ),
        (
            ConnectionRecord { their_index: None, ..connection(true) },
            NodeError::PromotionFailed { link_id: 3, reason: MissingField::TheirIndex },
        ),
        (
            ConnectionRecord { transport_id: None, ..connection(true) },
            NodeError::PromotionFailed { link_id: 3, reason: MissingField::TransportId },
        ),
        (
            ConnectionRecord { source_addr: None, ..connection(true) },
            NodeError::PromotionFailed { link_id: 3, reason: MissingField::SourceAddr },
        ),
    ];
    for (c, expected) in cases {
        t.connections.insert(3, c);
        assert_eq!(t.promote_connection(&node(1), 3, node(7)), Err(expected));
    }
    assert_eq!(MissingField::OurIndex.reason(), "missing our_index");
    assert_eq!(MissingField::SourceAddr.reason(), "missing source_addr");
}

#[test]
fn promotion_respects_the_limit() {
    let mut t = with_peer(node(7));
    t.max_peers = 1;
    t.connections.insert(3, connection(true));
    t.indices.insert(31);
    assert_eq!(
        t.promote_connection(&node(1), 3, node(8)),
        Err(NodeError::MaxPeersExceeded { max: 1 })
    );
    assert!(!t.indices.contains(&31));
    assert_eq!(t.peers.len(), 1);
}

#[test]
fn crossing_connections_leave_one() {
    // Ours is outbound and our address is the smaller: it wins.
    let mut t = with_peer(node(7));
    t.connections.insert(3, connection(true));
    t.indices.insert(31);
    assert_eq!(
        t.promote_connection(&node(1), 3, node(7)),
        Ok(PromotionResult::CrossConnectionWon { loser_link_id: 9, node_addr: node(7) })
    );
    assert_eq!(t.peers[&node(7).value].link_id, 3);
    assert!(!t.indices.contains(&11));
    assert!(!t.peers_by_index.contains_key(&make_index_key(1, 11)));
    // Ours is outbound and our address is the larger: it loses.
    let mut t = with_peer(node(7));
    t.connections.insert(3, connection(true));
    t.indices.insert(31);
    let r = t.promote_connection(&node(9), 3, node(7));
    assert_eq!(r, Ok(PromotionResult::CrossConnectionLost { winner_link_id: 9 }));
    assert_eq!(t.peers[&node(7).value].link_id, 9);
    assert!(!t.indices.contains(&31));
    // A restarted peer wins either way.
    let mut t = with_peer(node(7));
    t.sessions.insert(node(7).value);
    t.connections.insert(3, ConnectionRecord { remote_epoch: Some(6), ..connection(true) });
    assert!(matches!(
        t.promote_connection(&node(9), 3, node(7)),
        Ok(PromotionResult::CrossConnectionWon { .. })
    ));
    assert!(!t.sessions.contains(&node(7).value));
}

#[test]
fn msg2_finds_its_handshake() {
    let mut t = NodeTables::new(0);
    let m = InboundMsg2 { transport_id: 1, remote_addr: 200, receiver_idx: 31, sender_idx: 90 };
    assert_eq!(t.handle_msg2(&m, false), Msg2Start::Refused(HandshakeReject::BadState));
    assert_eq!(t.handle_msg2(&m, true), Msg2Start::Refused(HandshakeReject::UnknownConnection));
    t.pending_outbound.insert(make_index_key(1, 31), 3);
    t.connections.insert(
        3,
        ConnectionRecord { has_session: false, their_index: None, ..connection(true) },
    );
    t.links.insert(3, LinkRecord { transport_id: 1, remote_addr: 200, inbound: false });
    assert_eq!(t.handle_msg2(&m, true), Msg2Start::Handshake(3));
    let done = Completed { identity: Some(node(7).value), epoch: Some(5) };
    let (peer, index) = t.complete_outbound(&m, 3, Some(done)).unwrap();
    assert_eq!((peer, index), (node(7), Some(31)));
    let r = t.promote_connection(&node(1), 3, peer);
    assert_eq!(r, Ok(PromotionResult::Promoted(node(7))));
    let settled = t.settle_outbound(&m, 3, r);
    assert_eq!(settled.announce, Some(node(7)));
    assert!(t.pending_outbound.is_empty());
    assert_eq!(t.peers[&node(7).value].their_index, Some(90));
}

#[test]
fn failed_msg2_marks_the_connection() {
    let mut t = NodeTables::new(0);
    let m = InboundMsg2 { transport_id: 1, remote_addr: 200, receiver_idx: 31, sender_idx: 90 };
    t.pending_outbound.insert(make_index_key(1, 31), 3);
    t.connections.insert(3, ConnectionRecord { has_session: false, ..connection(true) });
    t.links.insert(3, LinkRecord { transport_id: 1, remote_addr: 200, inbound: false });
    assert_eq!(t.complete_outbound(&m, 3, None), Err(HandshakeReject::BadState));
    assert!(t.connections[&3].failed);
    assert_eq!(t.refuse_outbound(&m, 3, Some(31)), Some((1, 200)));
    assert!(t.connections.is_empty() && t.links.is_empty());
}

#[test]
fn msg2_for_a_rekey_goes_to_the_peer() {
    let mut t = with_peer(node(7));
    t.peers.insert(node(7).value, PeerRecord { rekey: Some(40), ..peer_record(9) });
    t.pending_outbound.insert(make_index_key(1, 40), 77);
    let m = InboundMsg2 { transport_id: 1, remote_addr: 100, receiver_idx: 40, sender_idx: 91 };
    assert_eq!(t.handle_msg2(&m, true), Msg2Start::Rekey(node(7)));
    assert_eq!(t.finish_rekey(&m, &node(7), Some(Some(5))), Ok(false));
    assert_eq!(t.peers[&node(7).value].pending_session, Some((40, 91)));
    let mut t = with_peer(node(7));
    t.pending_outbound.insert(make_index_key(1, 40), 77);
    assert_eq!(t.handle_msg2(&m, true), Msg2Start::Refused(HandshakeReject::BadState));
    assert!(t.pending_outbound.is_empty());
}

#[test]
fn losing_dialler_keeps_the_inbound_session() {
    let mut t = with_peer(node(7));
    let m = InboundMsg2 { transport_id: 1, remote_addr: 200, receiver_idx: 31, sender_idx: 90 };
    t.connections.insert(3, connection(true));
    t.indices.insert(31);
    t.links.insert(3, LinkRecord { transport_id: 1, remote_addr: 200, inbound: false });
    let settled = t.resolve_cross_connection(&node(9), &m, 3, node(7)).unwrap();
    assert_eq!(settled.announce, Some(node(7)));
    assert_eq!(settled.close, Some((1, 200)));
    assert_eq!(t.peers[&node(7).value].our_index, Some(11));
    assert!(!t.indices.contains(&31));
    let mut t = with_peer(node(7));
    t.connections.insert(3, connection(true));
    t.indices.insert(31);
    assert!(t.resolve_cross_connection(&node(1), &m, 3, node(7)).is_ok());
    assert_eq!(t.peers[&node(7).value].our_index, Some(31));
    assert_eq!(t.peers[&node(7).value].their_index, Some(90));
}

#[test]
fn removed_links_are_forgotten() {
    let mut t = with_peer(node(7));
    t.remove_link(9);
    assert!(t.links.is_empty() && t.addr_to_link.is_empty());
}

#[test]
fn completed_handshake_is_finished() {
    let m = InboundMsg2 { transport_id: 1, remote_addr: 200, receiver_idx: 31, sender_idx: 90 };
    let dialled = || {
        let mut t = NodeTables::new(0);
        t.pending_outbound.insert(make_index_key(1, 31), 3);
        t.connections.insert(3, connection(true));
        t.indices.insert(31);
        t.links.insert(3, LinkRecord { transport_id: 1, remote_addr: 200, inbound: false });
        t
    };
    let mut t = dialled();
    let s = t.finish_outbound(&node(1), &m, 3, node(7), Some(31), true).unwrap();
    assert_eq!((s.announce, s.seed), (Some(node(7)), Some(node(7))));
    assert!(t.peers.contains_key(&node(7).value) && t.pending_outbound.is_empty());

    let mut t = dialled();
    let s = t.finish_outbound(&node(1), &m, 3, node(7), Some(31), false).unwrap();
    assert_eq!((s.announce, s.close, s.seed), (None, Some((1, 200)), None));
    assert!(s.rejected && t.peers.is_empty() && t.connections.is_empty());
    assert!(t.indices.is_empty() && t.pending_outbound.is_empty());

    let mut t = dialled();
    t.peers.insert(node(7).value, peer_record(9));
    let s = t.finish_outbound(&node(1), &m, 3, node(7), Some(31), true).unwrap();
    assert_eq!((s.announce, s.seed), (Some(node(7)), None));
    assert_eq!(t.peers[&node(7).value].our_index, Some(31));

    // A peer without a transport matters only where its session is swapped.
    let mut t = dialled();
    t.peers.insert(node(7).value, PeerRecord { transport_id: None, ..peer_record(9) });
    assert!(t.finish_outbound(&node(9), &m, 3, node(7), Some(31), true).is_ok());
    let mut t = NodeTables::new(0);
    t.peers.insert(node(7).value, peer_record(9));
    assert_eq!(
        t.finish_outbound(&node(1), &m, 3, node(7), Some(31), true),
        Err(HandshakeReject::UnknownConnection)
    );
}

#[test]
fn promotions_seed_the_path() {
    assert_eq!(peer_to_seed(&Ok(PromotionResult::Promoted(node(7)))), Some(node(7)));
    let won = PromotionResult::CrossConnectionWon { loser_link_id: 1, node_addr: node(7) };
    assert_eq!(peer_to_seed(&Ok(won)), Some(node(7)));
    let lost = PromotionResult::CrossConnectionLost { winner_link_id: 1 };
    assert_eq!(peer_to_seed(&Ok(lost)), None);
    assert_eq!(peer_to_seed(&Err(NodeError::ConnectionNotFound(1))), None);
}

#[test]
fn accepted_handshake_is_finished() {
    let h = InboundHandshake {
        link_id: 3,
        transport_id: 1,
        remote_addr: 100,
        peer: node(7),
        epoch: Some(5),
        sender_idx: 50,
        has_session: true,
    };
    let mut t = NodeTables::new(0);
    assert_eq!(t.accept_msg1(&h, true, Some(60)), Ok(60));
    assert_eq!(t.finish_inbound(&node(1), &h, 60, false), Err(HandshakeReject::BadState));
    assert!(t.connections.is_empty() && t.links.is_empty() && t.indices.is_empty());
    assert_eq!(t.accept_msg1(&h, true, Some(60)), Ok(60));
    let s = t.finish_inbound(&node(1), &h, 60, true).unwrap();
    assert_eq!((s.announce, s.seed), (Some(node(7)), Some(node(7))));
    assert!(t.peers[&node(7).value].has_msg2);
    // Without a session the promotion fails and everything is given back.
    let broken = InboundHandshake { has_session: false, peer: node(8), link_id: 4, ..h };
    assert_eq!(t.accept_msg1(&broken, true, Some(61)), Ok(61));
    let s = t.finish_inbound(&node(1), &broken, 61, true).unwrap();
    assert!(s.rejected && !t.indices.contains(&61) && !t.links.contains_key(&4));
}
