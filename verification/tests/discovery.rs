//! Lookup requests, responses and path limits.

use fips::identity::{FipsAddress, NodeAddr};
use fips::node::discovery::{
    apply_outgoing_link_mtu, forward_lookup_request, reaching_peers, DiscoveryReject,
    ForwardCandidate, LookupPlan, LookupRequest, PathMtuTable, PendingLookup, PendingLookups,
    RecentRequests, RequestAction, ResponseRoute, MAX_RECENT_DISCOVERY_REQUESTS,
};

use fips::node::lookup::{Discovery, LookupResponse, ResponseStart};

fn node(n: u8) -> NodeAddr {
    NodeAddr::from_bytes([n; 16])
}

fn request(id: u64, target: NodeAddr, ttl: u8) -> LookupRequest {
    LookupRequest { request_id: id, target, origin: node(9), ttl }
}

#[test]
fn requests_are_handled_once() {
    let mut recent = RecentRequests::new();
    let ours = node(1);
    let r = request(7, node(5), 3);
    let handled = recent.handle_lookup_request(&r, &node(2), &ours, 4, 1_000, 10_000);
    assert_eq!(handled, RequestAction::Transit);
    let again = recent.handle_lookup_request(&r, &node(3), &ours, 4, 1_001, 10_000);
    assert_eq!(again, RequestAction::Duplicate);
    let target = recent.handle_lookup_request(
        &request(8, ours, 3),
        &node(2),
        &ours,
        4,
        1_002,
        10_000,
    );
    assert_eq!(target, RequestAction::Target);
    let spent = recent.handle_lookup_request(
        &request(9, node(5), 0),
        &node(2),
        &ours,
        4,
        1_003,
        10_000,
    );
    assert_eq!(spent, RequestAction::TtlExhausted);
    // Old requests are forgotten.
    let later = recent.handle_lookup_request(&r, &node(3), &ours, 4, 20_000, 10_000);
    assert_eq!(later, RequestAction::Transit);
    assert_eq!(recent.requests.len(), 1);
}

#[test]
fn forwarding_counts_hops_down() {
    let mut r = request(7, node(5), 1);
    assert!(r.can_forward());
    assert!(r.forward());
    assert_eq!(r.ttl, 0);
    assert!(!r.can_forward());
    assert!(!r.forward());
}

#[test]
fn one_response_goes_back() {
    let mut recent = RecentRequests::new();
    let ours = node(1);
    recent.handle_lookup_request(&request(7, node(5), 3), &node(2), &ours, 4, 1_000, 10_000);
    assert_eq!(recent.answer_route(7, Some(node(8))), Some(node(2)));
    assert_eq!(recent.answer_route(6, Some(node(8))), Some(node(8)));
    assert_eq!(recent.route_response(7), ResponseRoute::Forward(node(2)));
    assert_eq!(recent.route_response(7), ResponseRoute::AlreadyForwarded);
    assert_eq!(recent.route_response(6), ResponseRoute::Ours);
}

#[test]
fn the_request_cache_is_bounded_and_shared() {
    let mut recent = RecentRequests::new();
    let ours = node(1);
    for id in 0..10u64 {
        let r = request(1_000_000 + id, node(5), 3);
        recent.handle_lookup_request(&r, &node(2), &ours, 2, 1_000, 10_000);
    }
    for id in 0..6_000u64 {
        let r = request(id, node(5), 3);
        recent.handle_lookup_request(&r, &node(3), &ours, 2, 1_000, 10_000);
        assert!(recent.requests.len() <= MAX_RECENT_DISCOVERY_REQUESTS);
    }
    // The peer that floods pays with its own requests.
    for id in 0..10u64 {
        assert!(recent.requests.contains_key(&(1_000_000 + id)));
    }
}

#[test]
fn lookups_are_started_once() {
    let mut pending = PendingLookups::new();
    assert_eq!(
        pending.maybe_initiate_lookup(&node(5), false, false, 10),
        LookupPlan::BloomMiss
    );
    assert_eq!(
        pending.maybe_initiate_lookup(&node(5), true, true, 10),
        LookupPlan::Suppressed
    );
    assert_eq!(pending.maybe_initiate_lookup(&node(5), false, true, 10), LookupPlan::Start);
    assert_eq!(
        pending.maybe_initiate_lookup(&node(5), false, true, 10),
        LookupPlan::Deduplicated
    );
    assert!(pending.lookup_sent(&node(5), 0));
    assert_eq!(pending.maybe_initiate_lookup(&node(5), false, true, 11), LookupPlan::Start);
    assert!(!pending.lookup_sent(&node(5), 2));
}

#[test]
fn only_solicited_responses_count() {
    let mut pending = PendingLookups::new();
    assert_eq!(
        pending.accept_response(&node(5), 77, true, true),
        Err(DiscoveryReject::RespUnsolicited)
    );
    pending.maybe_initiate_lookup(&node(5), false, true, 10);
    pending.initiate_lookup(&node(5), 77, 10);
    assert_eq!(
        pending.accept_response(&node(5), 78, true, true),
        Err(DiscoveryReject::RespUnsolicited)
    );
    assert_eq!(
        pending.accept_response(&node(5), 77, false, true),
        Err(DiscoveryReject::RespIdentityMiss)
    );
    assert_eq!(
        pending.accept_response(&node(5), 77, true, false),
        Err(DiscoveryReject::RespProofFailed)
    );
    assert_eq!(pending.accept_response(&node(5), 77, true, true), Ok(()));
    assert_eq!(
        pending.accept_response(&node(5), 77, true, true),
        Err(DiscoveryReject::RespUnsolicited)
    );
}

#[test]
fn lookups_are_retried_and_given_up() {
    let mut pending = PendingLookups::new();
    let timeouts = vec![1u64, 2];
    pending.maybe_initiate_lookup(&node(5), false, true, 0);
    let (retry, failed) = pending.check_pending_lookups(999, &timeouts);
    assert!(retry.is_empty() && failed.is_empty());
    let (retry, failed) = pending.check_pending_lookups(1_000, &timeouts);
    assert_eq!((retry, failed), (vec![node(5).value], vec![]));
    let (retry, failed) = pending.check_pending_lookups(2_999, &timeouts);
    assert!(retry.is_empty() && failed.is_empty());
    let (retry, failed) = pending.check_pending_lookups(3_000, &timeouts);
    assert_eq!((retry, failed), (vec![], vec![node(5).value]));
    assert!(pending.entries.is_empty());
}

#[test]
fn the_last_identifiers_are_remembered() {
    let mut p = PendingLookup::new(0);
    for id in 0..10u64 {
        p.record(id);
    }
    assert!(p.matches(9) && p.matches(2));
    assert!(!p.matches(1));
}

#[test]
fn path_limits_only_tighten() {
    let mut table = PathMtuTable::new();
    assert!(!table.learn_from_response(&node(5), 1_000, 1_280, 5));
    assert!(table.learn_from_response(&node(5), 1_400, 1_280, 5));
    assert!(!table.learn_from_response(&node(5), 1_500, 1_280, 6));
    assert!(!table.learn_from_response(&node(5), 1_400, 1_280, 7));
    assert!(table.learn_from_response(&node(5), 1_300, 1_280, 8));
    let key = FipsAddress::from_node_addr(&node(5)).value;
    assert_eq!(table.entries[&key].mtu, 1_300);
    assert_eq!(table.entries[&key].learned_ms, Some(8));
    assert!(!table.seed_path_mtu_for_link_peer(&node(6), None));
    assert!(table.seed_path_mtu_for_link_peer(&node(6), Some(1_200)));
    assert!(!table.seed_path_mtu_for_link_peer(&node(6), Some(1_300)));
    assert_eq!(apply_outgoing_link_mtu(1_500, Some(1_400)), 1_400);
    assert_eq!(apply_outgoing_link_mtu(1_300, Some(1_400)), 1_300);
    assert_eq!(apply_outgoing_link_mtu(1_300, None), 1_300);
}

#[test]
fn tree_peers_are_preferred() {
    let tree = ForwardCandidate { addr: node(1), is_tree_peer: true, may_reach: true };
    let deaf = ForwardCandidate { addr: node(2), is_tree_peer: true, may_reach: false };
    let other = ForwardCandidate { addr: node(3), is_tree_peer: false, may_reach: true };
    assert_eq!(forward_lookup_request(&vec![deaf, other, tree]), (vec![node(1)], false));
    assert_eq!(forward_lookup_request(&vec![deaf, other]), (vec![node(3)], true));
    assert_eq!(forward_lookup_request(&vec![deaf]), (vec![], false));
    assert_eq!(reaching_peers(&vec![tree, other], false), vec![node(3)]);
}

#[test]
fn responses_end_a_lookup_once() {
    let mut d = Discovery::new();
    let response = LookupResponse { request_id: 77, target: node(5), path_mtu: 1_400 };
    assert_eq!(
        d.handle_lookup_response(&response),
        ResponseStart::Refused(DiscoveryReject::RespUnsolicited)
    );
    d.pending.maybe_initiate_lookup(&node(5), false, true, 10);
    d.pending.initiate_lookup(&node(5), 77, 10);
    assert_eq!(d.handle_lookup_response(&response), ResponseStart::Verify);
    assert_eq!(
        d.finish_lookup_response(&response, false, true, 1_280, 20),
        Err(DiscoveryReject::RespIdentityMiss)
    );
    assert_eq!(
        d.finish_lookup_response(&response, true, false, 1_280, 20),
        Err(DiscoveryReject::RespProofFailed)
    );
    assert!(d.path_mtu.entries.is_empty());
    assert_eq!(d.finish_lookup_response(&response, true, true, 1_280, 20), Ok(true));
    let key = FipsAddress::from_node_addr(&node(5)).value;
    assert_eq!(d.path_mtu.entries[&key].mtu, 1_400);
    assert_eq!(
        d.finish_lookup_response(&response, true, true, 1_280, 21),
        Err(DiscoveryReject::RespUnsolicited)
    );
}

#[test]
fn limits_below_the_floor_are_not_learned() {
    let mut d = Discovery::new();
    let response = LookupResponse { request_id: 77, target: node(5), path_mtu: 1_000 };
    d.pending.maybe_initiate_lookup(&node(5), false, true, 10);
    d.pending.initiate_lookup(&node(5), 77, 10);
    assert_eq!(d.finish_lookup_response(&response, true, true, 1_280, 20), Ok(false));
    assert!(d.path_mtu.entries.is_empty());
    assert!(d.pending.entries.is_empty());
}

#[test]
fn responses_in_transit_go_back() {
    let mut d = Discovery::new();
    let asked = request(7, node(5), 3);
    d.recent.handle_lookup_request(&asked, &node(2), &node(1), 4, 1_000, 10_000);
    let response = LookupResponse { request_id: 7, target: node(5), path_mtu: 1_400 };
    assert_eq!(d.handle_lookup_response(&response), ResponseStart::Forward(node(2)));
    assert_eq!(d.handle_lookup_response(&response), ResponseStart::AlreadyForwarded);
}

#[test]
fn every_timeout_has_its_attempt() {
    let timeouts = vec![1u64; 256];
    let mut pending = PendingLookups::new();
    pending.maybe_initiate_lookup(&node(5), false, true, 0);
    for attempt in 1..255u64 {
        let (retry, failed) = pending.check_pending_lookups(attempt * 1_000, &timeouts);
        assert_eq!((retry.len(), failed.len()), (1, 0));
    }
    let (retry, failed) = pending.check_pending_lookups(255_000, &timeouts);
    assert_eq!((retry.len(), failed.len()), (0, 1));
}
