//! Discovery: requests, reverse paths, lookups of our own and path limits.

use crate::identity::{FipsAddress, NodeAddr};
use crate::node::discovery::{
    is_next_attempt, is_solicited, lookup_fails, lookup_retries, offered, peer_share, reaching,
    recorded, DiscoveryReject, ForwardCandidate, LookupRequest, PathMtuEntry, PendingLookup,
    RecentModel, RecentRequest, RequestAction,
};
use crate::node::lookup::{DiscoveryModel, LookupResponse, ResponseStart};
use vstd::prelude::*;

verus! {

/// A request that was handled is recognised again for as long as it is kept and no
/// longer: the time since it came decides, not the time of day.
pub proof fn requests_are_handled_once(
    m: RecentModel,
    first: LookupRequest,
    from: NodeAddr,
    again: LookupRequest,
    from_again: NodeAddr,
    our_addr: NodeAddr,
    link_peers: nat,
    t: u64,
    later: u64,
    expiry_ms: u64,
    after: RecentModel,
    r: RequestAction,
    end: RecentModel,
    s: RequestAction,
)
    requires
        m.handles(first, from, our_addr, link_peers, t, expiry_ms, after, r),
        r != RequestAction::Duplicate,
        again.request_id == first.request_id,
        t <= later,
        after.handles(again, from_again, our_addr, link_peers, later, expiry_ms, end, s),
    ensures
        s == RequestAction::Duplicate <==> later - t <= expiry_ms,
        s == RequestAction::Duplicate ==> {
            &&& end.requests.contains_key(first.request_id)
            &&& end.requests[first.request_id].from_peer == from.value
        },
{
}

/// Whether a request has expired does not depend on when time began.
pub proof fn expiry_is_relative(
    request: RecentRequest,
    shifted: RecentRequest,
    now_ms: u64,
    expiry_ms: u64,
    by: u64,
)
    requires
        request.timestamp_ms <= now_ms,
        now_ms + by <= u64::MAX,
        shifted.timestamp_ms == request.timestamp_ms + by,
    ensures
        shifted.spec_is_expired((now_ms + by) as u64, expiry_ms) == request.spec_is_expired(
            now_ms,
            expiry_ms,
        ),
        !request.spec_is_expired(request.timestamp_ms, expiry_ms),
        request.spec_is_expired(now_ms, expiry_ms) <==> request.timestamp_ms + expiry_ms < now_ms,
{
}

/// A request that is not a duplicate leaves a reverse path to the peer it came from,
/// for which no response has been forwarded, and is answered by its target, passed
/// on while it has hops left, and dropped otherwise.
pub proof fn fresh_requests_leave_a_path(
    m: RecentModel,
    request: LookupRequest,
    from: NodeAddr,
    our_addr: NodeAddr,
    link_peers: nat,
    now_ms: u64,
    expiry_ms: u64,
    after: RecentModel,
    r: RequestAction,
)
    requires
        m.handles(request, from, our_addr, link_peers, now_ms, expiry_ms, after, r),
        !m.requests.contains_key(request.request_id),
    ensures
        ({
            let id = request.request_id;
            &&& after.requests.contains_key(id)
            &&& after.requests[id].from_peer == from.value
            &&& after.requests[id].timestamp_ms == now_ms
            &&& !after.requests[id].response_forwarded
            &&& after.by_peer.contains_key(from.value) && after.by_peer[from.value].len() > 0
                && after.by_peer[from.value].last() == id
            &&& request.target == our_addr ==> r == RequestAction::Target
            &&& request.target != our_addr && request.ttl > 0 ==> r == RequestAction::Transit
            &&& request.target != our_addr && request.ttl == 0 ==> r == RequestAction::TtlExhausted
        }),
{
}

/// Purging keeps exactly the requests that are not older than the expiry, unchanged.
pub proof fn purging_keeps_what_is_young(m: RecentModel, now_ms: u64, expiry_ms: u64, id: u64)
    ensures
        m.purged(now_ms, expiry_ms).requests.contains_key(id) <==> m.requests.contains_key(id)
            && now_ms - m.requests[id].timestamp_ms <= expiry_ms,
        m.purged(now_ms, expiry_ms).requests.contains_key(id) ==> m.purged(
            now_ms,
            expiry_ms,
        ).requests[id] == m.requests[id],
{
}

/// Making room costs at most one request, the oldest of the peer that pays: the one
/// that asks if it is at its share, else one that holds most if the cache is full.
pub proof fn room_costs_the_oldest(
    m: RecentModel,
    from: u128,
    share: int,
    after: RecentModel,
    id: u64,
)
    requires
        m.wf(),
        m.makes_room(from, share, after),
        share > 0,
        m.requests.contains_key(id),
        !after.requests.contains_key(id),
    ensures
        ({
            let payer = m.requests[id].from_peer;
            &&& m.by_peer.contains_key(payer) && m.by_peer[payer][0] == id
            &&& m.held(from).len() >= share ==> payer == from
            &&& m.held(from).len() < share ==> m.requests.len() >= 4096
            &&& m.held(from).len() < share ==> forall|q: u128| #[trigger]
                m.by_peer.contains_key(q) ==> m.by_peer[q].len() <= m.by_peer[payer].len()
        }),
{
    if m.by_peer.contains_key(from) && m.by_peer[from].len() >= share {
        assert(m.by_peer[from][0] == id);
    } else {
        let p = choose|p: u128| #[trigger] m.is_fattest(p) && after == m.evict(p);
        assert(m.by_peer[p][0] == id);
    }
}

/// A peer's share divides the cache evenly among the peers, and is never below 64.
pub proof fn shares_divide_the_cache(n: nat)
    ensures
        n == 0 ==> peer_share(n) == 4096,
        1 <= n <= 64 ==> n * peer_share(n) <= 4096 < n * (peer_share(n) + 1),
        n > 64 ==> peer_share(n) == 64,
{
    if 1 <= n {
        let d = n as int;
        let q = 4096int / d;
        vstd::arithmetic::div_mod::lemma_fundamental_div_mod(4096, d);
        vstd::arithmetic::div_mod::lemma_mod_bound(4096, d);
        assert(d * q <= 4096 < d * (q + 1)) by (nonlinear_arith)
            requires
                4096 == d * q + 4096int % d,
                0 <= 4096int % d < d,
        ;
        assert(n <= 64 ==> q >= 64) by (nonlinear_arith)
            requires
                4096 < d * (q + 1),
                d == n,
        ;
        assert(n > 64 ==> q < 64) by (nonlinear_arith)
            requires
                d * q <= 4096,
                d == n,
        ;
    }
}

/// Of the responses to a request that passed through, the first goes back to the
/// peer the request came from and every later one is dropped.
pub proof fn first_response_goes_back(
    m: DiscoveryModel,
    response: LookupResponse,
    later: LookupResponse,
)
    requires
        m.recent.requests.contains_key(response.request_id),
        !m.recent.requests[response.request_id].response_forwarded,
        later.request_id == response.request_id,
    ensures
        ({
            let (after, r) = m.responded(response);
            let from = m.recent.requests[response.request_id].from_peer;
            &&& r == ResponseStart::Forward(NodeAddr { value: from })
            &&& after.responded(later) == (after, ResponseStart::AlreadyForwarded)
        }),
{
}

/// A response that did not pass through is looked at only if its identifier was
/// issued for its target.
pub proof fn responses_must_be_asked_for(m: DiscoveryModel, response: LookupResponse)
    requires
        !m.recent.requests.contains_key(response.request_id),
    ensures
        ({
            let (after, r) = m.responded(response);
            let asked = m.pending.contains_key(response.target.value)
                && m.pending[response.target.value].ids@.contains(response.request_id);
            &&& after == m
            &&& asked ==> r == ResponseStart::Verify
            &&& !asked ==> r == ResponseStart::Refused(DiscoveryReject::RespUnsolicited)
        }),
{
}

/// An accepted response ends the lookup of its target and no other, and its path
/// limit, if it is one to act on, leaves the tighter of the old and the new one.
pub proof fn accepted_response_teaches_the_path(
    m: DiscoveryModel,
    response: LookupResponse,
    floor: u16,
    now_ms: u64,
    other: u128,
    place: u128,
)
    requires
        other != response.target.value,
        place != FipsAddress::of(response.target).value,
    ensures
        ({
            let after = m.accepted(response, floor, now_ms);
            let key = FipsAddress::of(response.target).value;
            let known = m.path_mtu.contains_key(key);
            &&& !after.pending.contains_key(response.target.value)
            &&& m.pending.contains_key(other) ==> after.pending.contains_key(other)
                && after.pending[other] == m.pending[other]
            &&& response.path_mtu < floor ==> after.path_mtu == m.path_mtu
            &&& response.path_mtu >= floor ==> {
                &&& after.path_mtu.contains_key(key)
                &&& after.path_mtu[key].mtu <= response.path_mtu
                &&& known ==> after.path_mtu[key].mtu <= m.path_mtu[key].mtu
                &&& after.path_mtu[key].mtu == response.path_mtu || known
                    && after.path_mtu[key] == m.path_mtu[key]
                &&& !known || response.path_mtu < m.path_mtu[key].mtu
                    ==> after.path_mtu[key].learned_ms == Some(now_ms)
            }
            &&& m.path_mtu.contains_key(place) == after.path_mtu.contains_key(place)
            &&& m.path_mtu.contains_key(place) ==> after.path_mtu[place] == m.path_mtu[place]
        }),
{
}

/// Offering a limit leaves the tighter of the two.
pub proof fn the_tighter_limit_stays(
    m: Map<u128, PathMtuEntry>,
    addr: FipsAddress,
    entry: PathMtuEntry,
)
    ensures
        ({
            let after = offered(m, addr, entry);
            &&& after.contains_key(addr.value)
            &&& !m.contains_key(addr.value) ==> after[addr.value] == entry
            &&& m.contains_key(addr.value) && entry.mtu < m[addr.value].mtu ==> after[addr.value]
                == entry
            &&& m.contains_key(addr.value) && entry.mtu >= m[addr.value].mtu ==> after == m
        }),
{
}

/// An identifier that was issued is remembered, at most eight are, none twice, and
/// only the oldest makes room for it.
pub proof fn the_last_eight_identifiers_are_remembered(ids: Seq<u64>, id: u64, k: int)
    requires
        ids.len() <= 8,
        ids.no_duplicates(),
        0 <= k < ids.len(),
    ensures
        recorded(ids, id).contains(id),
        recorded(ids, id).len() <= 8,
        recorded(ids, id).no_duplicates(),
        k > 0 || ids.len() < 8 || ids.contains(id) ==> recorded(ids, id).contains(ids[k]),
        !ids.contains(id) ==> recorded(ids, id).last() == id,
        !ids.contains(id) && ids.len() == 8 ==> recorded(ids, id).len() == 8 && !recorded(
            ids,
            id,
        ).contains(ids[0]),
{
    let after = recorded(ids, id);
    if !ids.contains(id) {
        assert(after[after.len() - 1] == id);
        if ids.len() >= 8 {
            if k > 0 {
                assert(after[k - 1] == ids[k]);
            }
        } else {
            assert(after[k] == ids[k]);
        }
    }
}

/// Recording the first identifier remembers it alone.
pub proof fn the_first_identifier_is_remembered(id: u64)
    ensures
        recorded(Seq::empty(), id) == seq![id],
{
    assert(recorded(Seq::empty(), id) =~= seq![id]);
}

/// Every attempt waits for its own timeout, counted in seconds from when it was
/// sent. Then the next one goes out, and after the last timeout the lookup fails.
pub proof fn each_attempt_has_its_timeout(timeouts: Seq<u64>, p: PendingLookup, now_ms: u64)
    requires
        1 <= p.attempt <= timeouts.len(),
        timeouts.len() <= 255,
        p.last_sent_ms <= now_ms,
    ensures
        ({
            let over = now_ms - p.last_sent_ms >= timeouts[p.attempt - 1] * 1000;
            &&& lookup_retries(timeouts, p, now_ms) <==> over && p.attempt < timeouts.len()
            &&& lookup_fails(timeouts, p, now_ms) <==> over && p.attempt == timeouts.len()
        }),
{
}

/// A lookup is never retried and given up at once, and with more timeouts than the
/// counter reaches it goes on while it can count.
pub proof fn lookups_end_once(timeouts: Seq<u64>, p: PendingLookup, now_ms: u64)
    ensures
        !(lookup_retries(timeouts, p, now_ms) && lookup_fails(timeouts, p, now_ms)),
        lookup_retries(timeouts, p, now_ms) ==> p.attempt < timeouts.len() && p.attempt < 255,
        lookup_fails(timeouts, p, now_ms) ==> p.attempt >= timeouts.len() || p.attempt == 255,
{
}

/// The next attempt is counted, starts to wait anew, and keeps what was issued.
pub proof fn next_attempt_waits_anew(
    timeouts: Seq<u64>,
    p: PendingLookup,
    now_ms: u64,
    q: PendingLookup,
)
    requires
        is_next_attempt(p, now_ms, q),
        p.attempt >= 1,
        lookup_retries(timeouts, p, now_ms),
        timeouts[p.attempt as int] > 0,
    ensures
        q.attempt == p.attempt + 1,
        !lookup_retries(timeouts, q, now_ms),
        !lookup_fails(timeouts, q, now_ms),
        q.ids@ == p.ids@,
        q.initiated_ms == p.initiated_ms,
{
}

/// An identifier is solicited for the target it was issued for and no other.
pub proof fn identifiers_belong_to_their_target(
    pending: Map<u128, PendingLookup>,
    target: NodeAddr,
    id: u64,
)
    ensures
        is_solicited(pending, target, id) ==> pending.contains_key(target.value),
        pending.contains_key(target.value) ==> (is_solicited(pending, target, id) <==> exists|k: int|
            0 <= k < pending[target.value].ids@.len() && #[trigger] pending[target.value].ids@[k]
                == id),
{
}

/// A candidate is chosen exactly if it may reach the target and is of the kind asked
/// for.
pub proof fn candidates_are_chosen_by_reach_and_kind(
    peers: Seq<ForwardCandidate>,
    on_tree: bool,
    p: ForwardCandidate,
)
    ensures
        reaching(peers, on_tree).contains(p) <==> peers.contains(p) && p.may_reach && p.is_tree_peer
            == on_tree,
{
    broadcast use vstd::seq_lib::group_filter_ensures;

    let f = |c: ForwardCandidate| c.may_reach && c.is_tree_peer == on_tree;
    let r = peers.filter(f);
    assert(r == reaching(peers, on_tree));
    if r.contains(p) {
        let i = choose|i: int| 0 <= i < r.len() && r[i] == p;
        assert(f(r[i]));
        peers.lemma_filter_contains_rev(f, p);
    }
}

} // verus!
