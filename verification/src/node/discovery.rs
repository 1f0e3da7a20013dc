//! Coordinate discovery: request deduplication, reverse paths, outstanding
//! lookups and learned path MTUs.

use crate::identity::{FipsAddress, NodeAddr};
use std::collections::HashMap;
use vstd::prelude::*;
use vstd::std_specs::iter::IteratorSpec;

verus! {

broadcast use vstd::std_specs::hash::group_hash_axioms;

/// Cap on the request deduplication cache, which is also the table of reverse
/// paths for responses in flight.
pub const MAX_RECENT_DISCOVERY_REQUESTS: usize = 4096;

/// Floor under one link peer's share of that cache.
pub const MIN_RECENT_PER_PEER: usize = 64;

/// How many request identifiers one outstanding lookup remembers.
pub const MAX_RECORDED_IDS: usize = 8;

/// A request seen recently.
#[derive(Clone, Copy, Debug)]
pub struct RecentRequest {
    /// Peer it came from, which is where its response goes.
    pub from_peer: u128,
    /// When it came.
    pub timestamp_ms: u64,
    /// Whether a response has been forwarded.
    pub response_forwarded: bool,
}

impl RecentRequest {
    /// Whether the request is older than `expiry_ms`.
    pub open spec fn spec_is_expired(self, now_ms: u64, expiry_ms: u64) -> bool {
        now_ms - self.timestamp_ms > expiry_ms
    }

    /// Whether the request is older than `expiry_ms`.
    pub fn is_expired(&self, now_ms: u64, expiry_ms: u64) -> (r: bool)
        ensures
            r == self.spec_is_expired(now_ms, expiry_ms),
    {
        now_ms.saturating_sub(self.timestamp_ms) > expiry_ms
    }
}

/// The cache as mathematical maps.
#[verifier::ext_equal]
pub ghost struct RecentModel {
    pub requests: Map<u64, RecentRequest>,
    pub by_peer: Map<u128, Seq<u64>>,
}

/// The request deduplication cache, with the requests of each peer in the
/// order they came.
pub struct RecentRequests {
    /// Requests by identifier.
    pub requests: HashMap<u64, RecentRequest>,
    /// Identifiers by peer, oldest first.
    pub by_peer: HashMap<u128, Vec<u64>>,
}

impl View for RecentRequests {
    type V = RecentModel;

    open spec fn view(&self) -> RecentModel {
        RecentModel {
            requests: self.requests@,
            by_peer: self.by_peer@.map_values(|v: Vec<u64>| v@),
        }
    }
}

/// A peer's share of the cache on a node with this many link peers.
pub open spec fn peer_share(link_peers: nat) -> int {
    let n: int = if link_peers == 0 {
        1
    } else {
        link_peers as int
    };
    let even = MAX_RECENT_DISCOVERY_REQUESTS as int / n;
    if even < MIN_RECENT_PER_PEER {
        MIN_RECENT_PER_PEER as int
    } else {
        even
    }
}

impl RecentModel {
    /// Both tables list the same requests: each request once, with the peer it
    /// came from, and no peer without one.
    pub open spec fn wf(self) -> bool {
        &&& self.requests.dom().finite()
        &&& self.by_peer.dom().finite()
        &&& forall|p: u128, i: int|
            #![trigger self.by_peer[p][i]]
            self.by_peer.contains_key(p) && 0 <= i < self.by_peer[p].len() ==> {
                &&& self.requests.contains_key(self.by_peer[p][i])
                &&& self.requests[self.by_peer[p][i]].from_peer == p
            }
        &&& forall|id: u64| #[trigger]
            self.requests.contains_key(id) ==> {
                &&& self.by_peer.contains_key(self.requests[id].from_peer)
                &&& self.by_peer[self.requests[id].from_peer].contains(id)
            }
        &&& forall|p: u128| #[trigger]
            self.by_peer.contains_key(p) ==> self.by_peer[p].len() > 0
                && self.by_peer[p].no_duplicates()
    }

    /// Whether no peer holds more requests than `p`.
    pub open spec fn is_fattest(self, p: u128) -> bool {
        &&& self.by_peer.contains_key(p)
        &&& forall|q: u128| #[trigger]
            self.by_peer.contains_key(q) ==> self.by_peer[q].len() <= self.by_peer[p].len()
    }

    /// The cache without the oldest request of `victim`.
    pub open spec fn evict(self, victim: u128) -> RecentModel {
        let ids = self.by_peer[victim];
        RecentModel {
            requests: self.requests.remove(ids[0]),
            by_peer: if ids.len() == 1 {
                self.by_peer.remove(victim)
            } else {
                self.by_peer.insert(victim, ids.drop_first())
            },
        }
    }

    /// Whether `after` has room for a request from `from`: a peer at its share
    /// pays for itself, and a full cache is charged to the peer holding most.
    pub open spec fn makes_room(self, from: u128, share: int, after: RecentModel) -> bool {
        if self.by_peer.contains_key(from) && self.by_peer[from].len() >= share {
            after == self.evict(from)
        } else if self.requests.len() >= MAX_RECENT_DISCOVERY_REQUESTS {
            exists|p: u128| #[trigger] self.is_fattest(p) && after == self.evict(p)
        } else {
            after == self
        }
    }

    /// The identifiers a peer holds.
    pub open spec fn held(self, p: u128) -> Seq<u64> {
        if self.by_peer.contains_key(p) {
            self.by_peer[p]
        } else {
            Seq::empty()
        }
    }

    /// The cache with a request from `from` added.
    pub open spec fn with_request(self, id: u64, from: u128, now_ms: u64) -> RecentModel {
        RecentModel {
            requests: self.requests.insert(
                id,
                RecentRequest {
                    from_peer: from,
                    timestamp_ms: now_ms,
                    response_forwarded: false,
                },
            ),
            by_peer: self.by_peer.insert(from, self.held(from).push(id)),
        }
    }

    /// Whether a request is cached and not expired.
    pub open spec fn is_live(self, id: u64, now_ms: u64, expiry_ms: u64) -> bool {
        self.requests.contains_key(id) && !self.requests[id].spec_is_expired(now_ms, expiry_ms)
    }

    /// The identifiers of a peer's requests that have not expired.
    pub open spec fn live_ids(self, p: u128, now_ms: u64, expiry_ms: u64) -> Seq<u64> {
        self.held(p).filter(|id: u64| self.is_live(id, now_ms, expiry_ms))
    }

    /// The cache without its expired requests.
    pub open spec fn purged(self, now_ms: u64, expiry_ms: u64) -> RecentModel {
        RecentModel {
            requests: self.requests.restrict(
                Set::new(|id: u64| self.is_live(id, now_ms, expiry_ms)),
            ),
            by_peer: Map::new(
                |p: u128|
                    self.by_peer.contains_key(p) && self.live_ids(p, now_ms, expiry_ms).len() > 0,
                |p: u128| self.live_ids(p, now_ms, expiry_ms),
            ),
        }
    }
}

/// Evicting keeps both tables in agreement, and makes the cache one smaller.
pub proof fn evict_keeps_wf(m: RecentModel, victim: u128)
    requires
        m.wf(),
        m.by_peer.contains_key(victim),
    ensures
        m.evict(victim).wf(),
        m.evict(victim).requests.len() == m.requests.len() - 1,
{
    let ids = m.by_peer[victim];
    let after = m.evict(victim);
    assert(m.requests.contains_key(ids[0]));
    assert forall|p: u128, i: int|
        #![trigger after.by_peer[p][i]]
        after.by_peer.contains_key(p) && 0 <= i < after.by_peer[p].len() implies {
        &&& after.requests.contains_key(after.by_peer[p][i])
        &&& after.requests[after.by_peer[p][i]].from_peer == p
    } by {
        if p == victim {
            assert(after.by_peer[p][i] == ids[i + 1]);
            assert(ids[i + 1] != ids[0]);
        } else {
            assert(after.by_peer[p][i] == m.by_peer[p][i]);
        }
    }
    assert forall|id: u64| #[trigger] after.requests.contains_key(id) implies {
        &&& after.by_peer.contains_key(after.requests[id].from_peer)
        &&& after.by_peer[after.requests[id].from_peer].contains(id)
    } by {
        let p = m.requests[id].from_peer;
        assert(m.by_peer[p].contains(id));
        let k = choose|k: int| 0 <= k < m.by_peer[p].len() && m.by_peer[p][k] == id;
        if p == victim {
            assert(k > 0);
            assert(after.by_peer[p][k - 1] == id);
        }
    }
    assert forall|p: u128| #[trigger] after.by_peer.contains_key(p) implies after.by_peer[p].len()
        > 0 && after.by_peer[p].no_duplicates() by {
        if p == victim {
            assert(m.by_peer[p].no_duplicates());
        }
    }
}

/// Adding a request that is not cached keeps both tables in agreement.
pub proof fn with_request_keeps_wf(m: RecentModel, id: u64, from: u128, now_ms: u64)
    requires
        m.wf(),
        !m.requests.contains_key(id),
    ensures
        m.with_request(id, from, now_ms).wf(),
        m.with_request(id, from, now_ms).requests.len() == m.requests.len() + 1,
{
    let after = m.with_request(id, from, now_ms);
    let ids = m.held(from);
    assert forall|p: u128, i: int|
        #![trigger after.by_peer[p][i]]
        after.by_peer.contains_key(p) && 0 <= i < after.by_peer[p].len() implies {
        &&& after.requests.contains_key(after.by_peer[p][i])
        &&& after.requests[after.by_peer[p][i]].from_peer == p
    } by {
        if p == from {
            if i < ids.len() {
                assert(after.by_peer[p][i] == m.by_peer[p][i]);
            }
        } else {
            assert(after.by_peer[p][i] == m.by_peer[p][i]);
        }
    }
    assert forall|x: u64| #[trigger] after.requests.contains_key(x) implies {
        &&& after.by_peer.contains_key(after.requests[x].from_peer)
        &&& after.by_peer[after.requests[x].from_peer].contains(x)
    } by {
        if x == id {
            assert(after.by_peer[from][ids.len() as int] == id);
        } else {
            let p = m.requests[x].from_peer;
            let k = choose|k: int| 0 <= k < m.by_peer[p].len() && m.by_peer[p][k] == x;
            assert(after.by_peer[p][k] == x);
        }
    }
    assert forall|p: u128| #[trigger] after.by_peer.contains_key(p) implies after.by_peer[p].len()
        > 0 && after.by_peer[p].no_duplicates() by {
        if p == from && m.by_peer.contains_key(p) {
            assert forall|i: int, j: int|
                0 <= i < ids.len() + 1 && 0 <= j < ids.len() + 1 && i
                    != j implies after.by_peer[p][i] != after.by_peer[p][j] by {
                if i < ids.len() {
                    assert(m.requests.contains_key(m.by_peer[p][i]));
                }
                if j < ids.len() {
                    assert(m.requests.contains_key(m.by_peer[p][j]));
                }
            }
        }
    }
}

/// Making room keeps the tables in agreement and leaves space under the cap.
pub proof fn making_room_bounds_cache(m: RecentModel, from: u128, share: int, after: RecentModel)
    requires
        m.wf(),
        m.requests.len() <= MAX_RECENT_DISCOVERY_REQUESTS,
        m.makes_room(from, share, after),
    ensures
        after.wf(),
        after.requests.len() < MAX_RECENT_DISCOVERY_REQUESTS,
{
    if m.by_peer.contains_key(from) && m.by_peer[from].len() >= share {
        evict_keeps_wf(m, from);
    } else if m.requests.len() >= MAX_RECENT_DISCOVERY_REQUESTS {
        let p = choose|p: u128| #[trigger] m.is_fattest(p) && after == m.evict(p);
        evict_keeps_wf(m, p);
    }
}

/// A peer over its share pays for its own requests: no other peer loses one.
pub proof fn heavy_peer_pays_for_itself(
    m: RecentModel,
    from: u128,
    share: int,
    after: RecentModel,
    other: u128,
)
    requires
        m.wf(),
        m.makes_room(from, share, after),
        m.held(from).len() >= share,
        share > 0,
        other != from,
    ensures
        after.held(other) == m.held(other),
        after.held(from) == m.held(from).drop_first(),
{
    if m.by_peer[from].len() == 1 {
        assert(after.held(from) =~= m.held(from).drop_first());
    }
}

/// A peer that holds fewer requests than some other loses none to a full cache.
pub proof fn light_peer_keeps_its_requests(
    m: RecentModel,
    from: u128,
    share: int,
    after: RecentModel,
    light: u128,
    heavy: u128,
)
    requires
        m.wf(),
        m.makes_room(from, share, after),
        light != from || m.held(from).len() < share,
        m.held(light).len() < m.held(heavy).len(),
    ensures
        after.held(light) == m.held(light),
{
}

/// Purging keeps both tables in agreement.
pub proof fn purge_keeps_wf(m: RecentModel, now_ms: u64, expiry_ms: u64)
    requires
        m.wf(),
    ensures
        m.purged(now_ms, expiry_ms).wf(),
        m.purged(now_ms, expiry_ms).requests.len() <= m.requests.len(),
{
    let after = m.purged(now_ms, expiry_ms);
    let live = |id: u64| m.is_live(id, now_ms, expiry_ms);
    vstd::set_lib::lemma_len_subset(after.requests.dom(), m.requests.dom());
    vstd::set_lib::lemma_len_subset(after.by_peer.dom(), m.by_peer.dom());
    assert forall|p: u128, i: int|
        #![trigger after.by_peer[p][i]]
        after.by_peer.contains_key(p) && 0 <= i < after.by_peer[p].len() implies {
        &&& after.requests.contains_key(after.by_peer[p][i])
        &&& after.requests[after.by_peer[p][i]].from_peer == p
    } by {
        let id = after.by_peer[p][i];
        assert(after.by_peer[p].contains(id));
        filter_members(m.by_peer[p], live, id);
        let k = choose|k: int| 0 <= k < m.by_peer[p].len() && m.by_peer[p][k] == id;
        assert(m.by_peer[p][k] == id);
    }
    assert forall|id: u64| #[trigger] after.requests.contains_key(id) implies {
        &&& after.by_peer.contains_key(after.requests[id].from_peer)
        &&& after.by_peer[after.requests[id].from_peer].contains(id)
    } by {
        let p = m.requests[id].from_peer;
        filter_members(m.by_peer[p], live, id);
        assert(live(id));
        assert(m.live_ids(p, now_ms, expiry_ms).contains(id));
    }
    assert forall|p: u128| #[trigger] after.by_peer.contains_key(p) implies after.by_peer[p].len()
        > 0 && after.by_peer[p].no_duplicates() by {
        filter_keeps_distinct(m.by_peer[p], live);
    }
}

/// A filtered sequence holds exactly the elements that pass.
proof fn filter_members(s: Seq<u64>, f: spec_fn(u64) -> bool, x: u64)
    ensures
        s.filter(f).contains(x) <==> s.contains(x) && f(x),
    decreases s.len(),
{
    reveal(Seq::filter);
    if s.len() > 0 {
        let head = s.drop_last();
        filter_members(head, f, x);
        assert(s =~= head.push(s.last()));
        assert(s.contains(x) <==> head.contains(x) || x == s.last()) by {
            if head.contains(x) {
                let k = choose|k: int| 0 <= k < head.len() && head[k] == x;
                assert(s[k] == x);
            }
            if x == s.last() {
                assert(s[s.len() - 1] == x);
            }
        }
        if f(s.last()) {
            let kept = head.filter(f);
            let all = kept.push(s.last());
            assert(all.contains(x) <==> kept.contains(x) || x == s.last()) by {
                if kept.contains(x) {
                    let k = choose|k: int| 0 <= k < kept.len() && kept[k] == x;
                    assert(all[k] == x);
                }
                if x == s.last() {
                    assert(all[all.len() - 1] == x);
                }
            }
        }
    }
}

/// Filtering a sequence without duplicates yields one without duplicates.
proof fn filter_keeps_distinct(s: Seq<u64>, f: spec_fn(u64) -> bool)
    requires
        s.no_duplicates(),
    ensures
        s.filter(f).no_duplicates(),
    decreases s.len(),
{
    reveal(Seq::filter);
    if s.len() > 0 {
        let head = s.drop_last();
        filter_keeps_distinct(head, f);
        let kept = head.filter(f);
        if f(s.last()) {
            assert forall|i: int, j: int|
                0 <= i < kept.len() + 1 && 0 <= j < kept.len() + 1 && i != j implies kept.push(
                s.last(),
            )[i] != kept.push(s.last())[j] by {
                if i < kept.len() && j == kept.len() {
                    assert(kept.contains(kept[i]));
                    filter_members(head, f, kept[i]);
                    let k = choose|k: int| 0 <= k < head.len() && head[k] == kept[i];
                    assert(s[k] == kept[i]);
                }
                if j < kept.len() && i == kept.len() {
                    assert(kept.contains(kept[j]));
                    filter_members(head, f, kept[j]);
                    let k = choose|k: int| 0 <= k < head.len() && head[k] == kept[j];
                    assert(s[k] == kept[j]);
                }
            }
        }
    }
}

impl RecentRequests {
    /// An empty cache.
    pub fn new() -> (r: RecentRequests)
        ensures
            r@ == (RecentModel { requests: Map::empty(), by_peer: Map::empty() }),
            r@.wf(),
    {
        let r = RecentRequests { requests: HashMap::new(), by_peer: HashMap::new() };
        assert(r@.by_peer =~= Map::empty());
        r
    }

    /// A peer that no other peer outdoes in requests held, if there is any.
    fn fattest_peer(&self) -> (r: Option<u128>)
        ensures
            match r {
                Some(p) => self@.is_fattest(p),
                None => self@.by_peer =~= Map::<u128, Seq<u64>>::empty(),
            },
    {
        let mut best: Option<u128> = None;
        for key in it: self.by_peer.keys()
            invariant
                it.seq() == self.by_peer.keys().remaining(),
                match best {
                    Some(p) => self.by_peer@.contains_key(p) && forall|j: int|
                        0 <= j < it.index() ==> self.by_peer@[*#[trigger] it.seq()[j]]@.len()
                            <= self.by_peer@[p]@.len(),
                    None => it.index() == 0,
                },
        {
            let len: usize = match self.by_peer.get(key) {
                Some(ids) => ids.len(),
                None => 0,
            };
            let best_len: usize = match best {
                Some(p) => match self.by_peer.get(&p) {
                    Some(ids) => ids.len(),
                    None => 0,
                },
                None => 0,
            };
            if best.is_none() || len > best_len {
                best = Some(*key);
            }
        }
        best
    }

    /// Removes the oldest request of a peer.
    fn evict_oldest(&mut self, victim: u128)
        requires
            old(self)@.wf(),
            old(self)@.by_peer.contains_key(victim),
        ensures
            final(self)@ == old(self)@.evict(victim),
    {
        let ghost before = self@;
        let mut ids = match self.by_peer.remove(&victim) {
            Some(ids) => ids,
            None => {
                return;
            },
        };
        assert(ids@ == before.by_peer[victim]);
        let evicted = ids.remove(0);
        assert(ids@ =~= before.by_peer[victim].drop_first());
        if !ids.is_empty() {
            self.by_peer.insert(victim, ids);
        }
        self.requests.remove(&evicted);
        assert(self@.by_peer =~= before.evict(victim).by_peer);
    }

    /// Makes room for one more request from `from` on a node with this many
    /// link peers. Returns whether a request had to go.
    pub fn make_room_for_request(&mut self, from: u128, link_peers: usize) -> (evicted: bool)
        requires
            old(self)@.wf(),
        ensures
            final(self)@.wf(),
            old(self)@.makes_room(from, peer_share(link_peers as nat), final(self)@),
            evicted == (final(self)@ != old(self)@),
    {
        let n: usize = if link_peers == 0 {
            1
        } else {
            link_peers
        };
        let even: usize = MAX_RECENT_DISCOVERY_REQUESTS / n;
        let share: usize = if even < MIN_RECENT_PER_PEER {
            MIN_RECENT_PER_PEER
        } else {
            even
        };
        let over_share = match self.by_peer.get(&from) {
            Some(ids) => ids.len() >= share,
            None => false,
        };
        let victim = if over_share {
            Some(from)
        } else if self.requests.len() >= MAX_RECENT_DISCOVERY_REQUESTS {
            self.fattest_peer()
        } else {
            return false;
        };
        match victim {
            Some(victim) => {
                proof {
                    evict_keeps_wf(self@, victim);
                }
                self.evict_oldest(victim);
                true
            },
            None => {
                proof {
                    assert(self.requests@.dom() =~= Set::empty());
                }
                false
            },
        }
    }

    /// Adds a request that is not cached yet.
    fn record(&mut self, id: u64, from: u128, now_ms: u64)
        requires
            old(self)@.wf(),
            !old(self)@.requests.contains_key(id),
        ensures
            final(self)@ == old(self)@.with_request(id, from, now_ms),
    {
        let ghost before = self@;
        self.requests.insert(
            id,
            RecentRequest { from_peer: from, timestamp_ms: now_ms, response_forwarded: false },
        );
        let mut ids = match self.by_peer.remove(&from) {
            Some(ids) => ids,
            None => Vec::new(),
        };
        assert(ids@ =~= before.held(from));
        ids.push(id);
        self.by_peer.insert(from, ids);
        assert(self@.by_peer =~= before.with_request(id, from, now_ms).by_peer);
    }

    /// Removes the expired requests.
    pub fn purge_expired_requests(&mut self, now_ms: u64, expiry_ms: u64)
        requires
            old(self)@.wf(),
        ensures
            final(self)@ == old(self)@.purged(now_ms, expiry_ms),
            final(self)@.wf(),
            final(self)@.requests.len() <= old(self)@.requests.len(),
    {
        let ghost before = self@;
        let ghost requests0 = self.requests@;
        let ghost by_peer0 = self.by_peer@;
        let mut stale: Vec<u64> = Vec::new();
        for key in it: self.requests.keys()
            invariant
                self.requests@ == requests0,
                self.by_peer@ == by_peer0,
                it.seq() == self.requests.keys().remaining(),
                forall|j: int|
                    0 <= j < stale.len() ==> requests0.contains_key(#[trigger] stale[j])
                        && requests0[stale[j]].spec_is_expired(now_ms, expiry_ms),
                forall|j: int|
                    0 <= j < it.index() && requests0[*#[trigger] it.seq()[j]].spec_is_expired(
                        now_ms,
                        expiry_ms,
                    ) ==> stale@.contains(*it.seq()[j]),
        {
            let ghost earlier = stale@;
            if let Some(entry) = self.requests.get(key) {
                if entry.is_expired(now_ms, expiry_ms) {
                    stale.push(*key);
                    assert(stale@[earlier.len() as int] == *key);
                    assert forall|x: u64| earlier.contains(x) implies stale@.contains(x) by {
                        let j = choose|j: int| 0 <= j < earlier.len() && earlier[j] == x;
                        assert(stale@[j] == x);
                    }
                }
            }
        }
        assert forall|k: u64|
            requests0.contains_key(k) && requests0[k].spec_is_expired(
                now_ms,
                expiry_ms,
            ) implies stale@.contains(k) by {
            assert(self.requests.keys().remaining().unref().to_set().contains(k));
        }
        let mut i: usize = 0;
        while i < stale.len()
            invariant
                i <= stale.len(),
                self.by_peer@ == by_peer0,
                self.requests@ == requests0.remove_keys(stale@.take(i as int).to_set()),
            decreases stale.len() - i,
        {
            self.requests.remove(&stale[i]);
            proof {
                assert(stale@.take(i + 1) =~= stale@.take(i as int).push(stale@[i as int]));
                stale@.take(i as int).lemma_push_to_set_commute(stale@[i as int]);
                assert(self.requests@ =~= requests0.remove_keys(stale@.take(i + 1).to_set()));
            }
            i += 1;
        }
        proof {
            assert(stale@.take(i as int) =~= stale@);
            assert(self.requests@ =~= before.purged(now_ms, expiry_ms).requests);
        }
        let peers = self.peer_keys();
        assert forall|j: int| 0 <= j < peers.len() implies self.by_peer@.contains_key(
            #[trigger] peers@[j],
        ) by {
            assert(peers@.contains(peers@[j]));
        }
        let mut k: usize = 0;
        while k < peers.len()
            invariant
                k <= peers.len(),
                peers@.no_duplicates(),
                before.wf(),
                before.by_peer == by_peer0.map_values(|v: Vec<u64>| v@),
                before.requests == requests0,
                self.requests@ == before.purged(now_ms, expiry_ms).requests,
                forall|p: u128| #[trigger] peers@.contains(p) <==> by_peer0.contains_key(p),
                forall|j: int|
                    k <= j < peers.len() ==> self.by_peer@.contains_key(#[trigger] peers@[j])
                        && self.by_peer@[peers@[j]] == by_peer0[peers@[j]],
                forall|p: u128|
                    peers@.take(k as int).contains(p) ==> {
                        let ids = before.live_ids(p, now_ms, expiry_ms);
                        &&& #[trigger] self.by_peer@.contains_key(p) <==> ids.len() > 0
                        &&& ids.len() > 0 ==> self.by_peer@[p]@ == ids
                    },
                forall|p: u128| #[trigger]
                    self.by_peer@.contains_key(p) ==> by_peer0.contains_key(p) && (
                    peers@.take(k as int).contains(p) || self.by_peer@[p] == by_peer0[p]),
            decreases peers.len() - k,
        {
            let p = peers[k];
            let ghost map_before = self.by_peer@;
            assert(peers@[k as int] == p);
            assert(peers@.contains(p));
            if let Some(ids) = self.by_peer.remove(&p) {
                let kept = self.still_cached(&ids);
                proof {
                    let live = |id: u64| before.is_live(id, now_ms, expiry_ms);
                    let cached = |id: u64| self.requests@.contains_key(id);
                    assert(ids@ == before.by_peer[p]);
                    assert(live =~= cached);
                    assert(kept@ == before.live_ids(p, now_ms, expiry_ms));
                }
                if !kept.is_empty() {
                    self.by_peer.insert(p, kept);
                }
            }
            proof {
                assert(peers@.take(k + 1) =~= peers@.take(k as int).push(p));
                assert forall|q: u128|
                    peers@.take(k + 1).contains(q) <==> peers@.take(k as int).contains(q) || q
                        == p by {
                    if peers@.take(k as int).contains(q) {
                        let j = choose|j: int|
                            0 <= j < k && peers@.take(k as int)[j] == q;
                        assert(peers@.take(k + 1)[j] == q);
                    }
                    if q == p {
                        assert(peers@.take(k + 1)[k as int] == q);
                    }
                }
                assert(!peers@.take(k as int).contains(p)) by {
                    if peers@.take(k as int).contains(p) {
                        let j = choose|j: int| 0 <= j < k && peers@.take(k as int)[j] == p;
                        assert(peers@[j] == peers@[k as int]);
                    }
                }
                assert forall|q: u128| q != p implies (self.by_peer@.contains_key(q)
                    <==> map_before.contains_key(q)) && (map_before.contains_key(q)
                    ==> self.by_peer@[q] == map_before[q]) by {}
                assert forall|j: int| k < j < peers.len() implies #[trigger] peers@[j] != p by {}
            }
            k += 1;
        }
        proof {
            assert(peers@.take(k as int) =~= peers@);
            assert(self@.by_peer =~= before.purged(now_ms, expiry_ms).by_peer);
            purge_keeps_wf(before, now_ms, expiry_ms);
        }
    }

    /// The peers that hold requests, each once.
    fn peer_keys(&self) -> (peers: Vec<u128>)
        ensures
            peers@.no_duplicates(),
            forall|p: u128| #[trigger] peers@.contains(p) <==> self.by_peer@.contains_key(p),
    {
        let mut peers: Vec<u128> = Vec::new();
        for key in it: self.by_peer.keys()
            invariant
                it.seq() == self.by_peer.keys().remaining(),
                peers.len() == it.index(),
                forall|j: int|
                    0 <= j < peers.len() ==> peers@[j] == #[trigger] it.seq().unref()[j],
        {
            peers.push(*key);
        }
        proof {
            let ks = self.by_peer.keys().remaining();
            assert(peers@ =~= ks.unref());
            assert forall|p: u128| #[trigger] peers@.contains(p) <==> self.by_peer@.contains_key(
                p,
            ) by {
                assert(ks.unref().to_set().contains(p) <==> ks.unref().contains(p));
            }
            assert forall|i: int, j: int|
                0 <= i < peers.len() && 0 <= j < peers.len() && i != j implies peers@[i]
                != peers@[j] by {
                assert(ks[i] != ks[j]);
            }
        }
        peers
    }

    /// The identifiers among `ids` that are cached, in their order.
    fn still_cached(&self, ids: &Vec<u64>) -> (kept: Vec<u64>)
        ensures
            kept@ == ids@.filter(|id: u64| self.requests@.contains_key(id)),
    {
        let mut kept: Vec<u64> = Vec::new();
        let mut i: usize = 0;
        let ghost cached = |id: u64| self.requests@.contains_key(id);
        proof {
            reveal(Seq::filter);
            assert(ids@.take(0).filter(cached) =~= Seq::empty());
        }
        while i < ids.len()
            invariant
                i <= ids.len(),
                cached == (|id: u64| self.requests@.contains_key(id)),
                kept@ == ids@.take(i as int).filter(cached),
            decreases ids.len() - i,
        {
            proof {
                assert(ids@.take(i + 1) =~= ids@.take(i as int).push(ids@[i as int]));
                ids@.take(i as int).lemma_filter_push(ids@[i as int], cached);
            }
            if self.requests.contains_key(&ids[i]) {
                kept.push(ids[i]);
            }
            i += 1;
        }
        assert(ids@.take(i as int) =~= ids@);
        kept
    }
}

/// What becomes of an inbound lookup request.
#[derive(Clone, Copy, Debug, PartialEq, Eq, Structural)]
pub enum RequestAction {
    /// Its identifier is cached: drop it.
    Duplicate,
    /// We are its target: answer, if the signing budget allows.
    Target,
    /// Pass it on, if the forwarding budget for its target allows.
    Transit,
    /// It may not travel further: drop it.
    TtlExhausted,
}

/// A lookup request.
#[derive(Clone, Copy, Debug)]
pub struct LookupRequest {
    /// Identifier, drawn afresh for every attempt.
    pub request_id: u64,
    /// Node looked for.
    pub target: NodeAddr,
    /// Node that looks.
    pub origin: NodeAddr,
    /// Hops it may still travel.
    pub ttl: u8,
}

impl LookupRequest {
    /// Whether the request may travel further.
    pub fn can_forward(&self) -> (r: bool)
        ensures
            r == (self.ttl > 0),
    {
        self.ttl > 0
    }

    /// Takes one hop off the request; false where none is left.
    pub fn forward(&mut self) -> (r: bool)
        ensures
            r == (old(self).ttl > 0),
            *final(self) == (LookupRequest {
                ttl: if old(self).ttl > 0 {
                    (old(self).ttl - 1) as u8
                } else {
                    0
                },
                ..*old(self)
            }),
    {
        if self.ttl > 0 {
            self.ttl = self.ttl - 1;
            true
        } else {
            false
        }
    }
}

/// Where a lookup response goes.
#[derive(Clone, Copy, Debug, PartialEq, Eq, Structural)]
pub enum ResponseRoute {
    /// One was forwarded already: drop this one.
    AlreadyForwarded,
    /// Back to the peer the request came from.
    Forward(NodeAddr),
    /// The request was not passed through this node: it may be our own.
    Ours,
}

impl RecentModel {
    /// Whether the request comes first, once expired ones are gone.
    pub open spec fn is_fresh(self, id: u64, now_ms: u64, expiry_ms: u64) -> bool {
        !self.is_live(id, now_ms, expiry_ms)
    }

    /// The cache with a response noted as forwarded.
    pub open spec fn with_forwarded(self, id: u64) -> RecentModel {
        RecentModel {
            requests: self.requests.insert(
                id,
                RecentRequest { response_forwarded: true, ..self.requests[id] },
            ),
            ..self
        }
    }
}

/// What a request that is not a duplicate calls for.
pub open spec fn fresh_request_action(request: LookupRequest, our_addr: NodeAddr) -> RequestAction {
    if request.target == our_addr {
        RequestAction::Target
    } else if request.ttl > 0 {
        RequestAction::Transit
    } else {
        RequestAction::TtlExhausted
    }
}

impl RecentModel {
    /// Whether `after` and `r` are what a lookup request leads to: expired requests
    /// are gone, a duplicate is dropped, and any other is filed as a reverse path
    /// once there is room.
    pub open spec fn handles(
        self,
        request: LookupRequest,
        from: NodeAddr,
        our_addr: NodeAddr,
        link_peers: nat,
        now_ms: u64,
        expiry_ms: u64,
        after: RecentModel,
        r: RequestAction,
    ) -> bool {
        let purged = self.purged(now_ms, expiry_ms);
        if !self.is_fresh(request.request_id, now_ms, expiry_ms) {
            after == purged && r == RequestAction::Duplicate
        } else {
            &&& exists|room: RecentModel| #[trigger]
                purged.makes_room(from.value, peer_share(link_peers), room) && after
                    == room.with_request(request.request_id, from.value, now_ms)
            &&& r == fresh_request_action(request, our_addr)
        }
    }
}

impl RecentRequests {
    /// Handles an inbound lookup request: purges, drops a duplicate, and
    /// otherwise files the request as a reverse path, evicting if there is no
    /// room, and decides what to do with it.
    pub fn handle_lookup_request(
        &mut self,
        request: &LookupRequest,
        from: &NodeAddr,
        our_addr: &NodeAddr,
        link_peers: usize,
        now_ms: u64,
        expiry_ms: u64,
    ) -> (r: RequestAction)
        requires
            old(self)@.wf(),
        ensures
            final(self)@.wf(),
            old(self)@.handles(
                *request,
                *from,
                *our_addr,
                link_peers as nat,
                now_ms,
                expiry_ms,
                final(self)@,
                r,
            ),
            old(self)@.requests.len() <= MAX_RECENT_DISCOVERY_REQUESTS
                ==> final(self)@.requests.len() <= MAX_RECENT_DISCOVERY_REQUESTS,
    {
        self.purge_expired_requests(now_ms, expiry_ms);
        if self.requests.contains_key(&request.request_id) {
            return RequestAction::Duplicate;
        }
        let ghost purged = self@;
        self.make_room_for_request(from.value, link_peers);
        let ghost room = self@;
        proof {
            assert(!room.requests.contains_key(request.request_id));
            with_request_keeps_wf(room, request.request_id, from.value, now_ms);
            if purged.requests.len() <= MAX_RECENT_DISCOVERY_REQUESTS {
                making_room_bounds_cache(purged, from.value, peer_share(link_peers as nat), room);
            }
        }
        self.record(request.request_id, from.value, now_ms);
        if request.target.value == our_addr.value {
            RequestAction::Target
        } else if request.can_forward() {
            RequestAction::Transit
        } else {
            RequestAction::TtlExhausted
        }
    }

    /// Routes a lookup response: the first response to a request that passed
    /// through goes back along its path, later ones are dropped.
    pub fn route_response(&mut self, request_id: u64) -> (r: ResponseRoute)
        requires
            old(self)@.wf(),
        ensures
            final(self)@.wf(),
            ({
                let m = old(self)@;
                if !m.requests.contains_key(request_id) {
                    r == ResponseRoute::Ours && final(self)@ == m
                } else if m.requests[request_id].response_forwarded {
                    r == ResponseRoute::AlreadyForwarded && final(self)@ == m
                } else {
                    &&& r == ResponseRoute::Forward(
                        NodeAddr { value: m.requests[request_id].from_peer },
                    )
                    &&& final(self)@ == m.with_forwarded(request_id)
                }
            }),
    {
        let entry: RecentRequest = match self.requests.get(&request_id) {
            Some(entry) => *entry,
            None => {
                return ResponseRoute::Ours;
            },
        };
        if entry.response_forwarded {
            return ResponseRoute::AlreadyForwarded;
        }
        let ghost before = self@;
        self.requests.insert(request_id, RecentRequest { response_forwarded: true, ..entry });
        assert(self@ =~= before.with_forwarded(request_id));
        assert(self@.wf()) by {
            assert(self@.requests.dom() =~= before.requests.dom());
        }
        ResponseRoute::Forward(NodeAddr { value: entry.from_peer })
    }

    /// Where our own answer to a request goes: back along its path, or where
    /// that is gone along the tree towards its origin.
    pub fn answer_route(&self, request_id: u64, tree_route: Option<NodeAddr>) -> (r: Option<NodeAddr>)
        ensures
            r == if self@.requests.contains_key(request_id) {
                Some(NodeAddr { value: self@.requests[request_id].from_peer })
            } else {
                tree_route
            },
    {
        match self.requests.get(&request_id) {
            Some(entry) => Some(NodeAddr { value: entry.from_peer }),
            None => tree_route,
        }
    }
}

/// Of the responses to one request, this node forwards a single one, to the
/// peer the request came from.
pub proof fn one_response_is_forwarded(m: RecentModel, id: u64)
    requires
        m.wf(),
        m.requests.contains_key(id),
    ensures
        m.with_forwarded(id).requests[id].response_forwarded,
        m.with_forwarded(id).requests[id].from_peer == m.requests[id].from_peer,
        m.with_forwarded(id).requests.contains_key(id),
{
}

/// Folds the MTU of the link a response leaves over into its path MTU; without
/// a known link nothing changes.
pub fn apply_outgoing_link_mtu(path_mtu: u16, link_mtu: Option<u16>) -> (r: u16)
    ensures
        r == match link_mtu {
            Some(mtu) if mtu < path_mtu => mtu,
            _ => path_mtu,
        },
{
    match link_mtu {
        Some(mtu) => if mtu < path_mtu {
            mtu
        } else {
            path_mtu
        },
        None => path_mtu,
    }
}

/// An outstanding lookup.
pub struct PendingLookup {
    /// When the lookup was first initiated.
    pub initiated_ms: u64,
    /// When the last attempt was sent.
    pub last_sent_ms: u64,
    /// Current attempt number (1 = initial, 2 = first retry, ...).
    pub attempt: u8,
    /// Request identifiers issued for this target, oldest first.
    pub ids: Vec<u64>,
}

/// The identifiers remembered once `id` has been issued: a new one goes to the
/// end, and pushes the oldest out when the list is full.
pub open spec fn recorded(ids: Seq<u64>, id: u64) -> Seq<u64> {
    if ids.contains(id) {
        ids
    } else if ids.len() >= MAX_RECORDED_IDS {
        ids.drop_first().push(id)
    } else {
        ids.push(id)
    }
}

impl PendingLookup {
    /// The list of identifiers is within its bound, and none is there twice.
    pub open spec fn wf(self) -> bool {
        self.ids@.len() <= MAX_RECORDED_IDS && self.ids@.no_duplicates()
    }

    /// A lookup on its first attempt, with no identifier issued yet.
    pub fn new(now_ms: u64) -> (r: PendingLookup)
        ensures
            r.initiated_ms == now_ms,
            r.last_sent_ms == now_ms,
            r.attempt == 1,
            r.ids@ == Seq::<u64>::empty(),
            r.wf(),
    {
        PendingLookup { initiated_ms: now_ms, last_sent_ms: now_ms, attempt: 1, ids: Vec::new() }
    }

    /// Remembers an identifier just put on the wire for this target.
    pub fn record(&mut self, request_id: u64)
        ensures
            old(self).wf() ==> final(self).wf(),
            final(self).ids@ == recorded(old(self).ids@, request_id),
            final(self).ids@.contains(request_id),
            final(self).initiated_ms == old(self).initiated_ms,
            final(self).last_sent_ms == old(self).last_sent_ms,
            final(self).attempt == old(self).attempt,
    {
        if self.matches(request_id) {
            return;
        }
        if self.ids.len() >= MAX_RECORDED_IDS {
            self.ids.remove(0);
            assert(self.ids@ =~= old(self).ids@.drop_first());
        }
        assert(!self.ids@.contains(request_id));
        self.ids.push(request_id);
        assert(self.ids@[self.ids@.len() - 1] == request_id);
    }

    /// Whether `request_id` is one this node issued for this target.
    pub fn matches(&self, request_id: u64) -> (r: bool)
        ensures
            r == self.ids@.contains(request_id),
    {
        let mut i: usize = 0;
        while i < self.ids.len()
            invariant
                i <= self.ids.len(),
                forall|j: int| 0 <= j < i ==> self.ids@[j] != request_id,
            decreases self.ids.len() - i,
        {
            if self.ids[i] == request_id {
                return true;
            }
            i += 1;
        }
        false
    }
}

/// An identifier stays recorded until eight newer ones have been issued: after
/// one more, everything but possibly the oldest is still there.
pub proof fn recent_ids_stay_recorded(ids: Seq<u64>, id: u64, k: int)
    requires
        0 < k < ids.len(),
    ensures
        recorded(ids, id).contains(ids[k]),
{
    if !ids.contains(id) {
        if ids.len() >= MAX_RECORDED_IDS {
            assert(recorded(ids, id)[k - 1] == ids[k]);
        } else {
            assert(recorded(ids, id)[k] == ids[k]);
        }
    }
}

/// Why a lookup message was dropped.
#[derive(Clone, Copy, Debug, PartialEq, Eq, Structural)]
pub enum DiscoveryReject {
    /// The response answers no request of ours.
    RespUnsolicited,
    /// The target's public key is not known.
    RespIdentityMiss,
    /// The target's signature does not verify.
    RespProofFailed,
}

/// What to do about a destination that has no known route.
#[derive(Clone, Copy, Debug, PartialEq, Eq, Structural)]
pub enum LookupPlan {
    /// A lookup is outstanding already.
    Deduplicated,
    /// An earlier failure still suppresses lookups.
    Suppressed,
    /// No peer's filter holds the destination: count a failure.
    BloomMiss,
    /// Send the first attempt.
    Start,
}

/// Seconds that the given attempt waits for its answer; none is left after the
/// last one listed.
pub open spec fn attempt_timeout(timeouts: Seq<u64>, attempt: u8) -> int {
    let k: int = if attempt == 0 {
        0
    } else {
        attempt - 1
    };
    if k < timeouts.len() {
        timeouts[k] as int
    } else {
        0
    }
}

/// Whether the attempt under way has waited long enough.
pub open spec fn attempt_is_over(timeouts: Seq<u64>, p: PendingLookup, now_ms: u64) -> bool {
    let waited: int = if now_ms >= p.last_sent_ms {
        now_ms - p.last_sent_ms
    } else {
        0
    };
    waited >= attempt_timeout(timeouts, p.attempt) * 1000
}

/// Number of attempts in all: one for each timeout, as far as the attempt counter
/// reaches.
pub open spec fn max_attempts(timeouts: Seq<u64>) -> int {
    if timeouts.len() < 255 {
        timeouts.len() as int
    } else {
        255
    }
}

/// Whether a lookup goes on with another attempt now.
pub open spec fn lookup_retries(timeouts: Seq<u64>, p: PendingLookup, now_ms: u64) -> bool {
    attempt_is_over(timeouts, p, now_ms) && p.attempt < max_attempts(timeouts)
}

/// Whether a lookup has failed for good now.
pub open spec fn lookup_fails(timeouts: Seq<u64>, p: PendingLookup, now_ms: u64) -> bool {
    attempt_is_over(timeouts, p, now_ms) && p.attempt >= max_attempts(timeouts)
}

/// Whether `q` is `p` on its next attempt.
pub open spec fn is_next_attempt(p: PendingLookup, now_ms: u64, q: PendingLookup) -> bool {
    &&& q.attempt == p.attempt + 1
    &&& q.last_sent_ms == now_ms
    &&& q.initiated_ms == p.initiated_ms
    &&& q.ids@ == p.ids@
}

/// The outstanding lookups by target.
pub struct PendingLookups {
    /// Lookups by target address.
    pub entries: HashMap<u128, PendingLookup>,
}

impl View for PendingLookups {
    type V = Map<u128, PendingLookup>;

    open spec fn view(&self) -> Map<u128, PendingLookup> {
        self.entries@
    }
}

/// Whether a lookup of `target` issued `request_id`.
pub open spec fn is_solicited(
    pending: Map<u128, PendingLookup>,
    target: NodeAddr,
    request_id: u64,
) -> bool {
    pending.contains_key(target.value) && pending[target.value].ids@.contains(request_id)
}

impl PendingLookups {
    /// No outstanding lookup.
    pub fn new() -> (r: PendingLookups)
        ensures
            r@ == Map::<u128, PendingLookup>::empty(),
    {
        PendingLookups { entries: HashMap::new() }
    }

    /// Decides about a lookup of `dest`, and files it when it starts.
    pub fn maybe_initiate_lookup(
        &mut self,
        dest: &NodeAddr,
        suppressed: bool,
        reachable: bool,
        now_ms: u64,
    ) -> (r: LookupPlan)
        ensures
            r == if old(self)@.contains_key(dest.value) {
                LookupPlan::Deduplicated
            } else if suppressed {
                LookupPlan::Suppressed
            } else if !reachable {
                LookupPlan::BloomMiss
            } else {
                LookupPlan::Start
            },
            r != LookupPlan::Start ==> final(self)@ == old(self)@,
            r == LookupPlan::Start ==> {
                let p = final(self)@[dest.value];
                &&& final(self)@ == old(self)@.insert(dest.value, p)
                &&& p.initiated_ms == now_ms && p.last_sent_ms == now_ms && p.attempt == 1
                &&& p.ids@ == Seq::<u64>::empty()
            },
    {
        if self.entries.contains_key(&dest.value) {
            return LookupPlan::Deduplicated;
        }
        if suppressed {
            return LookupPlan::Suppressed;
        }
        if !reachable {
            return LookupPlan::BloomMiss;
        }
        self.entries.insert(dest.value, PendingLookup::new(now_ms));
        LookupPlan::Start
    }

    /// Files the identifier of a request that goes out for `target`, starting
    /// an entry where there is none.
    pub fn initiate_lookup(&mut self, target: &NodeAddr, request_id: u64, now_ms: u64)
        ensures
            ({
                let p = final(self)@[target.value];
                let known = old(self)@.contains_key(target.value);
                let before = old(self)@[target.value];
                &&& final(self)@ == old(self)@.insert(target.value, p)
                &&& p.ids@ == recorded(
                    if known {
                        before.ids@
                    } else {
                        Seq::empty()
                    },
                    request_id,
                )
                &&& p.initiated_ms == if known {
                    before.initiated_ms
                } else {
                    now_ms
                }
                &&& p.last_sent_ms == if known {
                    before.last_sent_ms
                } else {
                    now_ms
                }
                &&& p.attempt == if known {
                    before.attempt
                } else {
                    1
                }
            }),
            is_solicited(final(self)@, *target, request_id),
    {
        let mut entry = match self.entries.remove(&target.value) {
            Some(entry) => entry,
            None => PendingLookup::new(now_ms),
        };
        entry.record(request_id);
        self.entries.insert(target.value, entry);
        assert(self@ =~= old(self)@.insert(target.value, entry));
    }

    /// Ends a first attempt that no peer could take. Returns whether it failed
    /// on the spot.
    pub fn lookup_sent(&mut self, dest: &NodeAddr, sent: usize) -> (failed: bool)
        ensures
            failed == (sent == 0),
            final(self)@ == if sent == 0 {
                old(self)@.remove(dest.value)
            } else {
                old(self)@
            },
    {
        if sent == 0 {
            self.entries.remove(&dest.value);
            true
        } else {
            false
        }
    }

    /// Whether an identifier was issued for a lookup of this target that is still
    /// open.
    pub fn is_solicited(&self, target: &NodeAddr, request_id: u64) -> (r: bool)
        ensures
            r == is_solicited(self@, *target, request_id),
    {
        match self.entries.get(&target.value) {
            Some(pending) => pending.matches(request_id),
            None => false,
        }
    }

    /// Decides about a response to a request of our own. It counts only if it
    /// carries an identifier issued for its target, the target's key is known
    /// and the proof verifies; it then ends the lookup.
    pub fn accept_response(
        &mut self,
        target: &NodeAddr,
        request_id: u64,
        identity_known: bool,
        proof_ok: bool,
    ) -> (r: Result<(), DiscoveryReject>)
        ensures
            r == if !is_solicited(old(self)@, *target, request_id) {
                Err(DiscoveryReject::RespUnsolicited)
            } else if !identity_known {
                Err(DiscoveryReject::RespIdentityMiss)
            } else if !proof_ok {
                Err(DiscoveryReject::RespProofFailed)
            } else {
                Ok(())
            },
            final(self)@ == if r is Ok {
                old(self)@.remove(target.value)
            } else {
                old(self)@
            },
    {
        if !self.is_solicited(target, request_id) {
            return Err(DiscoveryReject::RespUnsolicited);
        }
        if !identity_known {
            return Err(DiscoveryReject::RespIdentityMiss);
        }
        if !proof_ok {
            return Err(DiscoveryReject::RespProofFailed);
        }
        self.entries.remove(&target.value);
        Ok(())
    }

    /// The targets of the outstanding lookups, each once.
    fn targets(&self) -> (targets: Vec<u128>)
        ensures
            targets@.no_duplicates(),
            forall|a: u128| #[trigger] targets@.contains(a) <==> self@.contains_key(a),
    {
        let mut targets: Vec<u128> = Vec::new();
        for key in it: self.entries.keys()
            invariant
                it.seq() == self.entries.keys().remaining(),
                targets.len() == it.index(),
                forall|j: int|
                    0 <= j < targets.len() ==> targets@[j] == #[trigger] it.seq().unref()[j],
        {
            targets.push(*key);
        }
        proof {
            let ks = self.entries.keys().remaining();
            assert(targets@ =~= ks.unref());
            assert forall|a: u128| #[trigger] targets@.contains(a) <==> self.entries@.contains_key(
                a,
            ) by {
                assert(ks.unref().to_set().contains(a) <==> ks.unref().contains(a));
            }
            assert forall|i: int, j: int|
                0 <= i < targets.len() && 0 <= j < targets.len() && i != j implies targets@[i]
                != targets@[j] by {
                assert(ks[i] != ks[j]);
            }
        }
        targets
    }

    /// Moves every lookup on whose attempt has waited long enough. Returns the
    /// targets to send another attempt for, and those given up.
    pub fn check_pending_lookups(&mut self, now_ms: u64, timeouts: &Vec<u64>) -> (r: (
        Vec<u128>,
        Vec<u128>,
    ))
        requires
            forall|i: int| 0 <= i < timeouts.len() ==> #[trigger] timeouts[i] * 1000 <= u64::MAX,
        ensures
            r.0@.no_duplicates(),
            r.1@.no_duplicates(),
            forall|a: u128| #[trigger]
                r.0@.contains(a) <==> old(self)@.contains_key(a) && lookup_retries(
                    timeouts@,
                    old(self)@[a],
                    now_ms,
                ),
            forall|a: u128| #[trigger]
                r.1@.contains(a) <==> old(self)@.contains_key(a) && lookup_fails(
                    timeouts@,
                    old(self)@[a],
                    now_ms,
                ),
            forall|a: u128| #[trigger]
                final(self)@.contains_key(a) <==> old(self)@.contains_key(a) && !lookup_fails(
                    timeouts@,
                    old(self)@[a],
                    now_ms,
                ),
            forall|a: u128| #[trigger]
                final(self)@.contains_key(a) ==> if lookup_retries(
                    timeouts@,
                    old(self)@[a],
                    now_ms,
                ) {
                    is_next_attempt(old(self)@[a], now_ms, final(self)@[a])
                } else {
                    final(self)@[a] == old(self)@[a]
                },
    {
        let ghost before = self@;
        let attempts: u8 = if timeouts.len() < 255 {
            timeouts.len() as u8
        } else {
            255
        };
        let targets = self.targets();
        assert forall|j: int| 0 <= j < targets.len() implies self@.contains_key(
            #[trigger] targets@[j],
        ) by {
            assert(targets@.contains(targets@[j]));
        }
        let mut to_retry: Vec<u128> = Vec::new();
        let mut to_timeout: Vec<u128> = Vec::new();
        let mut i: usize = 0;
        while i < targets.len()
            invariant
                i <= targets.len(),
                attempts == max_attempts(timeouts@),
                targets@.no_duplicates(),
                forall|j: int|
                    0 <= j < timeouts.len() ==> #[trigger] timeouts[j] * 1000 <= u64::MAX,
                forall|a: u128| #[trigger] targets@.contains(a) <==> before.contains_key(a),
                forall|j: int|
                    i <= j < targets.len() ==> self@.contains_key(#[trigger] targets@[j])
                        && self@[targets@[j]] == before[targets@[j]],
                to_retry@.no_duplicates(),
                to_timeout@.no_duplicates(),
                forall|a: u128| #[trigger]
                    to_retry@.contains(a) <==> targets@.take(i as int).contains(a)
                        && lookup_retries(timeouts@, before[a], now_ms),
                forall|a: u128| #[trigger]
                    to_timeout@.contains(a) <==> targets@.take(i as int).contains(a)
                        && lookup_fails(timeouts@, before[a], now_ms),
                forall|a: u128|
                    targets@.take(i as int).contains(a) ==> (#[trigger] self@.contains_key(a)
                        <==> !lookup_fails(timeouts@, before[a], now_ms)),
                forall|a: u128| #[trigger]
                    self@.contains_key(a) ==> before.contains_key(a) && if targets@.take(
                        i as int,
                    ).contains(a) && lookup_retries(timeouts@, before[a], now_ms) {
                        is_next_attempt(before[a], now_ms, self@[a])
                    } else {
                        self@[a] == before[a]
                    },
            decreases targets.len() - i,
        {
            let target = targets[i];
            let ghost now_map = self@;
            let ghost retry0 = to_retry@;
            let ghost timeout0 = to_timeout@;
            assert(targets@[i as int] == target);
            proof {
                assert(targets@.take(i + 1) =~= targets@.take(i as int).push(target));
                assert forall|q: u128|
                    targets@.take(i + 1).contains(q) <==> targets@.take(i as int).contains(q) || q
                        == target by {
                    if targets@.take(i as int).contains(q) {
                        let j = choose|j: int| 0 <= j < i && targets@.take(i as int)[j] == q;
                        assert(targets@.take(i + 1)[j] == q);
                    }
                    if q == target {
                        assert(targets@.take(i + 1)[i as int] == q);
                    }
                }
                assert(!targets@.take(i as int).contains(target)) by {
                    if targets@.take(i as int).contains(target) {
                        let j = choose|j: int| 0 <= j < i && targets@.take(i as int)[j] == target;
                        assert(targets@[j] == targets@[i as int]);
                    }
                }
                assert(targets@.contains(target));
                assert(!retry0.contains(target));
                assert(!timeout0.contains(target));
            }
            if let Some(mut entry) = self.entries.remove(&target) {
                let k: usize = if entry.attempt == 0 {
                    0
                } else {
                    (entry.attempt - 1) as usize
                };
                let wait_ms: u64 = if k < timeouts.len() {
                    timeouts[k] * 1000
                } else {
                    0
                };
                if now_ms.saturating_sub(entry.last_sent_ms) >= wait_ms {
                    if entry.attempt >= attempts {
                        to_timeout.push(target);
                        proof {
                            assert(to_timeout@[timeout0.len() as int] == target);
                            assert forall|q: u128| #[trigger]
                                to_timeout@.contains(q) <==> timeout0.contains(q) || q == target by {
                                if timeout0.contains(q) {
                                    let j = choose|j: int|
                                        0 <= j < timeout0.len() && timeout0[j] == q;
                                    assert(to_timeout@[j] == q);
                                }
                            }
                        }
                    } else {
                        entry.attempt = entry.attempt + 1;
                        entry.last_sent_ms = now_ms;
                        self.entries.insert(target, entry);
                        to_retry.push(target);
                        proof {
                            assert(to_retry@[retry0.len() as int] == target);
                            assert forall|q: u128| #[trigger]
                                to_retry@.contains(q) <==> retry0.contains(q) || q == target by {
                                if retry0.contains(q) {
                                    let j = choose|j: int|
                                        0 <= j < retry0.len() && retry0[j] == q;
                                    assert(to_retry@[j] == q);
                                }
                            }
                        }
                    }
                } else {
                    self.entries.insert(target, entry);
                }
            }
            proof {
                assert forall|q: u128| q != target implies (self@.contains_key(q)
                    <==> now_map.contains_key(q)) && (now_map.contains_key(q) ==> self@[q]
                    == now_map[q]) by {}
                assert forall|j: int| i < j < targets.len() implies #[trigger] targets@[j]
                    != target by {}
            }
            i += 1;
        }
        assert(targets@.take(i as int) =~= targets@);
        (to_retry, to_timeout)
    }
}

/// A path MTU towards a mesh address.
#[derive(Clone, Copy, Debug)]
pub struct PathMtuEntry {
    /// The MTU.
    pub mtu: u16,
    /// When it was learned; a held one comes from a link of ours and does not
    /// expire.
    pub learned_ms: Option<u64>,
}

/// Path MTUs by mesh address.
pub struct PathMtuTable {
    /// Entries by address.
    pub entries: HashMap<u128, PathMtuEntry>,
}

impl View for PathMtuTable {
    type V = Map<u128, PathMtuEntry>;

    open spec fn view(&self) -> Map<u128, PathMtuEntry> {
        self.entries@
    }
}

/// The table with `entry` offered for `addr`: it is taken unless what is there
/// is as tight.
pub open spec fn offered(
    m: Map<u128, PathMtuEntry>,
    addr: FipsAddress,
    entry: PathMtuEntry,
) -> Map<u128, PathMtuEntry> {
    if m.contains_key(addr.value) && m[addr.value].mtu <= entry.mtu {
        m
    } else {
        m.insert(addr.value, entry)
    }
}

/// Offering an MTU never loosens one that is there.
pub proof fn path_mtu_never_loosens(
    m: Map<u128, PathMtuEntry>,
    addr: FipsAddress,
    entry: PathMtuEntry,
    other: FipsAddress,
)
    requires
        m.contains_key(other.value),
    ensures
        offered(m, addr, entry).contains_key(other.value),
        offered(m, addr, entry)[other.value].mtu <= m[other.value].mtu,
{
}

/// Offering the same MTU again changes nothing, so a replayed response does not
/// put the expiry of what was learned off.
pub proof fn replayed_path_mtu_keeps_its_deadline(
    m: Map<u128, PathMtuEntry>,
    addr: FipsAddress,
    mtu: u16,
    first_ms: u64,
    again_ms: u64,
)
    ensures
        ({
            let once = offered(m, addr, PathMtuEntry { mtu, learned_ms: Some(first_ms) });
            offered(once, addr, PathMtuEntry { mtu, learned_ms: Some(again_ms) }) == once
        }),
{
}

impl PathMtuTable {
    /// An empty table.
    pub fn new() -> (r: PathMtuTable)
        ensures
            r@ == Map::<u128, PathMtuEntry>::empty(),
    {
        PathMtuTable { entries: HashMap::new() }
    }

    /// Offers an entry. Returns whether it was taken.
    fn offer(&mut self, addr: &FipsAddress, entry: PathMtuEntry) -> (taken: bool)
        ensures
            final(self)@ == offered(old(self)@, *addr, entry),
            taken == !(old(self)@.contains_key(addr.value) && old(self)@[addr.value].mtu
                <= entry.mtu),
    {
        if let Some(existing) = self.entries.get(&addr.value) {
            if existing.mtu <= entry.mtu {
                return false;
            }
        }
        self.entries.insert(addr.value, entry);
        true
    }

    /// Learns a path MTU from a verified response. The annotation is not
    /// signed, so one below the actionable floor counts as absent.
    pub fn learn_from_response(
        &mut self,
        target: &NodeAddr,
        path_mtu: u16,
        actionable_floor: u16,
        now_ms: u64,
    ) -> (taken: bool)
        ensures
            ({
                let addr = FipsAddress::of(*target);
                let entry = PathMtuEntry { mtu: path_mtu, learned_ms: Some(now_ms) };
                let tight = old(self)@.contains_key(addr.value) && old(self)@[addr.value].mtu
                    <= path_mtu;
                &&& taken == (path_mtu >= actionable_floor && !tight)
                &&& final(self)@ == if path_mtu >= actionable_floor {
                    offered(old(self)@, addr, entry)
                } else {
                    old(self)@
                }
            }),
    {
        if path_mtu < actionable_floor {
            return false;
        }
        self.offer(
            &FipsAddress::from_node_addr(target),
            PathMtuEntry { mtu: path_mtu, learned_ms: Some(now_ms) },
        )
    }

    /// Seeds the MTU of a link of ours for the peer at its other end; without
    /// a registered transport nothing changes.
    pub fn seed_path_mtu_for_link_peer(&mut self, peer: &NodeAddr, link_mtu: Option<u16>) -> (taken:
        bool)
        ensures
            ({
                let addr = FipsAddress::of(*peer);
                match link_mtu {
                    Some(mtu) => {
                        &&& taken == !(old(self)@.contains_key(addr.value)
                            && old(self)@[addr.value].mtu <= mtu)
                        &&& final(self)@ == offered(
                            old(self)@,
                            addr,
                            PathMtuEntry { mtu, learned_ms: None },
                        )
                    },
                    None => !taken && final(self)@ == old(self)@,
                }
            }),
    {
        match link_mtu {
            Some(mtu) => self.offer(
                &FipsAddress::from_node_addr(peer),
                PathMtuEntry { mtu, learned_ms: None },
            ),
            None => false,
        }
    }
}

/// A peer as a candidate for passing a request on.
#[derive(Clone, Copy, Debug, PartialEq, Eq, Structural)]
pub struct ForwardCandidate {
    /// The peer.
    pub addr: NodeAddr,
    /// Whether it is our parent or child in the tree.
    pub is_tree_peer: bool,
    /// Whether its filter holds the target.
    pub may_reach: bool,
}

/// The candidates that may reach the target, on the tree or off it.
pub open spec fn reaching(peers: Seq<ForwardCandidate>, on_tree: bool) -> Seq<ForwardCandidate> {
    peers.filter(|p: ForwardCandidate| p.may_reach && p.is_tree_peer == on_tree)
}

/// The addresses of some candidates.
pub open spec fn addresses(peers: Seq<ForwardCandidate>) -> Seq<NodeAddr> {
    peers.map_values(|p: ForwardCandidate| p.addr)
}

/// Collects the candidates that may reach the target, on the tree or off it.
pub fn reaching_peers(peers: &Vec<ForwardCandidate>, on_tree: bool) -> (r: Vec<NodeAddr>)
    ensures
        r@ == addresses(reaching(peers@, on_tree)),
{
    let mut r: Vec<NodeAddr> = Vec::new();
    let mut i: usize = 0;
    let ghost chosen = |p: ForwardCandidate| p.may_reach && p.is_tree_peer == on_tree;
    proof {
        reveal(Seq::filter);
        assert(peers@.take(0).filter(chosen) =~= Seq::empty());
        assert(r@ =~= addresses(peers@.take(0).filter(chosen)));
    }
    while i < peers.len()
        invariant
            i <= peers.len(),
            chosen == (|p: ForwardCandidate| p.may_reach && p.is_tree_peer == on_tree),
            r@ == addresses(peers@.take(i as int).filter(chosen)),
        decreases peers.len() - i,
    {
        let p = peers[i];
        proof {
            assert(peers@.take(i + 1) =~= peers@.take(i as int).push(peers@[i as int]));
            peers@.take(i as int).lemma_filter_push(peers@[i as int], chosen);
        }
        let ghost before = peers@.take(i as int).filter(chosen);
        if p.may_reach && p.is_tree_peer == on_tree {
            r.push(p.addr);
            assert(r@ =~= addresses(before.push(p)));
        }
        i += 1;
    }
    assert(peers@.take(i as int) =~= peers@);
    r
}

/// Chooses the peers that a request in transit goes to: the tree peers that may
/// reach the target, or where there is none the others that may. The flag says
/// that the second choice was taken.
pub fn forward_lookup_request(peers: &Vec<ForwardCandidate>) -> (r: (Vec<NodeAddr>, bool))
    ensures
        r.1 == (reaching(peers@, true).len() == 0 && reaching(peers@, false).len() > 0),
        r.0@ == addresses(
            reaching(peers@, !r.1),
        ),
{
    let tree = reaching_peers(peers, true);
    if !tree.is_empty() {
        return (tree, false);
    }
    let fallback = reaching_peers(peers, false);
    if fallback.is_empty() {
        return (tree, false);
    }
    (fallback, true)
}

/// A request goes to tree peers or to others, never to both, and only to peers
/// that may reach its target.
pub proof fn forwarding_keeps_to_one_kind(peers: Seq<ForwardCandidate>, on_tree: bool, i: int)
    requires
        0 <= i < reaching(peers, on_tree).len(),
    ensures
        reaching(peers, on_tree)[i].may_reach,
        reaching(peers, on_tree)[i].is_tree_peer == on_tree,
{
    broadcast use vstd::seq_lib::group_filter_ensures;
}

} // verus!
