//! What becomes of a lookup response.
//!
//! A response to a request that passed through this node goes back the way the
//! request came. Any other must answer a lookup of our own; its proof is verified
//! by the caller, and then it ends the lookup and teaches the path's limit.

use crate::identity::{FipsAddress, NodeAddr};
use crate::node::discovery::{
    is_solicited, offered, DiscoveryReject, PathMtuEntry, PathMtuTable, PendingLookup,
    PendingLookups, RecentModel, RecentRequests, ResponseRoute,
};
use vstd::prelude::*;

verus! {

/// What a response calls for before its proof is verified.
#[derive(Clone, Copy, Debug, PartialEq, Eq, Structural)]
pub enum ResponseStart {
    /// Drop it: one has been forwarded for the request.
    AlreadyForwarded,
    /// Send it on to this peer.
    Forward(NodeAddr),
    /// Drop it and count the reason.
    Refused(DiscoveryReject),
    /// Verify its proof.
    Verify,
}

/// What discovery remembers, as values.
pub ghost struct DiscoveryModel {
    pub recent: RecentModel,
    pub pending: Map<u128, PendingLookup>,
    pub path_mtu: Map<u128, PathMtuEntry>,
}

/// What discovery remembers.
pub struct Discovery {
    /// Requests that came through.
    pub recent: RecentRequests,
    /// Our own lookups.
    pub pending: PendingLookups,
    /// Limits of the paths learned.
    pub path_mtu: PathMtuTable,
}

impl View for Discovery {
    type V = DiscoveryModel;

    open spec fn view(&self) -> DiscoveryModel {
        DiscoveryModel {
            recent: self.recent@,
            pending: self.pending@,
            path_mtu: self.path_mtu@,
        }
    }
}

/// A response, as far as decisions depend on it.
#[derive(Clone, Copy, Debug)]
pub struct LookupResponse {
    /// The request that it answers.
    pub request_id: u64,
    /// The node that was looked up.
    pub target: NodeAddr,
    /// Largest packet that the path takes.
    pub path_mtu: u16,
}

impl DiscoveryModel {
    /// What a response calls for, and what is remembered afterwards.
    pub open spec fn responded(self, response: LookupResponse) -> (DiscoveryModel, ResponseStart) {
        let id = response.request_id;
        if self.recent.requests.contains_key(id) {
            if self.recent.requests[id].response_forwarded {
                (self, ResponseStart::AlreadyForwarded)
            } else {
                (
                    DiscoveryModel { recent: self.recent.with_forwarded(id), ..self },
                    ResponseStart::Forward(
                        NodeAddr { value: self.recent.requests[id].from_peer },
                    ),
                )
            }
        } else if is_solicited(self.pending, response.target, id) {
            (self, ResponseStart::Verify)
        } else {
            (self, ResponseStart::Refused(DiscoveryReject::RespUnsolicited))
        }
    }

    /// What is remembered once a response was accepted: its lookup is over, and
    /// the limit of the path is offered to the table if it is one to act on.
    pub open spec fn accepted(
        self,
        response: LookupResponse,
        actionable_floor: u16,
        now_ms: u64,
    ) -> DiscoveryModel {
        DiscoveryModel {
            pending: self.pending.remove(response.target.value),
            path_mtu: if response.path_mtu >= actionable_floor {
                offered(
                    self.path_mtu,
                    FipsAddress::of(response.target),
                    PathMtuEntry { mtu: response.path_mtu, learned_ms: Some(now_ms) },
                )
            } else {
                self.path_mtu
            },
            ..self
        }
    }
}

impl Discovery {
    /// Nothing remembered yet.
    pub fn new() -> (r: Discovery)
        ensures
            r@ == (DiscoveryModel {
                recent: RecentModel { requests: Map::empty(), by_peer: Map::empty() },
                pending: Map::empty(),
                path_mtu: Map::empty(),
            }),
            r@.recent.wf(),
    {
        Discovery {
            recent: RecentRequests::new(),
            pending: PendingLookups::new(),
            path_mtu: PathMtuTable::new(),
        }
    }

    /// Takes a response and decides what it calls for.
    pub fn handle_lookup_response(&mut self, response: &LookupResponse) -> (r: ResponseStart)
        requires
            old(self)@.recent.wf(),
        ensures
            final(self)@.recent.wf(),
            (final(self)@, r) == old(self)@.responded(*response),
    {
        match self.recent.route_response(response.request_id) {
            ResponseRoute::AlreadyForwarded => ResponseStart::AlreadyForwarded,
            ResponseRoute::Forward(peer) => ResponseStart::Forward(peer),
            ResponseRoute::Ours => if self.pending.is_solicited(
                &response.target,
                response.request_id,
            ) {
                ResponseStart::Verify
            } else {
                ResponseStart::Refused(DiscoveryReject::RespUnsolicited)
            },
        }
    }

    /// Goes on with a response that is not forwarded, once its proof was verified
    /// against the target's key, as far as that is known. Returns whether the
    /// path's limit is one to act on; a response that is dropped changes nothing.
    pub fn finish_lookup_response(
        &mut self,
        response: &LookupResponse,
        identity_known: bool,
        proof_ok: bool,
        actionable_floor: u16,
        now_ms: u64,
    ) -> (r: Result<bool, DiscoveryReject>)
        ensures
            r == if !is_solicited(old(self)@.pending, response.target, response.request_id) {
                Err(DiscoveryReject::RespUnsolicited)
            } else if !identity_known {
                Err(DiscoveryReject::RespIdentityMiss)
            } else if !proof_ok {
                Err(DiscoveryReject::RespProofFailed)
            } else {
                Ok(response.path_mtu >= actionable_floor)
            },
            final(self)@ == if r is Ok {
                old(self)@.accepted(*response, actionable_floor, now_ms)
            } else {
                old(self)@
            },
    {
        match self.pending.accept_response(
            &response.target,
            response.request_id,
            identity_known,
            proof_ok,
        ) {
            Err(e) => Err(e),
            Ok(_) => {
                self.path_mtu.learn_from_response(
                    &response.target,
                    response.path_mtu,
                    actionable_floor,
                    now_ms,
                );
                Ok(response.path_mtu >= actionable_floor)
            },
        }
    }
}

/// A response that was accepted is not accepted again, and a response that
/// answers nothing of ours never gets as far as its proof.
pub proof fn accepted_response_is_spent(
    m: DiscoveryModel,
    response: LookupResponse,
    again: LookupResponse,
    actionable_floor: u16,
    now_ms: u64,
)
    requires
        again.target == response.target,
    ensures
        ({
            let after = m.accepted(response, actionable_floor, now_ms);
            &&& !is_solicited(after.pending, again.target, again.request_id)
            &&& after.responded(again).1 != ResponseStart::Verify
        }),
        !is_solicited(m.pending, response.target, response.request_id) ==> m.responded(response).1
            != ResponseStart::Verify,
{
}

/// A response that passes through never touches our own lookups or what we know
/// of paths, and one of our own never touches the requests that passed through.
pub proof fn transit_and_own_responses_are_apart(
    m: DiscoveryModel,
    response: LookupResponse,
    actionable_floor: u16,
    now_ms: u64,
)
    ensures
        m.responded(response).0.pending == m.pending,
        m.responded(response).0.path_mtu == m.path_mtu,
        m.accepted(response, actionable_floor, now_ms).recent == m.recent,
{
}

} // verus!
