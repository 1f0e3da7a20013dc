//! Finding BLE peers and deciding which connection to keep.
//!
//! Two nodes that discover each other would dial each other. After the public
//! keys have been exchanged, capabilities, preference and the order of the node
//! addresses decide which of the two connections stays.

use crate::clock::MAX_READING_NS;
use crate::identity::{is_valid_xonly, is_xonly_key, NodeAddr};
use crate::recency::{elapsed_since, since};
use crate::text::{decimal, push_byte_upper, push_decimal};
use crate::transport::ble::addr::BleAddr;
use crate::transport::ble::backoff::{BackoffModel, PeerBackoff};
use crate::transport::ble::capabilities::{PeerCapabilities, PREFER_OUTBOUND};
use crate::transport::ble::link::{pool_counts, PoolCounts, PoolOutcome};
use crate::transport::ble::table::{AddrKey, AddrTable};
use crate::transport::TransportError;
use crate::wire::copy_range;
use vstd::prelude::*;
use vstd::string::StringExecFns;

verus! {

/// First byte of a public key announcement.
pub const PUBKEY_EXCHANGE_PREFIX: u8 = 0x00;

/// Length of an announcement without capabilities.
pub const PUBKEY_EXCHANGE_SIZE: usize = 33;

/// Length of an announcement with capabilities.
pub const PUBKEY_EXCHANGE_SIZE_EXTENDED: usize = 34;

/// How long the peer's announcement is waited for, in seconds.
pub const PUBKEY_EXCHANGE_TIMEOUT_SECS: u64 = 5;

/// Pause before the exchange on a connection we dialled, in milliseconds.
pub const OUTBOUND_PUBKEY_EXCHANGE_SETTLE_MS: u64 = 250;

/// Our announcement: prefix, public key, capabilities.
pub open spec fn announcement(pubkey: Seq<u8>, flags: u8) -> Seq<u8> {
    seq![PUBKEY_EXCHANGE_PREFIX] + pubkey + seq![flags]
}

/// Builds our announcement.
pub fn pubkey_announcement(local_pubkey: &[u8; 32], capabilities: PeerCapabilities) -> (r: [u8; 34])
    ensures
        r@ == announcement(local_pubkey@, capabilities.flags()),
{
    let mut msg: [u8; 34] = [0u8; 34];
    let mut k: usize = 0;
    while k < 32
        invariant
            k <= 32,
            msg@[0] == 0,
            forall|j: int| 0 <= j < k ==> msg@[j + 1] == local_pubkey@[j],
        decreases 32 - k,
    {
        msg[k + 1] = local_pubkey[k];
        k += 1;
    }
    msg[33] = capabilities.to_byte();
    assert(msg@ =~= announcement(local_pubkey@, capabilities.flags()));
    msg
}

/// What an announcement told.
#[derive(Clone, Copy, Debug)]
pub struct PubkeyExchangeResult {
    /// The peer's x-only public key.
    pub peer_pubkey: [u8; 32],
    /// What the peer can do.
    pub peer_capabilities: PeerCapabilities,
}

/// The capabilities that an announcement states: those of its last byte, or no
/// statement where it ends before.
pub open spec fn announced_flags(msg: Seq<u8>) -> u8 {
    if msg.len() >= PUBKEY_EXCHANGE_SIZE_EXTENDED {
        PeerCapabilities::received(msg[33])
    } else {
        0
    }
}

/// Whether `r` is what an announcement yields, given whether it holds a key.
pub open spec fn reads_announcement(
    msg: Seq<u8>,
    key_ok: bool,
    r: Result<PubkeyExchangeResult, TransportError>,
) -> bool {
    if msg.len() < PUBKEY_EXCHANGE_SIZE {
        r matches Err(TransportError::RecvFailed(m)) && m@
            == "pubkey exchange: expected at least 33 bytes, got "@ + decimal(msg.len())
    } else if msg[0] != PUBKEY_EXCHANGE_PREFIX {
        r matches Err(TransportError::RecvFailed(m)) && m@ == "pubkey exchange: bad prefix 0x"@
            + crate::text::byte_upper(msg[0])
    } else if !key_ok {
        r matches Err(TransportError::RecvFailed(m)) && m@
            == "pubkey exchange: invalid key: malformed public key"@
    } else {
        r matches Ok(x) && x.peer_pubkey@ == msg.subrange(1, 33) && x.peer_capabilities.flags()
            == announced_flags(msg) && x.peer_capabilities.wf()
    }
}

/// Reads an announcement, given whether the key it holds is one.
pub fn read_announcement(msg: &[u8], key_ok: bool) -> (r: Result<
    PubkeyExchangeResult,
    TransportError,
>)
    ensures
        reads_announcement(msg@, key_ok, r),
{
    if msg.len() < PUBKEY_EXCHANGE_SIZE {
        let mut m = String::from_str("pubkey exchange: expected at least 33 bytes, got ");
        push_decimal(&mut m, msg.len() as u64);
        return Err(TransportError::RecvFailed(m));
    }
    if msg[0] != PUBKEY_EXCHANGE_PREFIX {
        let mut m = String::from_str("pubkey exchange: bad prefix 0x");
        push_byte_upper(&mut m, msg[0]);
        return Err(TransportError::RecvFailed(m));
    }
    if !key_ok {
        return Err(
            TransportError::RecvFailed(
                String::from_str("pubkey exchange: invalid key: malformed public key"),
            ),
        );
    }
    let mut peer_pubkey: [u8; 32] = [0u8; 32];
    let mut k: usize = 0;
    while k < 32
        invariant
            k <= 32,
            msg.len() >= 33,
            forall|j: int| 0 <= j < k ==> peer_pubkey@[j] == msg@[j + 1],
        decreases 32 - k,
    {
        peer_pubkey[k] = msg[k + 1];
        k += 1;
    }
    assert(peer_pubkey@ =~= msg@.subrange(1, 33));
    let peer_capabilities = if msg.len() >= PUBKEY_EXCHANGE_SIZE_EXTENDED {
        PeerCapabilities::from_byte(msg[33])
    } else {
        PeerCapabilities::none()
    };
    Ok(PubkeyExchangeResult { peer_pubkey, peer_capabilities })
}

/// Reads the peer's announcement.
pub fn pubkey_exchange(msg: &[u8]) -> (r: Result<PubkeyExchangeResult, TransportError>)
    ensures
        reads_announcement(
            msg@,
            msg@.len() >= 33 && is_xonly_key(msg@.subrange(1, 33)),
            r,
        ),
{
    if msg.len() < PUBKEY_EXCHANGE_SIZE {
        return read_announcement(msg, false);
    }
    let key = copy_range(msg, 1, 33);
    let key_ok = is_valid_xonly(key.as_slice());
    read_announcement(msg, key_ok)
}

/// A node reads from another's announcement the key and the capabilities that
/// went into it.
pub proof fn announcement_round_trip(
    pubkey: Seq<u8>,
    caps: PeerCapabilities,
    r: Result<PubkeyExchangeResult, TransportError>,
)
    requires
        pubkey.len() == 32,
        is_xonly_key(pubkey),
        caps.wf(),
        reads_announcement(
            announcement(pubkey, caps.flags()),
            is_xonly_key(announcement(pubkey, caps.flags()).subrange(1, 33)),
            r,
        ),
    ensures
        r is Ok,
        r->Ok_0.peer_pubkey@ == pubkey,
        r->Ok_0.peer_capabilities.flags() == caps.flags(),
{
    let msg = announcement(pubkey, caps.flags());
    assert(msg.subrange(1, 33) =~= pubkey);
}

/// An announcement without capabilities is that of a peer that can do all.
pub proof fn short_announcement_is_unrestricted(
    pubkey: Seq<u8>,
    r: Result<PubkeyExchangeResult, TransportError>,
)
    requires
        pubkey.len() == 32,
        is_xonly_key(pubkey),
        reads_announcement(
            seq![PUBKEY_EXCHANGE_PREFIX] + pubkey,
            is_xonly_key((seq![PUBKEY_EXCHANGE_PREFIX] + pubkey).subrange(1, 33)),
            r,
        ),
    ensures
        r is Ok,
        r->Ok_0.peer_capabilities.accepts_inbound(),
        r->Ok_0.peer_capabilities.initiates_outbound(),
{
    assert((seq![PUBKEY_EXCHANGE_PREFIX] + pubkey).subrange(1, 33) =~= pubkey);
}

/// Our node address for breaking ties: that of our public key, if we have one and
/// it is a valid x-only key.
pub fn local_node_addr(pubkey: Option<[u8; 32]>) -> (r: Option<NodeAddr>)
    ensures
        r == match pubkey {
            Some(key) if is_xonly_key(key@) => Some(NodeAddr::of_key(key@)),
            _ => None,
        },
{
    match pubkey {
        Some(key) => if is_valid_xonly(key.as_slice()) {
            Some(NodeAddr::from_pubkey(&key))
        } else {
            None
        },
        None => None,
    }
}

/// Whether an inbound connection stays: it does unless the peer could be
/// dialled, does not claim the preference, and our address is the smaller.
pub open spec fn keeps_inbound(
    local: PeerCapabilities,
    peer: PeerCapabilities,
    local_addr: Option<NodeAddr>,
    peer_addr: NodeAddr,
) -> bool {
    ||| !peer.accepts_inbound()
    ||| peer.has(PREFER_OUTBOUND) && !local.has(PREFER_OUTBOUND)
    ||| local_addr is None
    ||| local_addr->0.value >= peer_addr.value
}

/// Whether a connection we dialled stays. The peer must be able to take it.
/// Then a preference that only one side has decides, and with none or two our
/// address must be the smaller, unless the peer cannot dial.
pub open spec fn keeps_probe(
    local: PeerCapabilities,
    peer: PeerCapabilities,
    local_addr: Option<NodeAddr>,
    peer_addr: NodeAddr,
) -> bool {
    &&& peer.accepts_inbound()
    &&& if peer.has(PREFER_OUTBOUND) != local.has(PREFER_OUTBOUND) {
        local.has(PREFER_OUTBOUND)
    } else {
        local_addr is None || !peer.initiates_outbound() || local_addr->0.value < peer_addr.value
    }
}

/// Whether an inbound connection stays.
pub fn inbound_stays(
    local: &PeerCapabilities,
    peer: &PeerCapabilities,
    local_addr: &Option<NodeAddr>,
    peer_addr: &NodeAddr,
) -> (r: bool)
    ensures
        r == keeps_inbound(*local, *peer, *local_addr, *peer_addr),
{
    if !peer.can_accept_inbound() {
        return true;
    }
    if peer.prefers_outbound() && !local.prefers_outbound() {
        return true;
    }
    match local_addr {
        Some(ours) => !(ours.value < peer_addr.value),
        None => true,
    }
}

/// Whether a connection we dialled stays.
pub fn probe_stays(
    local: &PeerCapabilities,
    peer: &PeerCapabilities,
    local_addr: &Option<NodeAddr>,
    peer_addr: &NodeAddr,
) -> (r: bool)
    ensures
        r == keeps_probe(*local, *peer, *local_addr, *peer_addr),
{
    if !peer.can_accept_inbound() {
        return false;
    }
    if peer.prefers_outbound() != local.prefers_outbound() {
        return local.prefers_outbound();
    }
    match local_addr {
        Some(ours) => !(peer.can_initiate_outbound() && ours.value >= peer_addr.value),
        None => true,
    }
}

/// Between two nodes that can both dial and be dialled, exactly one of the two
/// possible connections is kept by the node that dialled it, and the other end
/// keeps that connection too.
pub proof fn ends_keep_one_connection(
    a_caps: PeerCapabilities,
    a: NodeAddr,
    b_caps: PeerCapabilities,
    b: NodeAddr,
)
    requires
        a != b,
        a_caps.accepts_inbound() && a_caps.initiates_outbound(),
        b_caps.accepts_inbound() && b_caps.initiates_outbound(),
    ensures
        keeps_probe(a_caps, b_caps, Some(a), b) != keeps_probe(b_caps, a_caps, Some(b), a),
        keeps_probe(a_caps, b_caps, Some(a), b) ==> keeps_inbound(b_caps, a_caps, Some(b), a),
{
}

/// The connection that stays is the one that the only node with a preference
/// dialled, or else the one that the smaller address dialled.
pub proof fn preference_goes_before_address(
    a_caps: PeerCapabilities,
    a: NodeAddr,
    b_caps: PeerCapabilities,
    b: NodeAddr,
)
    requires
        b_caps.accepts_inbound() && b_caps.initiates_outbound(),
    ensures
        a_caps.has(PREFER_OUTBOUND) && !b_caps.has(PREFER_OUTBOUND) ==> keeps_probe(
            a_caps,
            b_caps,
            Some(a),
            b,
        ),
        a_caps.has(PREFER_OUTBOUND) == b_caps.has(PREFER_OUTBOUND) ==> keeps_probe(
            a_caps,
            b_caps,
            Some(a),
            b,
        ) == (a.value < b.value),
{
}

/// What comes in from a node that only dials is kept whatever the addresses and
/// preferences, and what is dialled to it is not.
pub proof fn central_only_dials(
    central: PeerCapabilities,
    c: NodeAddr,
    other: PeerCapabilities,
    o: NodeAddr,
)
    requires
        !central.accepts_inbound(),
        other.accepts_inbound(),
    ensures
        keeps_inbound(other, central, Some(o), c),
        !keeps_probe(other, central, Some(o), c),
{
}

/// What to do about a device that was seen.
#[derive(Clone, Copy, Debug, PartialEq, Eq, Structural)]
pub enum ScanAction {
    /// The address is denied.
    Denied,
    /// The address is in backoff.
    InBackoff,
    /// There is a connection already.
    Connected,
    /// The last probe is too recent.
    CoolingDown,
    /// Report the device; without a key of our own there is nothing to exchange.
    Report,
    /// Dial it.
    Probe,
}

/// The keys of some addresses.
pub open spec fn keys(addrs: Seq<BleAddr>) -> Seq<AddrKey> {
    addrs.map_values(|a: BleAddr| a.key())
}

/// The test for an address other than `k`.
pub open spec fn other_than(k: AddrKey) -> spec_fn(AddrKey) -> bool {
    |a: AddrKey| a != k
}

/// Whether an address has the adapter and the device of a key.
pub open spec fn on_device(a: BleAddr, k: AddrKey) -> bool {
    a.adapter@ == k.adapter && a.device@ == k.device
}

/// Whether one of some addresses has the adapter and the device of a key.
pub open spec fn names_device(addrs: Seq<BleAddr>, k: AddrKey) -> bool {
    exists|i: int| 0 <= i < addrs.len() && on_device(#[trigger] addrs[i], k)
}

/// The test for a device that none of the connected addresses names.
pub open spec fn not_connected(connected: Seq<BleAddr>) -> spec_fn(AddrKey) -> bool {
    |a: AddrKey| !names_device(connected, a)
}

/// Addresses other than `k`.
pub open spec fn without(addrs: Seq<AddrKey>, k: AddrKey) -> Seq<AddrKey> {
    addrs.filter(other_than(k))
}

/// The prober's state.
pub ghost struct ProbeModel {
    pub pending: Seq<AddrKey>,
    pub last_probed: Map<AddrKey, u128>,
}

/// Devices seen and when they were last probed.
pub struct ProbeState {
    pending: Vec<BleAddr>,
    last_probed: AddrTable<u128>,
}

impl View for ProbeState {
    type V = ProbeModel;

    closed spec fn view(&self) -> ProbeModel {
        ProbeModel { pending: keys(self.pending@), last_probed: self.last_probed@ }
    }
}

impl ProbeModel {
    /// What a device that was seen calls for, once the backoff allows it.
    pub open spec fn seen(
        self,
        k: AddrKey,
        connected: bool,
        has_pubkey: bool,
        now_ns: u128,
        cooldown_ns: u128,
    ) -> (ProbeModel, ScanAction) {
        let pending = if self.pending.contains(k) {
            self.pending
        } else {
            self.pending.push(k)
        };
        if connected {
            (ProbeModel { pending: without(self.pending, k), ..self }, ScanAction::Connected)
        } else if self.last_probed.contains_key(k) && since(now_ns, self.last_probed[k])
            < cooldown_ns {
            (ProbeModel { pending, ..self }, ScanAction::CoolingDown)
        } else {
            (
                ProbeModel { pending, last_probed: self.last_probed.insert(k, now_ns) },
                if has_pubkey {
                    ScanAction::Probe
                } else {
                    ScanAction::Report
                },
            )
        }
    }

    /// What a scan result leads to, with the backoff as it is.
    pub open spec fn scanned(
        self,
        backoff: BackoffModel,
        k: AddrKey,
        connected: bool,
        has_pubkey: bool,
        now_ns: u128,
        cooldown_ns: u128,
    ) -> (ProbeModel, ScanAction) {
        if backoff.is_denied(k, now_ns) {
            (self, ScanAction::Denied)
        } else if backoff.is_in_backoff(k, now_ns) {
            (self, ScanAction::InBackoff)
        } else {
            self.seen(k, connected, has_pubkey, now_ns, cooldown_ns)
        }
    }
}

/// The addresses without one of them.
fn without_addr(addrs: &Vec<BleAddr>, addr: &BleAddr) -> (r: Vec<BleAddr>)
    ensures
        keys(r@) == without(keys(addrs@), addr.key()),
{
    let mut r: Vec<BleAddr> = Vec::new();
    let mut i: usize = 0;
    let ghost other = other_than(addr.key());
    proof {
        reveal(Seq::filter);
        assert(keys(addrs@).take(0) =~= seq![]);
        assert(keys(r@) =~= seq![]);
    }
    while i < addrs.len()
        invariant
            i <= addrs.len(),
            other == other_than(addr.key()),
            keys(r@) == keys(addrs@).take(i as int).filter(other),
        decreases addrs.len() - i,
    {
        let ghost before = r@;
        proof {
            let all = keys(addrs@);
            assert(all.take(i + 1) =~= all.take(i as int).push(all[i as int]));
            all.take(i as int).lemma_filter_push(all[i as int], other);
        }
        if !addrs[i].same(addr) {
            let copy = addrs[i].copied();
            r.push(copy);
            assert(keys(r@) =~= keys(before).push(copy.key()));
        }
        i += 1;
    }
    assert(keys(addrs@).take(i as int) =~= keys(addrs@));
    r
}

/// Whether an address, its type left aside, is among others.
fn contains_device(addrs: &Vec<BleAddr>, addr: &BleAddr) -> (r: bool)
    ensures
        r == names_device(addrs@, addr.key()),
{
    let mut i: usize = 0;
    while i < addrs.len()
        invariant
            i <= addrs.len(),
            forall|j: int| 0 <= j < i ==> !on_device(#[trigger] addrs@[j], addr.key()),
        decreases addrs.len() - i,
    {
        if addrs[i].same_device(addr) {
            assert(on_device(addrs@[i as int], addr.key()));
            return true;
        }
        i += 1;
    }
    false
}

/// Whether an address is among others.
fn contains_addr(addrs: &Vec<BleAddr>, addr: &BleAddr) -> (r: bool)
    ensures
        r == keys(addrs@).contains(addr.key()),
{
    let mut i: usize = 0;
    while i < addrs.len()
        invariant
            i <= addrs.len(),
            forall|j: int| 0 <= j < i ==> keys(addrs@)[j] != addr.key(),
        decreases addrs.len() - i,
    {
        if addrs[i].same(addr) {
            assert(keys(addrs@)[i as int] == addr.key());
            return true;
        }
        i += 1;
    }
    false
}

impl ProbeState {
    /// The state is consistent.
    pub closed spec fn wf(self) -> bool {
        self.last_probed.wf()
    }

    /// Nothing seen yet.
    pub fn new() -> (r: ProbeState)
        ensures
            r.wf(),
            r@.pending == Seq::<AddrKey>::empty(),
            r@.last_probed == Map::<AddrKey, u128>::empty(),
    {
        let r = ProbeState { pending: Vec::new(), last_probed: AddrTable::new() };
        assert(r@.pending =~= Seq::<AddrKey>::empty());
        r
    }

    /// Decides about a device that was seen, at this clock reading.
    pub fn scan_result(
        &mut self,
        backoff: &mut PeerBackoff,
        addr: &BleAddr,
        connected: bool,
        has_pubkey: bool,
        now_ns: u128,
        cooldown_ns: u128,
    ) -> (r: ScanAction)
        requires
            old(self).wf(),
            old(backoff).wf(),
        ensures
            final(self).wf(),
            final(backoff).wf(),
            final(backoff)@ == old(backoff)@.refreshed(addr.key(), now_ns),
            (final(self)@, r) == old(self)@.scanned(
                old(backoff)@,
                addr.key(),
                connected,
                has_pubkey,
                now_ns,
                cooldown_ns,
            ),
    {
        if backoff.is_denied_at(addr, now_ns) {
            return ScanAction::Denied;
        }
        if backoff.is_in_backoff_at(addr, now_ns) {
            return ScanAction::InBackoff;
        }
        if connected {
            self.pending = without_addr(&self.pending, addr);
            return ScanAction::Connected;
        }
        if !contains_addr(&self.pending, addr) {
            let ghost before = self.pending@;
            let copy = addr.copied();
            self.pending.push(copy);
            assert(keys(self.pending@) =~= keys(before).push(addr.key()));
        }
        if let Some(last) = self.last_probed.get(addr) {
            if elapsed_since(now_ns, last) < cooldown_ns {
                return ScanAction::CoolingDown;
            }
        }
        self.last_probed.insert(addr, now_ns);
        if has_pubkey {
            ScanAction::Probe
        } else {
            ScanAction::Report
        }
    }

    /// Picks a device to try again: the first one seen that is not connected.
    /// Connected ones are forgotten, whatever the type of the address that they
    /// are connected by.
    pub fn retry_tick(&mut self, connected: &Vec<BleAddr>) -> (r: Option<BleAddr>)
        requires
            old(self).wf(),
        ensures
            final(self).wf(),
            old(self)@.retries(connected@, final(self)@, r),
    {
        let mut kept: Vec<BleAddr> = Vec::new();
        let mut i: usize = 0;
        let ghost open = not_connected(connected@);
        proof {
            reveal(Seq::filter);
            assert(keys(self.pending@).take(0) =~= seq![]);
            assert(keys(kept@) =~= seq![]);
        }
        while i < self.pending.len()
            invariant
                i <= self.pending.len(),
                self.last_probed == old(self).last_probed,
                self.pending == old(self).pending,
                open == not_connected(connected@),
                keys(kept@) == keys(self.pending@).take(i as int).filter(open),
            decreases self.pending.len() - i,
        {
            let ghost before = kept@;
            proof {
                let all = keys(self.pending@);
                assert(all.take(i + 1) =~= all.take(i as int).push(all[i as int]));
                all.take(i as int).lemma_filter_push(all[i as int], open);
            }
            if !contains_device(connected, &self.pending[i]) {
                let copy = self.pending[i].copied();
                kept.push(copy);
                assert(keys(kept@) =~= keys(before).push(copy.key()));
            }
            i += 1;
        }
        assert(keys(self.pending@).take(i as int) =~= keys(self.pending@));
        self.pending = kept;
        if self.pending.len() > 0 {
            Some(self.pending[0].copied())
        } else {
            None
        }
    }

    /// Counts a probe that failed to connect or to exchange keys. An address
    /// that is denied for it is no longer tried again. Returns whether it is.
    pub fn probe_failed(&mut self, backoff: &mut PeerBackoff, addr: &BleAddr, now_ns: u128) -> (r: bool)
        requires
            old(self).wf(),
            old(backoff).wf(),
            old(backoff)@.can_fail(addr.key()),
            now_ns < MAX_READING_NS,
        ensures
            final(self).wf(),
            final(backoff).wf(),
            (final(backoff)@, r) == old(backoff)@.failed(addr.key(), now_ns),
            final(self)@.last_probed == old(self)@.last_probed,
            final(self)@.pending == if r {
                without(old(self)@.pending, addr.key())
            } else {
                old(self)@.pending
            },
    {
        let denied = backoff.record_failure_at(addr, now_ns);
        if denied {
            self.pending = without_addr(&self.pending, addr);
        }
        denied
    }

    /// Notes that a probe became a connection: nothing is held against the
    /// address any more, and it is not tried again.
    pub fn probe_promoted(&mut self, backoff: &mut PeerBackoff, addr: &BleAddr)
        requires
            old(self).wf(),
            old(backoff).wf(),
        ensures
            final(self).wf(),
            final(backoff).wf(),
            final(backoff)@ == old(backoff)@.cleared(addr.key()),
            final(self)@.last_probed == old(self)@.last_probed,
            final(self)@.pending == without(old(self)@.pending, addr.key()),
    {
        self.pending = without_addr(&self.pending, addr);
        backoff.clear(addr);
    }
}

/// What becomes of a connection once keys were exchanged on it.
#[derive(Clone, Copy, Debug, PartialEq, Eq, Structural)]
pub enum ExchangeOutcome {
    /// It is kept and offered to the pool.
    Keep,
    /// It is dropped in favour of the peer's own or ours.
    Yield,
    /// The exchange failed; the flag says whether the address is denied for it.
    Failed {
        /// Whether it is denied.
        denied: bool,
    },
}

/// Whether `r` is what an exchange on an inbound connection comes to, and `after` the
/// backoff behind it: a failure counts, and a connection that yields is no fault.
pub open spec fn settles_inbound(
    before: BackoffModel,
    k: AddrKey,
    local: PeerCapabilities,
    local_addr: Option<NodeAddr>,
    announced: Option<PubkeyExchangeResult>,
    now_ns: u128,
    after: BackoffModel,
    r: ExchangeOutcome,
) -> bool {
    match announced {
        None => {
            let (failed, denied) = before.failed(k, now_ns);
            after == failed && r == (ExchangeOutcome::Failed { denied })
        },
        Some(x) => if keeps_inbound(
            local,
            x.peer_capabilities,
            local_addr,
            NodeAddr::of_key(x.peer_pubkey@),
        ) {
            r == ExchangeOutcome::Keep && after == before
        } else {
            r == ExchangeOutcome::Yield && after == before.cleared(k)
        },
    }
}

impl ProbeModel {
    /// Whether `r` is what an exchange on a connection we dialled comes to, `after`
    /// the prober and `left` the backoff behind it.
    pub open spec fn settles_probe(
        self,
        backoff: BackoffModel,
        k: AddrKey,
        local: PeerCapabilities,
        local_addr: Option<NodeAddr>,
        announced: Option<PubkeyExchangeResult>,
        now_ns: u128,
        after: ProbeModel,
        left: BackoffModel,
        r: ExchangeOutcome,
    ) -> bool {
        &&& after.last_probed == self.last_probed
        &&& match announced {
            None => {
                let (failed, denied) = backoff.failed(k, now_ns);
                &&& left == failed
                &&& r == (ExchangeOutcome::Failed { denied })
                &&& after.pending == if denied {
                    without(self.pending, k)
                } else {
                    self.pending
                }
            },
            Some(x) => {
                &&& r == if keeps_probe(
                    local,
                    x.peer_capabilities,
                    local_addr,
                    NodeAddr::of_key(x.peer_pubkey@),
                ) {
                    ExchangeOutcome::Keep
                } else {
                    ExchangeOutcome::Yield
                }
                &&& left == backoff
                &&& after == self
            },
        }
    }

    /// Whether `r` is the device to try again, and `after` the prober behind it:
    /// connected devices go, and the first of the others is tried.
    pub open spec fn retries(
        self,
        connected: Seq<BleAddr>,
        after: ProbeModel,
        r: Option<BleAddr>,
    ) -> bool {
        &&& after.last_probed == self.last_probed
        &&& after.pending == self.pending.filter(not_connected(connected))
        &&& match r {
            Some(a) => after.pending.len() > 0 && a.key() == after.pending[0],
            None => after.pending.len() == 0,
        }
    }
}

/// Settles an inbound connection after the exchange, given what the peer
/// announced if that worked. A failure counts against the address; a connection
/// that is dropped in favour of ours clears it.
pub fn settle_inbound(
    backoff: &mut PeerBackoff,
    addr: &BleAddr,
    local: &PeerCapabilities,
    local_addr: &Option<NodeAddr>,
    announced: &Option<PubkeyExchangeResult>,
    now_ns: u128,
) -> (r: ExchangeOutcome)
    requires
        old(backoff).wf(),
        announced is None ==> old(backoff)@.can_fail(addr.key()) && now_ns < MAX_READING_NS,
    ensures
        final(backoff).wf(),
        settles_inbound(
            old(backoff)@,
            addr.key(),
            *local,
            *local_addr,
            *announced,
            now_ns,
            final(backoff)@,
            r,
        ),
{
    match announced {
        None => ExchangeOutcome::Failed { denied: backoff.record_failure_at(addr, now_ns) },
        Some(x) => {
            let peer = NodeAddr::from_pubkey(&x.peer_pubkey);
            if inbound_stays(local, &x.peer_capabilities, local_addr, &peer) {
                ExchangeOutcome::Keep
            } else {
                backoff.clear(addr);
                ExchangeOutcome::Yield
            }
        },
    }
}

/// Settles an inbound connection that was offered to the pool: one that the pool
/// took clears its address.
pub fn settle_accepted(backoff: &mut PeerBackoff, addr: &BleAddr, outcome: PoolOutcome) -> (r:
    PoolCounts)
    requires
        old(backoff).wf(),
    ensures
        final(backoff).wf(),
        final(backoff)@ == if outcome == PoolOutcome::Full {
            old(backoff)@
        } else {
            old(backoff)@.cleared(addr.key())
        },
        r.eviction == (outcome == PoolOutcome::Evicted),
        r.rejected == (outcome == PoolOutcome::Full),
        r.connected == (outcome != PoolOutcome::Full),
{
    if outcome != PoolOutcome::Full {
        backoff.clear(addr);
    }
    pool_counts(outcome)
}

impl ProbeState {
    /// Settles a probe after the exchange, given what the peer announced if that
    /// worked. Only a failure counts against the address; a probe that yields
    /// changes nothing, and one that is kept is noted once it was offered to the
    /// pool.
    pub fn settle_probe(
        &mut self,
        backoff: &mut PeerBackoff,
        addr: &BleAddr,
        local: &PeerCapabilities,
        local_addr: &Option<NodeAddr>,
        announced: &Option<PubkeyExchangeResult>,
        now_ns: u128,
    ) -> (r: ExchangeOutcome)
        requires
            old(self).wf(),
            old(backoff).wf(),
            announced is None ==> old(backoff)@.can_fail(addr.key()) && now_ns < MAX_READING_NS,
        ensures
            final(self).wf(),
            final(backoff).wf(),
            old(self)@.settles_probe(
                old(backoff)@,
                addr.key(),
                *local,
                *local_addr,
                *announced,
                now_ns,
                final(self)@,
                final(backoff)@,
                r,
            ),
    {
        match announced {
            None => ExchangeOutcome::Failed { denied: self.probe_failed(backoff, addr, now_ns) },
            Some(x) => {
                let peer = NodeAddr::from_pubkey(&x.peer_pubkey);
                if probe_stays(local, &x.peer_capabilities, local_addr, &peer) {
                    ExchangeOutcome::Keep
                } else {
                    ExchangeOutcome::Yield
                }
            },
        }
    }
}

/// A device is probed at most once per cooldown, however often it is seen.
pub proof fn probes_are_spaced(
    m: ProbeModel,
    k: AddrKey,
    connected: bool,
    has_pubkey: bool,
    probed_ns: u128,
    now_ns: u128,
    cooldown_ns: u128,
)
    requires
        m.seen(k, false, true, probed_ns, cooldown_ns).1 == ScanAction::Probe,
        probed_ns <= now_ns < probed_ns + cooldown_ns,
    ensures
        ({
            let after = m.seen(k, false, true, probed_ns, cooldown_ns).0;
            after.seen(k, connected, has_pubkey, now_ns, cooldown_ns).1 != ScanAction::Probe
        }),
{
}

/// Seeing a device again does not list it twice.
pub proof fn seen_device_is_listed_once(
    m: ProbeModel,
    k: AddrKey,
    has_pubkey: bool,
    now_ns: u128,
    cooldown_ns: u128,
)
    requires
        m.pending.no_duplicates(),
    ensures
        m.seen(k, false, has_pubkey, now_ns, cooldown_ns).0.pending.no_duplicates(),
        m.seen(k, false, has_pubkey, now_ns, cooldown_ns).0.pending.contains(k),
{
    if !m.pending.contains(k) {
        let after = m.pending.push(k);
        assert(after[m.pending.len() as int] == k);
    }
}

} // verus!
