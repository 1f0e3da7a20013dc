//! Life cycle of the BLE transport and of its connections.

use crate::transport::ble::addr::BleAddr;
use crate::transport::ble::io::{contains_text, occurs, BLE_FRAME_PREFIX_LEN};
use crate::transport::{ConnectionState, TransportAddr, TransportError, TransportState};
use crate::wire::copy_range;
use vstd::prelude::*;
use vstd::string::StringExecFns;
use vstd::utf8::{decode_utf8, valid_utf8};

verus! {

/// Default service multiplexer, in the dynamic range.
pub const DEFAULT_PSM: u16 = 0x0085;

/// How long a silent connection is kept, in seconds.
pub const RECV_TIMEOUT_SECS: u64 = 30;

/// What the transport is configured to do.
#[derive(Clone, Copy, Debug, PartialEq, Eq, Structural)]
pub struct BleRoles {
    /// Look for peers.
    pub scan: bool,
    /// Let peers find us.
    pub advertise: bool,
    /// Dial peers that were found.
    pub auto_connect: bool,
    /// Take inbound connections.
    pub accept_connections: bool,
}

/// What is contradictory about a configuration.
#[derive(Clone, Copy, Debug, PartialEq, Eq, Structural)]
pub struct RoleWarnings {
    /// The transport does nothing useful.
    pub idle: bool,
    /// Peers are to be dialled that are never found.
    pub auto_connect_without_scan: bool,
    /// Peers can neither find us nor be found.
    pub undiscoverable: bool,
}

/// What to do at start.
#[derive(Clone, Copy, Debug, PartialEq, Eq, Structural)]
pub struct StartPlan {
    /// What is contradictory.
    pub warnings: RoleWarnings,
    /// Listen first; a failure ends the start.
    pub listen: bool,
    /// Then advertise.
    pub advertise: bool,
    /// Then scan and probe.
    pub scan: bool,
}

/// The plan that a configuration calls for.
pub open spec fn plan_for(roles: BleRoles) -> StartPlan {
    StartPlan {
        warnings: RoleWarnings {
            idle: !roles.scan && !roles.advertise && !roles.accept_connections,
            auto_connect_without_scan: roles.auto_connect && !roles.scan,
            undiscoverable: !roles.scan && !roles.advertise,
        },
        listen: roles.accept_connections,
        advertise: roles.advertise,
        scan: roles.scan,
    }
}

/// Life cycle of the transport.
#[derive(Clone, Copy, Debug)]
pub struct BleLifecycle {
    /// Where it stands.
    pub state: TransportState,
}

impl BleLifecycle {
    /// A configured transport.
    pub fn new() -> (r: BleLifecycle)
        ensures
            r.state == TransportState::Configured,
    {
        BleLifecycle { state: TransportState::Configured }
    }

    /// Begins a start: what to bring up, or a refusal where the transport is up
    /// or on its way.
    pub fn begin_start(&mut self, roles: &BleRoles) -> (r: Result<StartPlan, TransportError>)
        ensures
            if old(self).state.spec_can_start() {
                &&& final(self).state == TransportState::Starting
                &&& r matches Ok(p) && p == plan_for(*roles)
            } else {
                &&& final(self).state == old(self).state
                &&& r matches Err(TransportError::AlreadyStarted)
            },
    {
        if !self.state.can_start() {
            return Err(TransportError::AlreadyStarted);
        }
        self.state = TransportState::Starting;
        Ok(
            StartPlan {
                warnings: RoleWarnings {
                    idle: !roles.scan && !roles.advertise && !roles.accept_connections,
                    auto_connect_without_scan: roles.auto_connect && !roles.scan,
                    undiscoverable: !roles.scan && !roles.advertise,
                },
                listen: roles.accept_connections,
                advertise: roles.advertise,
                scan: roles.scan,
            },
        )
    }

    /// Ends a start. Only a listener that was wanted and failed keeps the
    /// transport down; advertising and scanning may fail.
    pub fn finish_start(&mut self, plan: &StartPlan, listening: bool)
        ensures
            final(self).state == if plan.listen && !listening {
                TransportState::Failed
            } else {
                TransportState::Up
            },
    {
        self.state = if plan.listen && !listening {
            TransportState::Failed
        } else {
            TransportState::Up
        };
    }

    /// Stops the transport.
    pub fn stop(&mut self)
        ensures
            final(self).state == TransportState::Down,
    {
        self.state = TransportState::Down;
    }
}

/// A transport that was stopped can be started again, and one that is up or on
/// its way cannot.
pub proof fn lifecycle_is_a_cycle()
    ensures
        TransportState::Down.spec_can_start(),
        TransportState::Failed.spec_can_start(),
        !TransportState::Up.spec_can_start(),
        !TransportState::Starting.spec_can_start(),
{
}

/// Whether a packet may be sent, given the MTU of the connection to its address.
pub fn check_send(effective_mtu: Option<u16>, len: usize) -> (r: Result<(), TransportError>)
    ensures
        match effective_mtu {
            None => r matches Err(TransportError::SendFailed(m)) && m@ == "not connected"@,
            Some(limit) if len > limit => r matches Err(
                TransportError::MtuExceeded { packet_size, mtu },
            ) && packet_size == len && mtu == limit,
            Some(_) => r is Ok,
        },
{
    match effective_mtu {
        None => Err(TransportError::SendFailed(String::from_str("not connected"))),
        Some(mtu) => if len > mtu as usize {
            Err(TransportError::MtuExceeded { packet_size: len, mtu })
        } else {
            Ok(())
        },
    }
}

/// What a send calls for.
#[derive(Clone, Copy, Debug, PartialEq, Eq, Structural)]
pub enum SendStep {
    /// There is no connection: dial, and report that the packet was not sent.
    Dial,
    /// The packet is too large: count it and refuse it.
    CountOversized,
    /// Hand the packet to the connection.
    Transmit,
    /// It was sent: count its bytes.
    CountSent,
    /// It was not sent: count an error, drop the connection and report that it is
    /// gone.
    DropAndReport,
}

/// What sending comes to: a dial without a connection, a count of what does not
/// fit, else the sending and what came of it.
pub open spec fn send_step(connected: bool, fits: bool, sent: Option<bool>) -> SendStep {
    if !connected {
        SendStep::Dial
    } else if !fits {
        SendStep::CountOversized
    } else {
        match sent {
            None => SendStep::Transmit,
            Some(true) => SendStep::CountSent,
            Some(false) => SendStep::DropAndReport,
        }
    }
}

/// Decides what a send calls for, given whether there is a connection, whether the
/// packet fits, and how handing it over ended once that was tried.
pub fn after_send(connected: bool, fits: bool, sent: Option<bool>) -> (r: SendStep)
    ensures
        r == send_step(connected, fits, sent),
{
    if !connected {
        return SendStep::Dial;
    }
    if !fits {
        return SendStep::CountOversized;
    }
    match sent {
        None => SendStep::Transmit,
        Some(true) => SendStep::CountSent,
        Some(false) => SendStep::DropAndReport,
    }
}

/// What a link takes: what its connection says, or else what is configured less the
/// prefix of a frame.
pub open spec fn mtu_of(connection: Option<u16>, configured: u16) -> int {
    match connection {
        Some(mtu) => mtu as int,
        None => if configured >= 2 {
            configured - 2
        } else {
            0
        },
    }
}

/// The MTU towards an address: that of its connection, or the configured one
/// less the frame prefix.
pub fn link_mtu(connection: Option<u16>, configured: u16) -> (r: u16)
    ensures
        r == mtu_of(connection, configured),
{
    match connection {
        Some(mtu) => mtu,
        None => configured.saturating_sub(BLE_FRAME_PREFIX_LEN),
    }
}

/// State of the connection to an address.
pub fn connection_state(in_pool: bool, connecting: bool) -> (r: ConnectionState)
    ensures
        r == if in_pool {
            ConnectionState::Connected
        } else if connecting {
            ConnectionState::Connecting
        } else {
            ConnectionState::Unconnected
        },
{
    if in_pool {
        ConnectionState::Connected
    } else if connecting {
        ConnectionState::Connecting
    } else {
        ConnectionState::Unconnected
    }
}

/// Whether `r` is the address to dial for a connection to `addr`.
pub open spec fn plans_connection(
    in_pool: bool,
    connecting: bool,
    addr: TransportAddr,
    r: Result<Option<BleAddr>, TransportError>,
) -> bool {
    if in_pool || connecting {
        r matches Ok(None)
    } else if !valid_utf8(addr.bytes@) {
        r matches Err(TransportError::InvalidAddress(m)) && m@ == "not valid UTF-8"@
    } else {
        match r {
            Ok(Some(a)) => BleAddr::parses(decode_utf8(addr.bytes@), Ok(a)),
            Ok(None) => false,
            Err(e) => BleAddr::parses(decode_utf8(addr.bytes@), Err(e)),
        }
    }
}

/// The device to dial for a connection to `addr`, if one is needed and the
/// address names a device.
pub fn plan_connection(in_pool: bool, connecting: bool, addr: &TransportAddr) -> (r: Result<
    Option<BleAddr>,
    TransportError,
>)
    ensures
        plans_connection(in_pool, connecting, *addr, r),
{
    if in_pool || connecting {
        return Ok(None);
    }
    match addr.as_str() {
        None => Err(TransportError::InvalidAddress(String::from_str("not valid UTF-8"))),
        Some(s) => match BleAddr::parse(s) {
            Ok(a) => Ok(Some(a)),
            Err(e) => Err(e),
        },
    }
}

/// How dialling ended.
#[derive(Clone, Copy, Debug, PartialEq, Eq, Structural)]
pub enum DialOutcome {
    /// A stream is there.
    Connected,
    /// The peer refused.
    Failed,
    /// It took too long.
    TimedOut,
}

/// What follows dialling.
#[derive(Clone, Copy, Debug, PartialEq, Eq, Structural)]
pub enum DialStep {
    /// Exchange public keys first.
    Exchange,
    /// File the connection.
    Register,
    /// Give up; the flag says whether to count a timeout.
    Abandon {
        /// Whether to count a timeout.
        timed_out: bool,
    },
}

/// What follows a dial: a connection is used, with an exchange of keys where we have
/// one, and everything else is given up.
pub open spec fn step_after_dial(outcome: DialOutcome, has_pubkey: bool) -> DialStep {
    match outcome {
        DialOutcome::Connected => if has_pubkey {
            DialStep::Exchange
        } else {
            DialStep::Register
        },
        DialOutcome::Failed => DialStep::Abandon { timed_out: false },
        DialOutcome::TimedOut => DialStep::Abandon { timed_out: true },
    }
}

/// Decides what follows dialling: with a key of our own, keys are exchanged
/// before the connection is filed.
pub fn after_dial(outcome: DialOutcome, has_pubkey: bool) -> (r: DialStep)
    ensures
        r == step_after_dial(outcome, has_pubkey),
{
    match outcome {
        DialOutcome::Connected => if has_pubkey {
            DialStep::Exchange
        } else {
            DialStep::Register
        },
        DialOutcome::Failed => DialStep::Abandon { timed_out: false },
        DialOutcome::TimedOut => DialStep::Abandon { timed_out: true },
    }
}

/// What the pool made of a connection.
#[derive(Clone, Copy, Debug, PartialEq, Eq, Structural)]
pub enum PoolOutcome {
    /// There was room.
    Inserted,
    /// Another connection had to go.
    Evicted,
    /// There is no room.
    Full,
}

/// What becomes of a connection: there is room, or room is made for a configured
/// peer at the cost of a discovered one, or it is refused.
pub open spec fn admitted(
    held: usize,
    max: usize,
    configured: bool,
    holds_discovered: bool,
) -> PoolOutcome {
    if held < max {
        PoolOutcome::Inserted
    } else if configured && holds_discovered {
        PoolOutcome::Evicted
    } else {
        PoolOutcome::Full
    }
}

/// Decides about a connection that is offered to a pool of at most `max`. A full
/// pool takes that of a configured peer in place of a discovered one, if it holds
/// such a one, and no other.
pub fn admit_to_pool(held: usize, max: usize, configured: bool, holds_discovered: bool) -> (r:
    PoolOutcome)
    ensures
        r == admitted(held, max, configured, holds_discovered),
{
    if held < max {
        PoolOutcome::Inserted
    } else if configured && holds_discovered {
        PoolOutcome::Evicted
    } else {
        PoolOutcome::Full
    }
}

/// What to count once the pool has decided.
#[derive(Clone, Copy, Debug, PartialEq, Eq, Structural)]
pub struct PoolCounts {
    /// An eviction.
    pub eviction: bool,
    /// A rejected connection.
    pub rejected: bool,
    /// A connection that is there.
    pub connected: bool,
}

/// Counts a connection that was offered to the pool.
pub fn pool_counts(outcome: PoolOutcome) -> (r: PoolCounts)
    ensures
        r.eviction == (outcome == PoolOutcome::Evicted),
        r.rejected == (outcome == PoolOutcome::Full),
        r.connected == (outcome != PoolOutcome::Full),
{
    PoolCounts {
        eviction: outcome == PoolOutcome::Evicted,
        rejected: outcome == PoolOutcome::Full,
        connected: outcome != PoolOutcome::Full,
    }
}

/// Counts a probe that was offered to the pool. Its connection was there, also
/// where the pool did not take it.
pub fn probe_pool_counts(outcome: PoolOutcome) -> (r: PoolCounts)
    ensures
        r.eviction == (outcome == PoolOutcome::Evicted),
        r.rejected == (outcome == PoolOutcome::Full),
        r.connected,
{
    PoolCounts {
        eviction: outcome == PoolOutcome::Evicted,
        rejected: outcome == PoolOutcome::Full,
        connected: true,
    }
}

/// What to do with an inbound stream before keys are exchanged.
#[derive(Clone, Copy, Debug, PartialEq, Eq, Structural)]
pub enum InboundStep {
    /// Drop it: the address is denied.
    Denied,
    /// Drop it: there is a connection already.
    Duplicate,
    /// Exchange keys in both directions.
    Exchange,
    /// Announce our key only; the peer is known after the handshake.
    Announce,
    /// File it.
    Register,
}

/// What an accepted connection calls for.
pub open spec fn step_inbound(
    denied: bool,
    in_pool: bool,
    has_pubkey: bool,
    bidirectional: bool,
) -> InboundStep {
    if denied {
        InboundStep::Denied
    } else if in_pool {
        InboundStep::Duplicate
    } else if !has_pubkey {
        InboundStep::Register
    } else if bidirectional {
        InboundStep::Exchange
    } else {
        InboundStep::Announce
    }
}

/// Decides about an inbound stream.
pub fn inbound_step(denied: bool, in_pool: bool, has_pubkey: bool, bidirectional: bool) -> (r:
    InboundStep)
    ensures
        r == step_inbound(denied, in_pool, has_pubkey, bidirectional),
{
    if denied {
        InboundStep::Denied
    } else if in_pool {
        InboundStep::Duplicate
    } else if !has_pubkey {
        InboundStep::Register
    } else if bidirectional {
        InboundStep::Exchange
    } else {
        InboundStep::Announce
    }
}

/// What a receive attempt on a connection brought.
pub enum RecvEvent {
    /// This many bytes; none means that the peer closed.
    Data(usize),
    /// An error with this text.
    Failed(String),
    /// Nothing within the time allowed.
    TimedOut,
}

/// What to do next on a connection.
#[derive(Clone, Copy, Debug, PartialEq, Eq, Structural)]
pub enum RecvAction {
    /// Hand this many bytes on and receive again.
    Deliver(usize),
    /// Count an error and receive again.
    Skip,
    /// End the connection; the flag says whether to count an error.
    Close {
        /// Whether to count an error.
        count_error: bool,
    },
}

/// What a receive attempt calls for: an empty frame is skipped, every other
/// error ends the connection.
pub open spec fn recv_action(event: RecvEvent) -> RecvAction {
    match event {
        RecvEvent::Data(n) => if n == 0 {
            RecvAction::Close { count_error: false }
        } else {
            RecvAction::Deliver(n)
        },
        RecvEvent::Failed(text) => if occurs(text@, "framed message too short"@) {
            RecvAction::Skip
        } else {
            RecvAction::Close { count_error: true }
        },
        RecvEvent::TimedOut => RecvAction::Close { count_error: true },
    }
}

/// Decides what a receive attempt calls for.
pub fn receive_step(event: &RecvEvent) -> (r: RecvAction)
    ensures
        r == recv_action(*event),
{
    match event {
        RecvEvent::Data(n) => if *n == 0 {
            RecvAction::Close { count_error: false }
        } else {
            RecvAction::Deliver(*n)
        },
        RecvEvent::Failed(text) => if contains_text(text.as_str(), "framed message too short") {
            RecvAction::Skip
        } else {
            RecvAction::Close { count_error: true }
        },
        RecvEvent::TimedOut => RecvAction::Close { count_error: true },
    }
}

/// First pause before the scanner is restarted, in seconds.
pub const RESTART_BACKOFF_SECS: u64 = 2;

/// Longest such pause, in seconds.
pub const MAX_RESTART_BACKOFF_SECS: u64 = 60;

/// The pause before the next restart, in seconds.
pub open spec fn restart_pause(last_secs: u64, restarted: bool) -> int {
    if restarted {
        RESTART_BACKOFF_SECS as int
    } else if last_secs * 2 < MAX_RESTART_BACKOFF_SECS {
        last_secs * 2
    } else {
        MAX_RESTART_BACKOFF_SECS as int
    }
}

/// The pause before the next restart: twice the last one up to the longest, or
/// the first one again after a restart that worked.
pub fn next_restart_delay(last_secs: u64, restarted: bool) -> (r: u64)
    requires
        last_secs <= MAX_RESTART_BACKOFF_SECS,
    ensures
        r == restart_pause(last_secs, restarted),
        r <= MAX_RESTART_BACKOFF_SECS,
{
    if restarted {
        return RESTART_BACKOFF_SECS;
    }
    let doubled: u64 = last_secs * 2;
    if doubled < MAX_RESTART_BACKOFF_SECS {
        doubled
    } else {
        MAX_RESTART_BACKOFF_SECS
    }
}

/// Length of the part that every packet begins with.
pub const FMP_PREFIX: usize = 4;

/// Length of a first handshake message.
pub const MSG1_WIRE_SIZE: usize = 114;

/// Length of a second handshake message.
pub const MSG2_WIRE_SIZE: usize = 69;

/// Rest of the header of an encrypted packet.
pub const ESTABLISHED_REMAINING_HEADER: usize = 12;

/// Length of an authentication tag.
pub const AEAD_TAG_SIZE: usize = 16;

/// Why a byte stream cannot be cut into packets.
#[derive(Clone, Copy, Debug, PartialEq, Eq, Structural)]
pub enum FmpError {
    /// The version is not known.
    UnknownVersion(u8),
    /// The phase is not known.
    UnknownPhase(u8),
}

/// Length of the packet that begins with these bytes: version in the upper and
/// phase in the lower half of the first, payload length in the third and fourth.
pub open spec fn fmp_len(prefix: Seq<u8>) -> Result<int, FmpError> {
    let version = prefix[0] / 16;
    let phase = prefix[0] % 16;
    let payload_len = prefix[2] as int + 256 * prefix[3] as int;
    if version != 0 {
        Err(FmpError::UnknownVersion(version))
    } else if phase == 1 {
        Ok(MSG1_WIRE_SIZE as int)
    } else if phase == 2 {
        Ok(MSG2_WIRE_SIZE as int)
    } else if phase == 0 {
        Ok(FMP_PREFIX + ESTABLISHED_REMAINING_HEADER + payload_len + AEAD_TAG_SIZE)
    } else {
        Err(FmpError::UnknownPhase(phase))
    }
}

/// Length of the packet that begins with these bytes.
pub fn fmp_packet_len(bytes: &[u8]) -> (r: Result<usize, FmpError>)
    requires
        bytes@.len() >= FMP_PREFIX,
    ensures
        match r {
            Ok(n) => fmp_len(bytes@) == Ok::<int, FmpError>(n as int) && n >= FMP_PREFIX,
            Err(e) => fmp_len(bytes@) == Err::<int, FmpError>(e),
        },
{
    let version: u8 = bytes[0] / 16;
    let phase: u8 = bytes[0] % 16;
    let payload_len: usize = bytes[2] as usize + 256 * (bytes[3] as usize);
    if version != 0 {
        return Err(FmpError::UnknownVersion(version));
    }
    if phase == 1 {
        Ok(MSG1_WIRE_SIZE)
    } else if phase == 2 {
        Ok(MSG2_WIRE_SIZE)
    } else if phase == 0 {
        Ok(FMP_PREFIX + ESTABLISHED_REMAINING_HEADER + payload_len + AEAD_TAG_SIZE)
    } else {
        Err(FmpError::UnknownPhase(phase))
    }
}

/// Cuts a byte stream into packets.
pub struct FmpAssembler {
    accum: Vec<u8>,
}

impl View for FmpAssembler {
    type V = Seq<u8>;

    closed spec fn view(&self) -> Seq<u8> {
        self.accum@
    }
}

/// Whether `r` is the packet at the front of `bytes`, and `after` what stays.
pub open spec fn cuts_packet(
    bytes: Seq<u8>,
    after: Seq<u8>,
    r: Result<Option<Vec<u8>>, FmpError>,
) -> bool {
    if bytes.len() < FMP_PREFIX {
        r matches Ok(None) && after == bytes
    } else {
        match fmp_len(bytes) {
            Err(e) => r matches Err(f) && f == e && after == bytes,
            Ok(n) => if bytes.len() < n {
                r matches Ok(None) && after == bytes
            } else {
                r matches Ok(Some(p)) && p@ == bytes.take(n) && after == bytes.skip(n)
            },
        }
    }
}

impl FmpAssembler {
    /// Nothing received yet.
    pub fn new() -> (r: FmpAssembler)
        ensures
            r@ == Seq::<u8>::empty(),
    {
        FmpAssembler { accum: Vec::new() }
    }

    /// Adds received bytes.
    pub fn push(&mut self, bytes: &[u8])
        ensures
            final(self)@ == old(self)@ + bytes@,
    {
        crate::wire::put_bytes(&mut self.accum, bytes);
    }

    /// Takes the first packet, if it is there in full.
    pub fn next_packet(&mut self) -> (r: Result<Option<Vec<u8>>, FmpError>)
        ensures
            cuts_packet(old(self)@, final(self)@, r),
    {
        if self.accum.len() < FMP_PREFIX {
            return Ok(None);
        }
        let total = match fmp_packet_len(self.accum.as_slice()) {
            Ok(n) => n,
            Err(e) => {
                return Err(e);
            },
        };
        if self.accum.len() < total {
            return Ok(None);
        }
        let packet = copy_range(self.accum.as_slice(), 0, total);
        let rest = copy_range(self.accum.as_slice(), total, self.accum.len());
        assert(packet@ =~= self.accum@.take(total as int));
        assert(rest@ =~= self.accum@.skip(total as int));
        self.accum = rest;
        Ok(Some(packet))
    }
}

/// Cutting a packet loses and invents no byte: the packet and what stays are
/// what was there.
pub proof fn cutting_keeps_every_byte(
    bytes: Seq<u8>,
    after: Seq<u8>,
    r: Result<Option<Vec<u8>>, FmpError>,
)
    requires
        cuts_packet(bytes, after, r),
    ensures
        r matches Ok(Some(p)) ==> p@ + after == bytes && p@.len() > 0,
        !(r matches Ok(Some(_))) ==> after == bytes,
{
    if let Ok(Some(p)) = r {
        assert(p@ + after =~= bytes);
    }
}

/// A packet is cut the same however its bytes arrive: more bytes behind it do
/// not change it.
pub proof fn later_bytes_do_not_change_a_packet(
    bytes: Seq<u8>,
    more: Seq<u8>,
    n: int,
)
    requires
        bytes.len() >= FMP_PREFIX,
        fmp_len(bytes) == Ok::<int, FmpError>(n),
        bytes.len() >= n,
    ensures
        fmp_len(bytes + more) == Ok::<int, FmpError>(n),
        n >= 0 ==> (bytes + more).take(n) == bytes.take(n),
{
    assert(n >= 0 ==> (bytes + more).take(n) =~= bytes.take(n));
}

} // verus!
