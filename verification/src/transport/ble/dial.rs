//! Dialling a BLE peer.
//!
//! A dial first connects GATT, to learn the service multiplexer of the peer. It
//! goes on with the configured one where that does not work. Then it marks the
//! device as trusted and opens the channel.

use crate::transport::ble::addr::{BleAddr, BleAddrKind};
use vstd::prelude::*;

verus! {

/// How often a GATT connection is tried.
pub const MAX_GATT_ATTEMPTS: usize = 2;

/// How long one try may take, in seconds.
pub const GATT_CONNECT_TIMEOUT_SECS: u64 = 3;

/// Pause before the next try, in seconds.
pub const GATT_RETRY_DELAY_SECS: u64 = 1;

/// How long reading the service multiplexer may take, in seconds.
pub const PSM_READ_TIMEOUT_SECS: u64 = 5;

/// The type of address that a channel is opened to: one of the two LE types, or a
/// classic one where the controller reports it.
#[derive(Clone, Copy, Debug, PartialEq, Eq, Structural)]
pub enum DialKind {
    /// A classic address.
    Classic,
    /// A public LE address.
    Public,
    /// A random LE address.
    Random,
}

impl DialKind {
    /// The stack's name for the type.
    pub open spec fn address_type(self) -> bluer::AddressType {
        match self {
            DialKind::Classic => bluer::AddressType::BrEdr,
            DialKind::Public => bluer::AddressType::LePublic,
            DialKind::Random => bluer::AddressType::LeRandom,
        }
    }

    /// The type that the stack reports.
    pub fn reported(ty: bluer::AddressType) -> (r: DialKind)
        ensures
            r.address_type() == ty,
    {
        match ty {
            bluer::AddressType::BrEdr => DialKind::Classic,
            bluer::AddressType::LePublic => DialKind::Public,
            bluer::AddressType::LeRandom => DialKind::Random,
        }
    }

    /// The type that a device is known by.
    pub fn known(kind: BleAddrKind) -> (r: DialKind)
        ensures
            r == match kind {
                BleAddrKind::Public => DialKind::Public,
                BleAddrKind::Random => DialKind::Random,
            },
    {
        match kind {
            BleAddrKind::Public => DialKind::Public,
            BleAddrKind::Random => DialKind::Random,
        }
    }
}

/// The socket address that a dial opens its channel to: the device, under the type
/// that the dial came to, on the service multiplexer that it came to.
pub fn channel_addr(device: &BleAddr, kind: DialKind, psm: u16) -> (r: bluer::l2cap::SocketAddr)
    ensures
        r.addr.0@ == device.device@,
        r.addr_type == kind.address_type(),
        r.psm == psm,
        r.cid == 0,
{
    let ty = match kind {
        DialKind::Classic => bluer::AddressType::BrEdr,
        DialKind::Public => bluer::AddressType::LePublic,
        DialKind::Random => bluer::AddressType::LeRandom,
    };
    bluer::l2cap::SocketAddr::new(device.to_bluer_address(), ty, psm)
}

/// How far a dial has come.
#[derive(Clone, Copy, Debug, PartialEq, Eq, Structural)]
pub enum DialPhase {
    /// GATT is being connected for the given time (the first is 1).
    Gatt {
        /// Which time.
        attempt: usize,
    },
    /// The service multiplexer is being read.
    Psm,
    /// The controller is asked whether it trusts the device.
    Trust,
    /// The device is being marked as trusted.
    MarkTrusted,
    /// The controller is asked for the type of the address.
    AddrKind,
    /// The channel is being opened.
    Channel,
    /// The dial is over.
    Over,
}

/// What became of the last action.
#[derive(Clone, Copy, Debug, PartialEq, Eq, Structural)]
pub enum DialEvent {
    /// GATT is connected.
    GattConnected,
    /// GATT was not connected; the flag says whether another try may get over it.
    GattFailed {
        /// Whether the error is transient.
        transient: bool,
    },
    /// Connecting GATT took too long.
    GattTimedOut,
    /// What was read as service multiplexer, if that worked in time.
    PsmRead(Option<u16>),
    /// Whether the device is trusted, if that is known.
    Trusted(Option<bool>),
    /// The device was marked, or that failed: either will do.
    Marked,
    /// The type of the address, if the controller knows it by now.
    AddrKindRead(Option<DialKind>),
    /// The channel is open.
    ChannelOpened,
    /// The channel could not be opened.
    ChannelFailed,
}

/// What to do next.
#[derive(Clone, Copy, Debug, PartialEq, Eq, Structural)]
pub enum DialAction {
    /// Disconnect, pause, connect GATT again.
    RetryGatt,
    /// Read the service multiplexer.
    ReadPsm,
    /// Ask whether the device is trusted; disconnect GATT first if the flag is
    /// set.
    AskTrust {
        /// Whether to disconnect.
        disconnect: bool,
    },
    /// Mark the device as trusted.
    MarkTrusted,
    /// Ask for the type of the address.
    AskAddrKind,
    /// Open the channel.
    Open {
        /// Type of the peer's address.
        kind: DialKind,
        /// Service multiplexer.
        psm: u16,
    },
    /// Hand the channel out.
    Deliver,
    /// Disconnect GATT and report the error.
    Fail,
}

/// A dial.
#[derive(Clone, Copy, Debug)]
pub struct Dial {
    /// How far it has come.
    pub phase: DialPhase,
    /// Type of the peer's address, as far as it is known.
    pub kind: DialKind,
    /// Service multiplexer to use.
    pub psm: u16,
}

/// Whether an event is one that can come in a phase.
pub open spec fn answers(phase: DialPhase, event: DialEvent) -> bool {
    match phase {
        DialPhase::Gatt { .. } => event is GattConnected || event is GattFailed || event
            is GattTimedOut,
        DialPhase::Psm => event is PsmRead,
        DialPhase::Trust => event is Trusted,
        DialPhase::MarkTrusted => event is Marked,
        DialPhase::AddrKind => event is AddrKindRead,
        DialPhase::Channel => event is ChannelOpened || event is ChannelFailed,
        DialPhase::Over => false,
    }
}

/// The dial after an event, and what to do. An event that cannot come in the
/// dial's phase leaves it as it is and calls for nothing.
pub open spec fn after(d: Dial, event: DialEvent) -> (Dial, Option<DialAction>) {
    if !answers(d.phase, event) {
        (d, None)
    } else {
        match (d.phase, event) {
            (DialPhase::Gatt { .. }, DialEvent::GattConnected) => (
                Dial { phase: DialPhase::Psm, ..d },
                Some(DialAction::ReadPsm),
            ),
            (
                DialPhase::Gatt { attempt },
                DialEvent::GattFailed { transient },
            ) if transient && attempt < MAX_GATT_ATTEMPTS => (
                Dial { phase: DialPhase::Gatt { attempt: (attempt + 1) as usize }, ..d },
                Some(DialAction::RetryGatt),
            ),
            (DialPhase::Gatt { .. }, _) => (
                Dial { phase: DialPhase::Trust, ..d },
                Some(DialAction::AskTrust { disconnect: true }),
            ),
            (DialPhase::Psm, DialEvent::PsmRead(found)) => (
                Dial {
                    phase: DialPhase::Trust,
                    psm: match found {
                        Some(psm) => psm,
                        None => d.psm,
                    },
                    ..d
                },
                Some(DialAction::AskTrust { disconnect: false }),
            ),
            (DialPhase::Trust, DialEvent::Trusted(Some(false))) => (
                Dial { phase: DialPhase::MarkTrusted, ..d },
                Some(DialAction::MarkTrusted),
            ),
            (DialPhase::AddrKind, DialEvent::AddrKindRead(found)) => {
                let kind = match found {
                    Some(kind) => kind,
                    None => d.kind,
                };
                (
                    Dial { phase: DialPhase::Channel, kind, ..d },
                    Some(DialAction::Open { kind, psm: d.psm }),
                )
            },
            (DialPhase::Channel, DialEvent::ChannelOpened) => (
                Dial { phase: DialPhase::Over, ..d },
                Some(DialAction::Deliver),
            ),
            (DialPhase::Channel, _) => (
                Dial { phase: DialPhase::Over, ..d },
                Some(DialAction::Fail),
            ),
            _ => (Dial { phase: DialPhase::AddrKind, ..d }, Some(DialAction::AskAddrKind)),
        }
    }
}

impl Dial {
    /// Starts a dial with the configured service multiplexer. A peer whose address
    /// type is not known is taken to have a random address. GATT is to be
    /// connected first.
    pub fn start(kind: Option<DialKind>, psm: u16) -> (d: Dial)
        ensures
            d.phase == (DialPhase::Gatt { attempt: 1 }),
            d.kind == match kind {
                Some(k) => k,
                None => DialKind::Random,
            },
            d.psm == psm,
    {
        let kind = match kind {
            Some(k) => k,
            None => DialKind::Random,
        };
        Dial { phase: DialPhase::Gatt { attempt: 1 }, kind, psm }
    }

    /// Takes what became of the last action and decides what to do next.
    pub fn step(&mut self, event: DialEvent) -> (r: Option<DialAction>)
        ensures
            (*final(self), r) == after(*old(self), event),
    {
        match self.phase {
            DialPhase::Gatt { attempt } => match event {
                DialEvent::GattConnected => {
                    self.phase = DialPhase::Psm;
                    Some(DialAction::ReadPsm)
                },
                DialEvent::GattFailed { transient } => {
                    if transient && attempt < MAX_GATT_ATTEMPTS {
                        self.phase = DialPhase::Gatt { attempt: attempt + 1 };
                        Some(DialAction::RetryGatt)
                    } else {
                        self.phase = DialPhase::Trust;
                        Some(DialAction::AskTrust { disconnect: true })
                    }
                },
                DialEvent::GattTimedOut => {
                    self.phase = DialPhase::Trust;
                    Some(DialAction::AskTrust { disconnect: true })
                },
                _ => None,
            },
            DialPhase::Psm => match event {
                DialEvent::PsmRead(found) => {
                    if let Some(psm) = found {
                        self.psm = psm;
                    }
                    self.phase = DialPhase::Trust;
                    Some(DialAction::AskTrust { disconnect: false })
                },
                _ => None,
            },
            DialPhase::Trust => match event {
                DialEvent::Trusted(Some(false)) => {
                    self.phase = DialPhase::MarkTrusted;
                    Some(DialAction::MarkTrusted)
                },
                DialEvent::Trusted(_) => {
                    self.phase = DialPhase::AddrKind;
                    Some(DialAction::AskAddrKind)
                },
                _ => None,
            },
            DialPhase::MarkTrusted => match event {
                DialEvent::Marked => {
                    self.phase = DialPhase::AddrKind;
                    Some(DialAction::AskAddrKind)
                },
                _ => None,
            },
            DialPhase::AddrKind => match event {
                DialEvent::AddrKindRead(found) => {
                    if let Some(kind) = found {
                        self.kind = kind;
                    }
                    self.phase = DialPhase::Channel;
                    Some(DialAction::Open { kind: self.kind, psm: self.psm })
                },
                _ => None,
            },
            DialPhase::Channel => match event {
                DialEvent::ChannelOpened => {
                    self.phase = DialPhase::Over;
                    Some(DialAction::Deliver)
                },
                DialEvent::ChannelFailed => {
                    self.phase = DialPhase::Over;
                    Some(DialAction::Fail)
                },
                _ => None,
            },
            DialPhase::Over => None,
        }
    }
}

/// How many events a dial can still take.
pub open spec fn steps_left(d: Dial) -> int {
    match d.phase {
        DialPhase::Gatt { attempt } => 5 + MAX_GATT_ATTEMPTS - attempt + 1,
        DialPhase::Psm => 5,
        DialPhase::Trust => 4,
        DialPhase::MarkTrusted => 3,
        DialPhase::AddrKind => 2,
        DialPhase::Channel => 1,
        DialPhase::Over => 0,
    }
}

/// Whether a dial tries GATT no more often than it may.
pub open spec fn dial_valid(d: Dial) -> bool {
    d.phase matches DialPhase::Gatt { attempt } ==> 1 <= attempt <= MAX_GATT_ATTEMPTS
}

/// The dial after a run of events.
pub open spec fn after_all(d: Dial, events: Seq<DialEvent>) -> Dial
    decreases events.len(),
{
    if events.len() == 0 {
        d
    } else {
        after(after_all(d, events.drop_last()), events.last()).0
    }
}

/// A dial never tries GATT more often than it may, whatever happens.
pub proof fn dial_stays_valid(d: Dial, events: Seq<DialEvent>)
    requires
        dial_valid(d),
    ensures
        dial_valid(after_all(d, events)),
    decreases events.len(),
{
    if events.len() > 0 {
        dial_stays_valid(d, events.drop_last());
    }
}

/// Every dial comes to its end: each event that answers the last action leaves
/// fewer to come, and whatever fails before, the dial ends only once it has tried
/// to open a channel.
pub proof fn dial_makes_progress(d: Dial, event: DialEvent)
    requires
        dial_valid(d),
        answers(d.phase, event),
    ensures
        steps_left(after(d, event).0) < steps_left(d),
        steps_left(after(d, event).0) == 0 <==> after(d, event).0.phase == DialPhase::Over,
        after(d, event).1 is Some,
        after(d, event).0.phase == DialPhase::Over ==> d.phase == DialPhase::Channel,
        after(d, event).0.phase == DialPhase::Channel ==> after(d, event).1 is Some && after(
            d,
            event,
        ).1->0 is Open,
{
}

/// Whether an action, if it opens a channel, does so with a service multiplexer.
pub open spec fn opens_with(action: Option<DialAction>, psm: u16) -> bool {
    match action {
        Some(DialAction::Open { psm: p, .. }) => p == psm,
        _ => true,
    }
}

/// The service multiplexer of the channel is one that was read over GATT, or else
/// the configured one.
pub proof fn dial_psm_is_read_or_configured(d: Dial, events: Seq<DialEvent>)
    ensures
        after_all(d, events).psm == d.psm || exists|k: int|
            0 <= k < events.len() && #[trigger] events[k] == DialEvent::PsmRead(
                Some(after_all(d, events).psm),
            ),
        forall|event: DialEvent|
            opens_with(
                #[trigger] after(after_all(d, events), event).1,
                after_all(d, events).psm,
            ),
    decreases events.len(),
{
    if events.len() > 0 {
        let before = events.drop_last();
        dial_psm_is_read_or_configured(d, before);
        let end = after_all(d, events);
        let mid = after_all(d, before);
        if end.psm == mid.psm {
            if end.psm != d.psm {
                let k = choose|k: int|
                    0 <= k < before.len() && #[trigger] before[k] == DialEvent::PsmRead(
                        Some(mid.psm),
                    );
                assert(events[k] == DialEvent::PsmRead(Some(end.psm)));
            }
        } else {
            assert(events[events.len() - 1] == DialEvent::PsmRead(Some(end.psm)));
        }
    }
}

/// The channel is opened to the type that the controller reports last, whichever
/// that is, or else to the one known before.
pub proof fn reported_type_is_dialled(d: Dial, found: Option<DialKind>)
    requires
        d.phase == DialPhase::AddrKind,
    ensures
        after(d, DialEvent::AddrKindRead(found)).1 == Some(
            (DialAction::Open {
                kind: match found {
                    Some(kind) => kind,
                    None => d.kind,
                },
                psm: d.psm,
            }),
        ),
{
}

} // verus!
