//! What a BLE peer can do and prefers, as a byte of flags.

use vstd::prelude::*;

verus! {

/// A peer that can only dial, as older peers announce it.
pub const LEGACY_CENTRAL_ONLY: u8 = 0x01;

/// The peer prefers to dial.
pub const PREFER_OUTBOUND: u8 = 0x02;

/// The peer prefers L2CAP.
pub const PREFER_L2CAP: u8 = 0x04;

/// The peer can dial.
pub const CAN_CENTRAL: u8 = 0x08;

/// The peer can be dialled.
pub const CAN_PERIPHERAL: u8 = 0x10;

/// The peer takes L2CAP connections.
pub const L2CAP_SUPPORTED: u8 = 0x20;

/// The peer takes GATT connections.
pub const GATT_SUPPORTED: u8 = 0x40;

/// Capabilities of a BLE peer.
#[derive(Clone, Copy, Debug)]
pub struct PeerCapabilities(u8);

impl PeerCapabilities {
    /// The flags.
    pub closed spec fn flags(self) -> u8 {
        self.0
    }

    /// The byte of an older peer is never kept as it is.
    pub open spec fn wf(self) -> bool {
        self.flags() != LEGACY_CENTRAL_ONLY
    }

    /// Whether a flag is set.
    pub open spec fn has(self, flag: u8) -> bool {
        self.flags() & flag != 0
    }

    /// Whether the peer can be dialled: it says so, or says nothing at all.
    pub open spec fn accepts_inbound(self) -> bool {
        self.flags() == 0 || self.has(CAN_PERIPHERAL)
    }

    /// Whether the peer can dial: it says so, or says nothing at all.
    pub open spec fn initiates_outbound(self) -> bool {
        self.flags() == 0 || self.has(CAN_CENTRAL)
    }

    /// No statement, as from peers that do not know of capabilities.
    pub fn none() -> (r: PeerCapabilities)
        ensures
            r.flags() == 0,
            r.wf(),
    {
        PeerCapabilities(0)
    }

    /// What a Linux node can do.
    pub fn linux_default() -> (r: PeerCapabilities)
        ensures
            r.flags() == 0x7c,
            r.wf(),
    {
        assert(0x20u8 | 0x08u8 | 0x10u8 | 0x40u8 | 0x04u8 == 0x7cu8) by (bit_vector);
        PeerCapabilities(
            L2CAP_SUPPORTED | CAN_CENTRAL | CAN_PERIPHERAL | GATT_SUPPORTED | PREFER_L2CAP,
        )
    }

    /// A node that only dials.
    pub fn central_only() -> (r: PeerCapabilities)
        ensures
            r.flags() == 0x2a,
            r.wf(),
    {
        assert(0x20u8 | 0x08u8 | 0x02u8 == 0x2au8) by (bit_vector);
        PeerCapabilities(L2CAP_SUPPORTED | CAN_CENTRAL | PREFER_OUTBOUND)
    }

    /// A node that is only dialled.
    pub fn peripheral_only() -> (r: PeerCapabilities)
        ensures
            r.flags() == 0x70,
            r.wf(),
    {
        assert(0x20u8 | 0x10u8 | 0x40u8 == 0x70u8) by (bit_vector);
        PeerCapabilities(L2CAP_SUPPORTED | CAN_PERIPHERAL | GATT_SUPPORTED)
    }

    /// What a macOS node can do.
    pub fn macos_default() -> (r: PeerCapabilities)
        ensures
            r.flags() == 0x7a,
            r.wf(),
    {
        assert(0x20u8 | 0x08u8 | 0x10u8 | 0x40u8 | 0x02u8 == 0x7au8) by (bit_vector);
        PeerCapabilities(
            L2CAP_SUPPORTED | CAN_CENTRAL | CAN_PERIPHERAL | GATT_SUPPORTED | PREFER_OUTBOUND,
        )
    }

    /// Whether the peer dials but cannot be dialled.
    pub fn is_central_only(&self) -> (r: bool)
        ensures
            r == (self.initiates_outbound() && !self.accepts_inbound()),
    {
        self.can_initiate_outbound() && !self.can_accept_inbound()
    }

    /// Whether the peer can be dialled.
    pub fn can_accept_inbound(&self) -> (r: bool)
        ensures
            r == self.accepts_inbound(),
    {
        self.is_legacy_unrestricted() || (self.0 & CAN_PERIPHERAL != 0)
    }

    /// Whether the peer can dial.
    pub fn can_initiate_outbound(&self) -> (r: bool)
        ensures
            r == self.initiates_outbound(),
    {
        self.is_legacy_unrestricted() || (self.0 & CAN_CENTRAL != 0)
    }

    /// Whether the peer prefers to dial.
    pub fn prefers_outbound(&self) -> (r: bool)
        ensures
            r == self.has(PREFER_OUTBOUND),
    {
        self.0 & PREFER_OUTBOUND != 0
    }

    /// The flags as they go over the air.
    pub fn to_byte(self) -> (r: u8)
        ensures
            r == self.flags(),
    {
        self.0
    }

    /// The capabilities that a received byte stands for.
    pub fn from_byte(byte: u8) -> (r: PeerCapabilities)
        ensures
            r.flags() == PeerCapabilities::received(byte),
            r.wf(),
    {
        if byte == LEGACY_CENTRAL_ONLY {
            return PeerCapabilities::central_only();
        }
        PeerCapabilities(byte)
    }

    /// The flags that a received byte stands for.
    pub open spec fn received(byte: u8) -> u8 {
        if byte == LEGACY_CENTRAL_ONLY {
            0x2a
        } else {
            byte
        }
    }

    /// Whether nothing is stated.
    fn is_legacy_unrestricted(&self) -> (r: bool)
        ensures
            r == (self.flags() == 0),
    {
        self.0 == 0
    }
}

impl Default for PeerCapabilities {
    /// No statement.
    fn default() -> (r: PeerCapabilities)
        ensures
            r.flags() == 0,
            r.wf(),
    {
        PeerCapabilities(0)
    }
}

/// Capabilities survive being sent and received.
pub proof fn capabilities_round_trip(caps: PeerCapabilities)
    requires
        caps.wf(),
    ensures
        PeerCapabilities::received(caps.flags()) == caps.flags(),
{
}

/// What the flag sets in use amount to: a peer without a statement and one with
/// a default set can dial and be dialled; an older central-only peer and one
/// that only dials cannot be dialled; one that is only dialled cannot dial.
pub proof fn capability_sets(caps: PeerCapabilities)
    ensures
        caps.flags() == 0 || caps.flags() == 0x7c || caps.flags() == 0x7a
            ==> caps.accepts_inbound() && caps.initiates_outbound(),
        caps.flags() == PeerCapabilities::received(LEGACY_CENTRAL_ONLY) ==> !caps.accepts_inbound()
            && caps.initiates_outbound() && caps.has(PREFER_OUTBOUND),
        caps.flags() == 0x70 ==> caps.accepts_inbound() && !caps.initiates_outbound(),
        caps.flags() == 0x7a ==> caps.has(PREFER_OUTBOUND),
        caps.flags() == 0 || caps.flags() == 0x7c || caps.flags() == 0x70 ==> !caps.has(
            PREFER_OUTBOUND,
        ),
{
    assert(0x7cu8 & 0x10u8 != 0 && 0x7cu8 & 0x08u8 != 0 && 0x7cu8 & 0x02u8 == 0) by (bit_vector);
    assert(0x7au8 & 0x10u8 != 0 && 0x7au8 & 0x08u8 != 0 && 0x7au8 & 0x02u8 != 0) by (bit_vector);
    assert(0x2au8 & 0x10u8 == 0 && 0x2au8 & 0x08u8 != 0 && 0x2au8 & 0x02u8 != 0) by (bit_vector);
    assert(0x70u8 & 0x10u8 != 0 && 0x70u8 & 0x08u8 == 0 && 0x70u8 & 0x02u8 == 0) by (bit_vector);
    assert(0u8 & 0x02u8 == 0) by (bit_vector);
}

} // verus!
