//! RFCOMM (Bluetooth Classic) transport.

use crate::text::{
    chars_of, decimal, octet, parse_octet, push_decimal, split, split_text, string_of, texts,
    OctetError,
};
use crate::transport::ble::addr::{mac_octets, mac_text, mac_text_round_trip, push_mac};
use crate::transport::ble::peering::{pubkey_exchange, reads_announcement};
use crate::transport::{ConnectionState, TransportAddr, TransportError, TransportState};
use vstd::prelude::*;
use vstd::string::StringExecFns;
use vstd::utf8::{decode_utf8, valid_utf8};

pub mod framing;
pub mod stats;

verus! {

/// The Bluetooth address family.
pub const AF_BLUETOOTH: u8 = 31;

/// First byte of a public key announcement.
pub const PUBKEY_EXCHANGE_PREFIX: u8 = 0x00;

/// Length of an announcement.
pub const PUBKEY_EXCHANGE_SIZE: usize = 33;

/// How long the peer's announcement is waited for, in seconds.
pub const PUBKEY_EXCHANGE_TIMEOUT_SECS: u64 = 15;

/// A socket address: family in two bytes, device address least significant byte
/// first, channel, padding.
pub open spec fn sockaddr(mac_le: Seq<u8>, channel: u8) -> Seq<u8> {
    seq![AF_BLUETOOTH, 0] + mac_le + seq![channel, 0]
}

/// Builds a socket address.
pub fn make_sockaddr_rc(mac_le: &[u8; 6], channel: u8) -> (r: [u8; 10])
    ensures
        r@ == sockaddr(mac_le@, channel),
{
    let r: [u8; 10] = [
        AF_BLUETOOTH,
        0,
        mac_le[0],
        mac_le[1],
        mac_le[2],
        mac_le[3],
        mac_le[4],
        mac_le[5],
        channel,
        0,
    ];
    assert(r@ =~= sockaddr(mac_le@, channel));
    r
}

/// Takes the device address out of a socket address.
pub fn mac_from_sockaddr(addr: &[u8]) -> (r: [u8; 6])
    requires
        addr@.len() >= 8,
    ensures
        r@ == addr@.subrange(2, 8),
{
    let r: [u8; 6] = [addr[2], addr[3], addr[4], addr[5], addr[6], addr[7]];
    assert(r@ =~= addr@.subrange(2, 8));
    r
}

/// The device address that went into a socket address comes out of it.
pub proof fn sockaddr_round_trip(mac_le: Seq<u8>, channel: u8)
    requires
        mac_le.len() == 6,
    ensures
        sockaddr(mac_le, channel).subrange(2, 8) == mac_le,
        sockaddr(mac_le, channel).len() == 10,
        sockaddr(mac_le, channel)[8] == channel,
{
    assert(sockaddr(mac_le, channel).subrange(2, 8) =~= mac_le);
}

/// The first part that is not an octet.
pub open spec fn first_bad_octet(parts: Seq<Seq<char>>, k: int) -> bool {
    &&& 0 <= k < parts.len()
    &&& octet(parts[k]) is Err
    &&& forall|j: int| 0 <= j < k ==> (#[trigger] octet(parts[j])) is Ok
}

/// Whether `r` is what parsing a device address yields: the six octets in
/// reverse order, or what is wrong.
pub open spec fn parses_mac(s: Seq<char>, r: Result<[u8; 6], TransportError>) -> bool {
    let parts = split(s, ':');
    match r {
        Ok(mac) => mac_octets(s) == Some(mac@.reverse()),
        Err(TransportError::InvalidAddress(m)) => if parts.len() != 6 {
            m@ == "invalid MAC address: expected 6 octets, got "@ + decimal(parts.len())
                + ": "@ + s
        } else {
            exists|k: int|
                #[trigger] first_bad_octet(parts, k) && m@ == "invalid MAC octet '"@ + parts[k]
                    + "': "@ + octet(parts[k])->Err_0.spec_reason()
        },
        Err(_) => false,
    }
}

/// Parses a device address such as `AA:BB:CC:DD:EE:FF` to bytes, least
/// significant first.
pub fn parse_mac_addr(s: &str) -> (r: Result<[u8; 6], TransportError>)
    ensures
        parses_mac(s@, r),
{
    let chars = chars_of(s);
    let parts = split_text(&chars, ':');
    let ghost pieces = split(s@, ':');
    assert(parts.len() == pieces.len());
    if parts.len() != 6 {
        let mut m = String::from_str("invalid MAC address: expected 6 octets, got ");
        push_decimal(&mut m, parts.len() as u64);
        m.append(": ");
        m.append(s);
        return Err(TransportError::InvalidAddress(m));
    }
    let mut mac: [u8; 6] = [0u8; 6];
    let mut i: usize = 0;
    while i < 6
        invariant
            i <= 6,
            parts.len() == 6,
            texts(parts@) == pieces,
            pieces == split(s@, ':'),
            pieces.len() == 6,
            forall|j: int|
                0 <= j < i ==> (#[trigger] octet(pieces[j])) == Ok::<u8, OctetError>(mac@[5 - j]),
        decreases 6 - i,
    {
        assert(parts@[i as int]@ == pieces[i as int]);
        match parse_octet(&parts[i]) {
            Ok(b) => {
                mac[5 - i] = b;
            },
            Err(e) => {
                let mut m = String::from_str("invalid MAC octet '");
                m.append(string_of(&parts[i]).as_str());
                m.append("': ");
                m.append(e.reason());
                assert(first_bad_octet(pieces, i as int));
                return Err(TransportError::InvalidAddress(m));
            },
        }
        i += 1;
    }
    assert forall|j: int| 0 <= j < 6 implies (#[trigger] octet(pieces[j])) is Ok by {}
    assert(mac_octets(s@)->0 =~= mac@.reverse());
    Ok(mac)
}

/// Formats a device address that is least significant byte first.
pub fn format_mac_addr(mac_le: &[u8; 6]) -> (r: String)
    ensures
        r@ == mac_text(mac_le@.reverse()),
{
    let mac: [u8; 6] = [mac_le[5], mac_le[4], mac_le[3], mac_le[2], mac_le[1], mac_le[0]];
    assert(mac@ =~= mac_le@.reverse());
    let mut out = String::new();
    push_mac(&mut out, &mac);
    assert(out@ =~= mac_text(mac@));
    out
}

/// Parsing a formatted device address gives it back.
pub proof fn mac_addr_round_trip(mac_le: [u8; 6], r: Result<[u8; 6], TransportError>)
    requires
        parses_mac(mac_text(mac_le@.reverse()), r),
    ensures
        r is Ok,
        r->Ok_0@ == mac_le@,
{
    let s = mac_text(mac_le@.reverse());
    mac_text_round_trip(mac_le@.reverse());
    assert(split(s, ':').len() == 6);
    if let Err(TransportError::InvalidAddress(m)) = r {
        let parts = split(s, ':');
        let k = choose|k: int|
            #[trigger] first_bad_octet(parts, k) && m@ == "invalid MAC octet '"@ + parts[k]
                + "': "@ + octet(parts[k])->Err_0.spec_reason();
        assert(octet(parts[k]) is Ok);
    }
    assert(r->Ok_0@ =~= mac_le@) by {
        let a = r->Ok_0@;
        let b = mac_le@;
        assert(a.reverse() == b.reverse());
        assert forall|i: int| 0 <= i < 6 implies a[i] == b[i] by {
            assert(a.reverse()[5 - i] == b.reverse()[5 - i]);
        }
    }
}

/// Our announcement: prefix and public key.
pub fn pubkey_announcement(local_pubkey: &[u8; 32]) -> (r: Vec<u8>)
    ensures
        r@ == seq![PUBKEY_EXCHANGE_PREFIX] + local_pubkey@,
{
    let mut r: Vec<u8> = Vec::new();
    r.push(PUBKEY_EXCHANGE_PREFIX);
    crate::wire::put_bytes(&mut r, local_pubkey.as_slice());
    assert(r@ =~= seq![PUBKEY_EXCHANGE_PREFIX] + local_pubkey@);
    r
}

/// Reads the peer's announcement; what follows the key is not looked at.
pub fn read_pubkey(data: &[u8]) -> (r: Result<[u8; 32], TransportError>)
    ensures
        match r {
            Ok(key) => data@.len() >= 33 && data@[0] == PUBKEY_EXCHANGE_PREFIX && key@
                == data@.subrange(1, 33) && crate::identity::is_xonly_key(key@),
            Err(e) => reads_announcement(
                data@,
                data@.len() >= 33 && crate::identity::is_xonly_key(data@.subrange(1, 33)),
                Err(e),
            ),
        },
{
    match pubkey_exchange(data) {
        Ok(x) => Ok(x.peer_pubkey),
        Err(e) => Err(e),
    }
}

/// What a transport does at start.
#[derive(Clone, Copy, Debug, PartialEq, Eq, Structural)]
pub struct RfcommStart {
    /// Connect to the configured peers.
    pub connect_peers: bool,
    /// Listen; a failure ends the start.
    pub listen: bool,
}

/// Life cycle of the transport.
#[derive(Clone, Copy, Debug)]
pub struct RfcommLifecycle {
    /// Where it stands.
    pub state: TransportState,
}

impl RfcommLifecycle {
    /// A configured transport.
    pub fn new() -> (r: RfcommLifecycle)
        ensures
            r.state == TransportState::Configured,
    {
        RfcommLifecycle { state: TransportState::Configured }
    }

    /// Begins a start in the configured mode, or refuses where the transport is
    /// up or on its way.
    pub fn begin_start(&mut self, mode: &str) -> (r: Result<RfcommStart, TransportError>)
        ensures
            if old(self).state.spec_can_start() {
                &&& final(self).state == TransportState::Starting
                &&& r matches Ok(p) && p.connect_peers == (mode@ == "client"@) && p.listen == (mode@
                    == "server"@)
            } else {
                &&& final(self).state == old(self).state
                &&& r matches Err(TransportError::AlreadyStarted)
            },
    {
        if !self.state.can_start() {
            return Err(TransportError::AlreadyStarted);
        }
        self.state = TransportState::Starting;
        Ok(
            RfcommStart {
                connect_peers: crate::text::same_text(mode, "client"),
                listen: crate::text::same_text(mode, "server"),
            },
        )
    }

    /// Ends a start. A listener that failed leaves the transport on its way;
    /// peers that could not be reached do not matter.
    pub fn finish_start(&mut self, plan: &RfcommStart, listening: bool)
        ensures
            final(self).state == if plan.listen && !listening {
                old(self).state
            } else {
                TransportState::Up
            },
    {
        if !plan.listen || listening {
            self.state = TransportState::Up;
        }
    }

    /// Stops a running transport.
    pub fn stop(&mut self) -> (r: Result<(), TransportError>)
        ensures
            if old(self).state == TransportState::Up {
                r is Ok && final(self).state == TransportState::Down
            } else {
                &&& final(self).state == old(self).state
                &&& r matches Err(TransportError::NotStarted)
            },
    {
        if !self.state.is_operational() {
            return Err(TransportError::NotStarted);
        }
        self.state = TransportState::Down;
        Ok(())
    }

    /// Whether a packet may be sent.
    pub fn check_send(&self, len: usize, mtu: u16, connected: bool) -> (r: Result<
        (),
        TransportError,
    >)
        ensures
            if self.state != TransportState::Up {
                r matches Err(TransportError::NotStarted)
            } else if len > mtu {
                r matches Err(TransportError::MtuExceeded { packet_size, mtu: limit })
                    && packet_size == len && limit == mtu
            } else if !connected {
                r matches Err(TransportError::SendFailed(m)) && m@ == "no connection to address"@
            } else {
                r is Ok
            },
    {
        if !self.state.is_operational() {
            return Err(TransportError::NotStarted);
        }
        if len > mtu as usize {
            return Err(TransportError::MtuExceeded { packet_size: len, mtu });
        }
        if !connected {
            return Err(TransportError::SendFailed(String::from_str("no connection to address")));
        }
        Ok(())
    }

    /// The device to connect to for an address, if a connection is needed.
    pub fn plan_connection(&self, in_pool: bool, addr: &TransportAddr) -> (r: Result<
        Option<[u8; 6]>,
        TransportError,
    >)
        ensures
            if self.state != TransportState::Up {
                r matches Err(TransportError::NotStarted)
            } else if in_pool {
                r matches Ok(None)
            } else if !valid_utf8(addr.bytes@) {
                r matches Err(TransportError::InvalidAddress(m)) && m@ == "not valid UTF-8"@
            } else {
                match r {
                    Ok(Some(mac)) => parses_mac(decode_utf8(addr.bytes@), Ok(mac)),
                    Ok(None) => false,
                    Err(e) => parses_mac(decode_utf8(addr.bytes@), Err(e)),
                }
            },
    {
        if !self.state.is_operational() {
            return Err(TransportError::NotStarted);
        }
        if in_pool {
            return Ok(None);
        }
        match addr.as_str() {
            None => Err(TransportError::InvalidAddress(String::from_str("not valid UTF-8"))),
            Some(s) => match parse_mac_addr(s) {
                Ok(mac) => Ok(Some(mac)),
                Err(e) => Err(e),
            },
        }
    }
}

/// State of the connection to an address.
pub fn connection_state(in_pool: bool) -> (r: ConnectionState)
    ensures
        r == if in_pool {
            ConnectionState::Connected
        } else {
            ConnectionState::Unconnected
        },
{
    if in_pool {
        ConnectionState::Connected
    } else {
        ConnectionState::Unconnected
    }
}

/// What to do with an accepted socket.
#[derive(Clone, Copy, Debug, PartialEq, Eq, Structural)]
pub enum AcceptStep {
    /// Close it: the device is connected already.
    Duplicate,
    /// Close it: it cannot be used.
    Unusable,
    /// File it as a connection.
    Register,
}

/// Decides about an accepted socket.
pub fn accept_step(in_pool: bool, usable: bool) -> (r: AcceptStep)
    ensures
        r == if in_pool {
            AcceptStep::Duplicate
        } else if usable {
            AcceptStep::Register
        } else {
            AcceptStep::Unusable
        },
{
    if in_pool {
        AcceptStep::Duplicate
    } else if usable {
        AcceptStep::Register
    } else {
        AcceptStep::Unusable
    }
}

} // verus!
