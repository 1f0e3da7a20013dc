//! What the transports have in common.

use vstd::prelude::*;
use vstd::string::StrSliceExecFns;
use vstd::utf8::{decode_utf8, valid_utf8};

pub mod ble;
pub mod rfcomm;

verus! {

/// Why a transport operation failed.
#[derive(Debug)]
pub enum TransportError {
    /// The transport runs already.
    AlreadyStarted,
    /// The transport does not run.
    NotStarted,
    /// The transport could not be started.
    StartFailed(String),
    /// The operation is not available.
    NotSupported(String),
    /// The address cannot be used.
    InvalidAddress(String),
    /// The packet is larger than the link takes.
    MtuExceeded {
        /// Size of the packet.
        packet_size: usize,
        /// What the link takes.
        mtu: u16,
    },
    /// Sending failed.
    SendFailed(String),
    /// Receiving failed.
    RecvFailed(String),
    /// The peer does not take the connection.
    ConnectionRefused,
    /// The operation took too long.
    Timeout,
}

/// Life cycle of a transport.
#[derive(Clone, Copy, Debug, PartialEq, Eq, Structural)]
pub enum TransportState {
    /// Configured, never started.
    Configured,
    /// On its way up.
    Starting,
    /// Running.
    Up,
    /// Stopped.
    Down,
    /// Could not start.
    Failed,
}

impl TransportState {
    /// Whether a transport in this state may be started.
    pub open spec fn spec_can_start(self) -> bool {
        self == TransportState::Configured || self == TransportState::Down || self
            == TransportState::Failed
    }

    /// Whether a transport in this state may be started.
    pub fn can_start(&self) -> (r: bool)
        ensures
            r == self.spec_can_start(),
    {
        *self == TransportState::Configured || *self == TransportState::Down || *self
            == TransportState::Failed
    }

    /// Whether a transport in this state carries traffic.
    pub fn is_operational(&self) -> (r: bool)
        ensures
            r == (*self == TransportState::Up),
    {
        *self == TransportState::Up
    }
}

/// State of a connection to one address.
#[derive(Clone, Copy, Debug, PartialEq, Eq, Structural)]
pub enum ConnectionState {
    /// There is none.
    Unconnected,
    /// It is being made.
    Connecting,
    /// It is there.
    Connected,
}

/// An address on a transport, as bytes that the transport gives a meaning.
#[derive(Clone, Debug, PartialEq, Eq, Hash)]
pub struct TransportAddr {
    /// The bytes.
    pub bytes: Vec<u8>,
}

/// `std::str::from_utf8`: the text that the bytes encode, or nothing where they
/// are not well formed.
#[verifier::external_body]
fn text_of_utf8(bytes: &[u8]) -> (r: Option<&str>)
    ensures
        match r {
            Some(s) => valid_utf8(bytes@) && s@ == decode_utf8(bytes@),
            None => !valid_utf8(bytes@),
        },
{
    std::str::from_utf8(bytes).ok()
}

impl TransportAddr {
    /// The address that a text spells.
    pub fn from_string(s: &str) -> (r: TransportAddr)
        ensures
            valid_utf8(r.bytes@),
            decode_utf8(r.bytes@) == s@,
    {
        broadcast use vstd::utf8::group_utf8_lib;

        TransportAddr { bytes: s.as_bytes_vec() }
    }

    /// The address as text, where it is text.
    pub fn as_str(&self) -> (r: Option<&str>)
        ensures
            match r {
                Some(s) => valid_utf8(self.bytes@) && s@ == decode_utf8(self.bytes@),
                None => !valid_utf8(self.bytes@),
            },
    {
        text_of_utf8(self.bytes.as_slice())
    }
}

} // verus!
