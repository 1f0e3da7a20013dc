//! The radio of a Mac, which only has the central role.

use crate::identity::number_of;
use crate::transport::ble::addr::{BleAddr, BleAddrKind};
use crate::transport::ble::io::find_uuid;
use crate::transport::TransportError;
use crate::wire::be_value;
use vstd::prelude::*;
use vstd::string::StringExecFns;

verus! {

/// An acceptor that never yields a connection.
#[derive(Debug)]
pub struct BluestAcceptor;

/// The report that no peer can dial in.
fn no_peripheral_role() -> (r: TransportError)
    ensures
        r matches TransportError::NotSupported(m) && m@
            == "BLE peripheral role not supported on macOS (bluest is central-only)"@,
{
    TransportError::NotSupported(
        String::from_str("BLE peripheral role not supported on macOS (bluest is central-only)"),
    )
}

impl BluestAcceptor {
    /// Refuses to wait for a connection.
    pub fn accept(&mut self) -> (r: Result<(), TransportError>)
        ensures
            r matches Err(TransportError::NotSupported(m)) && m@
                == "BLE peripheral role not supported on macOS (bluest is central-only)"@,
    {
        Err(no_peripheral_role())
    }
}

/// What is known of the radio.
pub struct BluestRadio {
    /// Name of the adapter.
    pub adapter_name: String,
    /// Largest packet.
    pub mtu: u16,
}

impl BluestRadio {
    /// A radio.
    pub fn new(adapter_name: &str, mtu: u16) -> (r: BluestRadio)
        ensures
            r.adapter_name@ == adapter_name@,
            r.mtu == mtu,
    {
        BluestRadio { adapter_name: String::from_str(adapter_name), mtu }
    }

    /// Refuses to listen.
    pub fn listen(&self, psm: u16) -> (r: Result<BluestAcceptor, TransportError>)
        ensures
            r matches Err(TransportError::NotSupported(m)) && m@
                == "BLE peripheral role not supported on macOS (bluest is central-only)"@,
    {
        Err(no_peripheral_role())
    }

    /// Refuses to advertise.
    pub fn start_advertising(&self) -> (r: Result<(), TransportError>)
        ensures
            r matches Err(TransportError::NotSupported(m)) && m@
                == "BLE advertising not supported on macOS (bluest is central-only)"@,
    {
        Err(
            TransportError::NotSupported(
                String::from_str("BLE advertising not supported on macOS (bluest is central-only)"),
            ),
        )
    }

    /// Refuses to stop advertising.
    pub fn stop_advertising(&self) -> (r: Result<(), TransportError>)
        ensures
            r matches Err(TransportError::NotSupported(m)) && m@
                == "BLE advertising not supported on macOS (bluest is central-only)"@,
    {
        self.start_advertising()
    }

    /// The own address, which the system does not tell.
    pub fn local_addr(&self) -> (r: BleAddr)
        ensures
            r.adapter@ == self.adapter_name@,
            r.device@ == seq![0u8; 6],
            r.kind == BleAddrKind::Public,
    {
        let r = BleAddr {
            adapter: String::from_str(self.adapter_name.as_str()),
            device: [0u8; 6],
            kind: BleAddrKind::Public,
        };
        assert(r.device@ =~= seq![0u8; 6]);
        r
    }
}

/// The identifier that a text spells in any of the usual forms.
pub uninterp spec fn uuid_of(text: Seq<char>) -> Option<u128>;

/// `uuid::Uuid::parse_str`: which identifier a text spells, if any, depends on
/// the text alone.
#[verifier::external_body]
fn parse_uuid(text: &str) -> (r: Option<u128>)
    ensures
        r == uuid_of(text@),
{
    uuid::Uuid::parse_str(text).ok().map(|u| u.as_u128())
}

/// Whether a text spells the identifier with these bytes.
pub open spec fn is_device(id: String, target: Seq<u8>) -> bool {
    uuid_of(id@) is Some && uuid_of(id@)->0 == be_value(target)
}

/// Where the device with the given identifier stands among the devices that a
/// scan found, whose identifiers come as text.
pub fn find_device(ids: &Vec<String>, target: &[u8; 16]) -> (r: Option<usize>)
    ensures
        match r {
            Some(k) => {
                &&& k < ids@.len() && is_device(ids@[k as int], target@)
                &&& forall|j: int| 0 <= j < k ==> !is_device(#[trigger] ids@[j], target@)
            },
            None => forall|j: int| 0 <= j < ids@.len() ==> !is_device(#[trigger] ids@[j], target@),
        },
{
    let wanted = number_of(target.as_slice(), 16);
    assert(target@.take(16) =~= target@);
    let mut uuids: Vec<Option<u128>> = Vec::new();
    let mut k: usize = 0;
    while k < ids.len()
        invariant
            k <= ids@.len(),
            uuids@.len() == k,
            forall|j: int| 0 <= j < k ==> #[trigger] uuids@[j] == uuid_of(ids@[j]@),
        decreases ids@.len() - k,
    {
        uuids.push(parse_uuid(ids[k].as_str()));
        k += 1;
    }
    let found = find_uuid(uuids.as_slice(), wanted);
    proof {
        assert forall|j: int| 0 <= j < ids@.len() implies is_device(#[trigger] ids@[j], target@)
            == (uuids@[j] == Some(wanted)) by {}
    }
    found
}

/// A stable address for a device that the system only knows by an opaque
/// identifier: the low six bytes of the identifier's hash, most significant
/// first.
pub fn device_mac(hash: u64) -> (r: [u8; 6])
    ensures
        be_value(r@) == hash as int % 0x1_0000_0000_0000,
{
    let mut v: u64 = hash % 0x1_0000_0000_0000;
    let f: u8 = (v % 256) as u8;
    v = v / 256;
    let e: u8 = (v % 256) as u8;
    v = v / 256;
    let d: u8 = (v % 256) as u8;
    v = v / 256;
    let c: u8 = (v % 256) as u8;
    v = v / 256;
    let b: u8 = (v % 256) as u8;
    v = v / 256;
    let a: u8 = v as u8;
    let r = [a, b, c, d, e, f];
    proof {
        reveal_with_fuel(be_value, 7);
        assert(r@.drop_last() =~= seq![a, b, c, d, e]);
        assert(seq![a, b, c, d, e].drop_last() =~= seq![a, b, c, d]);
        assert(seq![a, b, c, d].drop_last() =~= seq![a, b, c]);
        assert(seq![a, b, c].drop_last() =~= seq![a, b]);
        assert(seq![a, b].drop_last() =~= seq![a]);
        assert(seq![a].drop_last() =~= seq![]);
    }
    r
}

} // verus!
