//! BLE transport addresses: `"hci0/AA:BB:CC:DD:EE:FF"`, the name of an adapter
//! and the address of a device.

use crate::text::{
    byte_upper, chars_of, find, find_char, find_is_first, first_is_find, hex_digit, octet,
    octet_scan, parse_octet, push_byte_upper, same_text, split, split_at_first, split_text,
    split_without, texts,
};
use crate::transport::{TransportAddr, TransportError};
use vstd::prelude::*;
use vstd::string::StringExecFns;
use vstd::utf8::{decode_utf8, valid_utf8};

verus! {

/// BLE peer address type: the two LE types that can be dialled.
#[derive(Clone, Copy, Debug, PartialEq, Eq, PartialOrd, Ord, Hash, Structural)]
pub enum BleAddrKind {
    /// Registered with the manufacturer.
    Public,
    /// Chosen by the device.
    Random,
}

/// A BLE device address.
#[derive(Clone, Debug, PartialEq, Eq, PartialOrd, Ord, Hash)]
pub struct BleAddr {
    /// Adapter name, for example `hci0`.
    pub adapter: String,
    /// Device address.
    pub device: [u8; 6],
    /// Peer address type. A connection is dialled with the type the peer
    /// advertises with.
    pub kind: BleAddrKind,
}

/// A device address as text: six pairs of digits between colons.
pub open spec fn mac_text(device: Seq<u8>) -> Seq<char> {
    byte_upper(device[0]) + seq![':'] + byte_upper(device[1]) + seq![':'] + byte_upper(device[2])
        + seq![':'] + byte_upper(device[3]) + seq![':'] + byte_upper(device[4]) + seq![':']
        + byte_upper(device[5])
}

/// The device address that a text spells: six octets between colons.
pub open spec fn mac_octets(s: Seq<char>) -> Option<Seq<u8>> {
    let parts = split(s, ':');
    if parts.len() == 6 && forall|i: int| 0 <= i < 6 ==> (#[trigger] octet(parts[i])) is Ok {
        Some(Seq::new(6, |i: int| octet(parts[i])->Ok_0))
    } else {
        None
    }
}

impl BleAddr {
    /// The address as text.
    pub open spec fn text(self) -> Seq<char> {
        self.adapter@ + seq!['/'] + mac_text(self.device@)
    }

    /// Whether `r` is what parsing `s` yields.
    pub open spec fn parses(s: Seq<char>, r: Result<BleAddr, TransportError>) -> bool {
        let k = find(s, '/');
        let mac = s.skip(k + 1);
        if k >= s.len() {
            r matches Err(TransportError::InvalidAddress(m)) && m@
                == "missing '/' in BLE address: "@ + s
        } else if k == 0 {
            r matches Err(TransportError::InvalidAddress(m)) && m@ == "empty adapter name"@
        } else {
            match mac_octets(mac) {
                Some(device) => r matches Ok(a) && a.adapter@ == s.take(k) && a.device@ == device
                    && a.kind == BleAddrKind::Public,
                None => r matches Err(TransportError::InvalidAddress(m)) && m@
                    == "invalid MAC address: "@ + mac,
            }
        }
    }

    /// Parses an address of the form `"adapter/AA:BB:CC:DD:EE:FF"`. A text
    /// carries no address type, so the result is a public address.
    pub fn parse(s: &str) -> (r: Result<BleAddr, TransportError>)
        ensures
            BleAddr::parses(s@, r),
    {
        let chars = chars_of(s);
        let k = find_char(&chars, '/');
        if k >= chars.len() {
            let mut m = String::from_str("missing '/' in BLE address: ");
            m.append(s);
            return Err(TransportError::InvalidAddress(m));
        }
        if k == 0 {
            return Err(TransportError::InvalidAddress(String::from_str("empty adapter name")));
        }
        let adapter = s.substring_char(0, k);
        let mac_str = s.substring_char(k + 1, chars.len());
        assert(s@.subrange(0, k as int) =~= s@.take(k as int));
        assert(s@.subrange(k + 1, s@.len() as int) =~= s@.skip(k + 1));
        let mac = chars_of(mac_str);
        match parse_mac(&mac) {
            Some(device) => Ok(
                BleAddr {
                    adapter: String::from_str(adapter),
                    device,
                    kind: BleAddrKind::Public,
                },
            ),
            None => {
                let mut m = String::from_str("invalid MAC address: ");
                m.append(mac_str);
                Err(TransportError::InvalidAddress(m))
            },
        }
    }

    /// Formats the address as `"adapter/AA:BB:CC:DD:EE:FF"`.
    pub fn to_string_repr(&self) -> (r: String)
        ensures
            r@ == self.text(),
    {
        let mut out = String::from_str(self.adapter.as_str());
        out.push('/');
        push_mac(&mut out, &self.device);
        assert(out@ =~= self.text());
        out
    }

    /// The address as a transport address.
    pub fn to_transport_addr(&self) -> (r: TransportAddr)
        ensures
            valid_utf8(r.bytes@),
            decode_utf8(r.bytes@) == self.text(),
    {
        TransportAddr::from_string(self.to_string_repr().as_str())
    }

    /// Whether two addresses are equal.
    pub fn same(&self, other: &BleAddr) -> (r: bool)
        ensures
            r == same_ble_addr(*self, *other),
    {
        self.kind == other.kind && self.same_device(other)
    }

    /// Whether two addresses name the same device on the same adapter, whatever
    /// their types. As transport addresses they are then equal.
    pub fn same_device(&self, other: &BleAddr) -> (r: bool)
        ensures
            r == (self.adapter@ == other.adapter@ && self.device@ == other.device@),
    {
        let mut i: usize = 0;
        while i < 6
            invariant
                i <= 6,
                forall|j: int| 0 <= j < i ==> self.device@[j] == other.device@[j],
            decreases 6 - i,
        {
            if self.device[i] != other.device[i] {
                return false;
            }
            i += 1;
        }
        assert(self.device@ =~= other.device@);
        same_text(self.adapter.as_str(), other.adapter.as_str())
    }

    /// A copy of the address.
    pub fn copied(&self) -> (r: BleAddr)
        ensures
            same_ble_addr(r, *self),
    {
        BleAddr { adapter: self.adapter.clone(), device: self.device, kind: self.kind }
    }
}

/// Whether two addresses are equal in all they hold.
pub open spec fn same_ble_addr(a: BleAddr, b: BleAddr) -> bool {
    a.adapter@ == b.adapter@ && a.device@ == b.device@ && a.kind == b.kind
}

/// Appends a device address as text.
pub fn push_mac(out: &mut String, device: &[u8; 6])
    ensures
        final(out)@ == old(out)@ + mac_text(device@),
{
    push_byte_upper(out, device[0]);
    out.push(':');
    push_byte_upper(out, device[1]);
    out.push(':');
    push_byte_upper(out, device[2]);
    out.push(':');
    push_byte_upper(out, device[3]);
    out.push(':');
    push_byte_upper(out, device[4]);
    out.push(':');
    push_byte_upper(out, device[5]);
    assert(out@ =~= old(out)@ + mac_text(device@));
}

/// Parses a device address.
pub fn parse_mac(s: &Vec<char>) -> (r: Option<[u8; 6]>)
    ensures
        match r {
            Some(device) => mac_octets(s@) == Some(device@),
            None => mac_octets(s@) is None,
        },
{
    let parts = split_text(s, ':');
    let ghost pieces = split(s@, ':');
    assert(parts.len() == pieces.len());
    if parts.len() != 6 {
        return None;
    }
    let mut device: [u8; 6] = [0u8; 6];
    let mut i: usize = 0;
    while i < 6
        invariant
            i <= 6,
            parts.len() == 6,
            texts(parts@) == split(s@, ':'),
            pieces == split(s@, ':'),
            forall|j: int| 0 <= j < i ==> octet(#[trigger] pieces[j]) == Ok::<
                u8,
                crate::text::OctetError,
            >(device@[j]),
        decreases 6 - i,
    {
        assert(parts@[i as int]@ == pieces[i as int]);
        match parse_octet(&parts[i]) {
            Ok(b) => {
                device[i] = b;
            },
            Err(_) => {
                return None;
            },
        }
        i += 1;
    }
    assert(device@ =~= mac_octets(s@)->0);
    Some(device)
}

/// The adapter name of a transport address, where it is text with a slash.
pub fn adapter_from_addr(addr: &TransportAddr) -> (r: Option<&str>)
    ensures
        ({
            let s = decode_utf8(addr.bytes@);
            match r {
                Some(adapter) => valid_utf8(addr.bytes@) && s.contains('/') && adapter@ == s.take(
                    find(s, '/'),
                ),
                None => !(valid_utf8(addr.bytes@) && s.contains('/')),
            }
        }),
{
    match addr.as_str() {
        Some(s) => {
            let chars = chars_of(s);
            let k = find_char(&chars, '/');
            proof {
                find_is_first(s@, '/');
            }
            if k < chars.len() {
                assert(s@.subrange(0, k as int) =~= s@.take(k as int));
                Some(s.substring_char(0, k))
            } else {
                None
            }
        },
        None => None,
    }
}

/// Two hexadecimal digits written for a byte read back as that byte.
pub(crate) proof fn octet_of_byte(b: u8)
    ensures
        octet(byte_upper(b)) == Ok::<u8, crate::text::OctetError>(b),
        !byte_upper(b).contains(':'),
{
    let s = byte_upper(b);
    reveal_with_fuel(octet_scan, 3);
    assert(s.drop_last() =~= seq![s[0]]);
    assert(s.drop_last().drop_last() =~= seq![]);
    assert(hex_digit(s[0]) == Some(b as int / 16));
    assert(hex_digit(s[1]) == Some(b as int % 16));
}

/// Parsing the text of a device address gives the address back.
pub proof fn mac_text_round_trip(device: Seq<u8>)
    requires
        device.len() == 6,
    ensures
        mac_octets(mac_text(device)) == Some(device),
{
    let b = |i: int| byte_upper(device[i]);
    octet_of_byte(device[0]);
    octet_of_byte(device[1]);
    octet_of_byte(device[2]);
    octet_of_byte(device[3]);
    octet_of_byte(device[4]);
    octet_of_byte(device[5]);
    let s5 = b(5);
    let s4 = b(4).push(':') + s5;
    let s3 = b(3).push(':') + s4;
    let s2 = b(2).push(':') + s3;
    let s1 = b(1).push(':') + s2;
    let s0 = b(0).push(':') + s1;
    assert(mac_text(device) =~= s0);
    split_without(s5, ':');
    split_at_first(b(4), ':', s5);
    split_at_first(b(3), ':', s4);
    split_at_first(b(2), ':', s3);
    split_at_first(b(1), ':', s2);
    split_at_first(b(0), ':', s1);
    let parts = split(s0, ':');
    assert(parts =~= seq![b(0), b(1), b(2), b(3), b(4), b(5)]);
    assert(mac_octets(s0)->0 =~= device);
}

/// Parsing the text of an address gives the address back, as a public one,
/// provided its adapter has a name without a slash.
pub proof fn ble_addr_round_trip(a: BleAddr, r: Result<BleAddr, TransportError>)
    requires
        a.adapter@.len() > 0,
        !a.adapter@.contains('/'),
        BleAddr::parses(a.text(), r),
    ensures
        r is Ok,
        r->Ok_0.adapter@ == a.adapter@,
        r->Ok_0.device@ == a.device@,
        r->Ok_0.kind == BleAddrKind::Public,
{
    let s = a.text();
    let k = a.adapter@.len() as int;
    assert forall|j: int| 0 <= j < k implies s[j] != '/' by {
        assert(a.adapter@.contains(a.adapter@[j]));
    }
    first_is_find(s, '/', k);
    assert(s.take(k) =~= a.adapter@);
    assert(s.skip(k + 1) =~= mac_text(a.device@));
    mac_text_round_trip(a.device@);
}

/// `bluer::Address`: six bytes.
#[verifier::external_type_specification]
pub struct ExBluerAddress(bluer::Address);

/// `bluer::AddressType`.
#[verifier::external_type_specification]
pub struct ExBluerAddressType(bluer::AddressType);

/// `bluer::l2cap::SocketAddr`.
#[verifier::external_type_specification]
pub struct ExBluerSocketAddr(bluer::l2cap::SocketAddr);

/// `bluer::l2cap::SocketAddr::new`: the address with the given device, type and
/// service multiplexer, and no connection identifier.
pub assume_specification[ bluer::l2cap::SocketAddr::new ](
    addr: bluer::Address,
    addr_type: bluer::AddressType,
    psm: u16,
) -> (r: bluer::l2cap::SocketAddr)
    ensures
        r.addr == addr,
        r.addr_type == addr_type,
        r.psm == psm,
        r.cid == 0,
;

/// The kind of an address that the stack reports. Classic addresses cannot be
/// dialled as LE and count as public.
pub open spec fn kind_of(ty: bluer::AddressType) -> BleAddrKind {
    match ty {
        bluer::AddressType::LePublic => BleAddrKind::Public,
        bluer::AddressType::LeRandom => BleAddrKind::Random,
        bluer::AddressType::BrEdr => BleAddrKind::Public,
    }
}

impl From<bluer::AddressType> for BleAddrKind {
    fn from(ty: bluer::AddressType) -> (r: BleAddrKind) {
        match ty {
            bluer::AddressType::LePublic => BleAddrKind::Public,
            bluer::AddressType::LeRandom => BleAddrKind::Random,
            bluer::AddressType::BrEdr => BleAddrKind::Public,
        }
    }
}

impl vstd::std_specs::convert::FromSpecImpl<bluer::AddressType> for BleAddrKind {
    open spec fn obeys_from_spec() -> bool {
        true
    }

    open spec fn from_spec(ty: bluer::AddressType) -> BleAddrKind {
        kind_of(ty)
    }
}

impl BleAddr {
    /// The address of a device seen on an adapter, with the type it was seen
    /// with.
    pub fn from_bluer_with_kind(addr: bluer::Address, kind: BleAddrKind, adapter: &str) -> (r:
        BleAddr)
        ensures
            r.adapter@ == adapter@,
            r.device@ == addr.0@,
            r.kind == kind,
    {
        BleAddr { adapter: String::from_str(adapter), device: addr.0, kind }
    }

    /// The device address for the stack.
    pub fn to_bluer_address(&self) -> (r: bluer::Address)
        ensures
            r.0@ == self.device@,
    {
        bluer::Address(self.device)
    }

    /// The socket address that dials this device on a service multiplexer, with
    /// the type the device is known by.
    pub fn to_socket_addr(&self, psm: u16) -> (r: bluer::l2cap::SocketAddr)
        ensures
            r.addr.0@ == self.device@,
            r.addr_type == match self.kind {
                BleAddrKind::Public => bluer::AddressType::LePublic,
                BleAddrKind::Random => bluer::AddressType::LeRandom,
            },
            r.psm == psm,
            r.cid == 0,
    {
        let ty = match self.kind {
            BleAddrKind::Public => bluer::AddressType::LePublic,
            BleAddrKind::Random => bluer::AddressType::LeRandom,
        };
        bluer::l2cap::SocketAddr::new(self.to_bluer_address(), ty, psm)
    }
}

/// An address learned from the stack is dialled under the type it was learned
/// with.
pub proof fn learned_kind_is_dialled(ty: bluer::AddressType, r: BleAddr)
    requires
        ty != bluer::AddressType::BrEdr,
        r.kind == kind_of(ty),
    ensures
        ty == match r.kind {
            BleAddrKind::Public => bluer::AddressType::LePublic,
            BleAddrKind::Random => bluer::AddressType::LeRandom,
        },
{
}

} // verus!
