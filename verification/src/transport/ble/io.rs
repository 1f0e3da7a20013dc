//! Framing, service discovery and retries on BLE links.

use crate::text::{chars_of, decimal, push_decimal};
use crate::transport::ble::addr::BleAddrKind;
use crate::transport::TransportError;
use crate::wire::{be_bytes, be_bytes_of_two, le_value, put_bytes};
use vstd::prelude::*;
use vstd::string::StringExecFns;

verus! {

/// Length of the prefix in front of every frame.
pub const BLE_FRAME_PREFIX_LEN: u16 = 2;

/// How long a send may take, in seconds.
pub const BLE_SEND_TIMEOUT_SECS: u64 = 15;

/// How often advertising and scanning are tried at start.
pub const STARTUP_RETRY_ATTEMPTS: usize = 3;

/// Pause between those tries, in milliseconds.
pub const STARTUP_RETRY_DELAY_MS: u64 = 750;

/// The mesh service.
pub const FIPS_SERVICE_UUID: u128 = 0x9c90_b790_2cc5_42c0_9f87_c9cc_4064_8f4c;

/// The service that tells the service multiplexer over GATT.
pub const FIPS_GATT_PSM_SERVICE_UUID: u128 = 0x0e2c_43b1_51b9_4667_a1d1_a95e_a79f_d19b;

/// Its characteristic.
pub const FIPS_GATT_PSM_CHAR_UUID: u128 = 0x250c_88dd_3dff_4c41_83b2_f1b4_e3d8_20cc;

/// A frame: the length of the payload in two bytes, most significant first,
/// then the payload.
pub open spec fn frame(payload: Seq<u8>) -> Seq<u8> {
    be_bytes(payload.len(), 2) + payload
}

/// The payload length that received bytes announce.
pub open spec fn announced_len(bytes: Seq<u8>) -> int {
    bytes[0] as int * 256 + bytes[1] as int
}

/// Frames a payload for a link that takes `send_mtu` bytes.
pub fn frame_payload(data: &[u8], send_mtu: u16) -> (r: Result<Vec<u8>, TransportError>)
    requires
        data@.len() + 2 <= usize::MAX,
    ensures
        if data@.len() + 2 > send_mtu {
            r matches Err(TransportError::MtuExceeded { packet_size, mtu }) && packet_size
                == data@.len() + 2 && mtu == send_mtu
        } else {
            r matches Ok(f) && f@ == frame(data@)
        },
{
    let framed_len: usize = 2 + data.len();
    if framed_len > send_mtu as usize {
        return Err(TransportError::MtuExceeded { packet_size: framed_len, mtu: send_mtu });
    }
    let len: u16 = data.len() as u16;
    let mut framed: Vec<u8> = Vec::new();
    framed.push((len / 256) as u8);
    framed.push((len % 256) as u8);
    proof {
        be_bytes_of_two(len);
        assert(framed@ =~= be_bytes(len as nat, 2));
    }
    put_bytes(&mut framed, data);
    Ok(framed)
}

/// Whether `r` is what taking a frame off received bytes yields, `after` the
/// bytes that stay and `out` the reader's buffer afterwards.
pub open spec fn takes_frame(
    bytes: Seq<u8>,
    buf: Seq<u8>,
    max_payload_len: int,
    after: Seq<u8>,
    out: Seq<u8>,
    r: Result<Option<usize>, TransportError>,
) -> bool {
    let len = announced_len(bytes);
    let copied = if len < buf.len() {
        len
    } else {
        buf.len() as int
    };
    if bytes.len() < 2 {
        r matches Ok(None) && after == bytes && out == buf
    } else if len > max_payload_len {
        &&& r matches Err(TransportError::RecvFailed(m)) && m@
            == "BLE recv: invalid frame header "@ + decimal(len as nat)
            + " exceeds max payload "@ + decimal(max_payload_len as nat)
        &&& after == bytes && out == buf
    } else if len == 0 {
        &&& r matches Err(TransportError::RecvFailed(m)) && m@
            == "BLE recv: framed message too short (0 bytes)"@
        &&& after == bytes.skip(2) && out == buf
    } else if bytes.len() < 2 + len {
        r matches Ok(None) && after == bytes && out == buf
    } else {
        &&& r matches Ok(Some(n)) && n == copied
        &&& after == bytes.skip(2 + len)
        &&& out == bytes.subrange(2, 2 + copied) + buf.skip(copied)
    }
}

/// Drops the first `n` bytes.
fn drain_front(bytes: &mut Vec<u8>, n: usize)
    requires
        n <= old(bytes)@.len(),
    ensures
        final(bytes)@ == old(bytes)@.skip(n as int),
{
    let rest = crate::wire::copy_range(bytes.as_slice(), n, bytes.len());
    assert(rest@ =~= bytes@.skip(n as int));
    *bytes = rest;
}

/// Takes one frame off the received bytes and copies as much of its payload as
/// fits into the reader's buffer. Without a whole frame nothing happens.
pub fn try_take_framed_payload(
    recv_buf: &mut Vec<u8>,
    buf: &mut [u8],
    max_payload_len: usize,
) -> (r: Result<Option<usize>, TransportError>)
    ensures
        takes_frame(
            old(recv_buf)@,
            old(buf)@,
            max_payload_len as int,
            final(recv_buf)@,
            final(buf)@,
            r,
        ),
{
    if recv_buf.len() < 2 {
        return Ok(None);
    }
    let payload_len: usize = (recv_buf[0] as usize) * 256 + recv_buf[1] as usize;
    if payload_len > max_payload_len {
        let mut m = String::from_str("BLE recv: invalid frame header ");
        push_decimal(&mut m, payload_len as u64);
        m.append(" exceeds max payload ");
        push_decimal(&mut m, max_payload_len as u64);
        return Err(TransportError::RecvFailed(m));
    }
    if payload_len == 0 {
        drain_front(recv_buf, 2);
        return Err(
            TransportError::RecvFailed(
                String::from_str("BLE recv: framed message too short (0 bytes)"),
            ),
        );
    }
    if recv_buf.len() < 2 + payload_len {
        return Ok(None);
    }
    let copy_len: usize = if payload_len < buf.len() {
        payload_len
    } else {
        buf.len()
    };
    let mut k: usize = 0;
    while k < copy_len
        invariant
            k <= copy_len,
            copy_len <= buf@.len(),
            buf@.len() == old(buf)@.len(),
            copy_len <= payload_len,
            recv_buf.len() >= 2 + payload_len,
            recv_buf@ == old(recv_buf)@,
            forall|j: int| 0 <= j < k ==> buf@[j] == recv_buf@[2 + j],
            forall|j: int| k <= j < buf@.len() ==> buf@[j] == old(buf)@[j],
        decreases copy_len - k,
    {
        buf[k] = recv_buf[2 + k];
        k += 1;
    }
    assert(buf@ =~= recv_buf@.subrange(2, 2 + copy_len) + old(buf)@.skip(copy_len as int));
    drain_front(recv_buf, 2 + payload_len);
    Ok(Some(copy_len))
}

/// What one end frames, the other end takes off whole, and what follows stays.
pub proof fn framing_round_trip(
    payload: Seq<u8>,
    rest: Seq<u8>,
    buf: Seq<u8>,
    max_payload_len: int,
    after: Seq<u8>,
    out: Seq<u8>,
    r: Result<Option<usize>, TransportError>,
)
    requires
        0 < payload.len() <= 0xffff,
        payload.len() <= max_payload_len,
        payload.len() <= buf.len(),
        takes_frame(frame(payload) + rest, buf, max_payload_len, after, out, r),
    ensures
        r == Ok::<Option<usize>, TransportError>(Some(payload.len() as usize)),
        after == rest,
        out.take(payload.len() as int) == payload,
{
    let n = payload.len() as int;
    let bytes = frame(payload) + rest;
    be_bytes_of_two(n as u16);
    assert(bytes[0] as int == n / 256);
    assert(bytes[1] as int == n % 256);
    assert(announced_len(bytes) == n);
    assert(bytes.skip(2 + n) =~= rest);
    assert(out.take(n) =~= payload);
}

/// Whether `r` is what a datagram with one frame yields: as much of the payload as
/// is announced, is there and fits.
pub open spec fn unframes(data: Seq<u8>, limit: int, r: Result<Vec<u8>, TransportError>) -> bool {
    let len = announced_len(data);
    let body = data.len() - 2;
    let kept = if len < body {
        len
    } else {
        body
    };
    let taken = if kept < limit {
        kept
    } else {
        limit
    };
    if data.len() < 2 {
        r matches Err(TransportError::RecvFailed(m)) && m@ == "frame too short"@
    } else if len == 0 {
        r matches Err(TransportError::RecvFailed(m)) && m@
            == "BLE recv: framed message too short (0 bytes)"@
    } else {
        r matches Ok(p) && p@ == data.subrange(2, 2 + taken)
    }
}

/// Reads the payload of a datagram that holds one frame, up to `limit` bytes.
pub fn unframe_datagram(data: &[u8], limit: usize) -> (r: Result<Vec<u8>, TransportError>)
    ensures
        unframes(data@, limit as int, r),
{
    if data.len() < 2 {
        return Err(TransportError::RecvFailed(String::from_str("frame too short")));
    }
    let payload_len: usize = (data[0] as usize) * 256 + data[1] as usize;
    if payload_len == 0 {
        return Err(
            TransportError::RecvFailed(
                String::from_str("BLE recv: framed message too short (0 bytes)"),
            ),
        );
    }
    let body: usize = data.len() - 2;
    let kept: usize = if payload_len < body {
        payload_len
    } else {
        body
    };
    let taken: usize = if kept < limit {
        kept
    } else {
        limit
    };
    Ok(crate::wire::copy_range(data, 2, 2 + taken))
}

/// Whether `pattern` stands somewhere in `s`.
pub open spec fn occurs(s: Seq<char>, pattern: Seq<char>) -> bool {
    exists|i: int|
        0 <= i && i + pattern.len() <= s.len() && #[trigger] s.subrange(i, i + pattern.len())
            == pattern
}

/// Whether a text holds another.
pub fn contains_text(s: &str, pattern: &str) -> (r: bool)
    ensures
        r == occurs(s@, pattern@),
{
    let text = chars_of(s);
    let wanted = chars_of(pattern);
    let mut i: usize = 0;
    while i <= text.len() && wanted.len() <= text.len() - i
        invariant
            text@ == s@,
            wanted@ == pattern@,
            i <= text.len() + 1,
            forall|m: int|
                0 <= m < i && m + pattern@.len() <= s@.len() ==> #[trigger] s@.subrange(
                    m,
                    m + pattern@.len(),
                ) != pattern@,
        decreases text.len() + 1 - i,
    {
        let mut k: usize = 0;
        while k < wanted.len() && text[i + k] == wanted[k]
            invariant
                k <= wanted.len(),
                i + wanted.len() <= text.len(),
                forall|j: int| 0 <= j < k ==> text@[i + j] == wanted@[j],
            decreases wanted.len() - k,
        {
            k += 1;
        }
        let ghost here = s@.subrange(i as int, i + pattern@.len());
        if k == wanted.len() {
            assert(here =~= pattern@);
            return true;
        }
        assert(here[k as int] != pattern@[k as int]);
        i += 1;
    }
    false
}

/// Whether a GATT connect error is one that a second try may get over.
pub fn is_transient_gatt_error(text: &str) -> (r: bool)
    ensures
        r == (occurs(text@, "abort-by-local"@) || occurs(text@, "Not Ready"@)),
{
    contains_text(text, "abort-by-local") || contains_text(text, "Not Ready")
}

/// Where the service with the given identifier stands among services, or
/// characteristics, whose identifiers could be read or not.
pub fn find_uuid(uuids: &[Option<u128>], target: u128) -> (r: Option<usize>)
    ensures
        match r {
            Some(k) => {
                &&& k < uuids@.len() && uuids@[k as int] == Some(target)
                &&& forall|j: int| 0 <= j < k ==> #[trigger] uuids@[j] != Some(target)
            },
            None => forall|j: int| 0 <= j < uuids@.len() ==> #[trigger] uuids@[j] != Some(target),
        },
{
    let mut k: usize = 0;
    while k < uuids.len()
        invariant
            k <= uuids@.len(),
            forall|j: int| 0 <= j < k ==> #[trigger] uuids@[j] != Some(target),
        decreases uuids@.len() - k,
    {
        if let Some(uuid) = uuids[k] {
            if uuid == target {
                return Some(k);
            }
        }
        k += 1;
    }
    None
}

/// Whether a device is known to offer the mesh service.
pub open spec fn offers_mesh(services: Option<Vec<u128>>) -> bool {
    services is Some && services->0@.contains(FIPS_SERVICE_UUID)
}

/// Whether a device whose services could be read or not offers the mesh service.
pub fn is_mesh_device(services: &Option<Vec<u128>>) -> (r: bool)
    ensures
        r == offers_mesh(*services),
{
    if let Some(uuids) = services {
        let mut k: usize = 0;
        while k < uuids.len()
            invariant
                k <= uuids@.len(),
                *services == Some(*uuids),
                forall|j: int| 0 <= j < k ==> uuids@[j] != FIPS_SERVICE_UUID,
            decreases uuids@.len() - k,
        {
            if uuids[k] == FIPS_SERVICE_UUID {
                assert(uuids@[k as int] == FIPS_SERVICE_UUID);
                return true;
            }
            k += 1;
        }
    }
    false
}

/// Where the first device of the controller's cache stands that offers the mesh
/// service.
pub fn cached_mesh_device(devices: &Vec<Option<Vec<u128>>>) -> (r: Option<usize>)
    ensures
        match r {
            Some(k) => {
                &&& k < devices@.len() && offers_mesh(devices@[k as int])
                &&& forall|j: int| 0 <= j < k ==> !offers_mesh(#[trigger] devices@[j])
            },
            None => forall|j: int| 0 <= j < devices@.len() ==> !offers_mesh(#[trigger] devices@[j]),
        },
{
    let mut k: usize = 0;
    while k < devices.len()
        invariant
            k <= devices@.len(),
            forall|j: int| 0 <= j < k ==> !offers_mesh(#[trigger] devices@[j]),
        decreases devices@.len() - k,
    {
        if is_mesh_device(&devices[k]) {
            return Some(k);
        }
        k += 1;
    }
    None
}

/// Why no service multiplexer could be read over GATT.
#[derive(Clone, Debug)]
pub enum PsmError {
    /// The services could not be listed.
    Services(String),
    /// The service is not there.
    NoService,
    /// The characteristics could not be listed.
    Characteristics(String),
    /// The characteristic is not there.
    NoCharacteristic,
    /// The characteristic could not be read.
    Read(String),
    /// The value does not have two bytes, but this many.
    WrongLength(usize),
    /// The value is zero.
    Zero,
}

/// The message of a failure to read the service multiplexer of a device.
pub open spec fn psm_error_text(e: PsmError, addr: Seq<char>) -> Seq<char> {
    match e {
        PsmError::Services(m) => "discover_gatt_psm: failed to enumerate services for "@ + addr
            + ": "@ + m@,
        PsmError::NoService => "discover_gatt_psm: FIPS GATT PSM service not found on "@ + addr,
        PsmError::Characteristics(m) =>
            "discover_gatt_psm: failed to enumerate characteristics for "@ + addr + ": "@ + m@,
        PsmError::NoCharacteristic => "discover_gatt_psm: PSM characteristic not found on "@ + addr,
        PsmError::Read(m) => "discover_gatt_psm: failed to read PSM characteristic on "@ + addr
            + ": "@ + m@,
        PsmError::WrongLength(n) => "discover_gatt_psm: expected 2-byte PSM value, got "@
            + decimal(n as nat) + " bytes from "@ + addr,
        PsmError::Zero => "discover_gatt_psm: invalid PSM value 0 from "@ + addr,
    }
}

impl PsmError {
    /// The message, for the device at an address.
    pub fn message(&self, addr: &str) -> (r: String)
        ensures
            r@ == psm_error_text(*self, addr@),
    {
        match self {
            PsmError::Services(m) => String::from_str(
                "discover_gatt_psm: failed to enumerate services for ",
            ).concat(addr).concat(": ").concat(m.as_str()),
            PsmError::NoService => String::from_str(
                "discover_gatt_psm: FIPS GATT PSM service not found on ",
            ).concat(addr),
            PsmError::Characteristics(m) => String::from_str(
                "discover_gatt_psm: failed to enumerate characteristics for ",
            ).concat(addr).concat(": ").concat(m.as_str()),
            PsmError::NoCharacteristic => String::from_str(
                "discover_gatt_psm: PSM characteristic not found on ",
            ).concat(addr),
            PsmError::Read(m) => String::from_str(
                "discover_gatt_psm: failed to read PSM characteristic on ",
            ).concat(addr).concat(": ").concat(m.as_str()),
            PsmError::WrongLength(n) => {
                let mut s = String::from_str("discover_gatt_psm: expected 2-byte PSM value, got ");
                push_decimal(&mut s, *n as u64);
                s.append(" bytes from ");
                s.append(addr);
                s
            },
            PsmError::Zero => String::from_str(
                "discover_gatt_psm: invalid PSM value 0 from ",
            ).concat(addr),
        }
    }
}

/// The service multiplexer that two bytes spell, least significant first; zero is
/// none.
pub open spec fn psm_of(value: Seq<u8>) -> Result<u16, PsmError> {
    if value.len() != 2 {
        Err(PsmError::WrongLength(value.len() as usize))
    } else if le_value(value) == 0 {
        Err(PsmError::Zero)
    } else {
        Ok(le_value(value) as u16)
    }
}

/// Reads a service multiplexer: two bytes, least significant first, not zero.
pub fn decode_gatt_psm(value: &[u8]) -> (r: Result<u16, PsmError>)
    ensures
        r == psm_of(value@),
{
    if value.len() != 2 {
        return Err(PsmError::WrongLength(value.len()));
    }
    proof {
        reveal_with_fuel(le_value, 3);
        assert(value@.skip(1)[0] == value@[1]);
        assert(value@.skip(1).skip(1) =~= seq![]);
    }
    let psm: u16 = value[0] as u16 + 256 * (value[1] as u16);
    if psm == 0 {
        return Err(PsmError::Zero);
    }
    Ok(psm)
}

/// Whether `r` is the service multiplexer that advertised data begin with, least
/// significant byte first.
pub open spec fn advertises_psm(data: Seq<u8>, r: Option<u16>) -> bool {
    match r {
        Some(psm) => data.len() >= 2 && psm == data[0] as int + 256 * data[1] as int,
        None => data.len() < 2,
    }
}

/// The service multiplexer in an advertisement's service data: the first two
/// bytes, least significant first.
pub fn advertised_psm(data: &[u8]) -> (r: Option<u16>)
    ensures
        advertises_psm(data@, r),
{
    if data.len() >= 2 {
        Some(data[0] as u16 + 256 * (data[1] as u16))
    } else {
        None
    }
}

/// The type of our own address.
pub open spec fn own_kind(device: Seq<u8>) -> BleAddrKind {
    if device[0] % 2 == 0 {
        BleAddrKind::Public
    } else {
        BleAddrKind::Random
    }
}

/// The type that a local adapter's address has: public where the lowest bit of
/// its first byte is clear.
pub fn local_addr_kind(device: &[u8; 6]) -> (r: BleAddrKind)
    ensures
        r == own_kind(device@),
{
    if device[0] % 2 == 0 {
        BleAddrKind::Public
    } else {
        BleAddrKind::Random
    }
}

/// The controller errors that matter at start.
#[derive(Clone, Copy, Debug, PartialEq, Eq, Structural)]
pub enum StartupError {
    /// Authentication failed.
    AuthenticationFailed,
    /// The operation failed.
    Failed,
    /// Another operation is in progress.
    InProgress,
    /// The controller is not ready.
    NotReady,
    /// Anything else.
    Other,
}

/// Whether a start that failed is tried again.
pub open spec fn tries_again(attempt: usize, error: StartupError) -> bool {
    attempt < STARTUP_RETRY_ATTEMPTS && error != StartupError::Other
}

/// Whether the given try (the first is 1) to advertise or scan is followed by
/// another: only while the controller may still settle.
pub fn retries_startup(attempt: usize, error: StartupError) -> (r: bool)
    ensures
        r == tries_again(attempt, error),
{
    attempt < STARTUP_RETRY_ATTEMPTS && error != StartupError::Other
}

} // verus!
