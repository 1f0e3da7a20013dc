//! Sockets, streams and proxies.

use crate::native::seqpacket::{received, timeout_of, timeval_of, Received, TimeVal};
use crate::text::{octet, split};
use crate::transport::rfcomm::framing::frame;
use crate::transport::rfcomm::stats::{counted, RfcommStatsSnapshot};
use crate::transport::rfcomm::{first_bad_octet, parses_mac, sockaddr};
use crate::transport::TransportError;
use crate::upper::tcp_proxy::{proxy_step, ProxyAction, ProxyEvent};
use vstd::prelude::*;

verus! {

/// A call that fails gives nothing, and what it receives is told apart: bytes are a
/// datagram of so many bytes, and no bytes are one too, unless the peer is gone.
pub proof fn receiving_tells_the_end_from_nothing(n: isize, hung_up: bool)
    ensures
        n < 0 ==> received(n, hung_up) is None,
        n > 0 ==> received(n, hung_up) == Some(Received::Datagram(n as usize)),
        received(0, true) == Some(Received::Eof),
        received(0, false) == Some(Received::Datagram(0)),
{
}

/// A timeout reaches the system in whole seconds and the whole microseconds of the
/// rest; a zero timeout is refused, and none at all is what zero stands for.
pub proof fn timeouts_reach_the_system(secs: u64, nanos: u32)
    requires
        nanos < 1_000_000_000,
    ensures
        timeval_of(None) == Some(TimeVal { sec: 0, usec: 0 }),
        timeout_of(TimeVal { sec: 0, usec: 0 }) is None,
        timeval_of(Some((0, 0))) is None,
        secs > 0 || nanos > 0 ==> ({
            let v = timeval_of(Some((secs, nanos)));
            &&& v is Some
            &&& v->0.usec * 1000 <= nanos < v->0.usec * 1000 + 1000
            &&& 0 <= v->0.usec < 1_000_000
            &&& secs <= 0x7fff_ffff_ffff_ffff ==> v->0.sec == secs
            &&& secs > 0x7fff_ffff_ffff_ffff ==> v->0.sec == 0x7fff_ffff_ffff_ffff
        }),
{
}

/// What a client sends goes to the peer in full, what the peer sends goes to the
/// client while there is one, and whatever ends a client ends that client alone.
pub proof fn proxy_carries_both_ways(client: u64, new: u64, n: usize)
    ensures
        n > 0 ==> proxy_step(Some(client), ProxyEvent::Read(n)) == (
            Some(client),
            ProxyAction::Forward(n),
        ),
        proxy_step(Some(client), ProxyEvent::Inbound) == (Some(client), ProxyAction::Write),
        proxy_step(None, ProxyEvent::Inbound) == (None::<u64>, ProxyAction::Discard),
        proxy_step(Some(client), ProxyEvent::Read(0)) == (
            None::<u64>,
            ProxyAction::Detach { client: Some(client) },
        ),
        proxy_step(Some(client), ProxyEvent::ReadFailed) == (
            None::<u64>,
            ProxyAction::Detach { client: Some(client) },
        ),
        proxy_step(Some(client), ProxyEvent::WriteFailed) == (
            None::<u64>,
            ProxyAction::Detach { client: Some(client) },
        ),
        proxy_step(Some(client), ProxyEvent::Accepted(new)) == (
            Some(new),
            ProxyAction::Attach { replaced: Some(client) },
        ),
        proxy_step(None, ProxyEvent::Accepted(new)) == (
            Some(new),
            ProxyAction::Attach { replaced: None },
        ),
        proxy_step(Some(client), ProxyEvent::AcceptFailed) == (Some(client), ProxyAction::Wait),
        proxy_step(Some(client), ProxyEvent::InboundClosed).1 == ProxyAction::Stop,
        proxy_step(Some(client), ProxyEvent::OutboundClosed).1 == ProxyAction::Stop,
        proxy_step(None, ProxyEvent::InboundClosed).1 == ProxyAction::Stop,
        proxy_step(None, ProxyEvent::OutboundClosed).1 == ProxyAction::Stop,
{
}

/// A counter counts up by what is added, and starts over behind its largest value.
pub proof fn counters_count(counter: u64, by: int)
    requires
        0 <= by <= u64::MAX,
    ensures
        counter + by <= u64::MAX ==> counted(counter, by) == counter + by,
        counter + by > u64::MAX ==> counted(counter, by) == counter + by - 0x1_0000_0000_0000_0000,
        counted(counter, 0) == counter,
{
}

/// A socket address holds family 31, the device from its least significant byte on,
/// and the channel.
pub proof fn socket_address_holds_device_and_channel(mac_le: Seq<u8>, channel: u8, i: int)
    requires
        mac_le.len() == 6,
        0 <= i < 6,
    ensures
        sockaddr(mac_le, channel).len() == 10,
        sockaddr(mac_le, channel)[0] == 31,
        sockaddr(mac_le, channel)[1] == 0,
        sockaddr(mac_le, channel)[i + 2] == mac_le[i],
        sockaddr(mac_le, channel)[8] == channel,
        sockaddr(mac_le, channel)[9] == 0,
{
}

/// A device address is read exactly if it has six parts that are bytes; the part
/// that is written first is the byte that comes last.
pub proof fn device_address_is_read_backwards(
    s: Seq<char>,
    r: Result<[u8; 6], TransportError>,
    i: int,
)
    requires
        parses_mac(s, r),
        0 <= i < 6,
    ensures
        r is Ok <==> split(s, ':').len() == 6 && forall|k: int|
            0 <= k < 6 ==> (#[trigger] octet(split(s, ':')[k])) is Ok,
        r is Ok ==> octet(split(s, ':')[i])->Ok_0 == r->Ok_0@[5 - i],
        r is Err ==> r->Err_0 is InvalidAddress,
{
    let parts = split(s, ':');
    match r {
        Ok(mac) => {
            assert(mac@.reverse()[i] == mac@[5 - i]);
            let all = Seq::new(6, |k: int| octet(parts[k])->Ok_0);
            assert(all == mac@.reverse());
            assert(all[i] == octet(parts[i])->Ok_0);
        },
        Err(TransportError::InvalidAddress(m)) => {
            if parts.len() == 6 {
                let k = choose|k: int|
                    #[trigger] first_bad_octet(parts, k) && m@ == "invalid MAC octet '"@ + parts[k]
                        + "': "@ + octet(parts[k])->Err_0.spec_reason();
                assert(octet(parts[k]) is Err);
            }
        },
        Err(_) => {},
    }
}

/// A frame on a stream is its length in two bytes, the upper one first, and its
/// payload, so that two frames behind one another can be told apart.
pub proof fn frames_can_be_told_apart(a: Seq<u8>, b: Seq<u8>)
    requires
        a.len() <= 2048,
        b.len() <= 2048,
    ensures
        ({
            let s = frame(a) + frame(b);
            let n = s[0] as int * 256 + s[1] as int;
            let m = s[n + 2] as int * 256 + s[n + 3] as int;
            &&& n == a.len() && m == b.len()
            &&& s.subrange(2, n + 2) == a
            &&& s.subrange(n + 4, n + m + 4) == b
            &&& s.len() == n + m + 4
        }),
{
    crate::wire::be_bytes_of_two(a.len() as u16);
    crate::wire::be_bytes_of_two(b.len() as u16);
    let s = frame(a) + frame(b);
    let n = a.len() as int;
    let m = b.len() as int;
    assert(s[0] == frame(a)[0] && s[1] == frame(a)[1]);
    assert(s[n + 2] == frame(b)[0] && s[n + 3] == frame(b)[1]);
    assert(s.subrange(2, n + 2) =~= a);
    assert(s.subrange(n + 4, n + m + 4) =~= b);
}

/// Counters start at zero, all of them.
pub proof fn counters_start_at_zero()
    ensures
        RfcommStatsSnapshot::zero().connections_established == 0,
        RfcommStatsSnapshot::zero().connections_accepted == 0,
        RfcommStatsSnapshot::zero().connections_closed == 0,
        RfcommStatsSnapshot::zero().bytes_sent == 0,
        RfcommStatsSnapshot::zero().bytes_recv == 0,
        RfcommStatsSnapshot::zero().send_errors == 0,
        RfcommStatsSnapshot::zero().recv_errors == 0,
        RfcommStatsSnapshot::zero().framing_errors == 0,
{
}

} // verus!
