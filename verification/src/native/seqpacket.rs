//! What system calls on a pair of sequenced packet sockets mean.

use vstd::prelude::*;

verus! {

/// What one receive attempt produced.
#[derive(Clone, Copy, Debug, PartialEq, Eq, Structural)]
pub enum Received {
    /// A datagram of this many bytes, which may be none.
    Datagram(usize),
    /// The peer closed its half of the pair.
    Eof,
}

/// What a receive call returned means: a negative number is an error, and no
/// bytes are the end only where the peer has hung up.
pub open spec fn received(n: isize, hung_up: bool) -> Option<Received> {
    if n < 0 {
        None
    } else if n == 0 && hung_up {
        Some(Received::Eof)
    } else {
        Some(Received::Datagram(n as usize))
    }
}

/// Tells an empty datagram from the end of the stream; an error yields nothing.
pub fn classify_recv(n: isize, hung_up: bool) -> (r: Option<Received>)
    ensures
        r == received(n, hung_up),
{
    if n < 0 {
        return None;
    }
    if n == 0 && hung_up {
        return Some(Received::Eof);
    }
    Some(Received::Datagram(n as usize))
}

/// An empty datagram does not end a flow: only a peer that hung up does.
pub proof fn empty_datagram_is_no_end(n: isize)
    ensures
        received(n, false) != Some(Received::Eof),
        n > 0 ==> received(n, true) == Some(Received::Datagram(n as usize)),
        received(0, true) == Some(Received::Eof),
{
}

/// Whether a poll result says that the peer hung up: the call found something,
/// and the hang-up bit is among the events.
pub fn peer_hung_up(rc: i32, revents: u16, pollhup: u16) -> (r: bool)
    ensures
        r == (rc > 0 && revents & pollhup != 0),
{
    rc > 0 && (revents & pollhup) != 0
}

/// The size of a send buffer as the system takes it, if it fits.
pub fn sndbuf_size(bytes: usize) -> (r: Option<i32>)
    ensures
        r == if bytes <= i32::MAX {
            Some(bytes as i32)
        } else {
            None
        },
{
    if bytes as u64 <= 0x7fff_ffff {
        Some(bytes as i32)
    } else {
        None
    }
}

/// A socket timeout as the system takes it.
#[derive(Clone, Copy, Debug, PartialEq, Eq, Structural)]
pub struct TimeVal {
    /// Seconds.
    pub sec: i64,
    /// Microseconds.
    pub usec: i64,
}

/// The system's form of a timeout given in seconds and nanoseconds: no timeout
/// is zero, a zero timeout is refused, one that is too long becomes the longest,
/// and what is below a microsecond is cut off.
pub open spec fn timeval_of(timeout: Option<(u64, u32)>) -> Option<TimeVal> {
    match timeout {
        None => Some(TimeVal { sec: 0, usec: 0 }),
        Some((secs, nanos)) => if secs == 0 && nanos == 0 {
            None
        } else {
            Some(
                TimeVal {
                    sec: if secs > i64::MAX {
                        i64::MAX
                    } else {
                        secs as i64
                    },
                    usec: (nanos / 1000) as i64,
                },
            )
        },
    }
}

/// Converts a timeout for the system.
pub fn encode_timeout(timeout: Option<(u64, u32)>) -> (r: Option<TimeVal>)
    ensures
        r == timeval_of(timeout),
{
    match timeout {
        None => Some(TimeVal { sec: 0, usec: 0 }),
        Some((secs, nanos)) => {
            if secs == 0 && nanos == 0 {
                return None;
            }
            let sec: i64 = if secs > 0x7fff_ffff_ffff_ffff {
                0x7fff_ffff_ffff_ffff
            } else {
                secs as i64
            };
            Some(TimeVal { sec, usec: (nanos / 1000) as i64 })
        },
    }
}

/// The timeout that a value of the system stands for, in seconds and
/// microseconds; zero is no timeout.
pub open spec fn timeout_of(value: TimeVal) -> Option<(u64, u64)> {
    if value.sec == 0 && value.usec == 0 {
        None
    } else {
        Some((value.sec as u64, value.usec as u64))
    }
}

/// Converts a timeout that the system reports.
pub fn decode_timeout(value: TimeVal) -> (r: Option<(u64, u64)>)
    requires
        value.sec >= 0,
        value.usec >= 0,
    ensures
        r == timeout_of(value),
{
    if value.sec == 0 && value.usec == 0 {
        return None;
    }
    Some((value.sec as u64, value.usec as u64))
}

/// A request for a timeout of a microsecond or more never turns into none.
pub proof fn timeout_is_not_dropped(secs: u64, nanos: u32)
    requires
        secs > 0 || nanos >= 1000,
    ensures
        timeval_of(Some((secs, nanos))) matches Some(v) && timeout_of(v) is Some,
{
}

/// A timeout of whole microseconds that was set is the one read back.
pub proof fn timeout_round_trip(secs: u64, micros: u32)
    requires
        secs <= i64::MAX,
        micros < 1_000_000,
        secs > 0 || micros > 0,
    ensures
        timeval_of(Some((secs, (micros * 1000) as u32))) matches Some(v) && timeout_of(v) == Some(
            (secs, micros as u64),
        ),
{
}

/// The flags of a descriptor with its non-blocking bit set or cleared, and every
/// other as it was.
pub fn nonblocking_flags(flags: u32, nonblock: u32, on: bool) -> (r: u32)
    ensures
        r == if on {
            flags | nonblock
        } else {
            flags & !nonblock
        },
        r & !nonblock == flags & !nonblock,
        r & nonblock == if on {
            nonblock
        } else {
            0
        },
{
    assert((flags | nonblock) & !nonblock == flags & !nonblock) by (bit_vector);
    assert((flags & !nonblock) & !nonblock == flags & !nonblock) by (bit_vector);
    assert((flags | nonblock) & nonblock == nonblock) by (bit_vector);
    assert((flags & !nonblock) & nonblock == 0) by (bit_vector);
    if on {
        flags | nonblock
    } else {
        flags & !nonblock
    }
}

} // verus!
