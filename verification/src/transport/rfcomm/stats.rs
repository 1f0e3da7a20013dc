//! RFCOMM transport statistics.

use vstd::prelude::*;

verus! {

/// Counters of a transport.
#[derive(Clone, Copy, Debug, PartialEq, Eq, Structural)]
pub struct RfcommStatsSnapshot {
    /// Connections we made.
    pub connections_established: u64,
    /// Connections we took.
    pub connections_accepted: u64,
    /// Connections that ended.
    pub connections_closed: u64,
    /// Bytes sent.
    pub bytes_sent: u64,
    /// Bytes received.
    pub bytes_recv: u64,
    /// Errors on sending.
    pub send_errors: u64,
    /// Errors on receiving.
    pub recv_errors: u64,
    /// Frames that made no sense.
    pub framing_errors: u64,
}

impl RfcommStatsSnapshot {
    /// All counters at zero.
    pub open spec fn zero() -> RfcommStatsSnapshot {
        RfcommStatsSnapshot {
            connections_established: 0,
            connections_accepted: 0,
            connections_closed: 0,
            bytes_sent: 0,
            bytes_recv: 0,
            send_errors: 0,
            recv_errors: 0,
            framing_errors: 0,
        }
    }
}

impl Default for RfcommStatsSnapshot {
    /// All counters at zero.
    fn default() -> (r: RfcommStatsSnapshot)
        ensures
            r == RfcommStatsSnapshot::zero(),
    {
        RfcommStatsSnapshot {
            connections_established: 0,
            connections_accepted: 0,
            connections_closed: 0,
            bytes_sent: 0,
            bytes_recv: 0,
            send_errors: 0,
            recv_errors: 0,
            framing_errors: 0,
        }
    }
}

/// A counter after an addition; counters wrap around.
pub open spec fn counted(counter: u64, by: int) -> u64 {
    ((counter + by) % 0x1_0000_0000_0000_0000) as u64
}

/// Running counters of a transport.
pub struct RfcommStats {
    counters: RfcommStatsSnapshot,
}

impl View for RfcommStats {
    type V = RfcommStatsSnapshot;

    closed spec fn view(&self) -> RfcommStatsSnapshot {
        self.counters
    }
}

impl RfcommStats {
    /// All counters at zero.
    pub fn new() -> (r: RfcommStats)
        ensures
            r@ == RfcommStatsSnapshot::zero(),
    {
        RfcommStats { counters: RfcommStatsSnapshot::default() }
    }

    /// Counts a connection we made.
    pub fn record_connection_established(&mut self)
        ensures
            final(self)@ == (RfcommStatsSnapshot {
                connections_established: counted(old(self)@.connections_established, 1),
                ..old(self)@
            }),
    {
        self.counters.connections_established = self.counters.connections_established.wrapping_add(
            1,
        );
    }

    /// Counts a connection we took.
    pub fn record_connection_accepted(&mut self)
        ensures
            final(self)@ == (RfcommStatsSnapshot {
                connections_accepted: counted(old(self)@.connections_accepted, 1),
                ..old(self)@
            }),
    {
        self.counters.connections_accepted = self.counters.connections_accepted.wrapping_add(1);
    }

    /// Counts a connection that ended.
    pub fn record_connection_closed(&mut self)
        ensures
            final(self)@ == (RfcommStatsSnapshot {
                connections_closed: counted(old(self)@.connections_closed, 1),
                ..old(self)@
            }),
    {
        self.counters.connections_closed = self.counters.connections_closed.wrapping_add(1);
    }

    /// Counts bytes sent.
    pub fn record_send(&mut self, bytes: usize)
        ensures
            final(self)@ == (RfcommStatsSnapshot {
                bytes_sent: counted(old(self)@.bytes_sent, bytes as int),
                ..old(self)@
            }),
    {
        self.counters.bytes_sent = self.counters.bytes_sent.wrapping_add(bytes as u64);
    }

    /// Counts bytes received.
    pub fn record_recv(&mut self, bytes: usize)
        ensures
            final(self)@ == (RfcommStatsSnapshot {
                bytes_recv: counted(old(self)@.bytes_recv, bytes as int),
                ..old(self)@
            }),
    {
        self.counters.bytes_recv = self.counters.bytes_recv.wrapping_add(bytes as u64);
    }

    /// Counts an error on sending.
    pub fn record_send_error(&mut self)
        ensures
            final(self)@ == (RfcommStatsSnapshot {
                send_errors: counted(old(self)@.send_errors, 1),
                ..old(self)@
            }),
    {
        self.counters.send_errors = self.counters.send_errors.wrapping_add(1);
    }

    /// Counts an error on receiving.
    pub fn record_recv_error(&mut self)
        ensures
            final(self)@ == (RfcommStatsSnapshot {
                recv_errors: counted(old(self)@.recv_errors, 1),
                ..old(self)@
            }),
    {
        self.counters.recv_errors = self.counters.recv_errors.wrapping_add(1);
    }

    /// Counts a frame that made no sense.
    pub fn record_framing_error(&mut self)
        ensures
            final(self)@ == (RfcommStatsSnapshot {
                framing_errors: counted(old(self)@.framing_errors, 1),
                ..old(self)@
            }),
    {
        self.counters.framing_errors = self.counters.framing_errors.wrapping_add(1);
    }

    /// The counters as they are.
    pub fn snapshot(&self) -> (r: RfcommStatsSnapshot)
        ensures
            r == self@,
    {
        self.counters
    }
}

impl Default for RfcommStats {
    /// All counters at zero.
    fn default() -> (r: RfcommStats)
        ensures
            r@ == RfcommStatsSnapshot::zero(),
    {
        RfcommStats::new()
    }
}

} // verus!
