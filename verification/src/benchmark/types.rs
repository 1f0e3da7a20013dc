//! Wire types of the benchmark protocol. All integers are little-endian.

use crate::wire::{
    bounds, get_le, le_bytes, le_bytes_len, le_decode_encode, le_value, put_bytes, put_le,
};
use std::time::UNIX_EPOCH;
use vstd::prelude::*;

verus! {

/// Round-trip latency probe.
pub const MSG_ECHO_REQUEST: u8 = 0xFF;

/// Reply to an echo request.
pub const MSG_ECHO_RESPONSE: u8 = 0xFE;

/// Start of a throughput measurement.
pub const MSG_THROUGHPUT_REQUEST: u8 = 0xFD;

/// Data frame of a throughput measurement.
pub const MSG_THROUGHPUT_STREAM: u8 = 0xFC;

/// Summary of a throughput measurement.
pub const MSG_THROUGHPUT_REPORT: u8 = 0xFB;

/// Shortest echo request body.
pub const ECHO_REQUEST_MIN_SIZE: usize = 12;

/// Shortest echo response body.
pub const ECHO_RESPONSE_MIN_SIZE: usize = 20;

/// Longest echo payload that fits a prepared buffer.
pub const ECHO_MAX_PAYLOAD: usize = 256;

/// Length of a throughput request body.
pub const THROUGHPUT_REQUEST_SIZE: usize = 12;

/// Shortest throughput stream body.
pub const THROUGHPUT_STREAM_MIN_SIZE: usize = 8;

/// Length of a throughput report body.
pub const THROUGHPUT_REPORT_SIZE: usize = 36;

/// The client sends.
pub const DIRECTION_UPLOAD: u8 = 0;

/// The peer sends.
pub const DIRECTION_DOWNLOAD: u8 = 1;

/// `std::time::SystemTime::elapsed` on the epoch, in microseconds: nothing is
/// claimed of the reading, and there is none before the epoch.
#[verifier::external_body]
fn wall_clock_us() -> Option<u128> {
    UNIX_EPOCH.elapsed().ok().map(|d| d.as_micros())
}

/// A reading of the wall clock as a timestamp: its low 64 bits, and zero before
/// the epoch.
pub fn timestamp(reading: Option<u128>) -> (r: u64)
    ensures
        r == match reading {
            Some(us) => us as int % 0x1_0000_0000_0000_0000,
            None => 0,
        },
{
    match reading {
        Some(us) => (us % 0x1_0000_0000_0000_0000) as u64,
        None => 0,
    }
}

/// Microseconds since the epoch; zero before it.
pub fn now_micros() -> u64 {
    timestamp(wall_clock_us())
}

/// Writes bytes into a buffer from `at` on.
fn write_at(out: &mut [u8], at: usize, bytes: &[u8])
    requires
        at + bytes@.len() <= old(out)@.len(),
    ensures
        final(out)@.len() == old(out)@.len(),
        final(out)@ == old(out)@.take(at as int) + bytes@ + old(out)@.skip(at + bytes@.len()),
{
    let mut k: usize = 0;
    while k < bytes.len()
        invariant
            k <= bytes.len(),
            at + bytes.len() <= out.len(),
            out@.len() == old(out)@.len(),
            forall|j: int| 0 <= j < k ==> out@[at + j] == bytes@[j],
            forall|j: int|
                0 <= j < out@.len() && !(at <= j < at + k) ==> out@[j] == old(out)@[j],
        decreases bytes.len() - k,
    {
        out[at + k] = bytes[k];
        k += 1;
    }
    assert(out@ =~= old(out)@.take(at as int) + bytes@ + old(out)@.skip(at + bytes@.len()));
}

/// Echo request: when it was sent, a sequence number, a payload.
#[derive(Clone, Debug)]
pub struct EchoRequest {
    /// Microseconds since the epoch when the request was sent.
    pub ts_us: u64,
    /// Sequence number.
    pub seq: u32,
    /// Payload.
    pub payload: Vec<u8>,
}

impl EchoRequest {
    /// The request on the wire.
    pub open spec fn wire(self) -> Seq<u8> {
        le_bytes(self.ts_us as nat, 8) + le_bytes(self.seq as nat, 4) + self.payload@
    }

    /// Whether `r` is what a body decodes to.
    pub open spec fn decodes(body: Seq<u8>, r: Option<EchoRequest>) -> bool {
        match r {
            Some(req) => {
                &&& body.len() >= 12
                &&& req.ts_us == le_value(body.subrange(0, 8))
                &&& req.seq == le_value(body.subrange(8, 12))
                &&& req.payload@ == body.skip(12)
            },
            None => body.len() < 12,
        }
    }

    /// A request that is sent now.
    pub fn new(seq: u32, payload: Vec<u8>) -> (r: EchoRequest)
        ensures
            r.seq == seq,
            r.payload@ == payload@,
    {
        EchoRequest { ts_us: now_micros(), seq, payload }
    }

    /// Encodes the request.
    pub fn encode(&self) -> (r: Vec<u8>)
        ensures
            r@ == self.wire(),
    {
        let mut buf: Vec<u8> = Vec::new();
        put_le(&mut buf, self.ts_us, 8);
        put_le(&mut buf, self.seq as u64, 4);
        put_bytes(&mut buf, self.payload.as_slice());
        assert(buf@ =~= self.wire());
        buf
    }

    /// Decodes a body; one that is too short yields nothing.
    pub fn decode(body: &[u8]) -> (r: Option<EchoRequest>)
        ensures
            EchoRequest::decodes(body@, r),
    {
        if body.len() < ECHO_REQUEST_MIN_SIZE {
            return None;
        }
        proof {
            bounds();
        }
        let ts_us = get_le(body, 0, 8);
        let seq = get_le(body, 8, 4) as u32;
        let payload = crate::wire::copy_range(body, 12, body.len());
        assert(payload@ =~= body@.skip(12));
        Some(EchoRequest { ts_us, seq, payload })
    }
}

/// Decoding an encoded echo request gives it back.
pub proof fn echo_request_round_trip(req: EchoRequest, r: Option<EchoRequest>)
    requires
        EchoRequest::decodes(req.wire(), r),
    ensures
        r is Some,
        r->0.ts_us == req.ts_us,
        r->0.seq == req.seq,
        r->0.payload@ == req.payload@,
{
    bounds();
    le_decode_encode(req.ts_us as nat, 8);
    le_decode_encode(req.seq as nat, 4);
    assert(req.wire().subrange(0, 8) =~= le_bytes(req.ts_us as nat, 8));
    assert(req.wire().subrange(8, 12) =~= le_bytes(req.seq as nat, 4));
    assert(req.wire().skip(12) =~= req.payload@);
}

/// Echo response: the request's timestamp, when it was received, its sequence
/// number and its payload.
#[derive(Clone, Debug)]
pub struct EchoResponse {
    /// When the request was sent, from the request.
    pub send_ts: u64,
    /// When the peer received it.
    pub recv_ts: u64,
    /// Sequence number, from the request.
    pub seq: u32,
    /// Payload, from the request.
    pub payload: Vec<u8>,
}

impl EchoResponse {
    /// The response on the wire.
    pub open spec fn wire(self) -> Seq<u8> {
        le_bytes(self.send_ts as nat, 8) + le_bytes(self.recv_ts as nat, 8) + le_bytes(
            self.seq as nat,
            4,
        ) + self.payload@
    }

    /// Whether `r` is what a body decodes to.
    pub open spec fn decodes(body: Seq<u8>, r: Option<EchoResponse>) -> bool {
        match r {
            Some(resp) => {
                &&& body.len() >= 20
                &&& resp.send_ts == le_value(body.subrange(0, 8))
                &&& resp.recv_ts == le_value(body.subrange(8, 16))
                &&& resp.seq == le_value(body.subrange(16, 20))
                &&& resp.payload@ == body.skip(20)
            },
            None => body.len() < 20,
        }
    }

    /// The response to a request received at `recv_ts`.
    pub fn from_request(req: &EchoRequest, recv_ts: u64) -> (r: EchoResponse)
        ensures
            r.send_ts == req.ts_us,
            r.recv_ts == recv_ts,
            r.seq == req.seq,
            r.payload@ == req.payload@,
    {
        let payload = crate::wire::copy_range(req.payload.as_slice(), 0, req.payload.len());
        assert(payload@ =~= req.payload@);
        EchoResponse { send_ts: req.ts_us, recv_ts, seq: req.seq, payload }
    }

    /// Encodes the response.
    pub fn encode(&self) -> (r: Vec<u8>)
        ensures
            r@ == self.wire(),
    {
        let mut buf: Vec<u8> = Vec::new();
        put_le(&mut buf, self.send_ts, 8);
        put_le(&mut buf, self.recv_ts, 8);
        put_le(&mut buf, self.seq as u64, 4);
        put_bytes(&mut buf, self.payload.as_slice());
        assert(buf@ =~= self.wire());
        buf
    }

    /// Encodes the response into a buffer. Returns the number of bytes written;
    /// nothing is written where the buffer is too short or the payload too long.
    pub fn encode_into(&self, out: &mut [u8]) -> (r: Option<usize>)
        ensures
            if self.payload@.len() <= ECHO_MAX_PAYLOAD && 20 + self.payload@.len() <= old(
                out,
            )@.len() {
                r == Some((20 + self.payload@.len()) as usize) && final(out)@ == self.wire() + old(
                    out,
                )@.skip(20 + self.payload@.len() as int)
            } else {
                r is None && final(out)@ == old(out)@
            },
    {
        if self.payload.len() > ECHO_MAX_PAYLOAD {
            return None;
        }
        let needed: usize = ECHO_RESPONSE_MIN_SIZE + self.payload.len();
        if out.len() < needed {
            return None;
        }
        let encoded = self.encode();
        proof {
            le_bytes_len(self.send_ts as nat, 8);
            le_bytes_len(self.recv_ts as nat, 8);
            le_bytes_len(self.seq as nat, 4);
        }
        write_at(out, 0, encoded.as_slice());
        assert(out@ =~= self.wire() + old(out)@.skip(20 + self.payload@.len() as int));
        Some(needed)
    }

    /// Decodes a body; one that is too short yields nothing.
    pub fn decode(body: &[u8]) -> (r: Option<EchoResponse>)
        ensures
            EchoResponse::decodes(body@, r),
    {
        if body.len() < ECHO_RESPONSE_MIN_SIZE {
            return None;
        }
        proof {
            bounds();
        }
        let send_ts = get_le(body, 0, 8);
        let recv_ts = get_le(body, 8, 8);
        let seq = get_le(body, 16, 4) as u32;
        let payload = crate::wire::copy_range(body, 20, body.len());
        assert(payload@ =~= body@.skip(20));
        Some(EchoResponse { send_ts, recv_ts, seq, payload })
    }
}

/// Decoding an encoded echo response gives it back.
pub proof fn echo_response_round_trip(resp: EchoResponse, r: Option<EchoResponse>)
    requires
        EchoResponse::decodes(resp.wire(), r),
    ensures
        r is Some,
        r->0.send_ts == resp.send_ts,
        r->0.recv_ts == resp.recv_ts,
        r->0.seq == resp.seq,
        r->0.payload@ == resp.payload@,
{
    bounds();
    le_decode_encode(resp.send_ts as nat, 8);
    le_decode_encode(resp.recv_ts as nat, 8);
    le_decode_encode(resp.seq as nat, 4);
    assert(resp.wire().subrange(0, 8) =~= le_bytes(resp.send_ts as nat, 8));
    assert(resp.wire().subrange(8, 16) =~= le_bytes(resp.recv_ts as nat, 8));
    assert(resp.wire().subrange(16, 20) =~= le_bytes(resp.seq as nat, 4));
    assert(resp.wire().skip(20) =~= resp.payload@);
}

/// Throughput request: start of a measurement.
#[derive(Clone, Copy, Debug)]
pub struct ThroughputRequest {
    /// Identifier of the test.
    pub test_id: u32,
    /// Direction: 0 = upload, 1 = download.
    pub direction: u8,
    /// Duration in seconds.
    pub duration_secs: u8,
    /// Frame size in bytes.
    pub frame_size: u16,
    /// Target rate in bits per second.
    pub rate_bps: u32,
}

impl ThroughputRequest {
    /// The request on the wire.
    pub open spec fn wire(self) -> Seq<u8> {
        le_bytes(self.test_id as nat, 4) + seq![self.direction, self.duration_secs] + le_bytes(
            self.frame_size as nat,
            2,
        ) + le_bytes(self.rate_bps as nat, 4)
    }

    /// Whether `r` is what a body decodes to.
    pub open spec fn decodes(body: Seq<u8>, r: Option<ThroughputRequest>) -> bool {
        match r {
            Some(req) => {
                &&& body.len() >= 12
                &&& req.test_id == le_value(body.subrange(0, 4))
                &&& req.direction == body[4]
                &&& req.duration_secs == body[5]
                &&& req.frame_size == le_value(body.subrange(6, 8))
                &&& req.rate_bps == le_value(body.subrange(8, 12))
            },
            None => body.len() < 12,
        }
    }

    /// Encodes the request.
    pub fn encode(&self) -> (r: Vec<u8>)
        ensures
            r@ == self.wire(),
    {
        let mut buf: Vec<u8> = Vec::new();
        put_le(&mut buf, self.test_id as u64, 4);
        buf.push(self.direction);
        buf.push(self.duration_secs);
        put_le(&mut buf, self.frame_size as u64, 2);
        put_le(&mut buf, self.rate_bps as u64, 4);
        assert(buf@ =~= self.wire());
        buf
    }

    /// Decodes a body; one that is too short yields nothing.
    pub fn decode(body: &[u8]) -> (r: Option<ThroughputRequest>)
        ensures
            ThroughputRequest::decodes(body@, r),
    {
        if body.len() < THROUGHPUT_REQUEST_SIZE {
            return None;
        }
        proof {
            bounds();
        }
        let test_id = get_le(body, 0, 4) as u32;
        let direction = body[4];
        let duration_secs = body[5];
        let frame_size = get_le(body, 6, 2) as u16;
        let rate_bps = get_le(body, 8, 4) as u32;
        Some(ThroughputRequest { test_id, direction, duration_secs, frame_size, rate_bps })
    }
}

/// Decoding an encoded throughput request gives it back.
pub proof fn throughput_request_round_trip(req: ThroughputRequest, r: Option<ThroughputRequest>)
    requires
        ThroughputRequest::decodes(req.wire(), r),
    ensures
        r == Some(req),
        req.wire().len() == THROUGHPUT_REQUEST_SIZE,
{
    bounds();
    le_decode_encode(req.test_id as nat, 4);
    le_decode_encode(req.frame_size as nat, 2);
    le_decode_encode(req.rate_bps as nat, 4);
    assert(req.wire().subrange(0, 4) =~= le_bytes(req.test_id as nat, 4));
    assert(req.wire().subrange(6, 8) =~= le_bytes(req.frame_size as nat, 2));
    assert(req.wire().subrange(8, 12) =~= le_bytes(req.rate_bps as nat, 4));
}

/// Throughput stream: a data frame of a measurement.
#[derive(Clone, Debug)]
pub struct ThroughputStream {
    /// Identifier of the test.
    pub test_id: u32,
    /// Sequence number.
    pub seq: u32,
    /// Data.
    pub data: Vec<u8>,
}

impl ThroughputStream {
    /// The frame on the wire.
    pub open spec fn wire_of(test_id: u32, seq: u32, data: Seq<u8>) -> Seq<u8> {
        le_bytes(test_id as nat, 4) + le_bytes(seq as nat, 4) + data
    }

    /// Whether `r` is what a body decodes to.
    pub open spec fn decodes(body: Seq<u8>, r: Option<(u32, u32, &[u8])>) -> bool {
        match r {
            Some((test_id, seq, data)) => {
                &&& body.len() >= 8
                &&& test_id == le_value(body.subrange(0, 4))
                &&& seq == le_value(body.subrange(4, 8))
                &&& data@ == body.skip(8)
            },
            None => body.len() < 8,
        }
    }

    /// Encodes the frame.
    pub fn encode(&self) -> (r: Vec<u8>)
        ensures
            r@ == ThroughputStream::wire_of(self.test_id, self.seq, self.data@),
    {
        let mut buf: Vec<u8> = Vec::new();
        put_le(&mut buf, self.test_id as u64, 4);
        put_le(&mut buf, self.seq as u64, 4);
        put_bytes(&mut buf, self.data.as_slice());
        assert(buf@ =~= ThroughputStream::wire_of(self.test_id, self.seq, self.data@));
        buf
    }

    /// Decodes a body to test, sequence number and data; one that is too short
    /// yields nothing.
    pub fn decode(body: &[u8]) -> (r: Option<(u32, u32, &[u8])>)
        ensures
            ThroughputStream::decodes(body@, r),
    {
        if body.len() < THROUGHPUT_STREAM_MIN_SIZE {
            return None;
        }
        proof {
            bounds();
        }
        let test_id = get_le(body, 0, 4) as u32;
        let seq = get_le(body, 4, 4) as u32;
        let data = vstd::slice::slice_subrange(body, 8, body.len());
        assert(data@ =~= body@.skip(8));
        Some((test_id, seq, data))
    }
}

/// Decoding an encoded stream frame gives its parts back.
pub proof fn throughput_stream_round_trip(
    test_id: u32,
    seq: u32,
    data: Seq<u8>,
    r: Option<(u32, u32, &[u8])>,
)
    requires
        ThroughputStream::decodes(ThroughputStream::wire_of(test_id, seq, data), r),
    ensures
        r matches Some((t, n, d)) && t == test_id && n == seq && d@ == data,
{
    let w = ThroughputStream::wire_of(test_id, seq, data);
    bounds();
    le_decode_encode(test_id as nat, 4);
    le_decode_encode(seq as nat, 4);
    assert(w.subrange(0, 4) =~= le_bytes(test_id as nat, 4));
    assert(w.subrange(4, 8) =~= le_bytes(seq as nat, 4));
    assert(w.skip(8) =~= data);
}

/// Throughput report: summary of a measurement.
#[derive(Clone, Copy, Debug)]
pub struct ThroughputReport {
    /// Identifier of the test.
    pub test_id: u32,
    /// Frames sent by the sender.
    pub frames_sent: u32,
    /// Frames received by the receiver.
    pub frames_recv: u32,
    /// Bytes received.
    pub bytes_recv: u64,
    /// Duration in microseconds.
    pub duration_us: u64,
    /// Throughput in bits per second.
    pub achieved_bps: u64,
}

impl ThroughputReport {
    /// The report on the wire.
    pub open spec fn wire(self) -> Seq<u8> {
        le_bytes(self.test_id as nat, 4) + le_bytes(self.frames_sent as nat, 4) + le_bytes(
            self.frames_recv as nat,
            4,
        ) + le_bytes(self.bytes_recv as nat, 8) + le_bytes(self.duration_us as nat, 8) + le_bytes(
            self.achieved_bps as nat,
            8,
        )
    }

    /// Whether `r` is what a body decodes to.
    pub open spec fn decodes(body: Seq<u8>, r: Option<ThroughputReport>) -> bool {
        match r {
            Some(rep) => {
                &&& body.len() >= 36
                &&& rep.test_id == le_value(body.subrange(0, 4))
                &&& rep.frames_sent == le_value(body.subrange(4, 8))
                &&& rep.frames_recv == le_value(body.subrange(8, 12))
                &&& rep.bytes_recv == le_value(body.subrange(12, 20))
                &&& rep.duration_us == le_value(body.subrange(20, 28))
                &&& rep.achieved_bps == le_value(body.subrange(28, 36))
            },
            None => body.len() < 36,
        }
    }

    /// The length of a report on the wire.
    pub proof fn wire_len(self)
        ensures
            self.wire().len() == THROUGHPUT_REPORT_SIZE,
    {
        le_bytes_len(self.test_id as nat, 4);
        le_bytes_len(self.frames_sent as nat, 4);
        le_bytes_len(self.frames_recv as nat, 4);
        le_bytes_len(self.bytes_recv as nat, 8);
        le_bytes_len(self.duration_us as nat, 8);
        le_bytes_len(self.achieved_bps as nat, 8);
    }

    /// Encodes the report.
    pub fn encode(&self) -> (r: Vec<u8>)
        ensures
            r@ == self.wire(),
            r@.len() == THROUGHPUT_REPORT_SIZE,
    {
        let mut buf: Vec<u8> = Vec::new();
        put_le(&mut buf, self.test_id as u64, 4);
        put_le(&mut buf, self.frames_sent as u64, 4);
        put_le(&mut buf, self.frames_recv as u64, 4);
        put_le(&mut buf, self.bytes_recv, 8);
        put_le(&mut buf, self.duration_us, 8);
        put_le(&mut buf, self.achieved_bps, 8);
        assert(buf@ =~= self.wire());
        proof {
            self.wire_len();
        }
        buf
    }

    /// Encodes the report into a buffer. Returns the number of bytes written;
    /// nothing is written where the buffer is too short.
    pub fn encode_into(&self, out: &mut [u8]) -> (r: Option<usize>)
        ensures
            if old(out)@.len() >= THROUGHPUT_REPORT_SIZE {
                r == Some(THROUGHPUT_REPORT_SIZE) && final(out)@ == self.wire() + old(out)@.skip(
                    36,
                )
            } else {
                r is None && final(out)@ == old(out)@
            },
    {
        if out.len() < THROUGHPUT_REPORT_SIZE {
            return None;
        }
        let encoded = self.encode();
        write_at(out, 0, encoded.as_slice());
        assert(out@ =~= self.wire() + old(out)@.skip(36));
        Some(THROUGHPUT_REPORT_SIZE)
    }

    /// Decodes a body; one that is too short yields nothing.
    pub fn decode(body: &[u8]) -> (r: Option<ThroughputReport>)
        ensures
            ThroughputReport::decodes(body@, r),
    {
        if body.len() < THROUGHPUT_REPORT_SIZE {
            return None;
        }
        proof {
            bounds();
        }
        let test_id = get_le(body, 0, 4) as u32;
        let frames_sent = get_le(body, 4, 4) as u32;
        let frames_recv = get_le(body, 8, 4) as u32;
        let bytes_recv = get_le(body, 12, 8);
        let duration_us = get_le(body, 20, 8);
        let achieved_bps = get_le(body, 28, 8);
        Some(
            ThroughputReport {
                test_id,
                frames_sent,
                frames_recv,
                bytes_recv,
                duration_us,
                achieved_bps,
            },
        )
    }
}

/// Decoding an encoded throughput report gives it back.
pub proof fn throughput_report_round_trip(rep: ThroughputReport, r: Option<ThroughputReport>)
    requires
        ThroughputReport::decodes(rep.wire(), r),
    ensures
        r == Some(rep),
{
    rep.wire_len();
    bounds();
    le_decode_encode(rep.test_id as nat, 4);
    le_decode_encode(rep.frames_sent as nat, 4);
    le_decode_encode(rep.frames_recv as nat, 4);
    le_decode_encode(rep.bytes_recv as nat, 8);
    le_decode_encode(rep.duration_us as nat, 8);
    le_decode_encode(rep.achieved_bps as nat, 8);
    let w = rep.wire();
    assert(w.subrange(0, 4) =~= le_bytes(rep.test_id as nat, 4));
    assert(w.subrange(4, 8) =~= le_bytes(rep.frames_sent as nat, 4));
    assert(w.subrange(8, 12) =~= le_bytes(rep.frames_recv as nat, 4));
    assert(w.subrange(12, 20) =~= le_bytes(rep.bytes_recv as nat, 8));
    assert(w.subrange(20, 28) =~= le_bytes(rep.duration_us as nat, 8));
    assert(w.subrange(28, 36) =~= le_bytes(rep.achieved_bps as nat, 8));
}

} // verus!
