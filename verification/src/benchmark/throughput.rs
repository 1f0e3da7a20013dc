//! Bandwidth measurement.

use crate::benchmark::echo::{framed, with_type};
use crate::benchmark::types::{
    now_micros, ThroughputReport, ThroughputRequest, ThroughputStream, DIRECTION_DOWNLOAD,
    DIRECTION_UPLOAD, MSG_THROUGHPUT_REPORT, MSG_THROUGHPUT_REQUEST, MSG_THROUGHPUT_STREAM,
};
use crate::wire::le_value;
use vstd::prelude::*;

verus! {

/// Direction of a test.
#[derive(Clone, Copy, Debug, PartialEq, Eq, Structural)]
pub enum Direction {
    /// We send.
    Upload,
    /// The peer sends.
    Download,
}

/// Configuration of a test.
#[derive(Clone, Copy, Debug, PartialEq, Eq, Structural)]
pub struct ThroughputTestConfig {
    /// Identifier of the test.
    pub test_id: u32,
    /// Direction.
    pub direction: Direction,
    /// Duration in seconds.
    pub duration_secs: u8,
    /// Frame size in bytes.
    pub frame_size: u16,
    /// Target rate in bits per second.
    pub rate_bps: u32,
}

/// State of a running test.
#[derive(Clone, Copy, Debug)]
pub struct ThroughputTestState {
    /// Identifier of the test.
    pub test_id: u32,
    /// Duration in seconds.
    pub duration_secs: u8,
    /// Frames sent.
    pub frames_sent: u32,
    /// Frames received.
    pub frames_recv: u32,
    /// Bytes received.
    pub bytes_recv: u64,
    /// When the test started, in microseconds since the epoch.
    pub start_us: u64,
    /// Sequence number of the next frame.
    pub expected_seq: u32,
    /// Frames that were skipped.
    pub gap_count: u32,
}

/// A test that starts at `start_us`.
pub open spec fn fresh_test(test_id: u32, duration_secs: u8, start_us: u64) -> ThroughputTestState {
    ThroughputTestState {
        test_id,
        duration_secs,
        frames_sent: 0,
        frames_recv: 0,
        bytes_recv: 0,
        start_us,
        expected_seq: 0,
        gap_count: 0,
    }
}

/// Time from `start` to `now`; zero where `start` lies ahead.
pub open spec fn span_us(now_us: u64, start_us: u64) -> int {
    if now_us >= start_us {
        now_us - start_us
    } else {
        0
    }
}

impl ThroughputTestState {
    /// Whether the test has run its time.
    pub open spec fn expired_at(self, now_us: u64) -> bool {
        span_us(now_us, self.start_us) >= self.duration_secs * 1_000_000
    }

    /// A test that starts at `start_us`.
    pub fn starting_at(test_id: u32, duration_secs: u8, start_us: u64) -> (r: ThroughputTestState)
        ensures
            r == fresh_test(test_id, duration_secs, start_us),
    {
        ThroughputTestState {
            test_id,
            duration_secs,
            frames_sent: 0,
            frames_recv: 0,
            bytes_recv: 0,
            start_us,
            expected_seq: 0,
            gap_count: 0,
        }
    }

    /// A test that starts now.
    pub fn new(test_id: u32, duration_secs: u8) -> (r: ThroughputTestState)
        ensures
            r == fresh_test(test_id, duration_secs, r.start_us),
    {
        let start_us = now_micros();
        ThroughputTestState::starting_at(test_id, duration_secs, start_us)
    }

    /// Whether the test has run its time at `now_us`.
    pub fn is_expired_at(&self, now_us: u64) -> (r: bool)
        ensures
            r == self.expired_at(now_us),
    {
        let elapsed_us: u64 = now_us.saturating_sub(self.start_us);
        let target_us: u64 = (self.duration_secs as u64) * 1_000_000;
        elapsed_us >= target_us
    }

    /// Whether the test has run its time now.
    pub fn is_expired(&self) -> (r: bool)
        ensures
            exists|now_us: u64| r == #[trigger] self.expired_at(now_us),
    {
        let now_us = now_micros();
        self.is_expired_at(now_us)
    }
}

/// Result of a test. The frames lost are those sent and not received.
#[derive(Clone, Copy, Debug, PartialEq, Eq, Structural)]
pub struct ThroughputResult {
    /// Identifier of the test.
    pub test_id: u32,
    /// Throughput in bits per second.
    pub achieved_bps: u64,
    /// Bytes received.
    pub total_bytes: u64,
    /// Duration in microseconds.
    pub duration_us: u64,
    /// Frames sent.
    pub frames_sent: u32,
    /// Frames received.
    pub frames_recv: u32,
}

/// The wire form of a direction.
pub open spec fn direction_byte(d: Direction) -> u8 {
    match d {
        Direction::Upload => DIRECTION_UPLOAD,
        Direction::Download => DIRECTION_DOWNLOAD,
    }
}

/// The request that a configuration stands for.
pub open spec fn request_of(config: ThroughputTestConfig) -> ThroughputRequest {
    ThroughputRequest {
        test_id: config.test_id,
        direction: direction_byte(config.direction),
        duration_secs: config.duration_secs,
        frame_size: config.frame_size,
        rate_bps: config.rate_bps,
    }
}

/// The configuration that a request stands for: every direction but upload is
/// download.
pub open spec fn config_of(req: ThroughputRequest) -> ThroughputTestConfig {
    ThroughputTestConfig {
        test_id: req.test_id,
        direction: if req.direction == DIRECTION_UPLOAD {
            Direction::Upload
        } else {
            Direction::Download
        },
        duration_secs: req.duration_secs,
        frame_size: req.frame_size,
        rate_bps: req.rate_bps,
    }
}

/// Builds the frame of a throughput request.
pub fn build_throughput_request_frame(config: &ThroughputTestConfig) -> (r: Vec<u8>)
    ensures
        r@ == framed(MSG_THROUGHPUT_REQUEST, request_of(*config).wire()),
{
    let req = ThroughputRequest {
        test_id: config.test_id,
        direction: match config.direction {
            Direction::Upload => DIRECTION_UPLOAD,
            Direction::Download => DIRECTION_DOWNLOAD,
        },
        duration_secs: config.duration_secs,
        frame_size: config.frame_size,
        rate_bps: config.rate_bps,
    };
    with_type(MSG_THROUGHPUT_REQUEST, &req.encode())
}

/// Whether `r` is the configuration that a request body holds.
pub open spec fn parses_request(body: Seq<u8>, r: Option<ThroughputTestConfig>) -> bool {
    match r {
        Some(config) => exists|req: ThroughputRequest| #[trigger]
            ThroughputRequest::decodes(body, Some(req)) && config == config_of(req),
        None => body.len() < 12,
    }
}

/// The request that a body of sufficient length holds.
pub open spec fn request_in(body: Seq<u8>) -> ThroughputRequest {
    ThroughputRequest {
        test_id: le_value(body.subrange(0, 4)) as u32,
        direction: body[4],
        duration_secs: body[5],
        frame_size: le_value(body.subrange(6, 8)) as u16,
        rate_bps: le_value(body.subrange(8, 12)) as u32,
    }
}

/// Parses a throughput request body; a malformed one yields nothing.
pub fn parse_throughput_request(body: &[u8]) -> (r: Option<ThroughputTestConfig>)
    ensures
        parses_request(body@, r),
        r is Some ==> r->0 == config_of(request_in(body@)),
{
    match ThroughputRequest::decode(body) {
        Some(req) => Some(
            ThroughputTestConfig {
                test_id: req.test_id,
                direction: if req.direction == DIRECTION_UPLOAD {
                    Direction::Upload
                } else {
                    Direction::Download
                },
                duration_secs: req.duration_secs,
                frame_size: req.frame_size,
                rate_bps: req.rate_bps,
            },
        ),
        None => None,
    }
}

/// Parsing the request of a configuration gives the configuration back.
pub proof fn throughput_config_round_trip(
    config: ThroughputTestConfig,
    r: Option<ThroughputTestConfig>,
)
    requires
        parses_request(request_of(config).wire(), r),
    ensures
        r == Some(config),
{
    let wire = request_of(config).wire();
    crate::wire::le_bytes_len(config.test_id as nat, 4);
    crate::wire::le_bytes_len(config.frame_size as nat, 2);
    crate::wire::le_bytes_len(config.rate_bps as nat, 4);
    let req = choose|req: ThroughputRequest| #[trigger]
        ThroughputRequest::decodes(wire, Some(req)) && r->0 == config_of(req);
    crate::benchmark::types::throughput_request_round_trip(request_of(config), Some(req));
}

/// One step of the generator behind the fill data.
pub open spec fn lcg(state: u32) -> u32 {
    ((state as int * 1664525 + 1013904223) % 0x1_0000_0000) as u32
}

/// The generator's state after `n` steps.
pub open spec fn lcg_after(state: u32, n: nat) -> u32
    decreases n,
{
    if n == 0 {
        state
    } else {
        lcg(lcg_after(state, (n - 1) as nat))
    }
}

/// The generator's state before the first step.
pub open spec fn lcg_seed(test_id: u32, seq: u32) -> u32 {
    ((test_id as int * 2654435761) % 0x1_0000_0000) as u32 ^ seq
}

/// The fill data of a frame: the upper byte of each state.
pub open spec fn fill(test_id: u32, seq: u32, len: nat) -> Seq<u8> {
    Seq::new(len, |i: int| (lcg_after(lcg_seed(test_id, seq), (i + 1) as nat) / 0x100_0000) as u8)
}

/// Generates the fill data of a frame.
pub fn generate_stream_data(test_id: u32, seq: u32, len: usize) -> (r: Vec<u8>)
    ensures
        r@ == fill(test_id, seq, len as nat),
{
    let mut data: Vec<u8> = Vec::new();
    let mut state: u32 = test_id.wrapping_mul(2654435761) ^ seq;
    let ghost seed = state;
    let mut k: usize = 0;
    while k < len
        invariant
            k <= len,
            seed == lcg_seed(test_id, seq),
            state == lcg_after(seed, k as nat),
            data@ == fill(test_id, seq, k as nat),
        decreases len - k,
    {
        let ghost before = state;
        state = state.wrapping_mul(1664525).wrapping_add(1013904223);
        proof {
            let m = 0x1_0000_0000int;
            let x = before as int * 1664525;
            vstd::arithmetic::div_mod::lemma_add_mod_noop(x, 1013904223, m);
            vstd::arithmetic::div_mod::lemma_small_mod(1013904223, m as nat);
            assert(state == lcg(before));
        }
        data.push((state / 0x100_0000) as u8);
        assert(data@ =~= fill(test_id, seq, (k + 1) as nat));
        k += 1;
    }
    data
}

/// The frame of a throughput stream.
pub open spec fn stream_frame(test_id: u32, seq: u32, data_len: nat) -> Seq<u8> {
    framed(
        MSG_THROUGHPUT_STREAM,
        ThroughputStream::wire_of(test_id, seq, fill(test_id, seq, data_len)),
    )
}

/// Builds the frame of a throughput stream, with fill data.
pub fn build_throughput_stream_frame(test_id: u32, seq: u32, data_len: usize) -> (r: Vec<u8>)
    ensures
        r@ == stream_frame(test_id, seq, data_len as nat),
{
    let data = generate_stream_data(test_id, seq, data_len);
    let stream = ThroughputStream { test_id, seq, data };
    with_type(MSG_THROUGHPUT_STREAM, &stream.encode())
}

/// Test identifier of a stream body.
pub open spec fn stream_test(body: Seq<u8>) -> int {
    le_value(body.subrange(0, 4)) as int
}

/// Sequence number of a stream body.
pub open spec fn stream_seq(body: Seq<u8>) -> int {
    le_value(body.subrange(4, 8)) as int
}

/// Whether a stream body belongs to a test.
pub open spec fn stream_matches(state: ThroughputTestState, body: Seq<u8>) -> bool {
    body.len() >= 8 && stream_test(body) == state.test_id
}

/// Frames skipped between the one expected and `seq`.
pub open spec fn skipped(state: ThroughputTestState, seq: int) -> int {
    if seq > state.expected_seq {
        seq - state.expected_seq
    } else {
        0
    }
}

/// Whether the counters have room for a stream body.
pub open spec fn stream_fits(state: ThroughputTestState, body: Seq<u8>) -> bool {
    &&& state.frames_recv < u32::MAX
    &&& state.bytes_recv + (body.len() - 8) <= u64::MAX
    &&& state.gap_count + skipped(state, stream_seq(body)) <= u32::MAX
    &&& stream_seq(body) < u32::MAX
}

/// The state after a stream body.
pub open spec fn streamed(state: ThroughputTestState, body: Seq<u8>) -> ThroughputTestState {
    if stream_matches(state, body) {
        ThroughputTestState {
            frames_recv: (state.frames_recv + 1) as u32,
            bytes_recv: (state.bytes_recv + (body.len() - 8)) as u64,
            gap_count: (state.gap_count + skipped(state, stream_seq(body))) as u32,
            expected_seq: (stream_seq(body) + 1) as u32,
            ..state
        }
    } else {
        state
    }
}

/// Counts a stream body. Returns false where it does not belong to the test.
/// The counters must have room.
pub fn handle_throughput_stream(state: &mut ThroughputTestState, body: &[u8]) -> (r: bool)
    requires
        stream_matches(*old(state), body@) ==> stream_fits(*old(state), body@),
    ensures
        r == stream_matches(*old(state), body@),
        *final(state) == streamed(*old(state), body@),
{
    let (test_id, seq, data) = match ThroughputStream::decode(body) {
        Some(t) => t,
        None => {
            return false;
        },
    };
    if test_id != state.test_id {
        return false;
    }
    state.frames_recv = state.frames_recv + 1;
    state.bytes_recv = state.bytes_recv + data.len() as u64;
    if seq > state.expected_seq {
        state.gap_count = state.gap_count + (seq - state.expected_seq);
    }
    state.expected_seq = seq + 1;
    true
}

/// Frames that arrive in order leave no gap.
pub proof fn frames_in_order_leave_no_gap(state: ThroughputTestState, body: Seq<u8>)
    requires
        stream_matches(state, body),
        stream_fits(state, body),
        stream_seq(body) == state.expected_seq,
    ensures
        streamed(state, body).gap_count == state.gap_count,
        streamed(state, body).expected_seq == state.expected_seq + 1,
{
}

/// The report on a test at `now_us`.
pub open spec fn report_at(state: ThroughputTestState, now_us: u64) -> ThroughputReport {
    let duration = span_us(now_us, state.start_us);
    ThroughputReport {
        test_id: state.test_id,
        frames_sent: state.frames_sent,
        frames_recv: state.frames_recv,
        bytes_recv: state.bytes_recv,
        duration_us: duration as u64,
        achieved_bps: if duration > 0 {
            (state.bytes_recv * 8 * 1_000_000 / duration) as u64
        } else {
            0
        },
    }
}

/// Builds the report frame on a test at `now_us`.
pub fn build_throughput_report_frame_at(state: &ThroughputTestState, now_us: u64) -> (r: Vec<u8>)
    requires
        now_us > state.start_us ==> state.bytes_recv * 8 * 1_000_000 <= u64::MAX,
    ensures
        r@ == framed(MSG_THROUGHPUT_REPORT, report_at(*state, now_us).wire()),
{
    let duration_us: u64 = now_us.saturating_sub(state.start_us);
    let achieved_bps: u64 = if duration_us > 0 {
        (state.bytes_recv * 8 * 1_000_000) / duration_us
    } else {
        0
    };
    proof {
        if duration_us > 0 {
            let bits = state.bytes_recv * 8 * 1_000_000;
            let d = duration_us as int;
            assert(0 <= bits / d <= bits) by (nonlinear_arith)
                requires
                    bits >= 0,
                    d >= 1,
            ;
        }
    }
    let report = ThroughputReport {
        test_id: state.test_id,
        frames_sent: state.frames_sent,
        frames_recv: state.frames_recv,
        bytes_recv: state.bytes_recv,
        duration_us,
        achieved_bps,
    };
    with_type(MSG_THROUGHPUT_REPORT, &report.encode())
}

/// Builds the report frame on a test now.
pub fn build_throughput_report_frame(state: &ThroughputTestState) -> (r: Vec<u8>)
    requires
        state.bytes_recv * 8 * 1_000_000 <= u64::MAX,
    ensures
        exists|now_us: u64|
            r@ == framed(MSG_THROUGHPUT_REPORT, (#[trigger] report_at(*state, now_us)).wire()),
{
    let now_us = now_micros();
    build_throughput_report_frame_at(state, now_us)
}

/// The result that a report tells.
pub open spec fn result_of(report: ThroughputReport) -> ThroughputResult {
    ThroughputResult {
        test_id: report.test_id,
        achieved_bps: report.achieved_bps,
        total_bytes: report.bytes_recv,
        duration_us: report.duration_us,
        frames_sent: report.frames_sent,
        frames_recv: report.frames_recv,
    }
}

/// Whether `r` is the result that a report body holds.
pub open spec fn parses_report(body: Seq<u8>, r: Option<ThroughputResult>) -> bool {
    match r {
        Some(result) => exists|report: ThroughputReport| #[trigger]
            ThroughputReport::decodes(body, Some(report)) && result == result_of(report),
        None => body.len() < 36,
    }
}

/// The report that a body of sufficient length holds.
pub open spec fn report_in(body: Seq<u8>) -> ThroughputReport {
    ThroughputReport {
        test_id: le_value(body.subrange(0, 4)) as u32,
        frames_sent: le_value(body.subrange(4, 8)) as u32,
        frames_recv: le_value(body.subrange(8, 12)) as u32,
        bytes_recv: le_value(body.subrange(12, 20)) as u64,
        duration_us: le_value(body.subrange(20, 28)) as u64,
        achieved_bps: le_value(body.subrange(28, 36)) as u64,
    }
}

/// Parses a report body; a malformed one yields nothing.
pub fn parse_throughput_report(body: &[u8]) -> (r: Option<ThroughputResult>)
    ensures
        parses_report(body@, r),
        r is Some ==> r->0 == result_of(report_in(body@)),
{
    match ThroughputReport::decode(body) {
        Some(report) => Some(
            ThroughputResult {
                test_id: report.test_id,
                achieved_bps: report.achieved_bps,
                total_bytes: report.bytes_recv,
                duration_us: report.duration_us,
                frames_sent: report.frames_sent,
                frames_recv: report.frames_recv,
            },
        ),
        None => None,
    }
}

/// Parsing the report on a test tells what the test counted.
pub proof fn report_round_trip(
    state: ThroughputTestState,
    now_us: u64,
    r: Option<ThroughputResult>,
)
    requires
        parses_report(report_at(state, now_us).wire(), r),
    ensures
        r == Some(result_of(report_at(state, now_us))),
        r->0.test_id == state.test_id,
        r->0.frames_sent == state.frames_sent,
        r->0.frames_recv == state.frames_recv,
        r->0.total_bytes == state.bytes_recv,
{
    let report = report_at(state, now_us);
    report.wire_len();
    let got = choose|got: ThroughputReport| #[trigger]
        ThroughputReport::decodes(report.wire(), Some(got)) && r->0 == result_of(got);
    crate::benchmark::types::throughput_report_round_trip(report, Some(got));
}

} // verus!
