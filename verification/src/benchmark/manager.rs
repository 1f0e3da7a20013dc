//! Keeps track of running measurements and of what is to be sent.

use crate::benchmark::echo::{
    build_echo_request_frame, build_echo_request_frame_at, build_echo_response_frame_at,
    compute_echo_stats, echo_result, echo_stats_fit, framed, handle_echo_response_at, is_stats,
    request_wire, response_wire, stats_fit, EchoResult, EchoStats,
};
use crate::benchmark::throughput::{
    build_throughput_report_frame_at, build_throughput_request_frame,
    build_throughput_stream_frame, config_of, fresh_test, handle_throughput_stream,
    parse_throughput_report, parse_throughput_request, report_at, report_in, request_in,
    request_of, result_of, stream_fits, stream_frame, stream_matches, stream_test, streamed,
    Direction, ThroughputResult, ThroughputTestConfig, ThroughputTestState,
};
use crate::benchmark::types::{
    now_micros, ThroughputStream, MSG_ECHO_REQUEST, MSG_ECHO_RESPONSE, MSG_THROUGHPUT_REPORT,
    MSG_THROUGHPUT_REQUEST, MSG_THROUGHPUT_STREAM,
};
use crate::clock::{Clock, MAX_READING_NS};
use crate::identity::NodeAddr;
use crate::peer_policy::{PeerPolicy, PolicyModel};
use crate::recency::{elapsed_since, since};
use std::collections::{HashMap, VecDeque};
use vstd::prelude::*;

verus! {

broadcast use vstd::std_specs::hash::group_hash_axioms;

/// Pause between echo probes, in milliseconds.
pub const ECHO_INTER_SEND_DELAY_MS: u128 = 100;

/// How long an echo response is waited for, in milliseconds.
pub const ECHO_RESPONSE_TIMEOUT_MS: u128 = 2000;

/// Stream frames sent at once at most.
pub const THROUGHPUT_BATCH_MAX: usize = 2;

/// Byte that echo payloads are filled with.
pub const ECHO_FILL: u8 = 0xAB;

/// The manager's state, without its clock.
pub ghost struct BenchModel {
    pub active: Map<u32, ThroughputTestState>,
    pub echo_results: Map<u128, Seq<EchoResult>>,
    pub echo_expected: Map<u128, u32>,
    pub next_test_id: u32,
    pub echo_response: Option<(NodeAddr, Seq<u8>)>,
    pub throughput_config: Option<(NodeAddr, ThroughputTestConfig)>,
    pub throughput_report: Option<(NodeAddr, Seq<u8>)>,
    pub last_result: Option<(NodeAddr, ThroughputResult)>,
    pub echo_sends: Seq<(NodeAddr, u32, Seq<u8>)>,
    pub last_echo_send_ns: Option<u128>,
    pub echo_sent_at_ns: Option<u128>,
    pub sends: Seq<(NodeAddr, Seq<u8>)>,
    pub send_interval_ms: u64,
    pub last_send_ns: Option<u128>,
    pub initiator_frames_sent: Map<u32, u32>,
    pub policy: PolicyModel,
}

/// Benchmark manager.
pub struct BenchmarkManager {
    active_tests: HashMap<u32, ThroughputTestState>,
    echo_results: HashMap<u128, Vec<EchoResult>>,
    echo_expected: HashMap<u128, u32>,
    next_test_id: u32,
    pending_echo_response: Option<(NodeAddr, Vec<u8>)>,
    pending_throughput_config: Option<(NodeAddr, ThroughputTestConfig)>,
    pending_throughput_report: Option<(NodeAddr, Vec<u8>)>,
    last_throughput_result: Option<(NodeAddr, ThroughputResult)>,
    pending_echo_sends: VecDeque<(NodeAddr, u32, Vec<u8>)>,
    last_echo_send_ns: Option<u128>,
    echo_sent_at_ns: Option<u128>,
    pending_throughput_sends: VecDeque<(NodeAddr, Vec<u8>)>,
    throughput_send_interval_ms: u64,
    last_throughput_send_ns: Option<u128>,
    initiator_frames_sent: HashMap<u32, u32>,
    peer_policy: PeerPolicy,
    clock: Clock,
}

/// A frame for a peer, as values.
pub open spec fn message(m: Option<(NodeAddr, Vec<u8>)>) -> Option<(NodeAddr, Seq<u8>)> {
    match m {
        Some((a, v)) => Some((a, v@)),
        None => None,
    }
}

/// Queued probes, as values.
pub open spec fn probes(s: Seq<(NodeAddr, u32, Vec<u8>)>) -> Seq<(NodeAddr, u32, Seq<u8>)> {
    s.map_values(|p: (NodeAddr, u32, Vec<u8>)| (p.0, p.1, p.2@))
}

/// Frames for peers, as values.
pub open spec fn messages(s: Seq<(NodeAddr, Vec<u8>)>) -> Seq<(NodeAddr, Seq<u8>)> {
    s.map_values(|p: (NodeAddr, Vec<u8>)| (p.0, p.1@))
}

impl View for BenchmarkManager {
    type V = BenchModel;

    closed spec fn view(&self) -> BenchModel {
        BenchModel {
            active: self.active_tests@,
            echo_results: self.echo_results@.map_values(|v: Vec<EchoResult>| v@),
            echo_expected: self.echo_expected@,
            next_test_id: self.next_test_id,
            echo_response: message(self.pending_echo_response),
            throughput_config: self.pending_throughput_config,
            throughput_report: message(self.pending_throughput_report),
            last_result: self.last_throughput_result,
            echo_sends: probes(self.pending_echo_sends@),
            last_echo_send_ns: self.last_echo_send_ns,
            echo_sent_at_ns: self.echo_sent_at_ns,
            sends: messages(self.pending_throughput_sends@),
            send_interval_ms: self.throughput_send_interval_ms,
            last_send_ns: self.last_throughput_send_ns,
            initiator_frames_sent: self.initiator_frames_sent@,
            policy: self.peer_policy@,
        }
    }
}

/// Milliseconds from `at` to `now`.
pub open spec fn elapsed_ms(now_ns: u128, at_ns: u128) -> int {
    since(now_ns, at_ns) / 1_000_000
}

/// Interval between stream frames, in microseconds: what a frame takes at the
/// target rate, or a millisecond without one.
pub open spec fn frame_interval_us(frame_size: u16, rate_bps: u32) -> int {
    if rate_bps > 0 {
        frame_size * 8 * 1_000_000 / rate_bps as int
    } else {
        1000
    }
}

/// Number of stream frames in a test.
pub open spec fn frame_count(frame_size: u16, rate_bps: u32, duration_secs: u8) -> int {
    let interval = frame_interval_us(frame_size, rate_bps);
    duration_secs * 1_000_000 / if interval < 1 {
        1
    } else {
        interval
    }
}

/// The payload of an echo test.
pub open spec fn echo_payload(size: nat) -> Seq<u8> {
    Seq::new(size, |i: int| ECHO_FILL)
}

/// The stream frames of a test.
pub open spec fn stream_frames(peer: NodeAddr, test_id: u32, frame_size: u16, count: nat) -> Seq<
    (NodeAddr, Seq<u8>),
> {
    Seq::new(count, |i: int| (peer, stream_frame(test_id, i as u32, frame_size as nat)))
}

impl BenchModel {
    /// What a new manager holds.
    pub open spec fn initial() -> BenchModel {
        BenchModel {
            active: Map::empty(),
            echo_results: Map::empty(),
            echo_expected: Map::empty(),
            next_test_id: 1,
            echo_response: None,
            throughput_config: None,
            throughput_report: None,
            last_result: None,
            echo_sends: Seq::empty(),
            last_echo_send_ns: None,
            echo_sent_at_ns: None,
            sends: Seq::empty(),
            send_interval_ms: 100,
            last_send_ns: None,
            initiator_frames_sent: Map::empty(),
            policy: PolicyModel::fresh(),
        }
    }

    /// The results of a peer so far.
    pub open spec fn results_of(self, peer: u128) -> Seq<EchoResult> {
        if self.echo_results.contains_key(peer) {
            self.echo_results[peer]
        } else {
            Seq::empty()
        }
    }

    /// Whether the counters of the test that a message belongs to have room, and,
    /// where the test is over at `now_us`, what it received can be expressed as a
    /// rate.
    pub open spec fn message_fits_at(self, msg_type: u8, payload: Seq<u8>, now_us: u64) -> bool {
        let test = stream_test(payload) as u32;
        msg_type == MSG_THROUGHPUT_STREAM && payload.len() >= 8 && self.active.contains_key(test)
            ==> {
            let state = streamed(self.active[test], payload);
            &&& stream_matches(self.active[test], payload) ==> stream_fits(
                self.active[test],
                payload,
            )
            &&& state.expired_at(now_us) && now_us > state.start_us ==> state.bytes_recv * 8
                * 1_000_000 <= u64::MAX
        }
    }

    /// Whether the counters of the test that a message belongs to have room
    /// whenever it is handled.
    pub open spec fn message_fits(self, msg_type: u8, payload: Seq<u8>) -> bool {
        let test = stream_test(payload) as u32;
        msg_type == MSG_THROUGHPUT_STREAM && payload.len() >= 8 && self.active.contains_key(test)
            ==> {
            &&& stream_matches(self.active[test], payload) ==> stream_fits(
                self.active[test],
                payload,
            )
            &&& streamed(self.active[test], payload).bytes_recv * 8 * 1_000_000 <= u64::MAX
        }
    }

    /// The state after a message from a peer that is within the frame rate.
    pub open spec fn received(
        self,
        from: NodeAddr,
        msg_type: u8,
        payload: Seq<u8>,
        now_us: u64,
    ) -> BenchModel {
        if msg_type == MSG_ECHO_REQUEST {
            if payload.len() >= 12 {
                BenchModel {
                    echo_response: Some(
                        (from, framed(MSG_ECHO_RESPONSE, response_wire(payload, now_us))),
                    ),
                    ..self
                }
            } else {
                self
            }
        } else if msg_type == MSG_ECHO_RESPONSE {
            let m = BenchModel { echo_sent_at_ns: None, ..self };
            if payload.len() >= 20 {
                BenchModel {
                    echo_results: self.echo_results.insert(
                        from.value,
                        self.results_of(from.value).push(echo_result(payload, now_us)),
                    ),
                    ..m
                }
            } else {
                m
            }
        } else if msg_type == MSG_THROUGHPUT_REQUEST {
            if payload.len() >= 12 {
                let config = config_of(request_in(payload));
                BenchModel {
                    active: self.active.insert(
                        config.test_id,
                        fresh_test(config.test_id, config.duration_secs, now_us),
                    ),
                    throughput_config: Some((from, config)),
                    ..self
                }
            } else {
                self
            }
        } else if msg_type == MSG_THROUGHPUT_STREAM {
            let test = stream_test(payload) as u32;
            if payload.len() >= 8 && self.active.contains_key(test) {
                let state = streamed(self.active[test], payload);
                if state.expired_at(now_us) {
                    BenchModel {
                        active: self.active.remove(test),
                        throughput_report: Some(
                            (from, framed(MSG_THROUGHPUT_REPORT, report_at(state, now_us).wire())),
                        ),
                        ..self
                    }
                } else {
                    BenchModel { active: self.active.insert(test, state), ..self }
                }
            } else {
                self
            }
        } else if msg_type == MSG_THROUGHPUT_REPORT {
            if payload.len() >= 36 {
                let result = result_of(report_in(payload));
                let id = result.test_id;
                if self.initiator_frames_sent.contains_key(id) {
                    BenchModel {
                        initiator_frames_sent: self.initiator_frames_sent.remove(id),
                        last_result: Some(
                            (
                                from,
                                ThroughputResult {
                                    frames_sent: self.initiator_frames_sent[id],
                                    ..result
                                },
                            ),
                        ),
                        ..self
                    }
                } else {
                    BenchModel { last_result: Some((from, result)), ..self }
                }
            } else {
                self
            }
        } else {
            self
        }
    }

    /// The state after a message from a peer.
    pub open spec fn handled(
        self,
        from: NodeAddr,
        msg_type: u8,
        payload: Seq<u8>,
        now_ns: u128,
        now_us: u64,
    ) -> BenchModel {
        let (policy, allowed) = self.policy.framed(now_ns);
        let m = BenchModel { policy, ..self };
        if allowed {
            m.received(from, msg_type, payload, now_us)
        } else {
            m
        }
    }

    /// Whether a probe is waited for that may still be answered.
    pub open spec fn awaits_echo(self, now_ns: u128) -> bool {
        self.echo_sent_at_ns is Some && elapsed_ms(now_ns, self.echo_sent_at_ns->0)
            < ECHO_RESPONSE_TIMEOUT_MS
    }

    /// Whether the last probe is too recent for another.
    pub open spec fn echo_pauses(self, now_ns: u128) -> bool {
        self.last_echo_send_ns is Some && elapsed_ms(now_ns, self.last_echo_send_ns->0)
            < ECHO_INTER_SEND_DELAY_MS
    }

    /// What polling for a probe leads to.
    pub open spec fn echo_polled(self, now_ns: u128, ts_us: u64) -> (
        BenchModel,
        Option<(NodeAddr, Seq<u8>)>,
    ) {
        let (peer, seq, payload) = self.echo_sends[0];
        if self.echo_sends.len() == 0 || self.awaits_echo(now_ns) {
            (self, None)
        } else if self.echo_pauses(now_ns) {
            (BenchModel { echo_sent_at_ns: None, ..self }, None)
        } else {
            (
                BenchModel {
                    last_echo_send_ns: Some(now_ns),
                    echo_sent_at_ns: Some(now_ns),
                    echo_sends: self.echo_sends.drop_first(),
                    ..self
                },
                Some((peer, framed(MSG_ECHO_REQUEST, request_wire(ts_us, seq, payload)))),
            )
        }
    }

    /// How many stream frames are due.
    pub open spec fn frames_due(self, now_ns: u128) -> int {
        let queued = self.sends.len() as int;
        let elapsed = match self.last_send_ns {
            Some(at) => elapsed_ms(now_ns, at),
            None => 0xffff_ffff_ffff_ffff,
        };
        let interval = self.send_interval_ms as int;
        let due: int = if interval > 0 && elapsed / interval >= 2 {
            2
        } else {
            1
        };
        if elapsed < interval {
            0
        } else if due < queued {
            due
        } else {
            queued
        }
    }

    /// What polling for stream frames leads to.
    pub open spec fn throughput_polled(self, now_ns: u128) -> (BenchModel, Seq<(NodeAddr, Seq<u8>)>) {
        let n = self.frames_due(now_ns);
        if n == 0 {
            (self, Seq::empty())
        } else {
            (
                BenchModel {
                    sends: self.sends.skip(n),
                    last_send_ns: Some(now_ns),
                    ..self
                },
                self.sends.take(n),
            )
        }
    }

    /// The state after the probes of an echo test have been queued.
    pub open spec fn echo_started(self, peer: NodeAddr, count: u32, payload_size: usize) -> BenchModel {
        BenchModel {
            echo_expected: self.echo_expected.insert(peer.value, count),
            echo_results: self.echo_results.remove(peer.value),
            last_echo_send_ns: None,
            echo_sent_at_ns: None,
            echo_sends: self.echo_sends + queued_probes(peer, count as nat, payload_size as nat),
            ..self
        }
    }

    /// The state after the stream frames of a test have been queued.
    pub open spec fn throughput_started(
        self,
        peer: NodeAddr,
        test_id: u32,
        frame_size: u16,
        rate_bps: u32,
        duration_secs: u8,
    ) -> BenchModel {
        let count = frame_count(frame_size, rate_bps, duration_secs);
        let interval_ms = frame_interval_us(frame_size, rate_bps) / 1000;
        BenchModel {
            send_interval_ms: if interval_ms < 1 {
                1
            } else {
                interval_ms as u64
            },
            last_send_ns: None,
            sends: stream_frames(peer, test_id, frame_size, count as nat),
            active: if self.active.contains_key(test_id) {
                self.active.insert(
                    test_id,
                    ThroughputTestState { frames_sent: count as u32, ..self.active[test_id] },
                )
            } else {
                self.active
            },
            initiator_frames_sent: self.initiator_frames_sent.insert(test_id, count as u32),
            ..self
        }
    }
}

/// Whether a frame is an echo request with this sequence number and payload.
pub open spec fn is_probe(frame: Seq<u8>, seq: u32, payload: Seq<u8>) -> bool {
    exists|ts_us: u64|
        frame == framed(MSG_ECHO_REQUEST, #[trigger] request_wire(ts_us, seq, payload))
}

/// The probes of an echo test.
pub open spec fn queued_probes(peer: NodeAddr, count: nat, payload_size: nat) -> Seq<
    (NodeAddr, u32, Seq<u8>),
> {
    Seq::new(count, |i: int| (peer, i as u32, echo_payload(payload_size)))
}

/// Builds the payload of an echo test.
fn make_echo_payload(size: usize) -> (r: Vec<u8>)
    ensures
        r@ == echo_payload(size as nat),
{
    let mut r: Vec<u8> = Vec::new();
    let mut k: usize = 0;
    while k < size
        invariant
            k <= size,
            r@ == echo_payload(k as nat),
        decreases size - k,
    {
        r.push(ECHO_FILL);
        assert(r@ =~= echo_payload((k + 1) as nat));
        k += 1;
    }
    r
}

/// Interval between stream frames, in microseconds.
fn interval_us(frame_size: u16, rate_bps: u32) -> (r: u64)
    ensures
        r == frame_interval_us(frame_size, rate_bps),
{
    if rate_bps > 0 {
        ((frame_size as u64) * 8 * 1_000_000) / rate_bps as u64
    } else {
        1000
    }
}

/// Number of stream frames in a test.
pub fn total_frames(frame_size: u16, rate_bps: u32, duration_secs: u8) -> (r: u32)
    ensures
        r == frame_count(frame_size, rate_bps, duration_secs),
{
    let interval: u64 = interval_us(frame_size, rate_bps);
    let divisor: u64 = if interval < 1 {
        1
    } else {
        interval
    };
    let all: u64 = (duration_secs as u64) * 1_000_000;
    let r: u64 = all / divisor;
    proof {
        let a = all as int;
        let d = divisor as int;
        assert(0 <= a / d <= a) by (nonlinear_arith)
            requires
                a >= 0,
                d >= 1,
        ;
    }
    r as u32
}

impl BenchmarkManager {
    /// A manager without any test.
    pub fn new() -> (r: BenchmarkManager)
        ensures
            r@ == BenchModel::initial(),
    {
        let r = BenchmarkManager {
            active_tests: HashMap::new(),
            echo_results: HashMap::new(),
            echo_expected: HashMap::new(),
            next_test_id: 1,
            pending_echo_response: None,
            pending_throughput_config: None,
            pending_throughput_report: None,
            last_throughput_result: None,
            pending_echo_sends: VecDeque::new(),
            last_echo_send_ns: None,
            echo_sent_at_ns: None,
            pending_throughput_sends: VecDeque::new(),
            throughput_send_interval_ms: 100,
            last_throughput_send_ns: None,
            initiator_frames_sent: HashMap::new(),
            peer_policy: PeerPolicy::new(),
            clock: Clock::start(),
        };
        assert(r@.echo_results =~= Map::empty());
        assert(r@.echo_sends =~= Seq::empty());
        assert(r@.sends =~= Seq::empty());
        r
    }

    /// Whether another test can be numbered.
    pub fn can_allocate(&self) -> (r: bool)
        ensures
            r == (self@.next_test_id < u32::MAX),
    {
        self.next_test_id < u32::MAX
    }

    /// Hands out a test identifier. There must be one left.
    pub fn allocate_test_id(&mut self) -> (r: u32)
        requires
            old(self)@.next_test_id < u32::MAX,
        ensures
            r == old(self)@.next_test_id,
            final(self)@ == (BenchModel {
                next_test_id: (old(self)@.next_test_id + 1) as u32,
                ..old(self)@
            }),
    {
        let id = self.next_test_id;
        self.next_test_id = self.next_test_id + 1;
        id
    }

    /// Whether a message can be handled at the given reading of the wall clock.
    pub fn fits_at(&self, msg_type: u8, payload: &[u8], now_us: u64) -> (r: bool)
        ensures
            r == self@.message_fits_at(msg_type, payload@, now_us),
    {
        if msg_type != MSG_THROUGHPUT_STREAM {
            return true;
        }
        proof {
            crate::wire::bounds();
        }
        let (test_id, seq, data) = match ThroughputStream::decode(payload) {
            Some(t) => t,
            None => {
                return true;
            },
        };
        let state: ThroughputTestState = match self.active_tests.get(&test_id) {
            Some(s) => *s,
            None => {
                return true;
            },
        };
        let reports = state.is_expired_at(now_us) && now_us > state.start_us;
        if test_id != state.test_id {
            return !reports || (state.bytes_recv as u128) * 8_000_000 <= 0xffff_ffff_ffff_ffff;
        }
        let skipped: u64 = if seq > state.expected_seq {
            (seq - state.expected_seq) as u64
        } else {
            0
        };
        let bytes: u128 = state.bytes_recv as u128 + data.len() as u128;
        if bytes > 0xffff_ffff_ffff_ffff {
            return false;
        }
        state.frames_recv < 0xffff_ffff && seq < 0xffff_ffff && state.gap_count as u64 + skipped
            <= 0xffff_ffff && (!reports || bytes * 8_000_000 <= 0xffff_ffff_ffff_ffff)
    }

    /// Whether a message can be handled whenever that is.
    pub fn fits(&self, msg_type: u8, payload: &[u8]) -> (r: bool)
        ensures
            r == self@.message_fits(msg_type, payload@),
    {
        if msg_type != MSG_THROUGHPUT_STREAM {
            return true;
        }
        proof {
            crate::wire::bounds();
        }
        let (test_id, seq, data) = match ThroughputStream::decode(payload) {
            Some(t) => t,
            None => {
                return true;
            },
        };
        let state: ThroughputTestState = match self.active_tests.get(&test_id) {
            Some(s) => *s,
            None => {
                return true;
            },
        };
        if test_id != state.test_id {
            return (state.bytes_recv as u128) * 8_000_000 <= 0xffff_ffff_ffff_ffff;
        }
        let skipped: u64 = if seq > state.expected_seq {
            (seq - state.expected_seq) as u64
        } else {
            0
        };
        let bytes: u128 = state.bytes_recv as u128 + data.len() as u128;
        if bytes > 0xffff_ffff_ffff_ffff {
            return false;
        }
        state.frames_recv < 0xffff_ffff && seq < 0xffff_ffff && state.gap_count as u64 + skipped
            <= 0xffff_ffff && bytes * 8_000_000 <= 0xffff_ffff_ffff_ffff
    }

    /// Handles a message from a peer at the given readings of the two clocks.
    pub fn handle_link_message_at(
        &mut self,
        from: &NodeAddr,
        msg_type: u8,
        payload: &[u8],
        now_ns: u128,
        now_us: u64,
    )
        requires
            old(self)@.policy.framed(now_ns).1 ==> old(self)@.message_fits_at(
                msg_type,
                payload@,
                now_us,
            ),
        ensures
            final(self)@ == old(self)@.handled(*from, msg_type, payload@, now_ns, now_us),
    {
        if !self.peer_policy.check_frame_rate_at(now_ns) {
            return;
        }
        let ghost m = self@;
        if msg_type == MSG_ECHO_REQUEST {
            if let Some(frame) = build_echo_response_frame_at(payload, now_us) {
                self.pending_echo_response = Some((*from, frame));
            }
        } else if msg_type == MSG_ECHO_RESPONSE {
            self.echo_sent_at_ns = None;
            if let Some(result) = handle_echo_response_at(payload, now_us) {
                let mut results = match self.echo_results.remove(&from.value) {
                    Some(results) => results,
                    None => Vec::new(),
                };
                assert(results@ =~= m.results_of(from.value));
                results.push(result);
                self.echo_results.insert(from.value, results);
                assert(self@.echo_results =~= m.echo_results.insert(
                    from.value,
                    m.results_of(from.value).push(result),
                ));
            }
        } else if msg_type == MSG_THROUGHPUT_REQUEST {
            if let Some(config) = parse_throughput_request(payload) {
                let state = ThroughputTestState::starting_at(
                    config.test_id,
                    config.duration_secs,
                    now_us,
                );
                self.active_tests.insert(config.test_id, state);
                self.pending_throughput_config = Some((*from, config));
            }
        } else if msg_type == MSG_THROUGHPUT_STREAM {
            proof {
                crate::wire::bounds();
            }
            if let Some((test_id, _seq, _data)) = ThroughputStream::decode(payload) {
                let active: Option<ThroughputTestState> = match self.active_tests.get(&test_id) {
                    Some(s) => Some(*s),
                    None => None,
                };
                if let Some(mut state) = active {
                    handle_throughput_stream(&mut state, payload);
                    if state.is_expired_at(now_us) {
                        let frame = build_throughput_report_frame_at(&state, now_us);
                        self.active_tests.remove(&test_id);
                        self.pending_throughput_report = Some((*from, frame));
                    } else {
                        self.active_tests.insert(test_id, state);
                    }
                }
            }
        } else if msg_type == MSG_THROUGHPUT_REPORT {
            if let Some(mut result) = parse_throughput_report(payload) {
                let sent: Option<u32> = self.initiator_frames_sent.remove(&result.test_id);
                match sent {
                    Some(n) => {
                        result.frames_sent = n;
                    },
                    None => {
                        assert(self.initiator_frames_sent@ =~= m.initiator_frames_sent);
                    },
                }
                self.last_throughput_result = Some((*from, result));
            }
        }
    }

    /// Handles a message from a peer now.
    pub fn handle_link_message(&mut self, from: &NodeAddr, msg_type: u8, payload: &[u8])
        requires
            old(self)@.message_fits(msg_type, payload@),
        ensures
            exists|now_ns: u128, now_us: u64|
                now_ns < MAX_READING_NS && final(self)@ == #[trigger] old(self)@.handled(
                    *from,
                    msg_type,
                    payload@,
                    now_ns,
                    now_us,
                ),
    {
        let now_ns = self.clock.now_ns();
        let now_us = now_micros();
        self.handle_link_message_at(from, msg_type, payload, now_ns, now_us);
    }

    /// Takes the echo response that waits to be sent.
    pub fn take_echo_response(&mut self) -> (r: Option<(NodeAddr, Vec<u8>)>)
        ensures
            message(r) == old(self)@.echo_response,
            final(self)@ == (BenchModel { echo_response: None, ..old(self)@ }),
    {
        self.pending_echo_response.take()
    }

    /// Takes the test that a peer asked for.
    pub fn take_throughput_config(&mut self) -> (r: Option<(NodeAddr, ThroughputTestConfig)>)
        ensures
            r == old(self)@.throughput_config,
            final(self)@ == (BenchModel { throughput_config: None, ..old(self)@ }),
    {
        self.pending_throughput_config.take()
    }

    /// Takes the report that waits to be sent.
    pub fn take_throughput_report(&mut self) -> (r: Option<(NodeAddr, Vec<u8>)>)
        ensures
            message(r) == old(self)@.throughput_report,
            final(self)@ == (BenchModel { throughput_report: None, ..old(self)@ }),
    {
        self.pending_throughput_report.take()
    }

    /// Takes the last result.
    pub fn take_throughput_result(&mut self) -> (r: Option<(NodeAddr, ThroughputResult)>)
        ensures
            r == old(self)@.last_result,
            final(self)@ == (BenchModel { last_result: None, ..old(self)@ }),
    {
        self.last_throughput_result.take()
    }

    /// The last result.
    pub fn last_throughput_result(&self) -> (r: Option<(NodeAddr, ThroughputResult)>)
        ensures
            r == self@.last_result,
    {
        self.last_throughput_result
    }

    /// Expects `count` answers from a peer.
    pub fn expect_echo_probes(&mut self, peer: NodeAddr, count: u32)
        ensures
            final(self)@ == (BenchModel {
                echo_expected: old(self)@.echo_expected.insert(peer.value, count),
                ..old(self)@
            }),
    {
        self.echo_expected.insert(peer.value, count);
    }

    /// Whether the statistics over the answers of a peer can be computed.
    pub fn echo_stats_fit(&self, peer: &NodeAddr) -> (r: bool)
        ensures
            r == (self@.echo_results.contains_key(peer.value) ==> stats_fit(
                self@.echo_results[peer.value],
            )),
    {
        match self.echo_results.get(&peer.value) {
            Some(results) => echo_stats_fit(results),
            None => true,
        }
    }

    /// Ends the echo test of a peer that has answered, and evaluates it.
    pub fn take_echo_stats(&mut self, peer: &NodeAddr) -> (r: Option<EchoStats>)
        requires
            old(self)@.echo_results.contains_key(peer.value) ==> stats_fit(
                old(self)@.echo_results[peer.value],
            ),
        ensures
            ({
                let m = old(self)@;
                let expected: int = if m.echo_expected.contains_key(peer.value) {
                    m.echo_expected[peer.value] as int
                } else {
                    m.echo_results[peer.value].len() as int % 0x1_0000_0000
                };
                match r {
                    Some(stats) => {
                        &&& m.echo_results.contains_key(peer.value)
                        &&& is_stats(m.echo_results[peer.value], expected as usize, stats)
                        &&& final(self)@ == (BenchModel {
                            echo_results: m.echo_results.remove(peer.value),
                            echo_expected: m.echo_expected.remove(peer.value),
                            ..m
                        })
                    },
                    None => !m.echo_results.contains_key(peer.value) && final(self)@ == m,
                }
            }),
    {
        let ghost m = self@;
        let results = match self.echo_results.remove(&peer.value) {
            Some(results) => results,
            None => {
                assert(self@.echo_results =~= m.echo_results);
                return None;
            },
        };
        let expected: u32 = match self.echo_expected.remove(&peer.value) {
            Some(n) => n,
            None => {
                assert(self.echo_expected@ =~= m.echo_expected.remove(peer.value));
                (results.len() as u64 % 0x1_0000_0000) as u32
            },
        };
        assert(self@.echo_results =~= m.echo_results.remove(peer.value));
        Some(compute_echo_stats(results, expected as usize))
    }

    /// Whether all answers of a peer are there, if a test is under way.
    pub fn echo_results_ready(&self, peer: &NodeAddr) -> (r: Option<bool>)
        ensures
            r == if self@.echo_expected.contains_key(peer.value) {
                Some(
                    self@.results_of(peer.value).len() >= self@.echo_expected[peer.value],
                )
            } else {
                None
            },
    {
        let expected: u32 = match self.echo_expected.get(&peer.value) {
            Some(n) => *n,
            None => {
                return None;
            },
        };
        let current: usize = match self.echo_results.get(&peer.value) {
            Some(results) => results.len(),
            None => 0,
        };
        Some(current as u64 >= expected as u64)
    }

    /// The answers of a peer so far.
    pub fn get_echo_stats(&self, peer: &NodeAddr) -> (r: Option<&[EchoResult]>)
        ensures
            match r {
                Some(results) => self@.echo_results.contains_key(peer.value) && results@
                    == self@.echo_results[peer.value],
                None => !self@.echo_results.contains_key(peer.value),
            },
    {
        match self.echo_results.get(&peer.value) {
            Some(results) => Some(results.as_slice()),
            None => None,
        }
    }

    /// How many answers are expected from a peer.
    pub fn echo_expected_count(&self, peer: &NodeAddr) -> (r: Option<u32>)
        ensures
            r == if self@.echo_expected.contains_key(peer.value) {
                Some(self@.echo_expected[peer.value])
            } else {
                None
            },
    {
        match self.echo_expected.get(&peer.value) {
            Some(n) => Some(*n),
            None => None,
        }
    }

    /// Prepares the frames of an echo test that are all sent at once.
    pub fn prepare_echo_test(&mut self, peer: NodeAddr, count: u32, payload_size: usize) -> (r: Vec<
        Vec<u8>,
    >)
        ensures
            r@.len() == count,
            forall|i: int|
                0 <= i < count ==> is_probe(
                    (#[trigger] r@[i])@,
                    i as u32,
                    echo_payload(payload_size as nat),
                ),
            final(self)@ == (BenchModel {
                echo_expected: old(self)@.echo_expected.insert(peer.value, count),
                echo_results: old(self)@.echo_results.remove(peer.value),
                ..old(self)@
            }),
    {
        let payload = make_echo_payload(payload_size);
        self.expect_echo_probes(peer, count);
        self.echo_results.remove(&peer.value);
        assert(self@.echo_results =~= old(self)@.echo_results.remove(peer.value));
        let mut frames: Vec<Vec<u8>> = Vec::new();
        let mut seq: u32 = 0;
        while seq < count
            invariant
                seq <= count,
                frames@.len() == seq,
                payload@ == echo_payload(payload_size as nat),
                forall|i: int|
                    0 <= i < seq ==> is_probe(
                        (#[trigger] frames@[i])@,
                        i as u32,
                        echo_payload(payload_size as nat),
                    ),
            decreases count - seq,
        {
            let frame = build_echo_request_frame(seq, payload.as_slice());
            assert(is_probe(frame@, seq, echo_payload(payload_size as nat)));
            frames.push(frame);
            seq += 1;
        }
        frames
    }

    /// Queues the probes of an echo test.
    pub fn start_echo_test(&mut self, peer: NodeAddr, count: u32, payload_size: usize)
        ensures
            final(self)@ == old(self)@.echo_started(peer, count, payload_size),
    {
        self.expect_echo_probes(peer, count);
        self.echo_results.remove(&peer.value);
        self.last_echo_send_ns = None;
        self.echo_sent_at_ns = None;
        let ghost m = self@;
        let ghost before = probes(self.pending_echo_sends@);
        let mut seq: u32 = 0;
        assert(before + queued_probes(peer, 0, payload_size as nat) =~= before);
        while seq < count
            invariant
                seq <= count,
                self@ == (BenchModel {
                    echo_sends: before + queued_probes(peer, seq as nat, payload_size as nat),
                    ..m
                }),
            decreases count - seq,
        {
            let payload = make_echo_payload(payload_size);
            let ghost queue = self.pending_echo_sends@;
            self.pending_echo_sends.push_back((peer, seq, payload));
            proof {
                assert(probes(self.pending_echo_sends@) =~= probes(queue).push(
                    (peer, seq, echo_payload(payload_size as nat)),
                ));
                assert(self@.echo_sends =~= before + queued_probes(
                    peer,
                    (seq + 1) as nat,
                    payload_size as nat,
                ));
            }
            seq += 1;
        }
        assert(self@.echo_results =~= old(self)@.echo_results.remove(peer.value));
    }

    /// The next probe to send, at the given readings of the two clocks: none
    /// while an answer is waited for or the last probe is too recent.
    pub fn poll_echo_sends_at(&mut self, now_ns: u128, ts_us: u64) -> (r: Option<
        (NodeAddr, Vec<u8>),
    >)
        ensures
            (final(self)@, message(r)) == old(self)@.echo_polled(now_ns, ts_us),
    {
        if self.pending_echo_sends.len() == 0 {
            return None;
        }
        if let Some(sent_at) = self.echo_sent_at_ns {
            if elapsed_since(now_ns, sent_at) / 1_000_000 < ECHO_RESPONSE_TIMEOUT_MS {
                return None;
            }
            self.echo_sent_at_ns = None;
        }
        if let Some(last) = self.last_echo_send_ns {
            if elapsed_since(now_ns, last) / 1_000_000 < ECHO_INTER_SEND_DELAY_MS {
                return None;
            }
        }
        self.last_echo_send_ns = Some(now_ns);
        self.echo_sent_at_ns = Some(now_ns);
        let ghost queue = self.pending_echo_sends@;
        match self.pending_echo_sends.pop_front() {
            Some((peer, seq, payload)) => {
                assert(probes(self.pending_echo_sends@) =~= probes(queue).drop_first());
                let frame = build_echo_request_frame_at(ts_us, seq, payload.as_slice());
                Some((peer, frame))
            },
            None => None,
        }
    }

    /// The next probe to send now.
    pub fn poll_echo_sends(&mut self) -> (r: Option<(NodeAddr, Vec<u8>)>)
        ensures
            exists|now_ns: u128, ts_us: u64|
                now_ns < MAX_READING_NS && (final(self)@, message(r))
                    == #[trigger] old(self)@.echo_polled(now_ns, ts_us),
    {
        let now_ns = self.clock.now_ns();
        let ts_us = now_micros();
        self.poll_echo_sends_at(now_ns, ts_us)
    }

    /// Whether probes wait to be sent.
    pub fn echo_sends_pending(&self) -> (r: bool)
        ensures
            r == (self@.echo_sends.len() > 0),
    {
        self.pending_echo_sends.len() != 0
    }

    /// Queues the stream frames of a test, in place of any queued before.
    pub fn start_throughput_sends(
        &mut self,
        peer: NodeAddr,
        test_id: u32,
        frame_size: u16,
        rate_bps: u32,
        duration_secs: u8,
    )
        ensures
            final(self)@ == old(self)@.throughput_started(
                peer,
                test_id,
                frame_size,
                rate_bps,
                duration_secs,
            ),
    {
        let interval: u64 = interval_us(frame_size, rate_bps);
        let count: u32 = total_frames(frame_size, rate_bps, duration_secs);
        self.throughput_send_interval_ms = if interval / 1000 < 1 {
            1
        } else {
            interval / 1000
        };
        self.last_throughput_send_ns = None;
        self.pending_throughput_sends.clear();
        let active: Option<ThroughputTestState> = match self.active_tests.get(&test_id) {
            Some(s) => Some(*s),
            None => None,
        };
        if let Some(mut state) = active {
            state.frames_sent = count;
            self.active_tests.insert(test_id, state);
        }
        self.initiator_frames_sent.insert(test_id, count);
        let ghost m = self@;
        let mut seq: u32 = 0;
        assert(self@.sends =~= stream_frames(peer, test_id, frame_size, 0));
        while seq < count
            invariant
                seq <= count,
                self@ == (BenchModel {
                    sends: stream_frames(peer, test_id, frame_size, seq as nat),
                    ..m
                }),
            decreases count - seq,
        {
            let frame = build_throughput_stream_frame(test_id, seq, frame_size as usize);
            let ghost queue = self.pending_throughput_sends@;
            self.pending_throughput_sends.push_back((peer, frame));
            proof {
                assert(messages(self.pending_throughput_sends@) =~= messages(queue).push(
                    (peer, frame@),
                ));
                assert(self@.sends =~= stream_frames(peer, test_id, frame_size, (seq + 1) as nat));
            }
            seq += 1;
        }
    }

    /// The stream frames that are due at this clock reading, two at most.
    pub fn poll_throughput_sends_at(&mut self, now_ns: u128) -> (r: Vec<(NodeAddr, Vec<u8>)>)
        ensures
            (final(self)@, messages(r@)) == old(self)@.throughput_polled(now_ns),
    {
        let mut batch: Vec<(NodeAddr, Vec<u8>)> = Vec::new();
        assert(messages(batch@) =~= Seq::empty());
        if self.pending_throughput_sends.len() == 0 {
            return batch;
        }
        let elapsed: u128 = match self.last_throughput_send_ns {
            Some(at) => elapsed_since(now_ns, at) / 1_000_000,
            None => 0xffff_ffff_ffff_ffff,
        };
        let interval: u128 = self.throughput_send_interval_ms as u128;
        if elapsed < interval {
            return batch;
        }
        let due: usize = if interval > 0 && elapsed / interval >= 2 {
            THROUGHPUT_BATCH_MAX
        } else {
            1
        };
        let count: usize = if due < self.pending_throughput_sends.len() {
            due
        } else {
            self.pending_throughput_sends.len()
        };
        let ghost m = self@;
        let ghost all = self@.sends;
        let mut k: usize = 0;
        assert(all.skip(0) =~= all);
        assert(all.take(0) =~= Seq::empty());
        while k < count
            invariant
                k <= count <= all.len(),
                self@ == (BenchModel { sends: all.skip(k as int), ..m }),
                messages(batch@) == all.take(k as int),
            decreases count - k,
        {
            let ghost queue = self.pending_throughput_sends@;
            let ghost sent = batch@;
            assert(messages(queue) == all.skip(k as int));
            if let Some(item) = self.pending_throughput_sends.pop_front() {
                batch.push(item);
                proof {
                    let rest = self.pending_throughput_sends@;
                    assert(rest =~= queue.skip(1));
                    assert forall|i: int| 0 <= i < rest.len() implies messages(rest)[i]
                        == messages(queue)[i + 1] by {}
                    assert(messages(queue)[0] == all[k as int]);
                    assert(messages(rest) =~= all.skip(k + 1));
                    assert(messages(batch@) =~= messages(sent).push(all[k as int]));
                    assert(messages(batch@) =~= all.take(k + 1));
                }
            }
            k += 1;
        }
        self.last_throughput_send_ns = Some(now_ns);
        batch
    }

    /// The stream frames that are due now, two at most.
    pub fn poll_throughput_sends(&mut self) -> (r: Vec<(NodeAddr, Vec<u8>)>)
        ensures
            exists|now_ns: u128|
                now_ns < MAX_READING_NS && (final(self)@, messages(r@))
                    == #[trigger] old(self)@.throughput_polled(now_ns),
    {
        let now_ns = self.clock.now_ns();
        self.poll_throughput_sends_at(now_ns)
    }

    /// Whether stream frames wait to be sent.
    pub fn throughput_sends_pending(&self) -> (r: bool)
        ensures
            r == (self@.sends.len() > 0),
    {
        self.pending_throughput_sends.len() != 0
    }

    /// Starts a throughput test: its identifier, configuration and request
    /// frame. There must be an identifier left.
    pub fn prepare_throughput_test(
        &mut self,
        direction: Direction,
        duration_secs: u8,
        frame_size: u16,
        rate_bps: u32,
    ) -> (r: (u32, ThroughputTestConfig, Vec<u8>))
        requires
            old(self)@.next_test_id < u32::MAX,
        ensures
            ({
                let id = old(self)@.next_test_id;
                let config = ThroughputTestConfig {
                    test_id: id,
                    direction,
                    duration_secs,
                    frame_size,
                    rate_bps,
                };
                &&& r.0 == id
                &&& r.1 == config
                &&& r.2@ == framed(MSG_THROUGHPUT_REQUEST, request_of(config).wire())
                &&& exists|now_us: u64|
                    final(self)@ == (BenchModel {
                        next_test_id: (id + 1) as u32,
                        active: old(self)@.active.insert(
                            id,
                            #[trigger] fresh_test(id, duration_secs, now_us),
                        ),
                        ..old(self)@
                    })
            }),
    {
        let test_id = self.allocate_test_id();
        let config = ThroughputTestConfig {
            test_id,
            direction,
            duration_secs,
            frame_size,
            rate_bps,
        };
        let frame = build_throughput_request_frame(&config);
        let state = ThroughputTestState::new(test_id, duration_secs);
        self.active_tests.insert(test_id, state);
        (test_id, config, frame)
    }

    /// The state of a running test.
    pub fn active_test(&self, test_id: u32) -> (r: Option<ThroughputTestState>)
        ensures
            r == if self@.active.contains_key(test_id) {
                Some(self@.active[test_id])
            } else {
                None
            },
    {
        match self.active_tests.get(&test_id) {
            Some(s) => Some(*s),
            None => None,
        }
    }

    /// Replaces the state of a running test. Returns whether there is one.
    pub fn set_active_test(&mut self, test_id: u32, state: ThroughputTestState) -> (r: bool)
        ensures
            r == old(self)@.active.contains_key(test_id),
            final(self)@ == if r {
                BenchModel { active: old(self)@.active.insert(test_id, state), ..old(self)@ }
            } else {
                old(self)@
            },
    {
        if self.active_tests.contains_key(&test_id) {
            self.active_tests.insert(test_id, state);
            true
        } else {
            false
        }
    }

    /// Forgets a running test.
    pub fn remove_test(&mut self, test_id: u32) -> (r: Option<ThroughputTestState>)
        ensures
            r == if old(self)@.active.contains_key(test_id) {
                Some(old(self)@.active[test_id])
            } else {
                None
            },
            final(self)@ == (BenchModel {
                active: old(self)@.active.remove(test_id),
                ..old(self)@
            }),
    {
        self.active_tests.remove(&test_id)
    }
}

impl Default for BenchmarkManager {
    /// A manager without any test.
    fn default() -> (r: BenchmarkManager)
        ensures
            r@ == BenchModel::initial(),
    {
        BenchmarkManager::new()
    }
}

} // verus!
